use hex_arena::hex::HexCoord;
use hex_arena::spatial::{RelocateOutcome, SpatialIndex};
use hex_arena::tower::{Tower, TowerKind};

fn hex(q: i32, r: i32) -> HexCoord {
    HexCoord { q, r }
}

#[test]
fn track_and_query() {
    let mut idx = SpatialIndex::new(20);
    assert!(idx.track(1, hex(0, 0)));
    assert!(idx.track(2, hex(0, 0)));
    assert!(idx.track(3, hex(1, 0)));
    let mut at_origin = idx.query(hex(0, 0));
    at_origin.sort();
    assert_eq!(at_origin, vec![1, 2]);
    assert_eq!(idx.query(hex(1, 0)), vec![3]);
    assert_eq!(idx.query(hex(5, 5)), Vec::<u64>::new());
}

#[test]
fn track_rejects_out_of_bounds_and_duplicates() {
    let mut idx = SpatialIndex::new(20);
    // outside the arena: fails silently
    assert!(!idx.track(1, hex(21, 0)));
    assert_eq!(idx.query(hex(21, 0)), Vec::<u64>::new());
    // double-tracking the same id is rejected
    assert!(idx.track(1, hex(0, 0)));
    assert!(!idx.track(1, hex(1, 0)));
    assert_eq!(idx.query(hex(0, 0)), vec![1]);
}

#[test]
fn relocate_moves_between_buckets() {
    let mut idx = SpatialIndex::new(20);
    assert!(idx.track(7, hex(2, 0)));
    let outcome = idx.relocate(7, hex(3, 0));
    assert_eq!(outcome, RelocateOutcome::Moved);
    assert_eq!(idx.query(hex(2, 0)), Vec::<u64>::new());
    assert_eq!(idx.query(hex(3, 0)), vec![7]);
}

/// An object moving from (2,0) to (25,0) in one tick leaves the radius-20
/// arena: exactly one out-of-bounds signal with the last valid cell, and the
/// object is gone from every bucket.
#[test]
fn relocate_out_of_bounds_drops_object() {
    let mut idx = SpatialIndex::new(20);
    assert!(idx.track(7, hex(2, 0)));
    let outcome = idx.relocate(7, hex(25, 0));
    match outcome {
        RelocateOutcome::OutOfBounds(ev) => {
            assert_eq!(ev.last_valid_hex, hex(2, 0));
            assert_eq!(ev.out_of_bounds_hex, hex(25, 0));
        }
        other => panic!("expected an out-of-bounds outcome, got {:?}", other),
    }
    // removed from all buckets
    assert_eq!(idx.query(hex(2, 0)), Vec::<u64>::new());
    assert_eq!(idx.query(hex(25, 0)), Vec::<u64>::new());
    assert_eq!(idx.query_range(hex(0, 0), 20), Vec::<u64>::new());
    // and no longer known at all
    assert_eq!(idx.relocate(7, hex(0, 0)), RelocateOutcome::NotTracked);
}

#[test]
fn untrack_removes_and_reports_desync() {
    let mut idx = SpatialIndex::new(20);
    assert!(idx.track(4, hex(0, 1)));
    assert!(idx.untrack(4));
    assert_eq!(idx.query(hex(0, 1)), Vec::<u64>::new());
    // a second removal is the desync case: reported, not fatal
    assert!(!idx.untrack(4));
}

#[test]
fn query_range_unions_the_disk() {
    let mut idx = SpatialIndex::new(20);
    assert!(idx.track(1, hex(0, 0)));
    assert!(idx.track(2, hex(2, 0)));
    assert!(idx.track(3, hex(0, -2)));
    assert!(idx.track(4, hex(3, 0)));
    let mut near = idx.query_range(hex(0, 0), 2);
    near.sort();
    assert_eq!(near, vec![1, 2, 3]);
    let mut all = idx.query_range(hex(0, 0), 5);
    all.sort();
    assert_eq!(all, vec![1, 2, 3, 4]);
}

fn bullet_tower(rotation: u8) -> Tower {
    Tower {
        kind: TowerKind::Bullet2,
        rotation,
    }
}

/// Placing a tower on an occupied cell is rejected and the original tower's
/// id stays in the placement index.
#[test]
fn try_place_rejects_occupied_cell() {
    let mut idx = SpatialIndex::new(20);
    assert!(idx.try_place(hex(1, 1), 10, bullet_tower(0)));
    assert_eq!(idx.placement_get(hex(1, 1)), Some(10));
    // second placement on the same cell: rejected, nothing overwritten
    assert!(!idx.try_place(hex(1, 1), 11, bullet_tower(2)));
    assert_eq!(idx.placement_get(hex(1, 1)), Some(10));
    let p = idx.tower_by_id(10).expect("tower 10 is placed");
    assert_eq!(p.hex, hex(1, 1));
    assert_eq!(p.tower.rotation, 0);
}

#[test]
fn placement_lookup_and_removal() {
    let mut idx = SpatialIndex::new(20);
    assert!(idx.try_place(hex(0, 0), 10, bullet_tower(0)));
    assert!(idx.try_place(hex(2, 0), 11, bullet_tower(1)));
    assert_eq!(idx.placement_get(hex(2, 0)), Some(11));
    assert_eq!(idx.placement_get(hex(3, 0)), None);
    assert!(idx.tower_by_id(12).is_none());
    assert_eq!(idx.remove_placement(hex(0, 0)), Some(10));
    assert_eq!(idx.placement_get(hex(0, 0)), None);
    assert_eq!(idx.remove_placement(hex(0, 0)), None);
    // the other tower is untouched
    assert_eq!(idx.placement_get(hex(2, 0)), Some(11));
}

/// At a tick boundary each tracked object is found in exactly one cell's
/// bucket, and that cell is the object's recorded one.
#[test]
fn index_consistency_after_mixed_operations() {
    let mut idx = SpatialIndex::new(5);
    assert!(idx.track(1, hex(0, 0)));
    assert!(idx.track(2, hex(1, 0)));
    assert!(idx.track(3, hex(1, 0)));
    assert_eq!(idx.relocate(2, hex(2, -1)), RelocateOutcome::Moved);
    assert!(idx.untrack(3));
    assert_eq!(idx.relocate(1, hex(0, 1)), RelocateOutcome::Moved);
    let expected = [(1u64, hex(0, 1)), (2u64, hex(2, -1))];
    for (id, home) in expected {
        let mut holders = 0;
        for cell in HexCoord::disk(HexCoord::origin(), 5) {
            if idx.query(cell).contains(&id) {
                holders += 1;
                assert_eq!(cell, home);
            }
        }
        assert_eq!(holders, 1);
    }
    assert!(!idx.query(hex(1, 0)).contains(&3));
}
