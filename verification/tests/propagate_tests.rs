use hex_arena::explosion::ExplosionDamageArea;
use hex_arena::hex::{EdgeDirection, HexCoord};
use hex_arena::propagate::{process_events, DispatchedAction, TriggerTowerEvent};
use hex_arena::scalar::SCALE;
use hex_arena::spatial::SpatialIndex;
use hex_arena::tower::{Tower, TowerKind};
use hex_arena::Team;

fn hex(q: i32, r: i32) -> HexCoord {
    HexCoord { q, r }
}

/// A two-directional tower at rotation 0 on (0,0), triggered with an empty
/// history, dispatches exactly two projectiles along its base directions,
/// each carrying the history with the tower appended.
#[test]
fn bullet2_dispatches_two_projectiles() {
    let mut idx = SpatialIndex::new(20);
    assert!(idx.try_place(
        hex(0, 0),
        1,
        Tower {
            kind: TowerKind::Bullet2,
            rotation: 0,
        }
    ));
    let ev = TriggerTowerEvent {
        target: 1,
        trigger_history: Vec::new(),
    };
    let out = hex_arena::propagate::trigger(&idx, &ev).expect("the tower fires");
    assert_eq!(out.signal.target, 1);
    assert_eq!(out.signal.trigger_history, vec![1]);
    assert_eq!(out.actions.len(), 2);
    let expected = [EdgeDirection::FlatTop, EdgeDirection::FlatBottom];
    for (action, expected_dir) in out.actions.iter().zip(expected.iter()) {
        match action {
            DispatchedAction::Projectile(p) => {
                assert_eq!(p.origin, hex(0, 0));
                assert_eq!(p.direction, *expected_dir);
                assert_eq!(p.trigger_history, vec![1]);
            }
            other => panic!("expected a projectile, got {:?}", other),
        }
    }
}

#[test]
fn rotation_turns_the_dispatch_directions() {
    let mut idx = SpatialIndex::new(20);
    assert!(idx.try_place(
        hex(0, 0),
        1,
        Tower {
            kind: TowerKind::Bullet2,
            rotation: 1,
        }
    ));
    let ev = TriggerTowerEvent {
        target: 1,
        trigger_history: Vec::new(),
    };
    let out = hex_arena::propagate::trigger(&idx, &ev).expect("the tower fires");
    let dirs: Vec<EdgeDirection> = out
        .actions
        .iter()
        .map(|a| match a {
            DispatchedAction::Projectile(p) => p.direction,
            other => panic!("expected a projectile, got {:?}", other),
        })
        .collect();
    assert_eq!(
        dirs,
        vec![EdgeDirection::FlatTopRight, EdgeDirection::FlatBottomLeft]
    );
}

#[test]
fn explosion_tower_dispatches_stock_explosion() {
    let mut idx = SpatialIndex::new(20);
    assert!(idx.try_place(
        hex(2, -1),
        9,
        Tower {
            kind: TowerKind::Explosion2,
            rotation: 0,
        }
    ));
    let ev = TriggerTowerEvent {
        target: 9,
        trigger_history: vec![4],
    };
    let out = hex_arena::propagate::trigger(&idx, &ev).expect("the tower fires");
    assert_eq!(out.actions.len(), 1);
    match &out.actions[0] {
        DispatchedAction::Explosion(c) => {
            assert_eq!(c.team, Team::Player);
            assert_eq!(c.center, hex(2, -1));
            assert_eq!(c.duration, SCALE / 2);
            assert_eq!(c.damage, 1);
            assert_eq!(c.damage_area, ExplosionDamageArea::Hex(2));
            assert_eq!(c.damage_delay, SCALE / 10);
            assert_eq!(c.radius, SCALE + 2 * (3 * SCALE / 2));
            assert_eq!(c.strength, 50 * SCALE);
            assert_eq!(c.strength_modifier, -100 * SCALE);
            assert_eq!(c.trigger_history, vec![4, 9]);
        }
        other => panic!("expected an explosion, got {:?}", other),
    }
}

/// A target already in the branch history is a cycle: the trigger is a
/// no-op, so no tower fires twice within one branch.
#[test]
fn cycle_in_history_is_a_noop() {
    let mut idx = SpatialIndex::new(20);
    assert!(idx.try_place(
        hex(0, 0),
        1,
        Tower {
            kind: TowerKind::Bullet2,
            rotation: 0,
        }
    ));
    let ev = TriggerTowerEvent {
        target: 1,
        trigger_history: vec![3, 1],
    };
    assert!(hex_arena::propagate::trigger(&idx, &ev).is_none());
}

#[test]
fn unknown_target_is_a_noop() {
    let idx = SpatialIndex::new(20);
    let ev = TriggerTowerEvent {
        target: 42,
        trigger_history: Vec::new(),
    };
    assert!(hex_arena::propagate::trigger(&idx, &ev).is_none());
}

#[test]
fn process_events_keeps_one_slot_per_request() {
    let mut idx = SpatialIndex::new(20);
    assert!(idx.try_place(
        hex(0, 0),
        1,
        Tower {
            kind: TowerKind::Bullet3,
            rotation: 0,
        }
    ));
    let events = vec![
        TriggerTowerEvent {
            target: 1,
            trigger_history: Vec::new(),
        },
        TriggerTowerEvent {
            target: 1,
            trigger_history: vec![1],
        },
        TriggerTowerEvent {
            target: 2,
            trigger_history: Vec::new(),
        },
    ];
    let outs = process_events(&idx, &events);
    assert_eq!(outs.len(), 3);
    assert!(outs[0].is_some());
    assert_eq!(outs[0].as_ref().unwrap().actions.len(), 3);
    assert!(outs[1].is_none());
    assert!(outs[2].is_none());
}

/// Cycle detection is per branch, not global: a diamond-shaped chain reaches
/// the same tower once through each branch, and both trigger it.
#[test]
fn diamond_branches_trigger_the_shared_tower_twice() {
    let mut idx = SpatialIndex::new(20);
    assert!(idx.try_place(
        hex(0, 0),
        4,
        Tower {
            kind: TowerKind::Explosion1,
            rotation: 0,
        }
    ));
    let through_one_side = TriggerTowerEvent {
        target: 4,
        trigger_history: vec![1, 2],
    };
    let through_other_side = TriggerTowerEvent {
        target: 4,
        trigger_history: vec![1, 3],
    };
    let first = hex_arena::propagate::trigger(&idx, &through_one_side).expect("first branch fires");
    let second =
        hex_arena::propagate::trigger(&idx, &through_other_side).expect("second branch fires");
    assert_eq!(first.signal.trigger_history, vec![1, 2, 4]);
    assert_eq!(second.signal.trigger_history, vec![1, 3, 4]);
}
