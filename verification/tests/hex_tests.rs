use hex_arena::hex::{EdgeDirection, HexCoord};

#[test]
fn distance_basics() {
    let origin = HexCoord::origin();
    assert_eq!(origin.distance(origin), 0);
    assert_eq!(HexCoord { q: 2, r: 0 }.distance(origin), 2);
    assert_eq!(HexCoord { q: 25, r: 0 }.distance(origin), 25);
    assert_eq!(HexCoord { q: -3, r: 3 }.distance(origin), 3);
    // the diagonal where q and r add up
    assert_eq!(HexCoord { q: 2, r: 3 }.distance(origin), 5);
    assert_eq!(
        HexCoord { q: 1, r: 1 }.distance(HexCoord { q: -1, r: -1 }),
        4
    );
}

#[test]
fn disk_counts() {
    let origin = HexCoord::origin();
    // 1 + 3k(k+1) cells in a disk of radius k
    assert_eq!(HexCoord::disk(origin, 0).len(), 1);
    assert_eq!(HexCoord::disk(origin, 1).len(), 7);
    assert_eq!(HexCoord::disk(origin, 2).len(), 19);
    assert_eq!(HexCoord::disk(origin, 3).len(), 37);
}

#[test]
fn disk_membership() {
    let center = HexCoord { q: 1, r: -1 };
    let cells = HexCoord::disk(center, 2);
    assert!(cells.contains(&center));
    assert!(cells.contains(&HexCoord { q: 3, r: -1 }));
    assert!(!cells.contains(&HexCoord { q: 4, r: -1 }));
    for cell in &cells {
        assert!(cell.distance(center) <= 2);
    }
}

#[test]
fn ring_counts_and_membership() {
    let origin = HexCoord::origin();
    assert_eq!(HexCoord::ring(origin, 0).len(), 1);
    assert_eq!(HexCoord::ring(origin, 1).len(), 6);
    assert_eq!(HexCoord::ring(origin, 20).len(), 120);
    for cell in &HexCoord::ring(origin, 20) {
        assert_eq!(cell.distance(origin), 20);
    }
}

#[test]
fn step_moves_one_cell() {
    let origin = HexCoord::origin();
    let up = origin.step(EdgeDirection::FlatTop);
    assert_eq!(up, HexCoord { q: 0, r: -1 });
    assert_eq!(up.distance(origin), 1);
    // stepping around all six directions returns home
    let mut cell = origin;
    cell = cell.step(EdgeDirection::FlatTop);
    cell = cell.step(EdgeDirection::FlatTopRight);
    cell = cell.step(EdgeDirection::FlatBottomRight);
    cell = cell.step(EdgeDirection::FlatBottom);
    cell = cell.step(EdgeDirection::FlatBottomLeft);
    cell = cell.step(EdgeDirection::FlatTopLeft);
    assert_eq!(cell, origin);
}

#[test]
fn rotation_wraps_clockwise() {
    assert_eq!(
        EdgeDirection::FlatTop.rotated(0),
        EdgeDirection::FlatTop
    );
    assert_eq!(
        EdgeDirection::FlatTop.rotated(1),
        EdgeDirection::FlatTopRight
    );
    assert_eq!(
        EdgeDirection::FlatTop.rotated(6),
        EdgeDirection::FlatTop
    );
    assert_eq!(
        EdgeDirection::FlatBottomLeft.rotated(3),
        EdgeDirection::FlatTopRight
    );
    assert_eq!(
        EdgeDirection::FlatTopLeft.rotated(250),
        EdgeDirection::FlatTopLeft.rotated(250 % 6)
    );
}
