//! Axial coordinates on a hexagonal grid, with the distance, ring and disk
//! operations the rest of the simulation is built on.

use vstd::prelude::*;

verus! {

/// Coordinates stay well inside this bound so that grid walks never overflow
/// `i32` arithmetic.
pub const COORD_LIMIT: i32 = 1_000_000;

/// An axial coordinate of a hex cell.  Equality is exact integer equality.
#[derive(Clone, Copy, Debug, PartialEq, Eq, Structural)]
pub struct HexCoord {
    pub q: i32,
    pub r: i32,
}

pub open spec fn abs_val(x: int) -> int {
    if x < 0 {
        -x
    } else {
        x
    }
}

pub open spec fn max_val(x: int, y: int) -> int {
    if x < y {
        y
    } else {
        x
    }
}

pub open spec fn min_val(x: int, y: int) -> int {
    if x < y {
        x
    } else {
        y
    }
}

/// The width of the row of a radius-`k` disk at row offset `d`.
pub open spec fn row_len(k: int, d: int) -> int {
    2 * k + 1 - abs_val(d)
}

/// How many cells the first rows of a radius-`k` disk hold, up to but not
/// including the row at offset `d`.
pub open spec fn disk_prefix_count(k: int, d: int) -> int
    decreases d + k,
{
    if d <= -k {
        0
    } else {
        disk_prefix_count(k, d - 1) + row_len(k, d - 1)
    }
}

/// The closed form of the partial disk sums, and with it the cell count of
/// the whole disk: `1 + 3k(k + 1)`.
pub proof fn lemma_disk_count_closed(k: int, d: int)
    requires
        0 <= k,
        -k <= d <= k + 1,
    ensures
        2 * disk_prefix_count(k, d) == if d <= 0 {
            (d + k) * (3 * k + 1 + d)
        } else {
            k * (3 * k + 1) + 2 * d * (2 * k + 1) - d * (d - 1)
        },
    decreases d + k,
{
    if d == -k {
        assert((d + k) * (3 * k + 1 + d) == 0) by (nonlinear_arith)
            requires
                d + k == 0,
        ;
    } else {
        lemma_disk_count_closed(k, d - 1);
        if d <= 0 {
            assert((d - 1 + k) * (3 * k + d) + 2 * (2 * k + d) == (d + k) * (3 * k + 1 + d))
                by (nonlinear_arith);
        } else if d == 1 {
            assert(k * (3 * k + 1) + 2 * (2 * k + 1) == k * (3 * k + 1) + 2 * 1 * (2 * k + 1) - 1
                * (1 - 1)) by (nonlinear_arith);
        } else {
            assert(k * (3 * k + 1) + 2 * (d - 1) * (2 * k + 1) - (d - 1) * (d - 2) + 2 * (2 * k + 2
                - d) == k * (3 * k + 1) + 2 * d * (2 * k + 1) - d * (d - 1)) by (nonlinear_arith);
        }
    }
}

impl HexCoord {
    /// The hex distance between two cells: the largest of the three cube
    /// coordinate differences.
    pub open spec fn spec_distance(a: HexCoord, b: HexCoord) -> int {
        let dq = a.q - b.q;
        let dr = a.r - b.r;
        max_val(max_val(abs_val(dq), abs_val(dr)), abs_val(dq + dr))
    }

    pub open spec fn in_coord_range(self) -> bool {
        -COORD_LIMIT <= self.q <= COORD_LIMIT && -COORD_LIMIT <= self.r <= COORD_LIMIT
    }

    /// The center of the grid.
    pub fn origin() -> (h: HexCoord)
        ensures
            h == (HexCoord { q: 0, r: 0 }),
    {
        HexCoord { q: 0, r: 0 }
    }

    /// The number of steps needed to walk from `self` to `other`.
    pub fn distance(self, other: HexCoord) -> (d: u64)
        ensures
            d == Self::spec_distance(self, other),
    {
        let dq: i64 = self.q as i64 - other.q as i64;
        let dr: i64 = self.r as i64 - other.r as i64;
        let ds: i64 = dq + dr;
        let adq: i64 = if dq < 0 { -dq } else { dq };
        let adr: i64 = if dr < 0 { -dr } else { dr };
        let ads: i64 = if ds < 0 { -ds } else { ds };
        let mut m: i64 = adq;
        if adr > m {
            m = adr;
        }
        if ads > m {
            m = ads;
        }
        m as u64
    }

    /// The cell one step away in the given direction.
    pub fn step(self, dir: EdgeDirection) -> (h: HexCoord)
        requires
            self.in_coord_range(),
        ensures
            h.q == self.q + dir.spec_offset().q,
            h.r == self.r + dir.spec_offset().r,
    {
        let o = dir.offset();
        HexCoord { q: self.q + o.q, r: self.r + o.r }
    }

    /// All cells whose distance from `center` is at most `radius`, each
    /// listed exactly once.
    pub fn disk(center: HexCoord, radius: u32) -> (cells: Vec<HexCoord>)
        requires
            center.in_coord_range(),
            radius <= 1_000_000,
        ensures
            forall|h: HexCoord| #[trigger] cells@.contains(h) ==> Self::spec_distance(center, h) <= radius,
            forall|h: HexCoord| Self::spec_distance(center, h) <= radius ==> cells@.contains(h),
            forall|i: int, j: int| 0 <= i < j < cells@.len() ==> cells@[i] != cells@[j],
            cells@.len() == 1 + 3 * radius * (radius + 1),
    {
        let k: i64 = radius as i64;
        let cq: i64 = center.q as i64;
        let cr: i64 = center.r as i64;
        let mut cells: Vec<HexCoord> = Vec::new();
        let mut dq: i64 = -k;
        while dq <= k
            invariant
                center.in_coord_range(),
                cq == center.q as int,
                cr == center.r as int,
                k == radius as int,
                0 <= k <= 1_000_000,
                -k <= dq <= k + 1,
                cells@.len() == disk_prefix_count(k as int, dq as int),
                forall|i: int| 0 <= i < cells@.len() ==> Self::spec_distance(center, #[trigger] cells@[i]) <= k,
                forall|i: int| 0 <= i < cells@.len() ==> (#[trigger] cells@[i]).q - center.q < dq,
                forall|h: HexCoord| #![trigger Self::spec_distance(center, h)]
                    Self::spec_distance(center, h) <= k && h.q - center.q < dq
                    ==> cells@.contains(h),
                forall|i: int, j: int| 0 <= i < j < cells@.len()
                    ==> (cells@[i].q < cells@[j].q
                        || (cells@[i].q == cells@[j].q && cells@[i].r < cells@[j].r)),
            decreases k + 1 - dq,
        {
            let lo: i64 = if -k - dq > -k { -k - dq } else { -k };
            let hi: i64 = if k - dq < k { k - dq } else { k };
            let mut dr: i64 = lo;
            while dr <= hi
                invariant
                    center.in_coord_range(),
                    cq == center.q as int,
                    cr == center.r as int,
                    k == radius as int,
                    0 <= k <= 1_000_000,
                    -k <= dq <= k,
                    lo == max_val(-(k as int), -(k as int) - dq),
                    hi == min_val(k as int, k as int - dq),
                    lo <= dr <= hi + 1,
                    cells@.len() == disk_prefix_count(k as int, dq as int) + (dr - lo),
                    forall|i: int| 0 <= i < cells@.len() ==> Self::spec_distance(center, #[trigger] cells@[i]) <= k,
                    forall|i: int| 0 <= i < cells@.len()
                        ==> ((#[trigger] cells@[i]).q - center.q < dq
                            || (cells@[i].q - center.q == dq && cells@[i].r - center.r < dr)),
                    forall|h: HexCoord| #![trigger Self::spec_distance(center, h)]
                        Self::spec_distance(center, h) <= k
                        && (h.q - center.q < dq || (h.q - center.q == dq && h.r - center.r < dr))
                        ==> cells@.contains(h),
                    forall|i: int, j: int| 0 <= i < j < cells@.len()
                        ==> (cells@[i].q < cells@[j].q
                            || (cells@[i].q == cells@[j].q && cells@[i].r < cells@[j].r)),
                decreases hi + 1 - dr,
            {
                let cell = HexCoord { q: (cq + dq) as i32, r: (cr + dr) as i32 };
                let ghost old_cells = cells@;
                cells.push(cell);
                proof {
                    assert(cell.q == cq + dq && cell.r == cr + dr);
                    assert(Self::spec_distance(center, cell) <= k);
                    assert forall|h: HexCoord| Self::spec_distance(center, h) <= k
                        && (h.q - center.q < dq || (h.q - center.q == dq && h.r - center.r < dr + 1))
                        implies cells@.contains(h) by {
                        if h.q - center.q < dq || (h.q - center.q == dq && h.r - center.r < dr) {
                            let i = choose|i: int| 0 <= i < old_cells.len() && old_cells[i] == h;
                            assert(cells@[i] == h);
                        } else {
                            assert(h == cell);
                            assert(cells@[cells@.len() - 1] == h);
                        }
                    }
                }
                dr = dr + 1;
            }
            dq = dq + 1;
        }
        proof {
            assert forall|h: HexCoord| Self::spec_distance(center, h) <= radius
                implies cells@.contains(h) by {
            }
            assert forall|h: HexCoord| #[trigger] cells@.contains(h)
                implies Self::spec_distance(center, h) <= radius by {
                let i = choose|i: int| 0 <= i < cells@.len() && cells@[i] == h;
                assert(Self::spec_distance(center, cells@[i]) <= k);
            }
            lemma_disk_count_closed(k as int, k as int + 1);
            assert((k as int) * (3 * (k as int) + 1) + 2 * ((k as int) + 1) * (2 * (k as int) + 1)
                - ((k as int) + 1) * (k as int) == 2 * (1 + 3 * (k as int) * ((k as int) + 1)))
                by (nonlinear_arith);
        }
        cells
    }

    /// All cells whose distance from `center` is exactly `radius`, each
    /// listed exactly once.
    pub fn ring(center: HexCoord, radius: u32) -> (cells: Vec<HexCoord>)
        requires
            center.in_coord_range(),
            radius <= 1_000_000,
        ensures
            forall|h: HexCoord| #[trigger] cells@.contains(h) ==> Self::spec_distance(center, h) == radius,
            forall|h: HexCoord| Self::spec_distance(center, h) == radius ==> cells@.contains(h),
            forall|i: int, j: int| 0 <= i < j < cells@.len() ==> cells@[i] != cells@[j],
    {
        let disk = Self::disk(center, radius);
        let mut cells: Vec<HexCoord> = Vec::new();
        let mut i: usize = 0;
        while i < disk.len()
            invariant
                forall|j: int| 0 <= j < cells@.len() ==> Self::spec_distance(center, #[trigger] cells@[j]) == radius,
                forall|j: int| 0 <= j < cells@.len()
                    ==> exists|d: int| 0 <= d < i && disk@[d] == #[trigger] cells@[j],
                forall|h: HexCoord| #![trigger Self::spec_distance(center, h)]
                    Self::spec_distance(center, h) == radius
                    && (exists|d: int| 0 <= d < i && disk@[d] == h) ==> cells@.contains(h),
                forall|a: int, b: int| 0 <= a < b < cells@.len() ==> cells@[a] != cells@[b],
                forall|a: int, b: int| 0 <= a < b < disk@.len() ==> disk@[a] != disk@[b],
                i <= disk@.len(),
            decreases disk@.len() - i,
        {
            let cell = disk[i];
            if cell.distance(center) == radius as u64 {
                let ghost old_cells = cells@;
                proof {
                    assert forall|a: int| 0 <= a < old_cells.len() implies old_cells[a] != cell by {
                        let d = choose|d: int| 0 <= d < i && disk@[d] == old_cells[a];
                        assert(disk@[d] != disk@[i as int]);
                    }
                }
                cells.push(cell);
                proof {
                    assert(cells@[cells@.len() - 1] == cell);
                    assert forall|h: HexCoord| Self::spec_distance(center, h) == radius
                        && (exists|d: int| 0 <= d < i + 1 && disk@[d] == h)
                        implies cells@.contains(h) by {
                        let d = choose|d: int| 0 <= d < i + 1 && disk@[d] == h;
                        if d < i {
                            let j = choose|j: int| 0 <= j < old_cells.len() && old_cells[j] == h;
                            assert(cells@[j] == h);
                        } else {
                            assert(cells@[cells@.len() - 1] == h);
                        }
                    }
                }
            } else {
                proof {
                    assert forall|h: HexCoord| Self::spec_distance(center, h) == radius
                        && (exists|d: int| 0 <= d < i + 1 && disk@[d] == h)
                        implies cells@.contains(h) by {
                        let d = choose|d: int| 0 <= d < i + 1 && disk@[d] == h;
                        assert(d < i || disk@[d] == disk@[i as int]);
                    }
                }
            }
            i = i + 1;
        }
        proof {
            assert forall|h: HexCoord| Self::spec_distance(center, h) == radius
                implies cells@.contains(h) by {
                assert(disk@.contains(h));
                let d = choose|d: int| 0 <= d < disk@.len() && disk@[d] == h;
                assert(exists|d2: int| 0 <= d2 < i && disk@[d2] == h);
            }
            assert forall|h: HexCoord| #[trigger] cells@.contains(h)
                implies Self::spec_distance(center, h) == radius by {
                let j = choose|j: int| 0 <= j < cells@.len() && cells@[j] == h;
                assert(Self::spec_distance(center, cells@[j]) == radius);
            }
        }
        cells
    }
}

/// One of the six edge directions of a flat-top hex cell, clockwise from the
/// top.
#[derive(Clone, Copy, Debug, PartialEq, Eq, Structural)]
pub enum EdgeDirection {
    FlatTop,
    FlatTopRight,
    FlatBottomRight,
    FlatBottom,
    FlatBottomLeft,
    FlatTopLeft,
}

impl EdgeDirection {
    /// Position of the direction in clockwise order, starting at the top.
    pub open spec fn spec_index(self) -> int {
        match self {
            EdgeDirection::FlatTop => 0,
            EdgeDirection::FlatTopRight => 1,
            EdgeDirection::FlatBottomRight => 2,
            EdgeDirection::FlatBottom => 3,
            EdgeDirection::FlatBottomLeft => 4,
            EdgeDirection::FlatTopLeft => 5,
        }
    }

    pub open spec fn spec_from_index(i: int) -> EdgeDirection {
        if i == 0 {
            EdgeDirection::FlatTop
        } else if i == 1 {
            EdgeDirection::FlatTopRight
        } else if i == 2 {
            EdgeDirection::FlatBottomRight
        } else if i == 3 {
            EdgeDirection::FlatBottom
        } else if i == 4 {
            EdgeDirection::FlatBottomLeft
        } else {
            EdgeDirection::FlatTopLeft
        }
    }

    /// The direction turned clockwise by `steps` sixths of a full turn.
    pub open spec fn spec_rotated(self, steps: int) -> EdgeDirection {
        Self::spec_from_index((self.spec_index() + steps) % 6)
    }

    /// The axial offset of the neighbouring cell in this direction.
    pub open spec fn spec_offset(self) -> HexCoord {
        match self {
            EdgeDirection::FlatTop => HexCoord { q: 0i32, r: -1i32 },
            EdgeDirection::FlatTopRight => HexCoord { q: 1i32, r: -1i32 },
            EdgeDirection::FlatBottomRight => HexCoord { q: 1i32, r: 0i32 },
            EdgeDirection::FlatBottom => HexCoord { q: 0i32, r: 1i32 },
            EdgeDirection::FlatBottomLeft => HexCoord { q: -1i32, r: 1i32 },
            EdgeDirection::FlatTopLeft => HexCoord { q: -1i32, r: 0i32 },
        }
    }

    pub fn index(self) -> (i: u8)
        ensures
            i as int == self.spec_index(),
    {
        match self {
            EdgeDirection::FlatTop => 0,
            EdgeDirection::FlatTopRight => 1,
            EdgeDirection::FlatBottomRight => 2,
            EdgeDirection::FlatBottom => 3,
            EdgeDirection::FlatBottomLeft => 4,
            EdgeDirection::FlatTopLeft => 5,
        }
    }

    pub fn from_index(i: u8) -> (d: EdgeDirection)
        requires
            i < 6,
        ensures
            d == Self::spec_from_index(i as int),
    {
        if i == 0 {
            EdgeDirection::FlatTop
        } else if i == 1 {
            EdgeDirection::FlatTopRight
        } else if i == 2 {
            EdgeDirection::FlatBottomRight
        } else if i == 3 {
            EdgeDirection::FlatBottom
        } else if i == 4 {
            EdgeDirection::FlatBottomLeft
        } else {
            EdgeDirection::FlatTopLeft
        }
    }

    pub fn rotated(self, steps: u8) -> (d: EdgeDirection)
        ensures
            d == self.spec_rotated(steps as int),
    {
        let i = (self.index() + steps % 6) % 6;
        proof {
            vstd::arithmetic::div_mod::lemma_add_mod_noop_right(
                self.spec_index(),
                steps as int,
                6,
            );
            vstd::arithmetic::div_mod::lemma_small_mod(
                ((self.spec_index() + (steps as int) % 6) % 6) as nat,
                6,
            );
        }
        Self::from_index(i)
    }

    pub fn offset(self) -> (h: HexCoord)
        ensures
            h == self.spec_offset(),
    {
        match self {
            EdgeDirection::FlatTop => HexCoord { q: 0i32, r: -1i32 },
            EdgeDirection::FlatTopRight => HexCoord { q: 1i32, r: -1i32 },
            EdgeDirection::FlatBottomRight => HexCoord { q: 1i32, r: 0i32 },
            EdgeDirection::FlatBottom => HexCoord { q: 0i32, r: 1i32 },
            EdgeDirection::FlatBottomLeft => HexCoord { q: -1i32, r: 1i32 },
            EdgeDirection::FlatTopLeft => HexCoord { q: -1i32, r: 0i32 },
        }
    }
}

} // verus!
