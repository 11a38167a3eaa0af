//! The spatial index: a bidirectional mapping between arena cells and the
//! objects inside them, plus the single-occupant placement sub-index for
//! towers.
//!
//! The index stores both each object's own record (its binding) and the
//! per-cell buckets, and `wf` ties the two together: an object's id sits in
//! exactly the bucket named by its binding.  Every mutating operation
//! preserves `wf`, which is the index-consistency law of the simulation.

use vstd::prelude::*;
use crate::hex::HexCoord;
use crate::tower::Tower;

verus! {

/// An object's record of the cell it currently occupies.
#[derive(Clone, Copy, Debug, PartialEq, Eq, Structural)]
pub struct Binding {
    pub id: u64,
    pub hex: HexCoord,
}

/// The objects currently inside one cell.
#[derive(Debug)]
pub struct Bucket {
    pub hex: HexCoord,
    pub ids: Vec<u64>,
}

/// A tower registered in the placement sub-index: one per cell at most.
#[derive(Clone, Copy, Debug, PartialEq, Eq, Structural)]
pub struct Placement {
    pub hex: HexCoord,
    pub id: u64,
    pub tower: Tower,
}

/// Raised when an object tries to move to a cell outside the arena.  The
/// object is dropped from the index; the owner decides what to do with it.
#[derive(Clone, Copy, Debug, PartialEq, Eq, Structural)]
pub struct OutOfBoundsEvent {
    pub last_valid_hex: HexCoord,
    pub out_of_bounds_hex: HexCoord,
}

/// What a relocation did.
#[derive(Clone, Copy, Debug, PartialEq, Eq, Structural)]
pub enum RelocateOutcome {
    /// The object now sits in the bucket of its new cell.
    Moved,
    /// The new cell is outside the arena: the object was removed from the
    /// index entirely and this signal should go to its owner.
    OutOfBounds(OutOfBoundsEvent),
    /// The object was not in the index at all.
    NotTracked,
}

/// The spatial index of one arena of the given radius.
pub struct SpatialIndex {
    pub radius: u32,
    pub bindings: Vec<Binding>,
    pub buckets: Vec<Bucket>,
    pub placements: Vec<Placement>,
}

impl SpatialIndex {
    /// The object `id` is recorded in `bs` as sitting in cell `h`.
    pub open spec fn seq_binds(bs: Seq<Binding>, id: u64, h: HexCoord) -> bool {
        exists|j: int| 0 <= j < bs.len() && #[trigger] bs[j] == (Binding { id, hex: h })
    }

    /// The object `id` is recorded as sitting in cell `h`.
    pub open spec fn binds(self, id: u64, h: HexCoord) -> bool {
        Self::seq_binds(self.bindings@, id, h)
    }

    pub open spec fn seq_has_id(bs: Seq<Binding>, id: u64) -> bool {
        exists|j: int| 0 <= j < bs.len() && (#[trigger] bs[j]).id == id
    }

    /// The object `id` is indexed somewhere.
    pub open spec fn indexed(self, id: u64) -> bool {
        Self::seq_has_id(self.bindings@, id)
    }

    pub open spec fn seq_has_id_within(
        bs: Seq<Binding>,
        id: u64,
        center: HexCoord,
        range: int,
    ) -> bool {
        exists|j: int|
            0 <= j < bs.len() && (#[trigger] bs[j]).id == id && HexCoord::spec_distance(
                center,
                bs[j].hex,
            ) <= range
    }

    /// The object `id` is indexed within `range` cells of `center`.
    pub open spec fn indexed_within(self, id: u64, center: HexCoord, range: int) -> bool {
        Self::seq_has_id_within(self.bindings@, id, center, range)
    }

    pub open spec fn seq_placed(ps: Seq<Placement>, h: HexCoord, id: u64) -> bool {
        exists|j: int|
            0 <= j < ps.len() && (#[trigger] ps[j]).hex == h && ps[j].id == id
    }

    /// A tower with this id is registered at cell `h`.
    pub open spec fn placed(self, h: HexCoord, id: u64) -> bool {
        Self::seq_placed(self.placements@, h, id)
    }

    pub open spec fn seq_occupied(ps: Seq<Placement>, h: HexCoord) -> bool {
        exists|j: int| 0 <= j < ps.len() && (#[trigger] ps[j]).hex == h
    }

    /// Some tower occupies cell `h`.
    pub open spec fn occupied(self, h: HexCoord) -> bool {
        Self::seq_occupied(self.placements@, h)
    }

    pub open spec fn seq_has_tower(ps: Seq<Placement>, id: u64) -> bool {
        exists|j: int| 0 <= j < ps.len() && (#[trigger] ps[j]).id == id
    }

    /// Some tower is registered under this id.
    pub open spec fn has_tower(self, id: u64) -> bool {
        Self::seq_has_tower(self.placements@, id)
    }

    pub open spec fn seq_bindings_unique(bs: Seq<Binding>) -> bool {
        forall|i: int, j: int|
            0 <= i < j < bs.len() ==> (#[trigger] bs[i]).id != (#[trigger] bs[j]).id
    }

    pub open spec fn bindings_unique(self) -> bool {
        Self::seq_bindings_unique(self.bindings@)
    }

    pub open spec fn seq_buckets_unique(ks: Seq<Bucket>) -> bool {
        forall|i: int, j: int|
            0 <= i < j < ks.len() ==> (#[trigger] ks[i]).hex != (#[trigger] ks[j]).hex
    }

    pub open spec fn buckets_unique(self) -> bool {
        Self::seq_buckets_unique(self.buckets@)
    }

    pub open spec fn seq_bucket_ids_unique(ks: Seq<Bucket>) -> bool {
        forall|bi: int, k1: int, k2: int|
            0 <= bi < ks.len() && 0 <= k1 < k2 < ks[bi].ids@.len() ==> #[trigger] ks[bi].ids@[k1]
                != #[trigger] ks[bi].ids@[k2]
    }

    pub open spec fn bucket_ids_unique(self) -> bool {
        Self::seq_bucket_ids_unique(self.buckets@)
    }

    pub open spec fn seq_buckets_in_bounds(ks: Seq<Bucket>, radius: int) -> bool {
        forall|bi: int|
            0 <= bi < ks.len() ==> HexCoord::spec_distance(
                (#[trigger] ks[bi]).hex,
                HexCoord { q: 0, r: 0 },
            ) <= radius
    }

    pub open spec fn buckets_in_bounds(self) -> bool {
        Self::seq_buckets_in_bounds(self.buckets@, self.radius as int)
    }

    pub open spec fn seq_bindings_have_entries(bs: Seq<Binding>, ks: Seq<Bucket>) -> bool {
        forall|j: int|
            0 <= j < bs.len() ==> exists|bi: int|
                0 <= bi < ks.len() && ks[bi].hex == (#[trigger] bs[j]).hex
                    && ks[bi].ids@.contains(bs[j].id)
    }

    /// Every recorded object really sits in the bucket of its recorded cell.
    pub open spec fn bindings_have_entries(self) -> bool {
        Self::seq_bindings_have_entries(self.bindings@, self.buckets@)
    }

    pub open spec fn seq_entries_have_bindings(bs: Seq<Binding>, ks: Seq<Bucket>) -> bool {
        forall|bi: int, k: int|
            0 <= bi < ks.len() && 0 <= k < ks[bi].ids@.len() ==> Self::seq_binds(
                bs,
                #[trigger] ks[bi].ids@[k],
                ks[bi].hex,
            )
    }

    /// Every id found in a bucket is recorded as sitting in that cell.
    pub open spec fn entries_have_bindings(self) -> bool {
        Self::seq_entries_have_bindings(self.bindings@, self.buckets@)
    }

    pub open spec fn seq_placements_unique(ps: Seq<Placement>) -> bool {
        forall|i: int, j: int|
            0 <= i < j < ps.len() ==> (#[trigger] ps[i]).hex != (#[trigger] ps[j]).hex
                && ps[i].id != ps[j].id
    }

    pub open spec fn placements_unique(self) -> bool {
        Self::seq_placements_unique(self.placements@)
    }

    /// The index-consistency invariant, preserved by every operation.
    pub open spec fn wf(self) -> bool {
        &&& self.bindings_unique()
        &&& self.buckets_unique()
        &&& self.bucket_ids_unique()
        &&& self.buckets_in_bounds()
        &&& self.bindings_have_entries()
        &&& self.entries_have_bindings()
        &&& self.placements_unique()
    }

    /// An empty index for an arena of the given radius.
    pub fn new(radius: u32) -> (idx: SpatialIndex)
        ensures
            idx.wf(),
            idx.radius == radius,
            forall|id: u64| !idx.indexed(id),
            forall|h: HexCoord| !idx.occupied(h),
            idx.bindings@.len() == 0,
            idx.buckets@.len() == 0,
            idx.placements@.len() == 0,
    {
        SpatialIndex {
            radius,
            bindings: Vec::new(),
            buckets: Vec::new(),
            placements: Vec::new(),
        }
    }

    fn find_binding(&self, id: u64) -> (r: Option<usize>)
        ensures
            match r {
                Some(j) => j < self.bindings@.len() && self.bindings@[j as int].id == id,
                None => !self.indexed(id),
            },
    {
        let mut j: usize = 0;
        while j < self.bindings.len()
            invariant
                j <= self.bindings@.len(),
                forall|i: int| 0 <= i < j ==> (#[trigger] self.bindings@[i]).id != id,
            decreases self.bindings@.len() - j,
        {
            if self.bindings[j].id == id {
                return Some(j);
            }
            j = j + 1;
        }
        None
    }

    fn find_bucket(&self, hex: HexCoord) -> (r: Option<usize>)
        ensures
            match r {
                Some(bi) => bi < self.buckets@.len() && self.buckets@[bi as int].hex == hex,
                None => forall|bi: int|
                    0 <= bi < self.buckets@.len() ==> (#[trigger] self.buckets@[bi]).hex != hex,
            },
    {
        let mut bi: usize = 0;
        while bi < self.buckets.len()
            invariant
                bi <= self.buckets@.len(),
                forall|i: int| 0 <= i < bi ==> (#[trigger] self.buckets@[i]).hex != hex,
            decreases self.buckets@.len() - bi,
        {
            if self.buckets[bi].hex == hex {
                return Some(bi);
            }
            bi = bi + 1;
        }
        None
    }

    fn find_in_bucket(&self, bi: usize, id: u64) -> (r: Option<usize>)
        requires
            bi < self.buckets@.len(),
        ensures
            match r {
                Some(k) => k < self.buckets@[bi as int].ids@.len()
                    && self.buckets@[bi as int].ids@[k as int] == id,
                None => !self.buckets@[bi as int].ids@.contains(id),
            },
    {
        let ids = &self.buckets[bi].ids;
        let mut k: usize = 0;
        while k < ids.len()
            invariant
                k <= ids@.len(),
                ids@ == self.buckets@[bi as int].ids@,
                forall|i: int| 0 <= i < k ==> ids@[i] != id,
            decreases ids@.len() - k,
        {
            if ids[k] == id {
                return Some(k);
            }
            k = k + 1;
        }
        proof {
            if self.buckets@[bi as int].ids@.contains(id) {
                let i = choose|i: int|
                    0 <= i < ids@.len() && ids@[i] == id;
                assert(false);
            }
        }
        None
    }

    /// Start tracking a freshly spawned object in its initial cell.  Fails
    /// silently (returns false and changes nothing) when the cell is outside
    /// the arena or the id is already indexed.
    pub fn track(&mut self, id: u64, hex: HexCoord) -> (ok: bool)
        requires
            old(self).wf(),
        ensures
            final(self).wf(),
            final(self).radius == old(self).radius,
            final(self).placements == old(self).placements,
            ok == (HexCoord::spec_distance(hex, HexCoord { q: 0, r: 0 }) <= old(self).radius
                && !old(self).indexed(id)),
            !ok ==> *final(self) == *old(self),
            forall|id2: u64, h2: HexCoord|
                final(self).binds(id2, h2) == (old(self).binds(id2, h2) || (ok && id2 == id && h2
                    == hex)),
            forall|id2: u64| final(self).indexed(id2) == (old(self).indexed(id2) || (ok && id2 == id)),
    {
        let origin = HexCoord::origin();
        if hex.distance(origin) > self.radius as u64 {
            return false;
        }
        if self.find_binding(id).is_some() {
            return false;
        }
        let ghost pre = *self;
        self.bindings.push(Binding { id, hex });
        let found = self.find_bucket(hex);
        match found {
            Some(bi) => {
                self.buckets[bi].ids.push(id);
                proof {
                    Self::lemma_track_restores(pre, *self, id, hex, bi as int);
                }
            },
            None => {
                let mut ids: Vec<u64> = Vec::new();
                ids.push(id);
                self.buckets.push(Bucket { hex, ids });
                proof {
                    Self::lemma_track_restores(pre, *self, id, hex, pre.buckets@.len() as int);
                }
            },
        }
        true
    }

    /// Stop tracking an object: drop its binding and its bucket entry.
    /// Returns false (a desync signal, never fatal) when the object was not
    /// in the index.
    pub fn untrack(&mut self, id: u64) -> (found: bool)
        requires
            old(self).wf(),
        ensures
            final(self).wf(),
            final(self).radius == old(self).radius,
            final(self).placements == old(self).placements,
            found == old(self).indexed(id),
            !found ==> *final(self) == *old(self),
            forall|id2: u64, h2: HexCoord|
                final(self).binds(id2, h2) == (old(self).binds(id2, h2) && id2 != id),
            forall|id2: u64| final(self).indexed(id2) == (old(self).indexed(id2) && id2 != id),
            forall|b: int|
                0 <= b < final(self).buckets@.len()
                    ==> !(#[trigger] final(self).buckets@[b]).ids@.contains(id),
    {
        let j = match self.find_binding(id) {
            None => {
                proof {
                    assert forall|b: int|
                        0 <= b < self.buckets@.len() implies !(#[trigger] self.buckets@[b]).ids@.contains(
                        id,
                    ) by {
                        if self.buckets@[b].ids@.contains(id) {
                            let k = choose|k: int|
                                0 <= k < self.buckets@[b].ids@.len() && self.buckets@[b].ids@[k]
                                    == id;
                            assert(self.binds(self.buckets@[b].ids@[k], self.buckets@[b].hex));
                            let m = choose|m: int|
                                0 <= m < self.bindings@.len() && self.bindings@[m] == (Binding {
                                    id,
                                    hex: self.buckets@[b].hex,
                                });
                            assert(self.indexed(id));
                        }
                    }
                }
                return false;
            },
            Some(j) => j,
        };
        let hex = self.bindings[j].hex;
        proof {
            assert(self.indexed(id)) by {
                assert(self.bindings@[j as int].id == id);
            }
        }
        let bi = match self.find_bucket(hex) {
            Some(bi) => bi,
            None => {
                proof {
                    let b = choose|b: int|
                        0 <= b < self.buckets@.len() && self.buckets@[b].hex
                            == self.bindings@[j as int].hex && self.buckets@[b].ids@.contains(
                            self.bindings@[j as int].id,
                        );
                    assert(false);
                }
                0
            },
        };
        let k = match self.find_in_bucket(bi, id) {
            Some(k) => k,
            None => {
                proof {
                    let b = choose|b: int|
                        0 <= b < self.buckets@.len() && self.buckets@[b].hex
                            == self.bindings@[j as int].hex && self.buckets@[b].ids@.contains(
                            self.bindings@[j as int].id,
                        );
                    assert(b == bi as int);
                    assert(false);
                }
                0
            },
        };
        let ghost pre = *self;
        self.bindings.swap_remove(j);
        self.buckets[bi].ids.swap_remove(k);
        proof {
            Self::lemma_untrack_restores(pre, *self, id, hex, j as int, bi as int, k as int);
        }
        true
    }

    /// Move a tracked object to the cell its new position maps to.  If the
    /// new cell lies outside the arena the object is dropped from the index
    /// entirely and the outcome carries the out-of-bounds signal for the
    /// object's owner, with the last valid cell it occupied.
    pub fn relocate(&mut self, id: u64, new_hex: HexCoord) -> (outcome: RelocateOutcome)
        requires
            old(self).wf(),
        ensures
            final(self).wf(),
            final(self).radius == old(self).radius,
            final(self).placements == old(self).placements,
            (outcome == RelocateOutcome::NotTracked) == !old(self).indexed(id),
            !old(self).indexed(id) ==> *final(self) == *old(self),
            old(self).indexed(id) && HexCoord::spec_distance(new_hex, HexCoord { q: 0, r: 0 })
                <= old(self).radius ==> outcome == RelocateOutcome::Moved && (forall|
                id2: u64,
                h2: HexCoord,
            |
                final(self).binds(id2, h2) == ((old(self).binds(id2, h2) && id2 != id) || (id2
                    == id && h2 == new_hex))),
            old(self).indexed(id) && HexCoord::spec_distance(new_hex, HexCoord { q: 0, r: 0 })
                > old(self).radius ==> {
                &&& forall|h_old: HexCoord|
                    old(self).binds(id, h_old) ==> outcome == RelocateOutcome::OutOfBounds(
                        OutOfBoundsEvent { last_valid_hex: h_old, out_of_bounds_hex: new_hex },
                    )
                &&& forall|id2: u64, h2: HexCoord|
                    final(self).binds(id2, h2) == (old(self).binds(id2, h2) && id2 != id)
                &&& forall|b: int|
                    0 <= b < final(self).buckets@.len()
                        ==> !(#[trigger] final(self).buckets@[b]).ids@.contains(id)
            },
            forall|id2: u64|
                final(self).indexed(id2) == (old(self).indexed(id2) && (id2 != id || (
                old(self).indexed(id) && HexCoord::spec_distance(new_hex, HexCoord { q: 0, r: 0 })
                    <= old(self).radius))),
    {
        let j = match self.find_binding(id) {
            None => {
                return RelocateOutcome::NotTracked;
            },
            Some(j) => j,
        };
        let old_hex = self.bindings[j].hex;
        proof {
            assert(self.indexed(id)) by {
                assert(self.bindings@[j as int].id == id);
            }
            assert forall|h_old: HexCoord| old(self).binds(id, h_old) implies h_old == old_hex by {
                let m = choose|m: int|
                    0 <= m < old(self).bindings@.len() && old(self).bindings@[m] == (Binding {
                        id,
                        hex: h_old,
                    });
                if m < j {
                    assert(old(self).bindings@[m].id != old(self).bindings@[j as int].id);
                } else if j < m {
                    assert(old(self).bindings@[j as int].id != old(self).bindings@[m].id);
                }
            }
        }
        let found = self.untrack(id);
        let origin = HexCoord::origin();
        if new_hex.distance(origin) <= self.radius as u64 {
            let ok = self.track(id, new_hex);
            RelocateOutcome::Moved
        } else {
            RelocateOutcome::OutOfBounds(
                OutOfBoundsEvent { last_valid_hex: old_hex, out_of_bounds_hex: new_hex },
            )
        }
    }

    /// The ids of all objects currently in cell `hex`.
    pub fn query(&self, hex: HexCoord) -> (ids: Vec<u64>)
        requires
            self.wf(),
        ensures
            forall|id: u64| #[trigger] ids@.contains(id) <==> self.binds(id, hex),
            forall|a: int, b: int| 0 <= a < b < ids@.len() ==> ids@[a] != ids@[b],
    {
        match self.find_bucket(hex) {
            None => {
                proof {
                    assert forall|id: u64| !self.binds(id, hex) by {
                        if self.binds(id, hex) {
                            let m = choose|m: int|
                                0 <= m < self.bindings@.len() && self.bindings@[m] == (Binding {
                                    id,
                                    hex,
                                });
                            let b = choose|b: int|
                                0 <= b < self.buckets@.len() && self.buckets@[b].hex
                                    == self.bindings@[m].hex && self.buckets@[b].ids@.contains(
                                    self.bindings@[m].id,
                                );
                            assert(false);
                        }
                    }
                }
                Vec::new()
            },
            Some(bi) => {
                let bucket_len = self.buckets[bi].ids.len();
                let mut out: Vec<u64> = Vec::new();
                let mut k: usize = 0;
                while k < bucket_len
                    invariant
                        bi < self.buckets@.len(),
                        bucket_len == self.buckets@[bi as int].ids@.len(),
                        k <= bucket_len,
                        out@ == self.buckets@[bi as int].ids@.subrange(0, k as int),
                    decreases bucket_len - k,
                {
                    let v = self.buckets[bi].ids[k];
                    out.push(v);
                    proof {
                        assert(out@ =~= self.buckets@[bi as int].ids@.subrange(0, k + 1));
                    }
                    k = k + 1;
                }
                proof {
                    assert(out@ =~= self.buckets@[bi as int].ids@);
                    let bii = bi as int;
                    assert forall|id: u64| #[trigger] out@.contains(id) implies self.binds(
                        id,
                        hex,
                    ) by {
                        let kk = choose|kk: int| 0 <= kk < out@.len() && out@[kk] == id;
                        assert(self.binds(self.buckets@[bii].ids@[kk], self.buckets@[bii].hex));
                    }
                    assert forall|id: u64| self.binds(id, hex) implies out@.contains(id) by {
                        let m = choose|m: int|
                            0 <= m < self.bindings@.len() && self.bindings@[m] == (Binding {
                                id,
                                hex,
                            });
                        let b = choose|b: int|
                            0 <= b < self.buckets@.len() && self.buckets@[b].hex
                                == self.bindings@[m].hex && self.buckets@[b].ids@.contains(
                                self.bindings@[m].id,
                            );
                        assert(b == bii) by {
                            if b < bii {
                                assert(self.buckets@[b].hex != self.buckets@[bii].hex);
                            } else if bii < b {
                                assert(self.buckets@[bii].hex != self.buckets@[b].hex);
                            }
                        }
                    }
                }
                out
            },
        }
    }

    /// The ids of all objects within `range` cells of `center`: the union of
    /// the buckets of the disk around `center`.
    pub fn query_range(&self, center: HexCoord, range: u32) -> (ids: Vec<u64>)
        requires
            self.wf(),
        ensures
            forall|id: u64| #[trigger] ids@.contains(id) <==> self.indexed_within(
                id,
                center,
                range as int,
            ),
            forall|a: int, b: int| 0 <= a < b < ids@.len() ==> ids@[a] != ids@[b],
    {
        let mut out: Vec<u64> = Vec::new();
        let ghost mut srcs: Seq<int> = Seq::empty();
        let mut j: usize = 0;
        while j < self.bindings.len()
            invariant
                self.wf(),
                j <= self.bindings@.len(),
                srcs.len() == out@.len(),
                forall|a: int|
                    0 <= a < out@.len() ==> 0 <= #[trigger] srcs[a] < j
                        && self.bindings@[srcs[a]].id == out@[a] && HexCoord::spec_distance(
                        center,
                        self.bindings@[srcs[a]].hex,
                    ) <= range,
                forall|m: int|
                    0 <= m < j && HexCoord::spec_distance(
                        center,
                        (#[trigger] self.bindings@[m]).hex,
                    ) <= range ==> out@.contains(self.bindings@[m].id),
                forall|a: int, b: int| 0 <= a < b < out@.len() ==> out@[a] != out@[b],
            decreases self.bindings@.len() - j,
        {
            let binding = self.bindings[j];
            if binding.hex.distance(center) <= range as u64 {
                let ghost old_out = out@;
                proof {
                    assert forall|a: int| 0 <= a < old_out.len() implies old_out[a]
                        != binding.id by {
                        if srcs[a] < j as int {
                            assert(self.bindings@[srcs[a]].id != self.bindings@[j as int].id);
                        }
                    }
                }
                out.push(binding.id);
                proof {
                    srcs = srcs.push(j as int);
                    assert(out@[out@.len() - 1] == binding.id);
                    assert(out@.contains(binding.id));
                    assert forall|m: int|
                        0 <= m < j + 1 && HexCoord::spec_distance(
                            center,
                            (#[trigger] self.bindings@[m]).hex,
                        ) <= range implies out@.contains(self.bindings@[m].id) by {
                        if m < j {
                            assert(old_out.contains(self.bindings@[m].id));
                            let a = choose|a: int|
                                0 <= a < old_out.len() && old_out[a] == self.bindings@[m].id;
                            assert(out@[a] == self.bindings@[m].id);
                        } else {
                            assert(self.bindings@[m].id == binding.id);
                        }
                    }
                }
            }
            j = j + 1;
        }
        proof {
            assert forall|id: u64| #[trigger] out@.contains(id) implies self.indexed_within(
                id,
                center,
                range as int,
            ) by {
                let a = choose|a: int| 0 <= a < out@.len() && out@[a] == id;
                assert(0 <= srcs[a] < self.bindings@.len() && self.bindings@[srcs[a]].id == id
                    && HexCoord::spec_distance(center, self.bindings@[srcs[a]].hex) <= range);
            }
            assert forall|id: u64| self.indexed_within(id, center, range as int) implies
                out@.contains(id) by {
                let m = choose|m: int|
                    0 <= m < self.bindings@.len() && (#[trigger] self.bindings@[m]).id == id
                        && HexCoord::spec_distance(center, self.bindings@[m].hex) <= range;
            }
        }
        out
    }

    fn find_placement(&self, hex: HexCoord) -> (r: Option<usize>)
        ensures
            match r {
                Some(j) => j < self.placements@.len() && self.placements@[j as int].hex == hex,
                None => !self.occupied(hex),
            },
    {
        let mut j: usize = 0;
        while j < self.placements.len()
            invariant
                j <= self.placements@.len(),
                forall|i: int| 0 <= i < j ==> (#[trigger] self.placements@[i]).hex != hex,
            decreases self.placements@.len() - j,
        {
            if self.placements[j].hex == hex {
                return Some(j);
            }
            j = j + 1;
        }
        None
    }

    fn find_placement_by_id(&self, id: u64) -> (r: Option<usize>)
        ensures
            match r {
                Some(j) => j < self.placements@.len() && self.placements@[j as int].id == id,
                None => !self.has_tower(id),
            },
    {
        let mut j: usize = 0;
        while j < self.placements.len()
            invariant
                j <= self.placements@.len(),
                forall|i: int| 0 <= i < j ==> (#[trigger] self.placements@[i]).id != id,
            decreases self.placements@.len() - j,
        {
            if self.placements[j].id == id {
                return Some(j);
            }
            j = j + 1;
        }
        None
    }

    /// Atomic check-and-insert into the single-occupant placement sub-index.
    /// Rejected (false, nothing changes) when the cell is already occupied,
    /// so an existing tower is never overwritten; a reused id is rejected
    /// for the same reason.
    pub fn try_place(&mut self, hex: HexCoord, id: u64, tower: Tower) -> (ok: bool)
        requires
            old(self).wf(),
        ensures
            final(self).wf(),
            final(self).radius == old(self).radius,
            final(self).bindings == old(self).bindings,
            final(self).buckets == old(self).buckets,
            ok == (!old(self).occupied(hex) && !old(self).has_tower(id)),
            !ok ==> *final(self) == *old(self),
            ok ==> final(self).placements@ == old(self).placements@.push(
                Placement { hex, id, tower },
            ),
            forall|h2: HexCoord, id2: u64|
                final(self).placed(h2, id2) == (old(self).placed(h2, id2) || (ok && h2 == hex
                    && id2 == id)),
            forall|h2: HexCoord|
                final(self).occupied(h2) == (old(self).occupied(h2) || (ok && h2 == hex)),
            forall|id2: u64|
                final(self).has_tower(id2) == (old(self).has_tower(id2) || (ok && id2 == id)),
    {
        if self.find_placement(hex).is_some() {
            proof {
                let j = choose|j: int|
                    0 <= j < self.placements@.len() && (#[trigger] self.placements@[j]).hex == hex;
                assert(self.occupied(hex));
            }
            return false;
        }
        if self.find_placement_by_id(id).is_some() {
            proof {
                let j = choose|j: int|
                    0 <= j < self.placements@.len() && (#[trigger] self.placements@[j]).id == id;
                assert(self.has_tower(id));
            }
            return false;
        }
        let ghost pre = *self;
        let n = self.placements.len();
        self.placements.push(Placement { hex, id, tower });
        proof {
            Self::lemma_tracking_unchanged(pre, *self);
            let nn = pre.placements@.len() as int;
            assert forall|h2: HexCoord, id2: u64|
                self.placed(h2, id2) == (pre.placed(h2, id2) || (h2 == hex && id2 == id)) by {
                if self.placed(h2, id2) {
                    let j = choose|j: int|
                        0 <= j < self.placements@.len() && (#[trigger] self.placements@[j]).hex
                            == h2 && self.placements@[j].id == id2;
                    if j < nn {
                        assert(pre.placements@[j].hex == h2 && pre.placements@[j].id == id2);
                        assert(pre.placed(h2, id2));
                    }
                }
                if pre.placed(h2, id2) {
                    let j = choose|j: int|
                        0 <= j < pre.placements@.len() && (#[trigger] pre.placements@[j]).hex == h2
                            && pre.placements@[j].id == id2;
                    assert(self.placements@[j].hex == h2 && self.placements@[j].id == id2);
                    assert(self.placed(h2, id2));
                }
                if h2 == hex && id2 == id {
                    assert(self.placements@[nn].hex == h2 && self.placements@[nn].id == id2);
                    assert(self.placed(h2, id2));
                }
            }
            assert forall|h2: HexCoord|
                self.occupied(h2) == (pre.occupied(h2) || h2 == hex) by {
                if self.occupied(h2) {
                    let j = choose|j: int|
                        0 <= j < self.placements@.len() && (#[trigger] self.placements@[j]).hex
                            == h2;
                    if j < nn {
                        assert(pre.placements@[j].hex == h2);
                        assert(pre.occupied(h2));
                    }
                }
                if pre.occupied(h2) {
                    let j = choose|j: int|
                        0 <= j < pre.placements@.len() && (#[trigger] pre.placements@[j]).hex
                            == h2;
                    assert(self.placements@[j].hex == h2);
                    assert(self.occupied(h2));
                }
                if h2 == hex {
                    assert(self.placements@[nn].hex == h2);
                    assert(self.occupied(h2));
                }
            }
            assert forall|id2: u64|
                self.has_tower(id2) == (pre.has_tower(id2) || id2 == id) by {
                if self.has_tower(id2) {
                    let j = choose|j: int|
                        0 <= j < self.placements@.len() && (#[trigger] self.placements@[j]).id
                            == id2;
                    if j < nn {
                        assert(pre.placements@[j].id == id2);
                        assert(pre.has_tower(id2));
                    }
                }
                if pre.has_tower(id2) {
                    let j = choose|j: int|
                        0 <= j < pre.placements@.len() && (#[trigger] pre.placements@[j]).id
                            == id2;
                    assert(self.placements@[j].id == id2);
                    assert(self.has_tower(id2));
                }
                if id2 == id {
                    assert(self.placements@[nn].id == id2);
                    assert(self.has_tower(id2));
                }
            }
            assert forall|i1: int, i2: int|
                0 <= i1 < i2 < self.placements@.len() implies (
            #[trigger] self.placements@[i1]).hex != (#[trigger] self.placements@[i2]).hex
                && self.placements@[i1].id != self.placements@[i2].id by {
                if i2 < nn {
                    assert(pre.placements@[i1].hex != pre.placements@[i2].hex
                        && pre.placements@[i1].id != pre.placements@[i2].id);
                } else {
                    assert(self.placements@[i2] == (Placement { hex, id, tower }));
                    assert(self.placements@[i1] == pre.placements@[i1]);
                    assert(pre.placements@[i1].hex != hex) by {
                        if pre.placements@[i1].hex == hex {
                            assert(pre.occupied(hex));
                        }
                    }
                    assert(pre.placements@[i1].id != id) by {
                        if pre.placements@[i1].id == id {
                            assert(pre.has_tower(id));
                        }
                    }
                }
            }
        }
        true
    }

    /// The id of the tower occupying cell `hex`, if any.
    pub fn placement_get(&self, hex: HexCoord) -> (r: Option<u64>)
        requires
            self.wf(),
        ensures
            match r {
                Some(id) => self.placed(hex, id),
                None => !self.occupied(hex),
            },
    {
        match self.find_placement(hex) {
            Some(j) => {
                let p = self.placements[j];
                proof {
                    assert(self.placements@[j as int].hex == hex && self.placements@[j as int].id
                        == p.id);
                }
                Some(p.id)
            },
            None => None,
        }
    }

    /// The full placement record of the tower with the given id, if any.
    pub fn tower_by_id(&self, id: u64) -> (r: Option<Placement>)
        requires
            self.wf(),
        ensures
            match r {
                Some(p) => p.id == id && self.placements@.contains(p) && self.placed(p.hex, id),
                None => !self.has_tower(id),
            },
    {
        match self.find_placement_by_id(id) {
            Some(j) => {
                let p = self.placements[j];
                proof {
                    assert(self.placements@[j as int] == p);
                }
                Some(p)
            },
            None => None,
        }
    }

    /// Remove the tower occupying cell `hex`, when its owning object is
    /// despawned.  Returns the removed tower's id, or None when the cell was
    /// free.
    pub fn remove_placement(&mut self, hex: HexCoord) -> (removed: Option<u64>)
        requires
            old(self).wf(),
        ensures
            final(self).wf(),
            final(self).radius == old(self).radius,
            final(self).bindings == old(self).bindings,
            final(self).buckets == old(self).buckets,
            match removed {
                Some(id) => old(self).placed(hex, id),
                None => !old(self).occupied(hex) && *final(self) == *old(self),
            },
            forall|h2: HexCoord, id2: u64|
                final(self).placed(h2, id2) == (old(self).placed(h2, id2) && h2 != hex),
            forall|h2: HexCoord| final(self).occupied(h2) == (old(self).occupied(h2) && h2 != hex),
    {
        let j = match self.find_placement(hex) {
            None => {
                proof {
                    assert forall|h2: HexCoord, id2: u64|
                        self.placed(h2, id2) == (self.placed(h2, id2) && h2 != hex) by {
                        if self.placed(h2, id2) && h2 == hex {
                            let m = choose|m: int|
                                0 <= m < self.placements@.len() && (
                                #[trigger] self.placements@[m]).hex == h2
                                    && self.placements@[m].id == id2;
                            assert(self.occupied(hex));
                        }
                    }
                }
                return None;
            },
            Some(j) => j,
        };
        let p = self.placements[j];
        let ghost pre = *self;
        self.placements.swap_remove(j);
        proof {
            Self::lemma_tracking_unchanged(pre, *self);
            let nn = pre.placements@.len() as int;
            let jj = j as int;
            assert(pre.placements@[jj].hex == hex);
            assert(pre.occupied(hex)) by {
                assert((#[trigger] pre.placements@[jj]).hex == hex);
            }
            assert(pre.placed(hex, p.id)) by {
                assert((#[trigger] pre.placements@[jj]).hex == hex && pre.placements@[jj].id
                    == p.id);
            }
            assert forall|h2: HexCoord, id2: u64|
                self.placed(h2, id2) == (pre.placed(h2, id2) && h2 != hex) by {
                if self.placed(h2, id2) {
                    let m = choose|m: int|
                        0 <= m < self.placements@.len() && (#[trigger] self.placements@[m]).hex
                            == h2 && self.placements@[m].id == id2;
                    let m2 = if m == jj {
                        nn - 1
                    } else {
                        m
                    };
                    assert(self.placements@[m] == pre.placements@[m2]);
                    assert(m2 != jj);
                    assert(pre.placed(h2, id2)) by {
                        assert((#[trigger] pre.placements@[m2]).hex == h2
                            && pre.placements@[m2].id == id2);
                    }
                    assert(h2 != hex) by {
                        if h2 == hex {
                            if m2 < jj {
                                assert(pre.placements@[m2].hex != pre.placements@[jj].hex);
                            } else {
                                assert(pre.placements@[jj].hex != pre.placements@[m2].hex);
                            }
                        }
                    }
                }
                if pre.placed(h2, id2) && h2 != hex {
                    let m = choose|m: int|
                        0 <= m < nn && (#[trigger] pre.placements@[m]).hex == h2
                            && pre.placements@[m].id == id2;
                    assert(m != jj);
                    if m < nn - 1 {
                        assert(self.placements@[m] == pre.placements@[m]);
                        assert(self.placed(h2, id2)) by {
                            assert((#[trigger] self.placements@[m]).hex == h2
                                && self.placements@[m].id == id2);
                        }
                    } else {
                        assert(jj < nn - 1);
                        assert(self.placements@[jj] == pre.placements@[m]);
                        assert(self.placed(h2, id2)) by {
                            assert((#[trigger] self.placements@[jj]).hex == h2
                                && self.placements@[jj].id == id2);
                        }
                    }
                }
            }
            assert forall|h2: HexCoord|
                self.occupied(h2) == (pre.occupied(h2) && h2 != hex) by {
                if self.occupied(h2) {
                    let m = choose|m: int|
                        0 <= m < self.placements@.len() && (#[trigger] self.placements@[m]).hex
                            == h2;
                    let m2 = if m == jj {
                        nn - 1
                    } else {
                        m
                    };
                    assert(self.placements@[m] == pre.placements@[m2]);
                    assert(self.placed(h2, self.placements@[m].id)) by {
                        assert((#[trigger] self.placements@[m]).hex == h2);
                    }
                }
                if pre.occupied(h2) && h2 != hex {
                    let m = choose|m: int|
                        0 <= m < nn && (#[trigger] pre.placements@[m]).hex == h2;
                    assert(pre.placed(h2, pre.placements@[m].id)) by {
                        assert((#[trigger] pre.placements@[m]).hex == h2);
                    }
                    assert(self.placed(h2, pre.placements@[m].id));
                    let m3 = choose|m3: int|
                        0 <= m3 < self.placements@.len() && (#[trigger] self.placements@[m3]).hex
                            == h2 && self.placements@[m3].id == pre.placements@[m].id;
                    assert(self.occupied(h2)) by {
                        assert((#[trigger] self.placements@[m3]).hex == h2);
                    }
                }
            }
            assert forall|i1: int, i2: int|
                0 <= i1 < i2 < self.placements@.len() implies (
            #[trigger] self.placements@[i1]).hex != (#[trigger] self.placements@[i2]).hex
                && self.placements@[i1].id != self.placements@[i2].id by {
                let m1 = if i1 == jj {
                    nn - 1
                } else {
                    i1
                };
                let m2 = if i2 == jj {
                    nn - 1
                } else {
                    i2
                };
                assert(self.placements@[i1] == pre.placements@[m1]);
                assert(self.placements@[i2] == pre.placements@[m2]);
                assert(m1 != m2);
                if m1 < m2 {
                    assert(pre.placements@[m1].hex != pre.placements@[m2].hex
                        && pre.placements@[m1].id != pre.placements@[m2].id);
                } else {
                    assert(pre.placements@[m2].hex != pre.placements@[m1].hex
                        && pre.placements@[m2].id != pre.placements@[m1].id);
                }
            }
        }
        Some(p.id)
    }

    /// Object tracking is untouched by operations on the placement
    /// sub-index: the tracking half of `wf` carries over unchanged.
    proof fn lemma_tracking_unchanged(pre: Self, post: Self)
        requires
            pre.bindings_unique(),
            pre.buckets_unique(),
            pre.bucket_ids_unique(),
            pre.buckets_in_bounds(),
            pre.bindings_have_entries(),
            pre.entries_have_bindings(),
            post.bindings@ == pre.bindings@,
            post.buckets@ == pre.buckets@,
            post.radius == pre.radius,
        ensures
            post.bindings_unique(),
            post.buckets_unique(),
            post.bucket_ids_unique(),
            post.buckets_in_bounds(),
            post.bindings_have_entries(),
            post.entries_have_bindings(),
    {
        assert forall|i: int, j: int|
            0 <= i < j < post.bindings@.len() implies (#[trigger] post.bindings@[i]).id != (
        #[trigger] post.bindings@[j]).id by {
            assert(pre.bindings@[i].id != pre.bindings@[j].id);
        }
        assert forall|i: int, j: int|
            0 <= i < j < post.buckets@.len() implies (#[trigger] post.buckets@[i]).hex != (
        #[trigger] post.buckets@[j]).hex by {
            assert(pre.buckets@[i].hex != pre.buckets@[j].hex);
        }
        assert forall|bi: int, k1: int, k2: int|
            0 <= bi < post.buckets@.len() && 0 <= k1 < k2 < post.buckets@[bi].ids@.len() implies
            #[trigger] post.buckets@[bi].ids@[k1] != #[trigger] post.buckets@[bi].ids@[k2] by {
            assert(pre.buckets@[bi].ids@[k1] != pre.buckets@[bi].ids@[k2]);
        }
        assert forall|bi: int|
            0 <= bi < post.buckets@.len() implies HexCoord::spec_distance(
            (#[trigger] post.buckets@[bi]).hex,
            HexCoord { q: 0, r: 0 },
        ) <= post.radius by {
            assert(HexCoord::spec_distance(pre.buckets@[bi].hex, HexCoord { q: 0, r: 0 })
                <= pre.radius);
        }
        assert forall|j: int| 0 <= j < post.bindings@.len() implies exists|bi: int|
            0 <= bi < post.buckets@.len() && post.buckets@[bi].hex == (
            #[trigger] post.bindings@[j]).hex && post.buckets@[bi].ids@.contains(
                post.bindings@[j].id,
            ) by {
            assert(0 <= j < pre.bindings@.len() && (#[trigger] pre.bindings@[j])
                == post.bindings@[j]);
            let b = choose|b: int|
                0 <= b < pre.buckets@.len() && pre.buckets@[b].hex == pre.bindings@[j].hex
                    && pre.buckets@[b].ids@.contains(pre.bindings@[j].id);
            assert(post.buckets@[b].hex == post.bindings@[j].hex);
            assert(post.buckets@[b].ids@.contains(post.bindings@[j].id));
        }
        assert forall|bi: int, k: int|
            0 <= bi < post.buckets@.len() && 0 <= k < post.buckets@[bi].ids@.len() implies
            post.binds(#[trigger] post.buckets@[bi].ids@[k], post.buckets@[bi].hex) by {
            assert(pre.binds(pre.buckets@[bi].ids@[k], pre.buckets@[bi].hex));
            let j = choose|j: int|
                0 <= j < pre.bindings@.len() && pre.bindings@[j] == (Binding {
                    id: pre.buckets@[bi].ids@[k],
                    hex: pre.buckets@[bi].hex,
                });
            assert(post.bindings@[j] == (Binding {
                id: post.buckets@[bi].ids@[k],
                hex: post.buckets@[bi].hex,
            }));
        }
    }

    /// The common proof that removing the binding `j` and the bucket entry
    /// `(bi, k)` of the object `id` restores `wf` and removes exactly `id`
    /// from the binding relation.
    proof fn lemma_untrack_restores(
        pre: Self,
        post: Self,
        id: u64,
        hex: HexCoord,
        j: int,
        bi: int,
        k: int,
    )
        requires
            pre.wf(),
            0 <= j < pre.bindings@.len(),
            pre.bindings@[j].id == id,
            pre.bindings@[j].hex == hex,
            0 <= bi < pre.buckets@.len(),
            pre.buckets@[bi].hex == hex,
            0 <= k < pre.buckets@[bi].ids@.len(),
            pre.buckets@[bi].ids@[k] == id,
            post.radius == pre.radius,
            post.placements == pre.placements,
            post.bindings@ == pre.bindings@.update(j, pre.bindings@.last()).drop_last(),
            post.buckets@.len() == pre.buckets@.len(),
            forall|i: int|
                0 <= i < pre.buckets@.len() && i != bi ==> (#[trigger] post.buckets@[i]).hex
                    == pre.buckets@[i].hex && post.buckets@[i].ids@ == pre.buckets@[i].ids@,
            post.buckets@[bi].hex == hex,
            post.buckets@[bi].ids@ == pre.buckets@[bi].ids@.update(
                k,
                pre.buckets@[bi].ids@.last(),
            ).drop_last(),
        ensures
            post.wf(),
            forall|id2: u64, h2: HexCoord|
                post.binds(id2, h2) == (pre.binds(id2, h2) && id2 != id),
            forall|id2: u64| post.indexed(id2) == (pre.indexed(id2) && id2 != id),
            forall|b: int|
                0 <= b < post.buckets@.len() ==> !(#[trigger] post.buckets@[b]).ids@.contains(id),
    {
        let bn = pre.bindings@.len() as int;
        let pids = pre.buckets@[bi].ids@;
        let qids = post.buckets@[bi].ids@;
        let iln = pids.len() as int;
        // only binding j carries id; only entry (bi, k) carries id
        assert forall|m: int| 0 <= m < bn && m != j implies (#[trigger] pre.bindings@[m]).id != id by {
            if pre.bindings@[m].id == id {
                if m < j {
                    assert(pre.bindings@[m].id != pre.bindings@[j].id);
                } else {
                    assert(pre.bindings@[j].id != pre.bindings@[m].id);
                }
            }
        }
        assert forall|kk: int| 0 <= kk < iln && kk != k implies pids[kk] != id by {
            if pids[kk] == id {
                if kk < k {
                    assert(pre.buckets@[bi].ids@[kk] != pre.buckets@[bi].ids@[k]);
                } else {
                    assert(pre.buckets@[bi].ids@[k] != pre.buckets@[bi].ids@[kk]);
                }
            }
        }
        assert forall|b: int| 0 <= b < pre.buckets@.len() && b != bi implies !(
        #[trigger] pre.buckets@[b]).ids@.contains(id) by {
            if pre.buckets@[b].ids@.contains(id) {
                let kk = choose|kk: int|
                    0 <= kk < pre.buckets@[b].ids@.len() && pre.buckets@[b].ids@[kk] == id;
                assert(pre.binds(pre.buckets@[b].ids@[kk], pre.buckets@[b].hex));
                let m = choose|m: int|
                    0 <= m < bn && pre.bindings@[m] == (Binding { id, hex: pre.buckets@[b].hex });
                assert(m == j);
                assert(pre.buckets@[b].hex == hex);
                if b < bi {
                    assert(pre.buckets@[b].hex != pre.buckets@[bi].hex);
                } else {
                    assert(pre.buckets@[bi].hex != pre.buckets@[b].hex);
                }
            }
        }
        // the binding relation loses exactly id
        assert forall|id2: u64, h2: HexCoord|
            post.binds(id2, h2) == (pre.binds(id2, h2) && id2 != id) by {
            if post.binds(id2, h2) {
                let jj = choose|jj: int|
                    0 <= jj < post.bindings@.len() && post.bindings@[jj] == (Binding {
                        id: id2,
                        hex: h2,
                    });
                if jj == j {
                    assert(post.bindings@[jj] == pre.bindings@[bn - 1]);
                    assert(pre.binds(id2, h2));
                    assert(id2 != id);
                } else {
                    assert(post.bindings@[jj] == pre.bindings@[jj]);
                    assert(pre.binds(id2, h2));
                    assert(id2 != id);
                }
            }
            if pre.binds(id2, h2) && id2 != id {
                let m = choose|m: int|
                    0 <= m < bn && pre.bindings@[m] == (Binding { id: id2, hex: h2 });
                assert(m != j);
                if m < bn - 1 {
                    assert(post.bindings@[m] == pre.bindings@[m]);
                    assert(post.binds(id2, h2));
                } else {
                    assert(j < bn - 1);
                    assert(post.bindings@[j] == pre.bindings@[m]);
                    assert(post.binds(id2, h2));
                }
            }
        }
        assert forall|id2: u64| post.indexed(id2) == (pre.indexed(id2) && id2 != id) by {
            if post.indexed(id2) {
                let jj = choose|jj: int|
                    0 <= jj < post.bindings@.len() && post.bindings@[jj].id == id2;
                if jj == j {
                    assert(pre.bindings@[bn - 1].id == id2);
                } else {
                    assert(pre.bindings@[jj].id == id2);
                }
                assert(pre.indexed(id2));
                assert(id2 != id);
            }
            if pre.indexed(id2) && id2 != id {
                let m = choose|m: int| 0 <= m < bn && pre.bindings@[m].id == id2;
                assert(m != j);
                if m < bn - 1 {
                    assert(post.bindings@[m].id == id2);
                } else {
                    assert(post.bindings@[j].id == id2);
                }
                assert(post.indexed(id2));
            }
        }
        // id is gone from every bucket
        assert forall|b: int|
            0 <= b < post.buckets@.len() implies !(#[trigger] post.buckets@[b]).ids@.contains(id) by {
            if post.buckets@[b].ids@.contains(id) {
                let kk = choose|kk: int|
                    0 <= kk < post.buckets@[b].ids@.len() && post.buckets@[b].ids@[kk] == id;
                if b == bi {
                    if kk == k {
                        assert(qids[kk] == pids[iln - 1]);
                        assert(iln - 1 != k);
                    } else {
                        assert(qids[kk] == pids[kk]);
                    }
                } else {
                    assert(pre.buckets@[b].ids@.contains(id));
                }
            }
        }
        // wf conjuncts
        assert forall|i1: int, i2: int|
            0 <= i1 < i2 < post.bindings@.len() implies (#[trigger] post.bindings@[i1]).id != (
        #[trigger] post.bindings@[i2]).id by {
            let m1 = if i1 == j {
                bn - 1
            } else {
                i1
            };
            let m2 = if i2 == j {
                bn - 1
            } else {
                i2
            };
            assert(post.bindings@[i1] == pre.bindings@[m1]);
            assert(post.bindings@[i2] == pre.bindings@[m2]);
            assert(m1 != m2);
            if m1 < m2 {
                assert(pre.bindings@[m1].id != pre.bindings@[m2].id);
            } else {
                assert(pre.bindings@[m2].id != pre.bindings@[m1].id);
            }
        }
        assert forall|i1: int, i2: int|
            0 <= i1 < i2 < post.buckets@.len() implies (#[trigger] post.buckets@[i1]).hex != (
        #[trigger] post.buckets@[i2]).hex by {
            assert(post.buckets@[i1].hex == pre.buckets@[i1].hex);
            assert(post.buckets@[i2].hex == pre.buckets@[i2].hex);
        }
        assert forall|b: int, k1: int, k2: int|
            0 <= b < post.buckets@.len() && 0 <= k1 < k2 < post.buckets@[b].ids@.len() implies
            #[trigger] post.buckets@[b].ids@[k1] != #[trigger] post.buckets@[b].ids@[k2] by {
            if b == bi {
                let m1 = if k1 == k {
                    iln - 1
                } else {
                    k1
                };
                let m2 = if k2 == k {
                    iln - 1
                } else {
                    k2
                };
                assert(qids[k1] == pids[m1]);
                assert(qids[k2] == pids[m2]);
                assert(m1 != m2);
                if m1 < m2 {
                    assert(pids[m1] != pids[m2]);
                } else {
                    assert(pids[m2] != pids[m1]);
                }
            } else {
                assert(post.buckets@[b].ids@ == pre.buckets@[b].ids@);
                assert(pre.buckets@[b].ids@[k1] != pre.buckets@[b].ids@[k2]);
            }
        }
        assert forall|b: int|
            0 <= b < post.buckets@.len() implies HexCoord::spec_distance(
            (#[trigger] post.buckets@[b]).hex,
            HexCoord { q: 0, r: 0 },
        ) <= post.radius by {
            assert(post.buckets@[b].hex == pre.buckets@[b].hex);
        }
        assert forall|jj: int| 0 <= jj < post.bindings@.len() implies exists|b: int|
            0 <= b < post.buckets@.len() && post.buckets@[b].hex == (
            #[trigger] post.bindings@[jj]).hex && post.buckets@[b].ids@.contains(
                post.bindings@[jj].id,
            ) by {
            let m = if jj == j {
                bn - 1
            } else {
                jj
            };
            assert(post.bindings@[jj] == pre.bindings@[m]);
            assert(m != j);
            let bid = pre.bindings@[m].id;
            let bhex = pre.bindings@[m].hex;
            assert(bid != id);
            let b = choose|b: int|
                0 <= b < pre.buckets@.len() && pre.buckets@[b].hex == bhex
                    && pre.buckets@[b].ids@.contains(bid);
            let kk = choose|kk: int|
                0 <= kk < pre.buckets@[b].ids@.len() && pre.buckets@[b].ids@[kk] == bid;
            assert(post.buckets@[b].hex == bhex);
            if b == bi {
                assert(kk != k);
                if kk < iln - 1 {
                    assert(qids[kk] == pids[kk]);
                    assert(qids.contains(bid));
                } else {
                    assert(k < iln - 1);
                    assert(qids[k] == pids[iln - 1]);
                    assert(qids.contains(bid));
                }
                assert(post.buckets@[b].ids@.contains(bid));
            } else {
                assert(post.buckets@[b].ids@ == pre.buckets@[b].ids@);
                assert(post.buckets@[b].ids@.contains(bid));
            }
        }
        assert forall|b: int, kk: int|
            0 <= b < post.buckets@.len() && 0 <= kk < post.buckets@[b].ids@.len() implies
            post.binds(#[trigger] post.buckets@[b].ids@[kk], post.buckets@[b].hex) by {
            let eid = post.buckets@[b].ids@[kk];
            let bhex = post.buckets@[b].hex;
            assert(bhex == pre.buckets@[b].hex);
            // map the post entry back to a pre entry
            if b == bi {
                let m = if kk == k {
                    iln - 1
                } else {
                    kk
                };
                assert(qids[kk] == pids[m]);
                assert(pre.binds(pids[m], hex));
            } else {
                assert(post.buckets@[b].ids@ == pre.buckets@[b].ids@);
                assert(pre.binds(pre.buckets@[b].ids@[kk], pre.buckets@[b].hex));
            }
            assert(pre.binds(eid, bhex));
            assert(eid != id) by {
                assert(!post.buckets@[b].ids@.contains(id));
                assert(post.buckets@[b].ids@[kk] == eid);
                if eid == id {
                    assert(post.buckets@[b].ids@.contains(id));
                }
            }
            assert(post.binds(eid, bhex));
        }
    }

    /// The common proof that `track`'s insertion restores `wf` and updates
    /// the binding relation by exactly one pair.  `bi` is the bucket that now
    /// holds `id`.
    proof fn lemma_track_restores(pre: Self, post: Self, id: u64, hex: HexCoord, bi: int)
        requires
            pre.wf(),
            !pre.indexed(id),
            HexCoord::spec_distance(hex, HexCoord { q: 0, r: 0 }) <= pre.radius,
            post.radius == pre.radius,
            post.placements == pre.placements,
            post.bindings@ == pre.bindings@.push(Binding { id, hex }),
            0 <= bi < post.buckets@.len(),
            bi <= pre.buckets@.len(),
            post.buckets@[bi].hex == hex,
            post.buckets@[bi].ids@ == if bi < pre.buckets@.len() {
                pre.buckets@[bi].ids@.push(id)
            } else {
                seq![id]
            },
            bi < pre.buckets@.len() ==> post.buckets@.len() == pre.buckets@.len()
                && pre.buckets@[bi].hex == hex,
            bi == pre.buckets@.len() ==> post.buckets@.len() == pre.buckets@.len() + 1 && (forall|
                i: int,
            |
                0 <= i < pre.buckets@.len() ==> (#[trigger] pre.buckets@[i]).hex != hex),
            forall|i: int|
                0 <= i < pre.buckets@.len() && i != bi ==> post.buckets@[i].hex == (
                #[trigger] pre.buckets@[i]).hex && post.buckets@[i].ids@ == pre.buckets@[i].ids@,
        ensures
            post.wf(),
            forall|id2: u64, h2: HexCoord|
                post.binds(id2, h2) == (pre.binds(id2, h2) || (id2 == id && h2 == hex)),
            forall|id2: u64| post.indexed(id2) == (pre.indexed(id2) || id2 == id),
    {
        let n = pre.bindings@.len() as int;
        assert forall|i: int| 0 <= i < pre.buckets@.len() implies (#[trigger] post.buckets@[i]).hex
            == pre.buckets@[i].hex by {
            if i == bi {
                assert(post.buckets@[i].hex == hex);
            }
        }
        // the binding relation gains exactly (id, hex)
        assert forall|id2: u64, h2: HexCoord|
            post.binds(id2, h2) == (pre.binds(id2, h2) || (id2 == id && h2 == hex)) by {
            if post.binds(id2, h2) {
                let j = choose|j: int|
                    0 <= j < post.bindings@.len() && post.bindings@[j] == (Binding {
                        id: id2,
                        hex: h2,
                    });
                if j < n {
                    assert(pre.bindings@[j] == (Binding { id: id2, hex: h2 }));
                    assert(pre.binds(id2, h2));
                }
            }
            if pre.binds(id2, h2) {
                let j = choose|j: int|
                    0 <= j < pre.bindings@.len() && pre.bindings@[j] == (Binding {
                        id: id2,
                        hex: h2,
                    });
                assert(post.bindings@[j] == (Binding { id: id2, hex: h2 }));
                assert(post.binds(id2, h2));
            }
            if id2 == id && h2 == hex {
                assert(post.bindings@[n] == (Binding { id: id2, hex: h2 }));
                assert(post.binds(id2, h2));
            }
        }
        assert forall|id2: u64| post.indexed(id2) == (pre.indexed(id2) || id2 == id) by {
            if post.indexed(id2) {
                let j = choose|j: int|
                    0 <= j < post.bindings@.len() && post.bindings@[j].id == id2;
                if j < n {
                    assert(pre.bindings@[j].id == id2);
                }
            }
            if pre.indexed(id2) {
                let j = choose|j: int|
                    0 <= j < pre.bindings@.len() && pre.bindings@[j].id == id2;
                assert(post.bindings@[j].id == id2);
            }
            if id2 == id {
                assert(post.bindings@[n].id == id2);
            }
        }
        // wf conjuncts
        assert forall|i: int, j: int|
            0 <= i < j < post.bindings@.len() implies (#[trigger] post.bindings@[i]).id != (
        #[trigger] post.bindings@[j]).id by {
            if j < n {
                assert(pre.bindings@[i].id != pre.bindings@[j].id);
            } else {
                assert(post.bindings@[j].id == id);
                assert(pre.bindings@[i].id != id) by {
                    if pre.bindings@[i].id == id {
                        assert(pre.indexed(id));
                    }
                }
            }
        }
        assert forall|i: int, j: int|
            0 <= i < j < post.buckets@.len() implies (#[trigger] post.buckets@[i]).hex != (
        #[trigger] post.buckets@[j]).hex by {
            if j < pre.buckets@.len() {
                assert(pre.buckets@[i].hex != pre.buckets@[j].hex);
                assert(post.buckets@[i].hex == pre.buckets@[i].hex);
                assert(post.buckets@[j].hex == pre.buckets@[j].hex);
            } else {
                assert(post.buckets@[j].hex == hex);
                assert(pre.buckets@[i].hex != hex);
                assert(post.buckets@[i].hex == pre.buckets@[i].hex);
            }
        }
        assert forall|b: int, k1: int, k2: int|
            0 <= b < post.buckets@.len() && 0 <= k1 < k2 < post.buckets@[b].ids@.len() implies
            #[trigger] post.buckets@[b].ids@[k1] != #[trigger] post.buckets@[b].ids@[k2] by {
            if b == bi {
                if bi < pre.buckets@.len() {
                    let pids = pre.buckets@[b].ids@;
                    if k2 < pids.len() {
                        assert(pids[k1] != pids[k2]);
                    } else {
                        // k2 is the freshly pushed id
                        assert(post.buckets@[b].ids@[k2] == id);
                        assert(pids[k1] != id) by {
                            if pids[k1] == id {
                                assert(pre.binds(id, pre.buckets@[b].hex));
                                let j = choose|j: int|
                                    0 <= j < pre.bindings@.len() && pre.bindings@[j] == (Binding {
                                        id,
                                        hex: pre.buckets@[b].hex,
                                    });
                                assert(pre.indexed(id));
                            }
                        }
                        assert(post.buckets@[b].ids@[k1] == pids[k1]);
                    }
                }
            } else {
                assert(post.buckets@[b].ids@ == pre.buckets@[b].ids@);
                assert(pre.buckets@[b].ids@[k1] != pre.buckets@[b].ids@[k2]);
            }
        }
        assert forall|b: int|
            0 <= b < post.buckets@.len() implies HexCoord::spec_distance(
            (#[trigger] post.buckets@[b]).hex,
            HexCoord { q: 0, r: 0 },
        ) <= post.radius by {
            if b < pre.buckets@.len() && b != bi {
                assert(post.buckets@[b].hex == pre.buckets@[b].hex);
            } else {
                assert(post.buckets@[b].hex == hex);
            }
        }
        assert forall|j: int| 0 <= j < post.bindings@.len() implies exists|b: int|
            0 <= b < post.buckets@.len() && post.buckets@[b].hex == (
            #[trigger] post.bindings@[j]).hex && post.buckets@[b].ids@.contains(
                post.bindings@[j].id,
            ) by {
            if j < n {
                let b = choose|b: int|
                    0 <= b < pre.buckets@.len() && pre.buckets@[b].hex == pre.bindings@[j].hex
                        && pre.buckets@[b].ids@.contains(pre.bindings@[j].id);
                assert(post.buckets@[b].hex == pre.bindings@[j].hex);
                let k = choose|k: int|
                    0 <= k < pre.buckets@[b].ids@.len() && pre.buckets@[b].ids@[k]
                        == pre.bindings@[j].id;
                assert(post.buckets@[b].ids@[k] == pre.bindings@[j].id);
                assert(post.buckets@[b].ids@.contains(post.bindings@[j].id));
            } else {
                assert(post.bindings@[j] == (Binding { id, hex }));
                let len = post.buckets@[bi].ids@.len() as int;
                assert(post.buckets@[bi].ids@[len - 1] == id);
                assert(post.buckets@[bi].ids@.contains(id));
            }
        }
        assert forall|b: int, k: int|
            0 <= b < post.buckets@.len() && 0 <= k < post.buckets@[b].ids@.len() implies
            post.binds(#[trigger] post.buckets@[b].ids@[k], post.buckets@[b].hex) by {
            let eid = post.buckets@[b].ids@[k];
            let bhex = post.buckets@[b].hex;
            if b == bi && k == post.buckets@[b].ids@.len() - 1 && eid == id && bhex == hex {
                assert(post.binds(id, hex));
            } else if b < pre.buckets@.len() && (b != bi || k < pre.buckets@[b].ids@.len()) {
                assert(eid == pre.buckets@[b].ids@[k]);
                assert(bhex == pre.buckets@[b].hex);
                assert(pre.binds(eid, bhex));
                let j = choose|j: int|
                    0 <= j < pre.bindings@.len() && pre.bindings@[j] == (Binding {
                        id: eid,
                        hex: bhex,
                    });
                assert(post.bindings@[j] == (Binding { id: eid, hex: bhex }));
                assert(post.binds(eid, bhex));
            } else {
                assert(eid == id && bhex == hex);
                assert(post.binds(id, hex));
            }
        }
    }
}

/// The index-consistency law: whenever the index is well formed, an object
/// recorded in cell `h` lies in exactly one bucket, that bucket's cell is
/// `h`, and no other cell is recorded for the object.
pub proof fn lemma_one_bucket_per_object(idx: SpatialIndex, id: u64, h: HexCoord)
    requires
        idx.wf(),
        idx.binds(id, h),
    ensures
        exists|b: int|
            0 <= b < idx.buckets@.len() && (#[trigger] idx.buckets@[b]).hex == h
                && idx.buckets@[b].ids@.contains(id),
        forall|b: int|
            0 <= b < idx.buckets@.len() && (#[trigger] idx.buckets@[b]).ids@.contains(id)
                ==> idx.buckets@[b].hex == h,
        forall|b1: int, b2: int|
            0 <= b1 < idx.buckets@.len() && 0 <= b2 < idx.buckets@.len() && (
            #[trigger] idx.buckets@[b1]).ids@.contains(id) && (
            #[trigger] idx.buckets@[b2]).ids@.contains(id) ==> b1 == b2,
        forall|h2: HexCoord| idx.binds(id, h2) ==> h2 == h,
{
    let j = choose|j: int|
        0 <= j < idx.bindings@.len() && idx.bindings@[j] == (Binding { id, hex: h });
    assert forall|h2: HexCoord| idx.binds(id, h2) implies h2 == h by {
        let j2 = choose|j2: int|
            0 <= j2 < idx.bindings@.len() && idx.bindings@[j2] == (Binding { id, hex: h2 });
        if j2 < j {
            assert(idx.bindings@[j2].id != idx.bindings@[j].id);
        } else if j < j2 {
            assert(idx.bindings@[j].id != idx.bindings@[j2].id);
        }
    }
    assert(0 <= j < idx.bindings@.len() && (#[trigger] idx.bindings@[j]).hex == h);
    let b = choose|b: int|
        0 <= b < idx.buckets@.len() && idx.buckets@[b].hex == idx.bindings@[j].hex
            && idx.buckets@[b].ids@.contains(idx.bindings@[j].id);
    assert((#[trigger] idx.buckets@[b]).hex == h && idx.buckets@[b].ids@.contains(id));
    assert forall|b2: int|
        0 <= b2 < idx.buckets@.len() && (#[trigger] idx.buckets@[b2]).ids@.contains(id) implies
        idx.buckets@[b2].hex == h by {
        let k = choose|k: int|
            0 <= k < idx.buckets@[b2].ids@.len() && idx.buckets@[b2].ids@[k] == id;
        assert(idx.binds(idx.buckets@[b2].ids@[k], idx.buckets@[b2].hex));
        assert(idx.binds(id, idx.buckets@[b2].hex));
    }
    assert forall|b1: int, b2: int|
        0 <= b1 < idx.buckets@.len() && 0 <= b2 < idx.buckets@.len() && (
        #[trigger] idx.buckets@[b1]).ids@.contains(id) && (
        #[trigger] idx.buckets@[b2]).ids@.contains(id) implies b1 == b2 by {
        assert(idx.buckets@[b1].hex == h && idx.buckets@[b2].hex == h);
        if b1 < b2 {
            assert(idx.buckets@[b1].hex != idx.buckets@[b2].hex);
        } else if b2 < b1 {
            assert(idx.buckets@[b2].hex != idx.buckets@[b1].hex);
        }
    }
}

} // verus!
