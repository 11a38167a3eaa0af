//! The building inventory: the towers the player has collected, which one is
//! selected, and the placement decision that spends a tower from the
//! inventory when it is successfully placed.

use vstd::prelude::*;
use crate::hex::HexCoord;
use crate::spatial::SpatialIndex;
use crate::tower::{Tower, TowerKind};

verus! {

/// The player's collected towers and the current build selection.
#[derive(Debug)]
pub struct BuildingSettings {
    /// Towers available to build.
    pub towers: Vec<TowerKind>,
    /// Index into `towers` of the kind being built, when building.
    pub selected_tower: Option<usize>,
}

impl BuildingSettings {
    /// The selected tower kind, when the selection points at a real entry.
    pub open spec fn spec_selected(self) -> Option<TowerKind> {
        match self.selected_tower {
            Some(i) => if i < self.towers@.len() {
                Some(self.towers@[i as int])
            } else {
                None
            },
            None => None,
        }
    }

    pub fn get_selected(&self) -> (r: Option<TowerKind>)
        ensures
            r == self.spec_selected(),
    {
        match self.selected_tower {
            Some(i) => {
                if i < self.towers.len() {
                    Some(self.towers[i])
                } else {
                    None
                }
            },
            None => None,
        }
    }

    /// Add a collected tower to the inventory.
    pub fn add_tower(&mut self, kind: TowerKind)
        ensures
            final(self).towers@ == old(self).towers@.push(kind),
            final(self).selected_tower == old(self).selected_tower,
    {
        self.towers.push(kind);
    }

    /// Try to build the selected tower (rotation 0) on `hex` under a fresh
    /// object id.  Nothing happens when the cell is occupied, nothing is
    /// selected, or the id is already in use; on success the tower leaves
    /// the inventory and the selection is cleared.
    pub fn place_building(&mut self, idx: &mut SpatialIndex, hex: HexCoord, id: u64) -> (placed:
        bool)
        requires
            old(idx).wf(),
        ensures
            final(idx).wf(),
            final(idx).radius == old(idx).radius,
            final(idx).bindings == old(idx).bindings,
            final(idx).buckets == old(idx).buckets,
            placed == (!old(idx).occupied(hex) && !old(idx).has_tower(id) && old(
                self,
            ).spec_selected() is Some),
            !placed ==> *final(self) == *old(self) && *final(idx) == *old(idx),
            placed ==> {
                let i = old(self).selected_tower.unwrap() as int;
                let kind = old(self).towers@[i];
                &&& final(idx).placements@ == old(idx).placements@.push(
                    crate::spatial::Placement { hex, id, tower: Tower { kind, rotation: 0u8 } },
                )
                &&& final(self).towers@ == old(self).towers@.remove(i)
                &&& final(self).selected_tower is None
            },
    {
        let i = match self.selected_tower {
            None => {
                return false;
            },
            Some(i) => i,
        };
        if i >= self.towers.len() {
            return false;
        }
        let kind = self.towers[i];
        let ok = idx.try_place(hex, id, Tower { kind, rotation: 0 });
        if !ok {
            return false;
        }
        self.towers.remove(i);
        self.selected_tower = None;
        true
    }
}

impl Default for BuildingSettings {
    /// An empty inventory with nothing selected.
    fn default() -> (s: Self)
        ensures
            s.towers@.len() == 0,
            s.selected_tower is None,
    {
        BuildingSettings { towers: Vec::new(), selected_tower: None }
    }
}

} // verus!
