//! The bullet-side trigger decision: when a bullet's cell holds a tower the
//! bullet has not yet triggered, the tower is triggered and recorded in the
//! bullet's own history, so one bullet never triggers the same tower twice.

use vstd::prelude::*;
use crate::hex::HexCoord;
use crate::propagate::TriggerTowerEvent;
use crate::propagate::copy_history;
use crate::spatial::SpatialIndex;

verus! {

/// Decide what a bullet in cell `hex` does to the tower there, if any.
/// Returns the trigger request to raise (the bullet is then despawned by its
/// owner); the bullet's history gains the tower's id.  The request carries
/// the history as it was before the append, as the engine appends the target
/// itself when the trigger fires.
pub fn bullet_tower_collision(
    idx: &SpatialIndex,
    hex: HexCoord,
    trigger_history: &mut Vec<u64>,
) -> (out: Option<TriggerTowerEvent>)
    requires
        idx.wf(),
    ensures
        match out {
            Some(ev) => {
                &&& idx.placed(hex, ev.target)
                &&& !old(trigger_history)@.contains(ev.target)
                &&& ev.trigger_history@ == old(trigger_history)@
                &&& final(trigger_history)@ == old(trigger_history)@.push(ev.target)
            },
            None => {
                &&& *final(trigger_history) == *old(trigger_history)
                &&& forall|id: u64|
                    idx.placed(hex, id) ==> old(trigger_history)@.contains(id)
            },
        },
{
    let tower_id = match idx.placement_get(hex) {
        None => {
            proof {
                assert forall|id: u64| idx.placed(hex, id) implies old(
                    trigger_history,
                )@.contains(id) by {
                    let m = choose|m: int|
                        0 <= m < idx.placements@.len() && (#[trigger] idx.placements@[m]).hex
                            == hex && idx.placements@[m].id == id;
                    assert(idx.occupied(hex)) by {
                        assert((#[trigger] idx.placements@[m]).hex == hex);
                    }
                }
            }
            return None;
        },
        Some(id) => id,
    };
    let mut already = false;
    let mut i: usize = 0;
    while i < trigger_history.len()
        invariant
            i <= trigger_history@.len(),
            already == exists|k: int| 0 <= k < i && trigger_history@[k] == tower_id,
        decreases trigger_history@.len() - i,
    {
        if trigger_history[i] == tower_id {
            proof {
                assert(trigger_history@[i as int] == tower_id);
            }
            already = true;
        }
        i = i + 1;
    }
    if already {
        proof {
            assert(trigger_history@.contains(tower_id));
            assert forall|id: u64| idx.placed(hex, id) implies trigger_history@.contains(id) by {
                let m1 = choose|m1: int|
                    0 <= m1 < idx.placements@.len() && (#[trigger] idx.placements@[m1]).hex == hex
                        && idx.placements@[m1].id == id;
                let m2 = choose|m2: int|
                    0 <= m2 < idx.placements@.len() && (#[trigger] idx.placements@[m2]).hex == hex
                        && idx.placements@[m2].id == tower_id;
                if m1 < m2 {
                    assert(idx.placements@[m1].hex != idx.placements@[m2].hex);
                } else if m2 < m1 {
                    assert(idx.placements@[m2].hex != idx.placements@[m1].hex);
                }
            }
        }
        return None;
    }
    let ev = TriggerTowerEvent {
        target: tower_id,
        trigger_history: copy_history(trigger_history),
    };
    trigger_history.push(tower_id);
    Some(ev)
}

} // verus!
