//! Trigger propagation: resolving a trigger request against the placement
//! index into the tower's dispatched actions, with per-branch cycle safety.
//!
//! Each trigger request carries the history of the chain branch that led to
//! it.  A target already present in the history is a cycle and is dropped;
//! otherwise the target is appended to a copy of the history and every
//! dispatched action carries its own copy, so sibling branches never share
//! cycle state.

use vstd::prelude::*;
use crate::Team;
use crate::explosion::ExplosionDamageArea;
use crate::hex::{EdgeDirection, HexCoord};
use crate::scalar::SCALE;
use crate::spatial::{Placement, SpatialIndex};
use crate::tower::{TowerAction, Tower};

verus! {

/// A request to trigger the tower with the given id, carrying the chain
/// history of one propagation branch.
#[derive(Debug)]
pub struct TriggerTowerEvent {
    pub target: u64,
    pub trigger_history: Vec<u64>,
}

/// Informational signal that a tower fired, carrying the history with the
/// tower's own id appended.
#[derive(Debug)]
pub struct TowerTriggered {
    pub target: u64,
    pub trigger_history: Vec<u64>,
}

/// A projectile to spawn, travelling from the tower's cell along the tower's
/// rotated shooting direction.
#[derive(Debug)]
pub struct SpawnProjectileCommand {
    pub origin: HexCoord,
    pub direction: EdgeDirection,
    pub trigger_history: Vec<u64>,
}

/// An explosion to create, centered on the tower's cell.  All scalars are
/// fixed-point.
#[derive(Debug)]
pub struct CreateExplosionCommand {
    pub team: Team,
    pub center: HexCoord,
    pub duration: i64,
    pub damage: u16,
    pub damage_area: ExplosionDamageArea,
    pub damage_delay: i64,
    pub radius: i64,
    pub strength: i64,
    pub strength_modifier: i64,
    pub trigger_history: Vec<u64>,
}

/// One dispatched action of a triggered tower.
#[derive(Debug)]
pub enum DispatchedAction {
    Projectile(SpawnProjectileCommand),
    Explosion(CreateExplosionCommand),
}

/// Everything one fired trigger produces: the outbound signal and the ordered
/// action list.
#[derive(Debug)]
pub struct TriggerOutput {
    pub signal: TowerTriggered,
    pub actions: Vec<DispatchedAction>,
}

/// No id appears twice.
pub open spec fn no_duplicates(s: Seq<u64>) -> bool {
    forall|i: int, j: int| 0 <= i < j < s.len() ==> s[i] != s[j]
}

/// The dispatched action `out` is exactly what the table entry `act` of a
/// tower demands: a projectile along the rotated direction, or an explosion
/// with the stock parameters, each carrying the branch history.
pub open spec fn action_matches(
    tower: Tower,
    center: HexCoord,
    act: TowerAction,
    history: Seq<u64>,
    out: DispatchedAction,
) -> bool {
    match act {
        TowerAction::Shoot(dir) => match out {
            DispatchedAction::Projectile(p) => {
                &&& p.origin == center
                &&& p.direction == dir.spec_rotated(tower.rotation as int)
                &&& p.trigger_history@ == history
            },
            _ => false,
        },
        TowerAction::Explode(range) => match out {
            DispatchedAction::Explosion(c) => {
                &&& c.team == Team::Player
                &&& c.center == center
                &&& c.duration == SCALE / 2
                &&& c.damage == 1u16
                &&& c.damage_area == ExplosionDamageArea::Hex(range)
                &&& c.damage_delay == SCALE / 10
                &&& c.radius == SCALE + (range as int) * (3 * SCALE / 2)
                &&& c.strength == 50 * SCALE
                &&& c.strength_modifier == -100 * SCALE
                &&& c.trigger_history@ == history
            },
            _ => false,
        },
    }
}

/// A trigger fires exactly when its target is not yet in the branch history
/// and a tower is registered under the target id.
pub open spec fn trigger_fires(idx: SpatialIndex, ev: TriggerTowerEvent) -> bool {
    !ev.trigger_history@.contains(ev.target) && idx.has_tower(ev.target)
}

/// The full relation between one trigger request and its output: `None`
/// exactly for cycles and unknown targets; otherwise the signal carries the
/// appended history and the actions follow the target tower's action table.
pub open spec fn trigger_post(
    idx: SpatialIndex,
    ev: TriggerTowerEvent,
    out: Option<TriggerOutput>,
) -> bool {
    match out {
        None => !trigger_fires(idx, ev),
        Some(o) => {
            &&& trigger_fires(idx, ev)
            &&& o.signal.target == ev.target
            &&& o.signal.trigger_history@ == ev.trigger_history@.push(ev.target)
            &&& forall|p: Placement|
                #[trigger] idx.placements@.contains(p) && p.id == ev.target ==> {
                    &&& o.actions@.len() == p.tower.kind.spec_actions().len()
                    &&& forall|i: int|
                        0 <= i < o.actions@.len() ==> action_matches(
                            p.tower,
                            p.hex,
                            p.tower.kind.spec_actions()[i],
                            ev.trigger_history@.push(ev.target),
                            #[trigger] o.actions@[i],
                        )
                }
        },
    }
}

/// An owned copy of a branch history, view-equal to the original.
pub fn copy_history(v: &Vec<u64>) -> (r: Vec<u64>)
    ensures
        r@ == v@,
{
    let mut r: Vec<u64> = Vec::new();
    let mut i: usize = 0;
    while i < v.len()
        invariant
            i <= v@.len(),
            r@ == v@.subrange(0, i as int),
        decreases v@.len() - i,
    {
        r.push(v[i]);
        proof {
            assert(r@ =~= v@.subrange(0, i + 1));
        }
        i = i + 1;
    }
    proof {
        assert(r@ =~= v@);
    }
    r
}

fn contains_id(v: &Vec<u64>, x: u64) -> (b: bool)
    ensures
        b == v@.contains(x),
{
    let mut i: usize = 0;
    while i < v.len()
        invariant
            i <= v@.len(),
            forall|k: int| 0 <= k < i ==> v@[k] != x,
        decreases v@.len() - i,
    {
        if v[i] == x {
            return true;
        }
        i = i + 1;
    }
    false
}

/// Resolve one trigger request against the placement index.  A cycle (the
/// target already in the incoming history) or an unknown target is a no-op;
/// otherwise the tower's whole action table is dispatched, each action with
/// its own copy of the appended history.
pub fn trigger(idx: &SpatialIndex, ev: &TriggerTowerEvent) -> (out: Option<TriggerOutput>)
    requires
        idx.wf(),
    ensures
        trigger_post(*idx, *ev, out),
        out is Some && no_duplicates(ev.trigger_history@) ==> no_duplicates(
            ev.trigger_history@.push(ev.target),
        ),
{
    if contains_id(&ev.trigger_history, ev.target) {
        return None;
    }
    let placement = match idx.tower_by_id(ev.target) {
        None => {
            return None;
        },
        Some(p) => p,
    };
    proof {
        assert(idx.has_tower(ev.target)) by {
            let m = choose|m: int|
                0 <= m < idx.placements@.len() && idx.placements@[m] == placement;
            assert((#[trigger] idx.placements@[m]).id == ev.target);
        }
        assert forall|p2: Placement|
            #[trigger] idx.placements@.contains(p2) && p2.id == ev.target implies p2
            == placement by {
            let m1 = choose|m1: int|
                0 <= m1 < idx.placements@.len() && idx.placements@[m1] == p2;
            let m2 = choose|m2: int|
                0 <= m2 < idx.placements@.len() && idx.placements@[m2] == placement;
            if m1 < m2 {
                assert(idx.placements@[m1].id != idx.placements@[m2].id);
            } else if m2 < m1 {
                assert(idx.placements@[m2].id != idx.placements@[m1].id);
            }
        }
    }
    let new_history = {
        let mut h = copy_history(&ev.trigger_history);
        h.push(ev.target);
        h
    };
    let acts = placement.tower.kind.actions();
    let mut actions: Vec<DispatchedAction> = Vec::new();
    let mut i: usize = 0;
    while i < acts.len()
        invariant
            i <= acts@.len(),
            acts@ == placement.tower.kind.spec_actions(),
            new_history@ == ev.trigger_history@.push(ev.target),
            actions@.len() == i,
            forall|k: int|
                0 <= k < i ==> action_matches(
                    placement.tower,
                    placement.hex,
                    acts@[k],
                    new_history@,
                    #[trigger] actions@[k],
                ),
        decreases acts@.len() - i,
    {
        let a = match acts[i] {
            TowerAction::Shoot(dir) => DispatchedAction::Projectile(
                SpawnProjectileCommand {
                    origin: placement.hex,
                    direction: dir.rotated(placement.tower.rotation),
                    trigger_history: copy_history(&new_history),
                },
            ),
            TowerAction::Explode(range) => DispatchedAction::Explosion(
                CreateExplosionCommand {
                    team: Team::Player,
                    center: placement.hex,
                    duration: SCALE / 2,
                    damage: 1,
                    damage_area: ExplosionDamageArea::Hex(range),
                    damage_delay: SCALE / 10,
                    radius: SCALE + (range as i64) * (3 * SCALE / 2),
                    strength: 50 * SCALE,
                    strength_modifier: -100 * SCALE,
                    trigger_history: copy_history(&new_history),
                },
            ),
        };
        actions.push(a);
        i = i + 1;
    }
    proof {
        assert forall|i2: int, j2: int|
            0 <= i2 < j2 < new_history@.len() && no_duplicates(ev.trigger_history@) implies
            new_history@[i2] != new_history@[j2] by {
            let n = ev.trigger_history@.len() as int;
            if j2 < n {
                assert(ev.trigger_history@[i2] != ev.trigger_history@[j2]);
            } else {
                assert(new_history@[j2] == ev.target);
                assert(new_history@[i2] == ev.trigger_history@[i2]);
                if ev.trigger_history@[i2] == ev.target {
                    assert(ev.trigger_history@.contains(ev.target));
                }
            }
        }
    }
    Some(
        TriggerOutput {
            signal: TowerTriggered { target: ev.target, trigger_history: new_history },
            actions,
        },
    )
}

/// The branch history a dispatched action carries.
pub open spec fn action_history(a: DispatchedAction) -> Seq<u64> {
    match a {
        DispatchedAction::Projectile(p) => p.trigger_history@,
        DispatchedAction::Explosion(c) => c.trigger_history@,
    }
}

/// Cycle-freedom per path: when a trigger with a duplicate-free history
/// fires, the history passed to the signal and to every dispatched action is
/// still duplicate-free, and in particular no tower appears twice in any
/// branch's history.
pub proof fn lemma_dispatched_histories_duplicate_free(
    idx: SpatialIndex,
    ev: TriggerTowerEvent,
    o: TriggerOutput,
)
    requires
        idx.wf(),
        trigger_post(idx, ev, Some(o)),
        no_duplicates(ev.trigger_history@),
    ensures
        no_duplicates(o.signal.trigger_history@),
        forall|i: int|
            0 <= i < o.actions@.len() ==> no_duplicates(action_history(#[trigger] o.actions@[i])),
{
    let hist = ev.trigger_history@.push(ev.target);
    assert forall|i2: int, j2: int| 0 <= i2 < j2 < hist.len() implies hist[i2] != hist[j2] by {
        let n = ev.trigger_history@.len() as int;
        if j2 < n {
            assert(ev.trigger_history@[i2] != ev.trigger_history@[j2]);
        } else {
            assert(hist[j2] == ev.target);
            assert(hist[i2] == ev.trigger_history@[i2]);
            if ev.trigger_history@[i2] == ev.target {
                assert(ev.trigger_history@.contains(ev.target));
            }
        }
    }
    let m = choose|m: int|
        0 <= m < idx.placements@.len() && (#[trigger] idx.placements@[m]).id == ev.target;
    let p = idx.placements@[m];
    assert(idx.placements@.contains(p));
    assert forall|i: int|
        0 <= i < o.actions@.len() implies no_duplicates(
        action_history(#[trigger] o.actions@[i])) by {
        assert(action_matches(p.tower, p.hex, p.tower.kind.spec_actions()[i], hist, o.actions@[i]));
        match p.tower.kind.spec_actions()[i] {
            TowerAction::Shoot(_) => {
                match o.actions@[i] {
                    DispatchedAction::Projectile(pp) => {
                        assert(pp.trigger_history@ == hist);
                    },
                    _ => {
                        assert(false);
                    },
                }
            },
            TowerAction::Explode(_) => {
                match o.actions@[i] {
                    DispatchedAction::Explosion(c) => {
                        assert(c.trigger_history@ == hist);
                    },
                    _ => {
                        assert(false);
                    },
                }
            },
        }
    }
}

/// Process a batch of trigger requests in order, as one tick's propagation
/// pass.  The slot for each request holds its output, or `None` where the
/// request was a cycle or had no tower.
pub fn process_events(idx: &SpatialIndex, events: &Vec<TriggerTowerEvent>) -> (outs: Vec<
    Option<TriggerOutput>,
>)
    requires
        idx.wf(),
    ensures
        outs@.len() == events@.len(),
        forall|k: int| 0 <= k < events@.len() ==> trigger_post(*idx, events@[k], #[trigger] outs@[k]),
{
    let mut outs: Vec<Option<TriggerOutput>> = Vec::new();
    let mut k: usize = 0;
    while k < events.len()
        invariant
            idx.wf(),
            k <= events@.len(),
            outs@.len() == k,
            forall|m: int| 0 <= m < k ==> trigger_post(*idx, events@[m], #[trigger] outs@[m]),
        decreases events@.len() - k,
    {
        let out = trigger(idx, &events[k]);
        outs.push(out);
        k = k + 1;
    }
    outs
}

} // verus!
