//! The explosion lifecycle: a timed area effect whose force emitter climbs or
//! decays each tick, and which applies one damage pulse when its delay timer
//! crosses its threshold.  The pulse damages every opposing unit in the area
//! exactly once and raises one trigger request per tower in the area, which
//! is how explosions extend trigger chains.

use vstd::prelude::*;
use crate::Team;
use crate::force::ForceEmitter;
use crate::health::DamageEvent;
use crate::hex::HexCoord;
use crate::propagate::{CreateExplosionCommand, TriggerTowerEvent};
use crate::propagate::copy_history;
use crate::scalar::{SCALAR_MAX, SCALE, in_scalar_range};
use crate::spatial::SpatialIndex;
use crate::timer::Timer;

verus! {

/// How the damage area of an explosion is bounded: by a world-space radius
/// (fixed-point) or by a number of hex rings.
#[derive(Clone, Copy, Debug, PartialEq, Eq, Structural)]
pub enum ExplosionDamageArea {
    Radius(i64),
    Hex(u32),
}

impl ExplosionDamageArea {
    pub open spec fn wf(self) -> bool {
        match self {
            ExplosionDamageArea::Radius(r) => 0 <= r <= SCALAR_MAX,
            ExplosionDamageArea::Hex(n) => n <= 1_000_000,
        }
    }

    /// The hex range the area covers: the ring count itself, or the radius
    /// rounded up to whole cells.
    pub open spec fn spec_hex_range(self) -> int {
        match self {
            ExplosionDamageArea::Radius(r) => ((r as int) + (SCALE as int) - 1) / (SCALE as int),
            ExplosionDamageArea::Hex(n) => n as int,
        }
    }

    pub fn hex_range(self) -> (n: u32)
        requires
            self.wf(),
        ensures
            n as int == self.spec_hex_range(),
            n <= 1_000_000,
    {
        match self {
            ExplosionDamageArea::Radius(r) => {
                let n: i64 = (r + SCALE - 1) / SCALE;
                proof {
                    assert(((r as int) + (SCALE as int) - 1) / (SCALE as int)
                        <= (SCALAR_MAX as int + SCALE as int - 1) / (SCALE as int)) by {
                        vstd::arithmetic::div_mod::lemma_div_is_ordered(
                            (r as int) + (SCALE as int) - 1,
                            SCALAR_MAX as int + SCALE as int - 1,
                            SCALE as int,
                        );
                    }
                    assert((SCALAR_MAX as int + SCALE as int - 1) / (SCALE as int) == 1_000_000int);
                    assert(((r as int) + (SCALE as int) - 1) / (SCALE as int) >= 0) by {
                        vstd::arithmetic::div_mod::lemma_div_pos_is_pos(
                            (r as int) + (SCALE as int) - 1,
                            SCALE as int,
                        );
                    }
                }
                n as u32
            },
            ExplosionDamageArea::Hex(n) => n,
        }
    }
}

/// A live explosion.  It expires when `timer` finishes; its one damage pulse
/// fires when `damage_timer` crosses its threshold.
#[derive(Debug)]
pub struct Explosion {
    /// The explosion never damages this team.
    pub team: Team,
    /// Lifetime: the explosion is destroyed when this finishes.
    pub timer: Timer,
    /// Delay until the one-shot damage pulse.
    pub damage_timer: Timer,
    /// Damage dealt to each unit in the area.
    pub damage: u16,
    /// The bound of the damage area.
    pub damage_area: ExplosionDamageArea,
    /// Emitter strength changes by this much per second, clamped at zero.
    pub strength_modifier: i64,
    /// The trigger chain that caused this explosion.
    pub trigger_history: Vec<u64>,
}

/// A unit the damage pulse may hit: its id, team and fixed-point world
/// position.
#[derive(Clone, Copy, Debug, PartialEq, Eq, Structural)]
pub struct UnitInfo {
    pub id: u64,
    pub team: Team,
    pub x: i64,
    pub y: i64,
}

/// What one damage pulse produced.
#[derive(Debug)]
pub struct ExplosionDamageOutput {
    /// Whether the pulse fired this tick.  At most one tick ever fires.
    pub fired: bool,
    /// One damage instruction per opposing unit in the area.
    pub damage: Vec<DamageEvent>,
    /// One trigger request per tower in the area, carrying the explosion's
    /// own chain history.
    pub triggers: Vec<TriggerTowerEvent>,
    /// The chain length to report when this pulse scores.
    pub chain_length: usize,
}

impl Explosion {
    pub open spec fn wf(self) -> bool {
        &&& self.timer.wf()
        &&& self.damage_timer.wf()
        &&& in_scalar_range(self.strength_modifier as int)
        &&& self.damage_area.wf()
    }

    /// The modifier integrated over one tick, rounded toward zero.
    pub open spec fn spec_rate(modifier: int, dt: int) -> int {
        if modifier >= 0 {
            modifier * dt / (SCALE as int)
        } else {
            -((-modifier) * dt / (SCALE as int))
        }
    }

    /// The emitter strength after one tick of modulation: moved by the
    /// per-second modifier, clamped to the valid scalar range.
    pub open spec fn spec_strength_step(strength: int, modifier: int, dt: int) -> int {
        let raw = strength + Self::spec_rate(modifier, dt);
        if raw < 0 {
            0
        } else if raw > SCALAR_MAX {
            SCALAR_MAX as int
        } else {
            raw
        }
    }

    /// Build a live explosion and its force emitter from a creation
    /// command, as raised by the propagation engine or directly by the host
    /// (for example a player weapon, with an empty history).
    pub fn from_command(cmd: CreateExplosionCommand) -> (r: (Explosion, ForceEmitter))
        requires
            0 <= cmd.duration <= SCALAR_MAX,
            0 <= cmd.damage_delay <= SCALAR_MAX,
            0 < cmd.radius <= SCALAR_MAX,
            0 <= cmd.strength <= SCALAR_MAX,
            in_scalar_range(cmd.strength_modifier as int),
            cmd.damage_area.wf(),
        ensures
            r.0.wf(),
            r.1.wf(),
            r.0.team == cmd.team,
            r.0.timer.duration == cmd.duration && r.0.timer.elapsed == 0,
            r.0.damage_timer.duration == cmd.damage_delay && r.0.damage_timer.elapsed == 0,
            r.0.damage == cmd.damage,
            r.0.damage_area == cmd.damage_area,
            r.0.strength_modifier == cmd.strength_modifier,
            r.0.trigger_history@ == cmd.trigger_history@,
            r.1.strength == cmd.strength,
            r.1.radius == cmd.radius,
    {
        let explosion = Explosion {
            team: cmd.team,
            timer: Timer::new(cmd.duration),
            damage_timer: Timer::new(cmd.damage_delay),
            damage: cmd.damage,
            damage_area: cmd.damage_area,
            strength_modifier: cmd.strength_modifier,
            trigger_history: cmd.trigger_history,
        };
        let emitter = ForceEmitter { strength: cmd.strength, radius: cmd.radius };
        (explosion, emitter)
    }

    /// One lifecycle tick: advance the lifetime timer; an explosion whose
    /// lifetime has finished is expired (the caller destroys it, whatever the
    /// damage state).  A live explosion's emitter strength moves by the
    /// modifier, clamped at zero.
    pub fn update(&mut self, emitter: &mut ForceEmitter, dt: i64) -> (expired: bool)
        requires
            old(self).wf(),
            old(emitter).wf(),
            0 <= dt <= SCALAR_MAX,
        ensures
            final(self).wf(),
            final(emitter).wf(),
            expired == final(self).timer.spec_finished(),
            final(self).timer.duration == old(self).timer.duration,
            final(self).damage_timer == old(self).damage_timer,
            final(self).team == old(self).team,
            final(self).damage == old(self).damage,
            final(self).damage_area == old(self).damage_area,
            final(self).strength_modifier == old(self).strength_modifier,
            final(self).trigger_history == old(self).trigger_history,
            final(self).timer.elapsed == crate::hex::min_val(
                old(self).timer.elapsed + dt,
                old(self).timer.duration as int,
            ),
            expired ==> *final(emitter) == *old(emitter),
            !expired ==> final(emitter).radius == old(emitter).radius
                && final(emitter).strength as int == Self::spec_strength_step(
                old(emitter).strength as int,
                old(self).strength_modifier as int,
                dt as int,
            ),
    {
        self.timer.tick(dt);
        if self.timer.finished() {
            return true;
        }
        let neg = self.strength_modifier < 0;
        let mag: i64 = if neg {
            -self.strength_modifier
        } else {
            self.strength_modifier
        };
        proof {
            assert((mag as int) * (dt as int) <= (SCALAR_MAX as int) * (SCALAR_MAX as int))
                by (nonlinear_arith)
                requires
                    0 <= mag <= SCALAR_MAX,
                    0 <= dt <= SCALAR_MAX,
            ;
            assert((SCALAR_MAX as int) * (SCALAR_MAX as int) / (SCALE as int)
                == 1_000_000_000_000_000_000int);
            vstd::arithmetic::div_mod::lemma_div_is_ordered(
                (mag as int) * (dt as int),
                (SCALAR_MAX as int) * (SCALAR_MAX as int),
                SCALE as int,
            );
            vstd::arithmetic::div_mod::lemma_div_pos_is_pos((mag as int) * (dt as int), SCALE as int);
        }
        let step_mag: u128 = (mag as u128) * (dt as u128) / (SCALE as u128);
        let raw: i128 = if neg {
            (emitter.strength as i128) - (step_mag as i128)
        } else {
            (emitter.strength as i128) + (step_mag as i128)
        };
        emitter.strength = if raw < 0 {
            0
        } else if raw > SCALAR_MAX as i128 {
            SCALAR_MAX
        } else {
            raw as i64
        };
        false
    }

    /// One damage-delay tick.  On the single tick where the delay finishes,
    /// the pulse fires: every opposing unit in the damage area (and not the
    /// explosion's own object) is damaged exactly once, and every tower in
    /// the area receives exactly one trigger request carrying the explosion's
    /// chain history.
    pub fn apply_damage(
        &mut self,
        dt: i64,
        idx: &SpatialIndex,
        center: HexCoord,
        center_x: i64,
        center_y: i64,
        self_id: u64,
        units: &Vec<UnitInfo>,
    ) -> (out: ExplosionDamageOutput)
        requires
            old(self).wf(),
            idx.wf(),
            0 <= dt <= SCALAR_MAX,
            in_scalar_range(center_x as int),
            in_scalar_range(center_y as int),
            forall|i: int, j: int|
                0 <= i < j < units@.len() ==> (#[trigger] units@[i]).id != (
                #[trigger] units@[j]).id,
            forall|i: int|
                0 <= i < units@.len() ==> in_scalar_range((#[trigger] units@[i]).x as int)
                    && in_scalar_range(units@[i].y as int),
        ensures
            final(self).wf(),
            final(self).timer == old(self).timer,
            final(self).team == old(self).team,
            final(self).damage == old(self).damage,
            final(self).damage_area == old(self).damage_area,
            final(self).strength_modifier == old(self).strength_modifier,
            final(self).trigger_history == old(self).trigger_history,
            final(self).damage_timer.duration == old(self).damage_timer.duration,
            final(self).damage_timer.elapsed == crate::hex::min_val(
                old(self).damage_timer.elapsed + dt,
                old(self).damage_timer.duration as int,
            ),
            out.fired == (!old(self).damage_timer.spec_finished()
                && final(self).damage_timer.spec_finished()),
            !out.fired ==> out.damage@.len() == 0 && out.triggers@.len() == 0,
            out.chain_length == old(self).trigger_history@.len(),
            out.fired ==> {
                let range = old(self).damage_area.spec_hex_range();
                let history = old(self).trigger_history@;
                &&& forall|k: int|
                    0 <= k < out.triggers@.len() ==> (#[trigger] out.triggers@[k]).trigger_history@
                        == history
                &&& forall|k1: int, k2: int|
                    0 <= k1 < k2 < out.triggers@.len() ==> (#[trigger] out.triggers@[k1]).target
                        != (#[trigger] out.triggers@[k2]).target
                &&& forall|id: u64|
                    tower_targeted(out.triggers@, id) == tower_in_range(*idx, id, center, range)
                &&& forall|k: int|
                    0 <= k < out.damage@.len() ==> (#[trigger] out.damage@[k]).damage
                        == old(self).damage
                &&& forall|k1: int, k2: int|
                    0 <= k1 < k2 < out.damage@.len() ==> (#[trigger] out.damage@[k1]).target != (
                    #[trigger] out.damage@[k2]).target
                &&& forall|id: u64|
                    damage_targeted(out.damage@, id) == unit_hit(
                        units@,
                        *idx,
                        old(self).team,
                        old(self).damage_area,
                        center,
                        (center_x as int, center_y as int),
                        self_id,
                        id,
                    )
            },
    {
        let fired = self.damage_timer.tick(dt);
        let chain_length = self.trigger_history.len();
        if !fired {
            return ExplosionDamageOutput {
                fired: false,
                damage: Vec::new(),
                triggers: Vec::new(),
                chain_length,
            };
        }
        let range = self.damage_area.hex_range();
        let triggers = towers_in_range(idx, center, range, &self.trigger_history);
        let damage = units_in_range(
            idx,
            center,
            range,
            center_x,
            center_y,
            self_id,
            self.team,
            self.damage_area,
            self.damage,
            units,
        );
        ExplosionDamageOutput { fired: true, damage, triggers, chain_length }
    }
}

/// Some trigger request in the list targets this id.
pub open spec fn tower_targeted(ts: Seq<TriggerTowerEvent>, id: u64) -> bool {
    exists|k: int| 0 <= k < ts.len() && (#[trigger] ts[k]).target == id
}

/// Some damage instruction in the list targets this id.
pub open spec fn damage_targeted(ds: Seq<DamageEvent>, id: u64) -> bool {
    exists|k: int| 0 <= k < ds.len() && (#[trigger] ds[k]).target == id
}

/// A tower with this id is registered within `range` cells of `center`.
pub open spec fn tower_in_range(idx: SpatialIndex, id: u64, center: HexCoord, range: int) -> bool {
    exists|m: int|
        0 <= m < idx.placements@.len() && (#[trigger] idx.placements@[m]).id == id
            && HexCoord::spec_distance(center, idx.placements@[m].hex) <= range
}

/// The unit with this id takes the pulse: it is listed, tracked within the
/// area's hex range, not the explosion's own object, on the opposing team,
/// and (for a radius-bounded area) inside the exact world-space radius.
pub open spec fn unit_hit(
    units: Seq<UnitInfo>,
    idx: SpatialIndex,
    team: Team,
    area: ExplosionDamageArea,
    center: HexCoord,
    center_pos: (int, int),
    self_id: u64,
    id: u64,
) -> bool {
    exists|u: int|
        0 <= u < units.len() && (#[trigger] units[u]).id == id && id != self_id && units[u].team
            != team && idx.indexed_within(id, center, area.spec_hex_range()) && (match area {
            ExplosionDamageArea::Radius(r) => crate::force::spec_dist_sq(
                (units[u].x as int, units[u].y as int),
                center_pos,
            ) <= (r as int) * (r as int),
            ExplosionDamageArea::Hex(_) => true,
        })
}

/// One trigger request per tower within `range` cells of `center`, each
/// carrying a copy of `history`.
fn towers_in_range(idx: &SpatialIndex, center: HexCoord, range: u32, history: &Vec<u64>) -> (ts:
    Vec<TriggerTowerEvent>)
    requires
        idx.wf(),
    ensures
        forall|k: int| 0 <= k < ts@.len() ==> (#[trigger] ts@[k]).trigger_history@ == history@,
        forall|k1: int, k2: int|
            0 <= k1 < k2 < ts@.len() ==> (#[trigger] ts@[k1]).target != (
            #[trigger] ts@[k2]).target,
        forall|id: u64| tower_targeted(ts@, id) == tower_in_range(*idx, id, center, range as int),
{
    let mut ts: Vec<TriggerTowerEvent> = Vec::new();
    let ghost mut srcs: Seq<int> = Seq::empty();
    let mut m: usize = 0;
    while m < idx.placements.len()
        invariant
            idx.wf(),
            m <= idx.placements@.len(),
            srcs.len() == ts@.len(),
            forall|a: int|
                0 <= a < ts@.len() ==> 0 <= #[trigger] srcs[a] < m
                    && idx.placements@[srcs[a]].id == ts@[a].target && HexCoord::spec_distance(
                    center,
                    idx.placements@[srcs[a]].hex,
                ) <= range,
            forall|a: int| 0 <= a < ts@.len() ==> (#[trigger] ts@[a]).trigger_history@ == history@,
            forall|a: int, b: int| 0 <= a < b < srcs.len() ==> #[trigger] srcs[a] < #[trigger] srcs[b],
            forall|k: int|
                0 <= k < m && HexCoord::spec_distance(
                    center,
                    (#[trigger] idx.placements@[k]).hex,
                ) <= range ==> tower_targeted(ts@, idx.placements@[k].id),
        decreases idx.placements@.len() - m,
    {
        let p = idx.placements[m];
        if p.hex.distance(center) <= range as u64 {
            let ghost old_ts = ts@;
            ts.push(
                TriggerTowerEvent { target: p.id, trigger_history: copy_history(history) },
            );
            proof {
                srcs = srcs.push(m as int);
                assert((#[trigger] ts@[ts@.len() - 1]).target == p.id);
                assert(tower_targeted(ts@, p.id));
                assert forall|k: int|
                    0 <= k < m + 1 && HexCoord::spec_distance(
                        center,
                        (#[trigger] idx.placements@[k]).hex,
                    ) <= range implies tower_targeted(ts@, idx.placements@[k].id) by {
                    if k < m {
                        assert(tower_targeted(old_ts, idx.placements@[k].id));
                        let a = choose|a: int|
                            0 <= a < old_ts.len() && (#[trigger] old_ts[a]).target
                                == idx.placements@[k].id;
                        assert((#[trigger] ts@[a]).target == idx.placements@[k].id);
                    }
                }
            }
        } else {
            proof {
                assert forall|k: int|
                    0 <= k < m + 1 && HexCoord::spec_distance(
                        center,
                        (#[trigger] idx.placements@[k]).hex,
                    ) <= range implies tower_targeted(ts@, idx.placements@[k].id) by {
                    assert(k < m);
                }
            }
        }
        m = m + 1;
    }
    proof {
        assert forall|k1: int, k2: int| 0 <= k1 < k2 < ts@.len() implies (
        #[trigger] ts@[k1]).target != (#[trigger] ts@[k2]).target by {
            assert(srcs[k1] != srcs[k2]);
            if srcs[k1] < srcs[k2] {
                assert(idx.placements@[srcs[k1]].id != idx.placements@[srcs[k2]].id);
            } else {
                assert(idx.placements@[srcs[k2]].id != idx.placements@[srcs[k1]].id);
            }
        }
        assert forall|id: u64| #[trigger] tower_targeted(ts@, id) implies tower_in_range(
            *idx,
            id,
            center,
            range as int,
        ) by {
            let a = choose|a: int| 0 <= a < ts@.len() && (#[trigger] ts@[a]).target == id;
            assert(0 <= srcs[a] < idx.placements@.len() && (
            #[trigger] idx.placements@[srcs[a]]).id == id && HexCoord::spec_distance(
                center,
                idx.placements@[srcs[a]].hex,
            ) <= range);
        }
        assert forall|id: u64| tower_in_range(*idx, id, center, range as int) implies
            tower_targeted(ts@, id) by {
            let k = choose|k: int|
                0 <= k < idx.placements@.len() && (#[trigger] idx.placements@[k]).id == id
                    && HexCoord::spec_distance(center, idx.placements@[k].hex) <= range;
        }
    }
    ts
}

/// One damage instruction per opposing unit inside the damage area, the
/// explosion's own object excluded.
fn units_in_range(
    idx: &SpatialIndex,
    center: HexCoord,
    range: u32,
    center_x: i64,
    center_y: i64,
    self_id: u64,
    team: Team,
    area: ExplosionDamageArea,
    damage: u16,
    units: &Vec<UnitInfo>,
) -> (ds: Vec<DamageEvent>)
    requires
        idx.wf(),
        area.wf(),
        range as int == area.spec_hex_range(),
        in_scalar_range(center_x as int),
        in_scalar_range(center_y as int),
        forall|i: int, j: int|
            0 <= i < j < units@.len() ==> (#[trigger] units@[i]).id != (#[trigger] units@[j]).id,
        forall|i: int|
            0 <= i < units@.len() ==> in_scalar_range((#[trigger] units@[i]).x as int)
                && in_scalar_range(units@[i].y as int),
    ensures
        forall|k: int| 0 <= k < ds@.len() ==> (#[trigger] ds@[k]).damage == damage,
        forall|k1: int, k2: int|
            0 <= k1 < k2 < ds@.len() ==> (#[trigger] ds@[k1]).target != (
            #[trigger] ds@[k2]).target,
        forall|id: u64|
            damage_targeted(ds@, id) == unit_hit(
                units@,
                *idx,
                team,
                area,
                center,
                (center_x as int, center_y as int),
                self_id,
                id,
            ),
{
    let in_area = idx.query_range(center, range);
    let mut ds: Vec<DamageEvent> = Vec::new();
    let ghost mut srcs: Seq<int> = Seq::empty();
    let ghost cpos = (center_x as int, center_y as int);
    let mut u: usize = 0;
    while u < units.len()
        invariant
            idx.wf(),
            u <= units@.len(),
            srcs.len() == ds@.len(),
            forall|id: u64| #[trigger] in_area@.contains(id) <==> idx.indexed_within(
                id,
                center,
                range as int,
            ),
            range as int == area.spec_hex_range(),
            cpos == (center_x as int, center_y as int),
            forall|a: int|
                0 <= a < ds@.len() ==> 0 <= #[trigger] srcs[a] < u && unit_passes(
                    units@[srcs[a]],
                    *idx,
                    team,
                    area,
                    center,
                    cpos,
                    self_id,
                ) && units@[srcs[a]].id == ds@[a].target,
            forall|a: int| 0 <= a < ds@.len() ==> (#[trigger] ds@[a]).damage == damage,
            forall|a: int, b: int| 0 <= a < b < srcs.len() ==> #[trigger] srcs[a] < #[trigger] srcs[b],
            area.wf(),
            in_scalar_range(center_x as int),
            in_scalar_range(center_y as int),
            forall|i: int|
                0 <= i < units@.len() ==> in_scalar_range((#[trigger] units@[i]).x as int)
                    && in_scalar_range(units@[i].y as int),
            forall|k: int|
                0 <= k < u && unit_passes(
                    #[trigger] units@[k],
                    *idx,
                    team,
                    area,
                    center,
                    cpos,
                    self_id,
                ) ==> damage_targeted(ds@, units@[k].id),
            forall|i: int, j: int|
                0 <= i < j < units@.len() ==> (#[trigger] units@[i]).id != (
                #[trigger] units@[j]).id,
        decreases units@.len() - u,
    {
        let unit = units[u];
        let mut hit = unit.id != self_id;
        if hit && unit.team == team {
            hit = false;
        }
        if hit && !id_listed(&in_area, unit.id) {
            hit = false;
        }
        if hit {
            if let ExplosionDamageArea::Radius(r) = area {
                let dx: i128 = (unit.x as i128) - (center_x as i128);
                let dy: i128 = (unit.y as i128) - (center_y as i128);
                proof {
                    assert(dx * dx <= 4_000_000_000_000_000_000_000_000int && dx * dx >= 0)
                        by (nonlinear_arith)
                        requires
                            -2_000_000_000_000 <= dx <= 2_000_000_000_000,
                    ;
                    assert(dy * dy <= 4_000_000_000_000_000_000_000_000int && dy * dy >= 0)
                        by (nonlinear_arith)
                        requires
                            -2_000_000_000_000 <= dy <= 2_000_000_000_000,
                    ;
                    assert((r as int) * (r as int) <= 1_000_000_000_000_000_000_000_000int
                        && (r as int) * (r as int) >= 0) by (nonlinear_arith)
                        requires
                            0 <= r <= SCALAR_MAX,
                    ;
                }
                if dx * dx + dy * dy > (r as i128) * (r as i128) {
                    hit = false;
                }
            }
        }
        if hit {
            let ghost old_ds = ds@;
            ds.push(DamageEvent { target: unit.id, damage });
            proof {
                srcs = srcs.push(u as int);
                assert((#[trigger] ds@[ds@.len() - 1]).target == unit.id);
                assert(damage_targeted(ds@, unit.id));
                assert(unit_passes(units@[u as int], *idx, team, area, center, cpos, self_id));
                assert forall|k: int|
                    0 <= k < u + 1 && unit_passes(
                        #[trigger] units@[k],
                        *idx,
                        team,
                        area,
                        center,
                        cpos,
                        self_id,
                    ) implies damage_targeted(ds@, units@[k].id) by {
                    if k < u {
                        assert(damage_targeted(old_ds, units@[k].id));
                        let a = choose|a: int|
                            0 <= a < old_ds.len() && (#[trigger] old_ds[a]).target
                                == units@[k].id;
                        assert((#[trigger] ds@[a]).target == units@[k].id);
                    }
                }
            }
        } else {
            proof {
                assert(!unit_passes(units@[u as int], *idx, team, area, center, cpos, self_id));
                assert forall|k: int|
                    0 <= k < u + 1 && unit_passes(
                        #[trigger] units@[k],
                        *idx,
                        team,
                        area,
                        center,
                        cpos,
                        self_id,
                    ) implies damage_targeted(ds@, units@[k].id) by {
                    assert(k < u);
                }
            }
        }
        u = u + 1;
    }
    proof {
        assert forall|k1: int, k2: int| 0 <= k1 < k2 < ds@.len() implies (
        #[trigger] ds@[k1]).target != (#[trigger] ds@[k2]).target by {
            assert(srcs[k1] != srcs[k2]);
            if srcs[k1] < srcs[k2] {
                assert(units@[srcs[k1]].id != units@[srcs[k2]].id);
            } else {
                assert(units@[srcs[k2]].id != units@[srcs[k1]].id);
            }
        }
        assert forall|id: u64| #[trigger] damage_targeted(ds@, id) implies unit_hit(
            units@,
            *idx,
            team,
            area,
            center,
            cpos,
            self_id,
            id,
        ) by {
            let a = choose|a: int| 0 <= a < ds@.len() && (#[trigger] ds@[a]).target == id;
            assert(unit_passes(units@[srcs[a]], *idx, team, area, center, cpos, self_id));
            assert((#[trigger] units@[srcs[a]]).id == id);
        }
        assert forall|id: u64| unit_hit(
            units@,
            *idx,
            team,
            area,
            center,
            cpos,
            self_id,
            id,
        ) implies damage_targeted(ds@, id) by {
            let k = choose|k: int|
                0 <= k < units@.len() && (#[trigger] units@[k]).id == id && id != self_id
                    && units@[k].team != team && idx.indexed_within(
                    id,
                    center,
                    area.spec_hex_range(),
                ) && (match area {
                    ExplosionDamageArea::Radius(r) => crate::force::spec_dist_sq(
                        (units@[k].x as int, units@[k].y as int),
                        cpos,
                    ) <= (r as int) * (r as int),
                    ExplosionDamageArea::Hex(_) => true,
                });
            assert(unit_passes(units@[k], *idx, team, area, center, cpos, self_id));
        }
    }
    ds
}

/// The per-unit damage condition, phrased on one listed unit.
pub open spec fn unit_passes(
    unit: UnitInfo,
    idx: SpatialIndex,
    team: Team,
    area: ExplosionDamageArea,
    center: HexCoord,
    center_pos: (int, int),
    self_id: u64,
) -> bool {
    &&& unit.id != self_id
    &&& unit.team != team
    &&& idx.indexed_within(unit.id, center, area.spec_hex_range())
    &&& match area {
        ExplosionDamageArea::Radius(r) => crate::force::spec_dist_sq(
            (unit.x as int, unit.y as int),
            center_pos,
        ) <= (r as int) * (r as int),
        ExplosionDamageArea::Hex(_) => true,
    }
}

fn id_listed(v: &Vec<u64>, x: u64) -> (b: bool)
    ensures
        b == v@.contains(x),
{
    let mut i: usize = 0;
    while i < v.len()
        invariant
            i <= v@.len(),
            forall|k: int| 0 <= k < i ==> v@[k] != x,
        decreases v@.len() - i,
    {
        if v[i] == x {
            return true;
        }
        i = i + 1;
    }
    false
}

} // verus!
