//! The decaying radial force field: emitters push on receivers, receivers
//! accumulate a displacement force that springs back over time.

use vstd::prelude::*;
use crate::hex::{max_val, min_val};
use crate::scalar::{EPSILON, SCALAR_MAX, SCALE, in_scalar_range, isqrt};

verus! {

/// Emits force in a radius around it.  Strength falls off linearly with
/// distance and reaches zero at `radius`.
#[derive(Clone, Copy, Debug, PartialEq, Eq, Structural)]
pub struct ForceEmitter {
    pub radius: i64,
    pub strength: i64,
}

/// Receives force from emitters; `restitution_coefficient` is the fraction of
/// the accumulated force shed per second of relaxation.
#[derive(Clone, Copy, Debug, PartialEq, Eq, Structural)]
pub struct ForceReceiver {
    pub restitution_coefficient: i64,
}

/// The force a receiver has accumulated so far.  `is_applied` marks receivers
/// that are still being evaluated by the relaxation pass; an idle receiver
/// has force zero and is skipped until an emitter reaches it again.
#[derive(Clone, Copy, Debug, PartialEq, Eq, Structural)]
pub struct Force {
    pub force: i64,
    pub is_applied: bool,
}

impl ForceEmitter {
    pub open spec fn wf(self) -> bool {
        0 < self.radius <= SCALAR_MAX && 0 <= self.strength <= SCALAR_MAX
    }

    /// Field strength at a given distance from the emitter: full strength at
    /// the center (and, defensively, for negative distances), zero beyond the
    /// radius, and a linear falloff in between.
    pub open spec fn spec_strength_at(self, distance: int) -> int {
        if distance < 0 {
            self.strength as int
        } else if distance > self.radius {
            0
        } else {
            ((self.radius as int) - distance) * (self.strength as int) / (self.radius as int)
        }
    }

    pub fn strength_at(&self, distance: i64) -> (s: i64)
        requires
            self.wf(),
            in_scalar_range(distance as int),
        ensures
            s as int == self.spec_strength_at(distance as int),
            0 <= s <= self.strength,
    {
        if distance < 0 {
            return self.strength;
        }
        if distance > self.radius {
            return 0;
        }
        let diff: i64 = self.radius - distance;
        proof {
            assert((diff as int) * (self.strength as int)
                <= (self.radius as int) * (self.strength as int)) by (nonlinear_arith)
                requires
                    0 <= diff <= self.radius,
                    0 <= self.strength,
            ;
            vstd::arithmetic::div_mod::lemma_div_is_ordered(
                (diff as int) * (self.strength as int),
                (self.radius as int) * (self.strength as int),
                self.radius as int,
            );
            vstd::arithmetic::div_mod::lemma_div_by_multiple(
                self.strength as int,
                self.radius as int,
            );
            assert((diff as int) * (self.strength as int)
                <= (SCALAR_MAX as int) * (SCALAR_MAX as int)) by (nonlinear_arith)
                requires
                    0 <= diff <= SCALAR_MAX,
                    0 <= self.strength <= SCALAR_MAX,
            ;
        }
        let num: u128 = (diff as u128) * (self.strength as u128);
        let q: u128 = num / (self.radius as u128);
        q as i64
    }
}

impl Default for ForceEmitter {
    /// The stock emitter: strength `10.0`, radius `5.0`.
    fn default() -> (e: Self)
        ensures
            e.strength == 10 * SCALE,
            e.radius == 5 * SCALE,
    {
        ForceEmitter { radius: 5 * SCALE, strength: 10 * SCALE }
    }
}

impl ForceReceiver {
    pub open spec fn wf(self) -> bool {
        0 <= self.restitution_coefficient <= SCALAR_MAX
    }
}

impl Default for ForceReceiver {
    /// The stock receiver sheds half its force per second.
    fn default() -> (r: Self)
        ensures
            r.restitution_coefficient == SCALE / 2,
    {
        ForceReceiver { restitution_coefficient: SCALE / 2 }
    }
}

impl Force {
    pub open spec fn wf(self) -> bool {
        0 <= self.force <= SCALAR_MAX
    }
}

impl Default for Force {
    fn default() -> (f: Self)
        ensures
            f.force == 0 && !f.is_applied,
    {
        Force { force: 0, is_applied: false }
    }
}

/// What one emitter adds to a receiver's force over a tick of length `dt`:
/// the field strength at the receiver's distance, integrated over the tick.
pub open spec fn spec_contribution(emitter: ForceEmitter, distance: int, dt: int) -> int {
    emitter.spec_strength_at(distance) * dt / (SCALE as int)
}

/// How much force a relaxation tick of length `dt` sheds, proportional to the
/// current force and the receiver's restitution coefficient.
pub open spec fn spec_decay(force: int, restitution: int, dt: int) -> int {
    force * restitution * dt / ((SCALE as int) * (SCALE as int))
}

/// Accumulate the force one emitter applies to one receiver this tick.
/// Receivers outside the emitter's radius are untouched; others gain the
/// emitter's contribution (saturating at `SCALAR_MAX`) and become applied as
/// soon as any contribution is nonzero.
pub fn accumulate(force: &mut Force, emitter: &ForceEmitter, distance: i64, dt: i64)
    requires
        old(force).wf(),
        emitter.wf(),
        0 <= distance <= SCALAR_MAX,
        0 <= dt <= SCALAR_MAX,
    ensures
        final(force).wf(),
        distance > emitter.radius ==> *final(force) == *old(force),
        distance <= emitter.radius ==> {
            let gain = spec_contribution(*emitter, distance as int, dt as int);
            final(force).force == min_val(old(force).force + gain, SCALAR_MAX as int)
                && final(force).is_applied == (old(force).is_applied || gain > 0)
        },
{
    if distance > emitter.radius {
        return;
    }
    let s: i64 = emitter.strength_at(distance);
    proof {
        assert((s as int) * (dt as int) <= (SCALAR_MAX as int) * (SCALAR_MAX as int))
            by (nonlinear_arith)
            requires
                0 <= s <= SCALAR_MAX,
                0 <= dt <= SCALAR_MAX,
        ;
        vstd::arithmetic::div_mod::lemma_div_is_ordered(
            (s as int) * (dt as int),
            (SCALAR_MAX as int) * (SCALAR_MAX as int),
            SCALE as int,
        );
        assert((SCALAR_MAX as int) * (SCALAR_MAX as int) / (SCALE as int)
            == 1_000_000_000_000_000_000int);
        vstd::arithmetic::div_mod::lemma_div_pos_is_pos((s as int) * (dt as int), SCALE as int);
    }
    let gain: u128 = (s as u128) * (dt as u128) / (SCALE as u128);
    let c: i64 = gain as i64;
    let sum: i64 = force.force + c;
    force.force = if sum > SCALAR_MAX {
        SCALAR_MAX
    } else {
        sum
    };
    force.is_applied = force.is_applied || c > 0;
}

/// The accumulation state `(force, is_applied)` after one emitter at the
/// given distance has acted on it.
pub open spec fn spec_accumulate_step(
    st: (int, bool),
    emitter: ForceEmitter,
    distance: int,
    dt: int,
) -> (int, bool) {
    if distance > emitter.radius {
        st
    } else {
        let gain = spec_contribution(emitter, distance, dt);
        (min_val(st.0 + gain, SCALAR_MAX as int), st.1 || gain > 0)
    }
}

/// The accumulation state after every emitter of the list, in order, has
/// acted on a receiver that started in state `st`.  Contributions within one
/// tick are additive.
pub open spec fn spec_accumulate_all(
    st: (int, bool),
    emitters: Seq<(ForceEmitter, i64)>,
    dt: int,
) -> (int, bool)
    decreases emitters.len(),
{
    if emitters.len() == 0 {
        st
    } else {
        spec_accumulate_step(
            spec_accumulate_all(st, emitters.drop_last(), dt),
            emitters.last().0,
            emitters.last().1 as int,
            dt,
        )
    }
}

/// Accumulate the force of every emitter in range onto one receiver, each
/// paired with its distance to the receiver.  The per-tick counterpart of
/// `accumulate` for the whole emitter set.
pub fn accumulate_all(force: &mut Force, emitters: &Vec<(ForceEmitter, i64)>, dt: i64)
    requires
        old(force).wf(),
        0 <= dt <= SCALAR_MAX,
        forall|i: int| 0 <= i < emitters@.len() ==> (#[trigger] emitters@[i]).0.wf()
            && 0 <= emitters@[i].1 <= SCALAR_MAX,
    ensures
        final(force).wf(),
        ({
            let st = spec_accumulate_all(
                (old(force).force as int, old(force).is_applied),
                emitters@,
                dt as int,
            );
            final(force).force == st.0 && final(force).is_applied == st.1
        }),
{
    let mut i: usize = 0;
    while i < emitters.len()
        invariant
            force.wf(),
            i <= emitters@.len(),
            0 <= dt <= SCALAR_MAX,
            forall|j: int| 0 <= j < emitters@.len() ==> (#[trigger] emitters@[j]).0.wf()
                && 0 <= emitters@[j].1 <= SCALAR_MAX,
            ({
                let st = spec_accumulate_all(
                    (old(force).force as int, old(force).is_applied),
                    emitters@.subrange(0, i as int),
                    dt as int,
                );
                force.force == st.0 && force.is_applied == st.1
            }),
        decreases emitters@.len() - i,
    {
        let pair = emitters[i];
        accumulate(force, &pair.0, pair.1, dt);
        proof {
            assert(emitters@.subrange(0, i + 1).drop_last() =~= emitters@.subrange(0, i as int));
            assert(emitters@.subrange(0, i + 1).last() == emitters@[i as int]);
        }
        i = i + 1;
    }
    proof {
        assert(emitters@.subrange(0, emitters@.len() as int) =~= emitters@);
    }
}

/// One relaxation tick for a receiver that is currently applied: forces
/// below `EPSILON` snap to exactly zero and the receiver goes idle; larger
/// forces shed their decay, never dropping below zero.  Idle receivers are
/// left untouched.
pub fn relax(force: &mut Force, receiver: &ForceReceiver, dt: i64)
    requires
        old(force).wf(),
        receiver.wf(),
        0 <= dt <= SCALAR_MAX,
    ensures
        final(force).wf(),
        !old(force).is_applied ==> *final(force) == *old(force),
        old(force).is_applied && old(force).force < EPSILON ==> final(force).force == 0
            && !final(force).is_applied,
        old(force).is_applied && old(force).force >= EPSILON ==> final(force).is_applied
            && final(force).force == max_val(
            old(force).force - spec_decay(
                old(force).force as int,
                receiver.restitution_coefficient as int,
                dt as int,
            ),
            0,
        ),
{
    if !force.is_applied {
        return;
    }
    if force.force < EPSILON {
        force.force = 0;
        force.is_applied = false;
        return;
    }
    proof {
        assert((force.force as int) * (receiver.restitution_coefficient as int)
            <= (SCALAR_MAX as int) * (SCALAR_MAX as int)) by (nonlinear_arith)
            requires
                0 <= force.force <= SCALAR_MAX,
                0 <= receiver.restitution_coefficient <= SCALAR_MAX,
        ;
        assert((force.force as int) * (receiver.restitution_coefficient as int) * (dt as int)
            <= (SCALAR_MAX as int) * (SCALAR_MAX as int) * (SCALAR_MAX as int))
            by (nonlinear_arith)
            requires
                0 <= (force.force as int) * (receiver.restitution_coefficient as int) <= (
                SCALAR_MAX as int) * (SCALAR_MAX as int),
                0 <= dt <= SCALAR_MAX,
        ;
    }
    let num: u128 = (force.force as u128) * (receiver.restitution_coefficient as u128) * (
    dt as u128);
    let scale_sq: u128 = 1_000_000_000_000;
    proof {
        assert((SCALE as int) * (SCALE as int) == 1_000_000_000_000int);
    }
    let decay: u128 = num / scale_sq;
    if decay >= force.force as u128 {
        force.force = 0;
    } else {
        force.force = force.force - decay as i64;
    }
}

/// The squared distance between two fixed-point plane positions, in units of
/// `SCALE` squared.  Exact; used for radius tests without a square root.
pub open spec fn spec_dist_sq(a: (int, int), b: (int, int)) -> int {
    (a.0 - b.0) * (a.0 - b.0) + (a.1 - b.1) * (a.1 - b.1)
}

/// The distance between two fixed-point plane positions, rounded down to a
/// whole number of stored units.
pub fn distance_between(ax: i64, ay: i64, bx: i64, by: i64) -> (d: i64)
    requires
        in_scalar_range(ax as int),
        in_scalar_range(ay as int),
        in_scalar_range(bx as int),
        in_scalar_range(by as int),
    ensures
        0 <= d,
        (d as int) * (d as int) <= spec_dist_sq((ax as int, ay as int), (bx as int, by as int))
            < (d as int + 1) * (d as int + 1),
{
    let dx: i64 = ax - bx;
    let dy: i64 = ay - by;
    proof {
        assert((dx as int) * (dx as int) <= 4_000_000_000_000i64 as int * 4_000_000_000_000i64 as int
            && (dx as int) * (dx as int) >= 0) by (nonlinear_arith)
            requires
                -4_000_000_000_000i64 <= dx <= 4_000_000_000_000i64,
        ;
        assert((dy as int) * (dy as int) <= 4_000_000_000_000i64 as int * 4_000_000_000_000i64 as int
            && (dy as int) * (dy as int) >= 0) by (nonlinear_arith)
            requires
                -4_000_000_000_000i64 <= dy <= 4_000_000_000_000i64,
        ;
    }
    let sq: i128 = (dx as i128) * (dx as i128) + (dy as i128) * (dy as i128);
    let d: u64 = isqrt(sq as u128);
    d as i64
}

} // verus!
