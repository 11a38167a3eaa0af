//! Unit health: damage and healing, with a death notice emitted exactly when
//! health first reaches zero.

use vstd::prelude::*;

verus! {

/// A unit's health.  Once `current` reaches zero the unit is dead and any
/// further damage or healing is ignored.
#[derive(Clone, Copy, Debug, PartialEq, Eq, Structural)]
pub struct Health {
    pub current: u16,
    pub max: u16,
}

/// Instruction to damage a unit, as raised by explosions and bullets.
#[derive(Clone, Copy, Debug, PartialEq, Eq, Structural)]
pub struct DamageEvent {
    pub target: u64,
    pub damage: u16,
}

/// Instruction to heal a unit.
#[derive(Clone, Copy, Debug, PartialEq, Eq, Structural)]
pub struct HealEvent {
    pub target: u64,
    pub heal: u16,
}

/// Emitted when a unit's health reaches zero.
#[derive(Clone, Copy, Debug, PartialEq, Eq, Structural)]
pub struct DiedEvent {
    pub entity: u64,
}

impl Health {
    pub open spec fn wf(self) -> bool {
        self.current <= self.max
    }

    pub fn new(max: u16) -> (h: Health)
        ensures
            h.wf(),
            h.current == max && h.max == max,
    {
        Health { max, current: max }
    }

    /// Apply damage.  Dead units are unaffected; damage past zero is lost.
    /// Returns true exactly when this damage killed the unit.
    pub fn apply_damage(&mut self, damage: u16) -> (died: bool)
        requires
            old(self).wf(),
        ensures
            final(self).wf(),
            final(self).max == old(self).max,
            old(self).current == 0 ==> final(self).current == 0 && !died,
            old(self).current > damage ==> final(self).current == old(self).current - damage
                && !died,
            0 < old(self).current <= damage ==> final(self).current == 0 && died,
    {
        if self.current == 0 {
            return false;
        }
        if self.current > damage {
            self.current = self.current - damage;
            false
        } else {
            self.current = 0;
            true
        }
    }

    /// Apply healing, capped at `max`.  Dead units are unaffected.
    pub fn apply_heal(&mut self, heal: u16)
        requires
            old(self).wf(),
        ensures
            final(self).wf(),
            final(self).max == old(self).max,
            old(self).current == 0 ==> final(self).current == 0,
            old(self).current > 0 ==> final(self).current as int == crate::hex::min_val(
                old(self).current + heal,
                old(self).max as int,
            ),
    {
        if self.current == 0 {
            return;
        }
        let sum: u32 = self.current as u32 + heal as u32;
        self.current = if sum > self.max as u32 {
            self.max
        } else {
            sum as u16
        };
    }
}

impl Default for Health {
    /// A fresh unit with a single hit point.
    fn default() -> (h: Self)
        ensures
            h.wf(),
            h.current == 1 && h.max == 1,
    {
        Health::new(1)
    }
}

} // verus!
