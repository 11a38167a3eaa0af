//! Score and combo tracking.  Every scored hit is multiplied by the length of
//! the trigger chain that caused it and by the running combo; the combo
//! expires when its timer runs out between hits.

use vstd::prelude::*;
use crate::scalar::SCALE;
use crate::timer::Timer;

verus! {

/// The player's running total, combo state and record statistics.
#[derive(Clone, Copy, Debug, PartialEq, Eq, Structural)]
pub struct PlayerScore {
    /// The total score.
    pub score: u128,
    /// The current combo; each hit is multiplied by it.
    pub combo: u128,
    /// The combo resets when this timer finishes; it restarts whenever the
    /// score increases.
    pub combo_timer: Timer,
    /// The highest combo reached so far.
    pub highest_combo: u128,
    /// The longest trigger chain scored so far.
    pub highest_chain: usize,
}

/// Raised by the damage-resolution step to credit the player.
#[derive(Clone, Copy, Debug, PartialEq, Eq, Structural)]
pub struct IncreaseScoreEvent {
    /// The amount to add, before chain and combo multipliers.
    pub score: u128,
    /// How many triggers were chained before this hit.
    pub chain_length: usize,
}

impl PlayerScore {
    pub open spec fn wf(self) -> bool {
        self.combo_timer.wf()
    }

    /// The multiplied value of one scored hit against this state.
    pub open spec fn spec_hit_value(self, ev: IncreaseScoreEvent) -> int {
        ev.score * (1 + ev.chain_length) * (if self.combo == 0 {
            1int
        } else {
            self.combo as int
        })
    }

    /// Tick the combo timer during a quiet frame; when it finishes, the combo
    /// is lost.  Returns true when the combo was reset this frame.
    pub fn tick_combo(&mut self, dt: i64) -> (reset: bool)
        requires
            old(self).wf(),
            0 <= dt <= crate::scalar::SCALAR_MAX,
        ensures
            final(self).wf(),
            final(self).combo_timer.duration == old(self).combo_timer.duration,
            final(self).combo_timer.elapsed == crate::hex::min_val(
                old(self).combo_timer.elapsed + dt,
                old(self).combo_timer.duration as int,
            ),
            reset == final(self).combo_timer.spec_finished(),
            reset ==> final(self).combo == 0,
            !reset ==> final(self).combo == old(self).combo,
            final(self).score == old(self).score,
            final(self).highest_combo == old(self).highest_combo,
            final(self).highest_chain == old(self).highest_chain,
    {
        self.combo_timer.tick(dt);
        if self.combo_timer.finished() {
            self.combo = 0;
            true
        } else {
            false
        }
    }

    /// Credit one scored hit: add its multiplied value, grow the combo,
    /// restart the combo timer and keep the record statistics current.
    pub fn increase_score(&mut self, ev: IncreaseScoreEvent)
        requires
            old(self).wf(),
            old(self).score + old(self).spec_hit_value(ev) <= u128::MAX,
            old(self).combo < u128::MAX,
        ensures
            final(self).wf(),
            final(self).score == old(self).score + old(self).spec_hit_value(ev),
            final(self).combo == old(self).combo + 1,
            final(self).combo_timer.elapsed == 0,
            final(self).combo_timer.duration == old(self).combo_timer.duration,
            final(self).highest_combo == if old(self).combo + 1 > old(self).highest_combo {
                old(self).combo + 1
            } else {
                old(self).highest_combo as int
            },
            final(self).highest_chain == if ev.chain_length > old(self).highest_chain {
                ev.chain_length
            } else {
                old(self).highest_chain
            },
    {
        self.combo_timer.reset();
        let chain_mult: u128 = 1 + ev.chain_length as u128;
        let combo_mult: u128 = if self.combo == 0 {
            1
        } else {
            self.combo
        };
        proof {
            assert(ev.score * chain_mult * combo_mult == old(self).spec_hit_value(ev));
            assert(ev.score * chain_mult <= ev.score * chain_mult * combo_mult)
                by (nonlinear_arith)
                requires
                    combo_mult >= 1,
                    ev.score * chain_mult >= 0,
            ;
        }
        self.score = self.score + ev.score * chain_mult * combo_mult;
        self.combo = self.combo + 1;
        if self.combo > self.highest_combo {
            self.highest_combo = self.combo;
        }
        if ev.chain_length > self.highest_chain {
            self.highest_chain = ev.chain_length;
        }
    }
}

impl Default for PlayerScore {
    /// A fresh score: everything zero, with a one second combo window.
    fn default() -> (s: Self)
        ensures
            s.wf(),
            s.score == 0 && s.combo == 0 && s.highest_combo == 0 && s.highest_chain == 0,
            s.combo_timer.duration == SCALE,
    {
        PlayerScore {
            score: 0,
            combo: 0,
            combo_timer: Timer::new(SCALE),
            highest_combo: 0,
            highest_chain: 0,
        }
    }
}

} // verus!
