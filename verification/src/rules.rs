//! The transition rule of the automaton: which states count as alive, and
//! what a cell becomes in the next generation.

use vstd::prelude::*;

verus! {

/// Live neighbours a fully alive cell needs in order to stay fully alive.
pub const NEIGHBOURS_TO_SURVIVE: u32 = 4;

/// Live neighbours a dead cell needs in order to come alive.
pub const NEIGHBOURS_TO_BECOME_ALIVE: u32 = 4;

/// State of a fully alive cell.
pub const STATE_VALUE: u32 = 3;

/// Whether a decaying cell counts as alive.
pub const DYING_COUNTS_AS_NEIGHBOUR: bool = true;

/// The parameters of the rule.
///
/// A cell state is a number from `0` (dead) to `full_life` (fully alive);
/// the states strictly between are the decaying ones.
#[derive(Clone, Copy, Debug, PartialEq, Eq, Structural)]
pub struct Rules {
    /// State of a fully alive cell.
    pub full_life: u32,
    /// A fully alive cell stays so with exactly this many live neighbours.
    pub survive: u32,
    /// A dead cell comes alive with exactly this many live neighbours.
    pub birth: u32,
    /// Whether decaying cells count as alive.
    pub decaying_counts: bool,
}

impl Rules {
    /// The default rule: full life is three, survival and birth take
    /// exactly four live neighbours, and decaying cells count as alive.
    pub open spec fn standard() -> Rules {
        Rules {
            full_life: STATE_VALUE,
            survive: NEIGHBOURS_TO_SURVIVE,
            birth: NEIGHBOURS_TO_BECOME_ALIVE,
            decaying_counts: DYING_COUNTS_AS_NEIGHBOUR,
        }
    }

    /// Dead and fully alive are different states.
    pub open spec fn valid(self) -> bool {
        self.full_life >= 1
    }

    /// The liveness predicate on a cell state.
    pub open spec fn counts_as_alive(self, state: nat) -> bool {
        if self.decaying_counts {
            state != 0
        } else {
            state == self.full_life
        }
    }

    /// The state that follows `state` in a cell with `neighbours` live
    /// neighbours.
    pub open spec fn next_state(self, state: nat, neighbours: nat) -> nat {
        if state == self.full_life {
            if neighbours == self.survive {
                state
            } else {
                (state - 1) as nat
            }
        } else if state == 0 {
            if neighbours == self.birth {
                self.full_life as nat
            } else {
                0
            }
        } else {
            (state - 1) as nat
        }
    }

    /// The rule with the given parameters.
    pub fn new(full_life: u32, survive: u32, birth: u32, decaying_counts: bool) -> (rules: Rules)
        ensures
            rules == (Rules { full_life, survive, birth, decaying_counts }),
    {
        Rules { full_life, survive, birth, decaying_counts }
    }

    /// Whether the parameters describe a rule.
    pub fn is_valid(&self) -> (ok: bool)
        ensures
            ok == self.valid(),
    {
        self.full_life >= 1
    }

    /// Applies the liveness predicate to a cell state.
    pub fn is_alive(&self, state: u32) -> (alive: bool)
        ensures
            alive == self.counts_as_alive(state as nat),
    {
        if self.decaying_counts {
            state != 0
        } else {
            state == self.full_life
        }
    }
}

impl Default for Rules {
    /// The default rule.
    fn default() -> (rules: Rules)
        ensures
            rules == Rules::standard(),
            rules.valid(),
    {
        Rules {
            full_life: STATE_VALUE,
            survive: NEIGHBOURS_TO_SURVIVE,
            birth: NEIGHBOURS_TO_BECOME_ALIVE,
            decaying_counts: DYING_COUNTS_AS_NEIGHBOUR,
        }
    }
}

} // verus!
