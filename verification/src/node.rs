//! The replay state ("configuration"): the set of currently reachable
//! automaton states together with the position of the next letter to
//! consume.

use vstd::prelude::*;

use crate::nfa::{is_state_set, lemma_state_set_extensional, within_universe, Nfa};

verus! {

/// One configuration of the analysis. `active_states` is kept strictly
/// increasing, so that two configurations hold the same state set exactly
/// when their vectors are equal element for element.
#[derive(Clone, PartialEq, Debug, Eq, Hash)]
pub struct NfaWordAnalysisNodeKind {
    pub active_states: Vec<usize>,
    pub pos_in_trace: usize,
}

impl NfaWordAnalysisNodeKind {
    /// The active states, as a set.
    pub open spec fn active(&self) -> Set<usize> {
        self.active_states@.to_set()
    }

    /// The active states form a state set within the automaton's universe.
    pub open spec fn wf(&self, nfa: &Nfa) -> bool {
        &&& is_state_set(self.active_states@)
        &&& within_universe(self.active_states@, nfa.n_states)
    }

    pub fn new(active_states: Vec<usize>, pos_in_trace: usize) -> (r: Self)
        ensures
            r.active_states == active_states,
            r.pos_in_trace == pos_in_trace,
    {
        NfaWordAnalysisNodeKind { active_states, pos_in_trace }
    }

    /// Structural subsumption, used by a driver to bound its exploration:
    /// this configuration is redundant with respect to `memoized_node`
    /// exactly when both hold the same active states and the same position.
    pub fn is_included_for_memoization(&self, memoized_node: &Self) -> (r: bool)
        requires
            is_state_set(self.active_states@),
            is_state_set(memoized_node.active_states@),
        ensures
            r == (self.active() == memoized_node.active() && self.pos_in_trace
                == memoized_node.pos_in_trace),
    {
        if self.pos_in_trace != memoized_node.pos_in_trace {
            return false;
        }
        if self.active_states.len() != memoized_node.active_states.len() {
            proof {
                if self.active() == memoized_node.active() {
                    lemma_state_set_extensional(
                        self.active_states@,
                        memoized_node.active_states@,
                    );
                }
            }
            return false;
        }
        let mut i: usize = 0;
        while i < self.active_states.len()
            invariant
                is_state_set(self.active_states@),
                is_state_set(memoized_node.active_states@),
                self.active_states@.len() == memoized_node.active_states@.len(),
                i <= self.active_states@.len(),
                forall|j: int|
                    0 <= j < i ==> self.active_states@[j] == memoized_node.active_states@[j],
            decreases self.active_states@.len() - i,
        {
            if self.active_states[i] != memoized_node.active_states[i] {
                proof {
                    if self.active() == memoized_node.active() {
                        lemma_state_set_extensional(
                            self.active_states@,
                            memoized_node.active_states@,
                        );
                    }
                }
                return false;
            }
            i += 1;
        }
        proof {
            assert(self.active_states@ =~= memoized_node.active_states@);
        }
        true
    }
}

} // verus!
