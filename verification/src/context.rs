//! What one analysis reads: the automaton and the observed word.

use vstd::prelude::*;

use crate::nfa::Nfa;

verus! {

/// The read-only context of one analysis. Owned by the calling driver and
/// only read by the engine for the lifetime of the analysis.
pub struct NfaWordAnalysisContext {
    pub nfa: Nfa,
    pub word: Vec<usize>,
}

impl NfaWordAnalysisContext {
    /// The automaton is well formed and every letter of the word is one of
    /// its declared letters.
    pub open spec fn wf(&self) -> bool {
        &&& self.nfa.wf()
        &&& forall|i: int|
            0 <= i < self.word@.len() ==> #[trigger] self.word@[i] < self.nfa.n_letters
    }

    pub fn new(nfa: Nfa, word: Vec<usize>) -> (r: Self)
        ensures
            r.nfa == nfa,
            r.word == word,
    {
        NfaWordAnalysisContext { nfa, word }
    }

    /// Whether `wf` holds, checked at run time; the boundary that receives
    /// an automaton and a word from outside uses this before starting an
    /// analysis.
    pub fn is_well_formed(&self) -> (r: bool)
        ensures
            r == self.wf(),
    {
        if !self.nfa.is_well_formed() {
            return false;
        }
        let mut i: usize = 0;
        while i < self.word.len()
            invariant
                self.nfa.wf(),
                i <= self.word@.len(),
                forall|j: int| 0 <= j < i ==> #[trigger] self.word@[j] < self.nfa.n_letters,
            decreases self.word@.len() - i,
        {
            if self.word[i] >= self.nfa.n_letters {
                return false;
            }
            i += 1;
        }
        true
    }
}

} // verus!
