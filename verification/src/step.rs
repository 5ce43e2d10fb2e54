//! The steps ("actions") the decision engine can take: consume the next
//! letter, or recover from a deviation by resetting and/or skipping.

use vstd::prelude::*;

use crate::nfa::{is_state_set, within_universe, Nfa};

verus! {

/// How a deviation is recovered from: replace the active states with the
/// policy's reset states without advancing, advance past the unreadable
/// letter, or both at once. A recovery that neither resets nor skips cannot
/// be represented.
#[derive(Clone, Copy, Debug, PartialEq, Eq, Structural)]
pub enum NfaWordAnalysisRecoveryKind {
    ResetOnly,
    SkipOnly,
    ResetAndSkip,
}

impl NfaWordAnalysisRecoveryKind {
    /// Whether this recovery replaces the active states with the reset
    /// states.
    pub open spec fn resets(&self) -> bool {
        match self {
            NfaWordAnalysisRecoveryKind::SkipOnly => false,
            _ => true,
        }
    }

    /// Whether this recovery advances past the unreadable letter.
    pub open spec fn skips(&self) -> bool {
        match self {
            NfaWordAnalysisRecoveryKind::ResetOnly => false,
            _ => true,
        }
    }

    pub fn did_reset(&self) -> (r: bool)
        ensures
            r == self.resets(),
    {
        match self {
            NfaWordAnalysisRecoveryKind::SkipOnly => false,
            _ => true,
        }
    }

    pub fn did_skip(&self) -> (r: bool)
        ensures
            r == self.skips(),
    {
        match self {
            NfaWordAnalysisRecoveryKind::ResetOnly => false,
            _ => true,
        }
    }
}

/// The discriminant of a step: what the decision engine decided, apart from
/// the concrete successor states that a `ReadNext` step carries.
#[derive(Clone, Copy, Debug, PartialEq, Eq, Structural)]
pub enum NfaWordAnalysisStepLabel {
    ReadNext,
    Recover(NfaWordAnalysisRecoveryKind),
}

/// One step of the analysis: read the next letter of the word and adopt the
/// (non-empty) successor states, or recover from a deviation.
pub enum NfaWordAnalysisStepKind {
    ReadNext(Vec<usize>),
    ResetAndOrSkip(NfaWordAnalysisRecoveryKind),
}

impl NfaWordAnalysisStepKind {
    /// This step's discriminant.
    pub open spec fn label(&self) -> NfaWordAnalysisStepLabel {
        match self {
            NfaWordAnalysisStepKind::ReadNext(_) => NfaWordAnalysisStepLabel::ReadNext,
            NfaWordAnalysisStepKind::ResetAndOrSkip(kind) => NfaWordAnalysisStepLabel::Recover(
                *kind,
            ),
        }
    }

    /// A `ReadNext` step carries a non-empty state set within the
    /// automaton's universe.
    pub open spec fn wf(&self, nfa: &Nfa) -> bool {
        match self {
            NfaWordAnalysisStepKind::ReadNext(v) => {
                &&& is_state_set(v@)
                &&& within_universe(v@, nfa.n_states)
                &&& v@.len() > 0
            },
            NfaWordAnalysisStepKind::ResetAndOrSkip(_) => true,
        }
    }

    /// The wording of this step, as a reporting layer prints it.
    pub open spec fn description_repr(&self) -> Seq<char> {
        match self {
            NfaWordAnalysisStepKind::ReadNext(_) => "read"@,
            NfaWordAnalysisStepKind::ResetAndOrSkip(kind) => match kind {
                NfaWordAnalysisRecoveryKind::ResetAndSkip => "skip and reset"@,
                NfaWordAnalysisRecoveryKind::ResetOnly => "reset"@,
                NfaWordAnalysisRecoveryKind::SkipOnly => "skip"@,
            },
        }
    }

    /// Renders this step in words.
    pub fn description(&self) -> (r: String)
        ensures
            r@ == self.description_repr(),
    {
        match self {
            NfaWordAnalysisStepKind::ReadNext(_) => "read".to_owned(),
            NfaWordAnalysisStepKind::ResetAndOrSkip(kind) => match kind {
                NfaWordAnalysisRecoveryKind::ResetAndSkip => "skip and reset".to_owned(),
                NfaWordAnalysisRecoveryKind::ResetOnly => "reset".to_owned(),
                NfaWordAnalysisRecoveryKind::SkipOnly => "skip".to_owned(),
            },
        }
    }
}

} // verus!
