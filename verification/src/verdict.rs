//! Classification of terminal configurations and the fold of deviation
//! events into one comparable summary value.

use vstd::prelude::*;
use vstd::string::StringExecFns;

use crate::render::{dec_repr, u32_to_dec_string};

verus! {

/// A classification emitted along a derivation: the word was fully consumed,
/// the run got stuck before the end, or a recovery step was taken at this
/// point.
#[derive(Clone, Copy, Debug, PartialEq, Eq, Structural)]
pub enum NfaWordAnalysisLocalVerdict {
    EmptiedTrace,
    FailureToEmptyTrace,
    Deviation,
}

impl NfaWordAnalysisLocalVerdict {
    pub open spec fn is_deviation(&self) -> bool {
        match self {
            NfaWordAnalysisLocalVerdict::Deviation => true,
            _ => false,
        }
    }

    pub open spec fn is_emptied(&self) -> bool {
        match self {
            NfaWordAnalysisLocalVerdict::EmptiedTrace => true,
            _ => false,
        }
    }
}

/// The fold of all deviation events and the final classification along one
/// derivation.
#[derive(Clone, Copy, Debug, PartialEq, Eq, Structural, PartialOrd, Ord)]
pub struct NfaWordAnalysisGlobalVerdict {
    pub deviations: u32,
    pub emptied_trace: bool,
}

impl NfaWordAnalysisGlobalVerdict {
    pub fn new(deviations: u32, emptied_trace: bool) -> (r: Self)
        ensures
            r.deviations == deviations,
            r.emptied_trace == emptied_trace,
    {
        Self { deviations, emptied_trace }
    }

    pub fn is_verdict_pertinent_for_process() -> (r: bool)
        ensures
            r,
    {
        true
    }

    /// The monoid's baseline: no deviations, word not consumed.
    pub fn get_baseline_verdict() -> (r: Self)
        ensures
            r.deviations == 0,
            !r.emptied_trace,
    {
        NfaWordAnalysisGlobalVerdict::new(0, false)
    }

    /// Folds one local verdict into the summary: a deviation event adds one
    /// to the count, a terminal classification sets the completion flag.
    pub fn update_with_local_verdict(self, local_verdict: &NfaWordAnalysisLocalVerdict) -> (r: Self)
        requires
            local_verdict.is_deviation() ==> self.deviations < u32::MAX,
        ensures
            r.deviations == self.deviations + (if local_verdict.is_deviation() {
                1int
            } else {
                0int
            }),
            r.emptied_trace == (if local_verdict.is_deviation() {
                self.emptied_trace
            } else {
                local_verdict.is_emptied()
            }),
    {
        match local_verdict {
            NfaWordAnalysisLocalVerdict::EmptiedTrace => NfaWordAnalysisGlobalVerdict::new(
                self.deviations,
                true,
            ),
            NfaWordAnalysisLocalVerdict::FailureToEmptyTrace => NfaWordAnalysisGlobalVerdict::new(
                self.deviations,
                false,
            ),
            NfaWordAnalysisLocalVerdict::Deviation => NfaWordAnalysisGlobalVerdict::new(
                self.deviations + 1,
                self.emptied_trace,
            ),
        }
    }

    pub fn is_goal_reached(&self, _goal: &Option<Self>) -> (r: bool)
        ensures
            !r,
    {
        false
    }

    pub fn update_knowing_nodes_were_filtered_out(self, _has_filtered_nodes: bool) -> (r: Self)
        ensures
            r == self,
    {
        self
    }

    /// The wording of this verdict, as a reporting layer prints it.
    pub open spec fn description_repr(&self) -> Seq<char> {
        if self.emptied_trace {
            if self.deviations == 0 {
                "re-enacted trace without deviations"@
            } else if self.deviations == 1 {
                "re-enacted trace with 1 deviation"@
            } else {
                "re-enacted trace with "@ + dec_repr(self.deviations as int) + " deviations"@
            }
        } else {
            if self.deviations == 0 {
                "failed to re-enact trace"@
            } else {
                "failed to re-enact trace ("@ + dec_repr(self.deviations as int) + " deviations)"@
            }
        }
    }

    /// Renders this verdict in words.
    pub fn description(&self) -> (r: String)
        ensures
            r@ == self.description_repr(),
    {
        if self.emptied_trace {
            if self.deviations == 0 {
                "re-enacted trace without deviations".to_owned()
            } else if self.deviations == 1 {
                "re-enacted trace with 1 deviation".to_owned()
            } else {
                let r = String::from_str("re-enacted trace with ").concat(
                    u32_to_dec_string(self.deviations).as_str(),
                ).concat(" deviations");
                proof {
                    assert(r@ =~= self.description_repr());
                }
                r
            }
        } else {
            if self.deviations == 0 {
                "failed to re-enact trace".to_owned()
            } else {
                let r = String::from_str("failed to re-enact trace (").concat(
                    u32_to_dec_string(self.deviations).as_str(),
                ).concat(" deviations)");
                proof {
                    assert(r@ =~= self.description_repr());
                }
                r
            }
        }
    }

    /// The preference ordering over candidate outcomes: fewer deviations is
    /// strictly better, and for equal deviation counts a completed
    /// re-enactment is strictly better.
    pub fn is_better_than(&self, other: &Self) -> (r: bool)
        ensures
            r == (self.deviations < other.deviations || (self.deviations == other.deviations
                && self.emptied_trace && !other.emptied_trace)),
    {
        self.deviations < other.deviations || (self.deviations == other.deviations
            && self.emptied_trace && !other.emptied_trace)
    }
}

} // verus!
