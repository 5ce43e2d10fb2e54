//! Filtering hooks for a driver that prunes its exploration: this analysis
//! filters nothing out.

use vstd::prelude::*;

verus! {

/// The criterion a filter examines for one queued step; this analysis keeps
/// no measurement.
pub struct NfaWordAnalysisFilterCriterion {}

impl NfaWordAnalysisFilterCriterion {
    /// Renders this criterion: there is nothing to say of it.
    pub fn description(&self) -> (r: String)
        ensures
            r@.len() == 0,
    {
        String::new()
    }
}

/// Why a node was eliminated by a filter; this analysis never eliminates
/// one.
pub struct NfaWordAnalysisFilterEliminationKind {}

/// The filter over queued steps: it never eliminates a node.
pub struct NfaWordAnalysisFilter {}

impl NfaWordAnalysisFilter {
    /// Renders this filter: there is nothing to say of it.
    pub fn description(&self) -> (r: String)
        ensures
            r@.len() == 0,
    {
        String::new()
    }

    pub fn apply_filter(
        &self,
        _depth: u32,
        _node_counter: u32,
        _criterion: &NfaWordAnalysisFilterCriterion,
    ) -> (r: Option<NfaWordAnalysisFilterEliminationKind>)
        ensures
            r is None,
    {
        None
    }
}

} // verus!
