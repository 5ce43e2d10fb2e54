//! What a graphical logger needs from the analysis: stable identifiers for
//! the drawn nodes, anchors and verdicts, and the folder temporary images go
//! to. Actual image rendering is the logger's own concern.

use vstd::prelude::*;
use vstd::string::StringExecFns;

use crate::render::{dec_repr, u32_to_dec_string};

verus! {

/// Draws the analysis process for a graphical logger.
pub struct NfaWordAnalysisProcessDrawer {
    pub temp_folder: String,
}

impl NfaWordAnalysisProcessDrawer {
    pub fn new(temp_folder: String) -> (r: Self)
        ensures
            r.temp_folder == temp_folder,
    {
        Self { temp_folder }
    }

    /// Deviation points are classified on the fly, never drawn as separate
    /// static-analysis clusters.
    pub fn repr_static_analysis(&self) -> (r: bool)
        ensures
            !r,
    {
        false
    }

    /// The folder the drawn images are placed in.
    pub fn get_temp_folder(&self) -> (r: &str)
        ensures
            r@ == self.temp_folder@,
    {
        self.temp_folder.as_str()
    }

    /// The identifier of the anchor of the node drawn for state `id`.
    pub fn get_anchor_id(&self, id: u32) -> (r: String)
        ensures
            r@ == "a"@ + dec_repr(id as int),
    {
        let r = String::from_str("a").concat(u32_to_dec_string(id).as_str());
        r
    }

    /// The identifier of the node drawn for state `id`.
    pub fn get_node_id(&self, id: u32) -> (r: String)
        ensures
            r@ == "n"@ + dec_repr(id as int),
    {
        let r = String::from_str("n").concat(u32_to_dec_string(id).as_str());
        r
    }

    /// The identifier of the verdict drawn for state `id`.
    pub fn get_verdict_id(&self, id: u32) -> (r: String)
        ensures
            r@ == "v"@ + dec_repr(id as int),
    {
        let r = String::from_str("v").concat(u32_to_dec_string(id).as_str());
        r
    }
}

} // verus!
