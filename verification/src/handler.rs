//! The decision engine: given a configuration, the word and the policy, the
//! admissible next steps; the transition function applying a chosen step to
//! a configuration; and the classification of terminal configurations.

use vstd::prelude::*;

use crate::context::NfaWordAnalysisContext;
use crate::filter::NfaWordAnalysisFilterCriterion;
use crate::nfa::{
    copy_states, is_state_set, is_subset_of, lemma_to_set_nonempty, set_nonempty, within_universe,
    Nfa,
};
use crate::node::NfaWordAnalysisNodeKind;
use crate::param::{NfaWordAnalysisParameterization, NfaWordAnalysisPolicy, NfaWordAnalysisResetOn};
use crate::step::{NfaWordAnalysisRecoveryKind, NfaWordAnalysisStepKind, NfaWordAnalysisStepLabel};
use crate::verdict::NfaWordAnalysisLocalVerdict;

verus! {

/// Witness that a configuration was classified without being expanded.
pub struct NfaWordAnalysisStaticLocalVerdictAnalysisProof {}

/// The decision taken at a configuration `(active, pos)`: `None` when the
/// configuration is terminal, otherwise the single admissible step.
///
/// Reading the next letter is admissible exactly when it leads somewhere;
/// otherwise the policy decides. `StopAtDeviation` never recovers.
/// `SkipAndMayReset` always skips, resetting at the same time when a target
/// is configured. `TryResetThenMaySkip` resets without skipping when the
/// reset both adds a new state and lets the letter be read; when the reset
/// is useless (it would add no state) or unhelpful (the letter still leads
/// nowhere), it skips as well, if skipping is allowed, and otherwise stops.
pub open spec fn spec_decision(
    nfa: Nfa,
    word: Seq<usize>,
    policy: NfaWordAnalysisPolicy,
    active: Set<usize>,
    pos: int,
) -> Option<NfaWordAnalysisStepLabel> {
    if !(0 <= pos < word.len()) {
        None
    } else {
        let letter = word[pos];
        if set_nonempty(nfa.next_states(active, letter)) {
            Some(NfaWordAnalysisStepLabel::ReadNext)
        } else {
            match policy {
                NfaWordAnalysisPolicy::StopAtDeviation => None,
                NfaWordAnalysisPolicy::SkipAndMayReset(may_reset) => Some(
                    NfaWordAnalysisStepLabel::Recover(
                        if may_reset is Some {
                            NfaWordAnalysisRecoveryKind::ResetAndSkip
                        } else {
                            NfaWordAnalysisRecoveryKind::SkipOnly
                        },
                    ),
                ),
                NfaWordAnalysisPolicy::TryResetThenMaySkip(reset, allow_skip) => {
                    let reset_states = reset.resolved(&nfa);
                    if reset_states.subset_of(active) {
                        if allow_skip {
                            Some(
                                NfaWordAnalysisStepLabel::Recover(
                                    NfaWordAnalysisRecoveryKind::ResetAndSkip,
                                ),
                            )
                        } else {
                            None
                        }
                    } else if set_nonempty(nfa.next_states(reset_states, letter)) {
                        Some(
                            NfaWordAnalysisStepLabel::Recover(
                                NfaWordAnalysisRecoveryKind::ResetOnly,
                            ),
                        )
                    } else if allow_skip {
                        Some(
                            NfaWordAnalysisStepLabel::Recover(
                                NfaWordAnalysisRecoveryKind::ResetAndSkip,
                            ),
                        )
                    } else {
                        None
                    }
                },
            }
        }
    }
}

/// The configuration after applying a decided step to `(active, pos)`:
/// reading adopts the successor states and advances; a recovery adopts the
/// policy's reset states when it resets, and advances when it skips.
pub open spec fn spec_applied(
    nfa: Nfa,
    word: Seq<usize>,
    policy: NfaWordAnalysisPolicy,
    active: Set<usize>,
    pos: int,
    label: NfaWordAnalysisStepLabel,
) -> (Set<usize>, int) {
    match label {
        NfaWordAnalysisStepLabel::ReadNext => (nfa.next_states(active, word[pos]), pos + 1),
        NfaWordAnalysisStepLabel::Recover(kind) => {
            let new_active = if kind.resets() {
                match policy.spec_reset_policy() {
                    Some(target) => target.resolved(&nfa),
                    None => active,
                }
            } else {
                active
            };
            (new_active, pos + (if kind.skips() {
                1int
            } else {
                0int
            }))
        },
    }
}

/// The executable step that realizes a decided label at `(active, letter)`:
/// a `ReadNext` step carries exactly the non-empty successor set, a recovery
/// step carries the decided recovery kind.
pub open spec fn step_realizes(
    step: NfaWordAnalysisStepKind,
    label: NfaWordAnalysisStepLabel,
    nfa: Nfa,
    active: Set<usize>,
    letter: usize,
) -> bool {
    match label {
        NfaWordAnalysisStepLabel::ReadNext => match step {
            NfaWordAnalysisStepKind::ReadNext(v) => {
                &&& is_state_set(v@)
                &&& within_universe(v@, nfa.n_states)
                &&& v@.len() > 0
                &&& v@.to_set() == nfa.next_states(active, letter)
            },
            _ => false,
        },
        NfaWordAnalysisStepLabel::Recover(kind) => step == NfaWordAnalysisStepKind::ResetAndOrSkip(
            kind,
        ),
    }
}

/// A well-formed policy has a well-formed reset target, whenever it has one.
pub proof fn lemma_reset_policy_wf(policy: NfaWordAnalysisPolicy, nfa: &Nfa)
    requires
        policy.wf(nfa),
        policy.spec_reset_policy() is Some,
    ensures
        (policy.spec_reset_policy()->Some_0).wf(nfa),
{
    match policy {
        NfaWordAnalysisPolicy::StopAtDeviation => {},
        NfaWordAnalysisPolicy::TryResetThenMaySkip(_, _) => {},
        NfaWordAnalysisPolicy::SkipAndMayReset(_) => {},
    }
}

/// The per-step functions a driver invokes to replay the word.
pub struct NfaWordAnalysisProcessHandler {}

impl NfaWordAnalysisProcessHandler {
    /// The admissible next steps of a configuration: at most one, since the
    /// automaton merges nondeterministic successors into a single set. The
    /// steps realize exactly what `spec_decision` decides.
    pub fn collect_next_steps(
        context: &NfaWordAnalysisContext,
        param: &NfaWordAnalysisParameterization,
        parent_node_kind: &NfaWordAnalysisNodeKind,
    ) -> (steps: Vec<NfaWordAnalysisStepKind>)
        requires
            context.wf(),
            param.wf(&context.nfa),
            parent_node_kind.wf(&context.nfa),
        ensures
            steps@.len() <= 1,
            (match spec_decision(
                context.nfa,
                context.word@,
                param.policy,
                parent_node_kind.active(),
                parent_node_kind.pos_in_trace as int,
            ) {
                None => steps@.len() == 0,
                Some(label) => steps@.len() == 1 && step_realizes(
                    steps@[0],
                    label,
                    context.nfa,
                    parent_node_kind.active(),
                    context.word@[parent_node_kind.pos_in_trace as int],
                ),
            }),
    {
        if parent_node_kind.pos_in_trace >= context.word.len() {
            return Vec::new();
        }
        let letter = context.word[parent_node_kind.pos_in_trace];
        let new_active = context.nfa.transition(&parent_node_kind.active_states, letter);
        proof {
            lemma_to_set_nonempty(new_active@);
        }
        if new_active.len() > 0 {
            let mut steps: Vec<NfaWordAnalysisStepKind> = Vec::new();
            steps.push(NfaWordAnalysisStepKind::ReadNext(new_active));
            steps
        } else {
            match &param.policy {
                NfaWordAnalysisPolicy::StopAtDeviation => Vec::new(),
                NfaWordAnalysisPolicy::SkipAndMayReset(may_reset) => {
                    let kind = if may_reset.is_some() {
                        NfaWordAnalysisRecoveryKind::ResetAndSkip
                    } else {
                        NfaWordAnalysisRecoveryKind::SkipOnly
                    };
                    let mut steps: Vec<NfaWordAnalysisStepKind> = Vec::new();
                    steps.push(NfaWordAnalysisStepKind::ResetAndOrSkip(kind));
                    steps
                },
                NfaWordAnalysisPolicy::TryResetThenMaySkip(reset, skip) => {
                    let reset_active = reset.get_reset_states(&context.nfa);
                    if is_subset_of(&reset_active, &parent_node_kind.active_states) {
                        // the reset would not add any new state: it is useless
                        if *skip {
                            let mut steps: Vec<NfaWordAnalysisStepKind> = Vec::new();
                            steps.push(
                                NfaWordAnalysisStepKind::ResetAndOrSkip(
                                    NfaWordAnalysisRecoveryKind::ResetAndSkip,
                                ),
                            );
                            steps
                        } else {
                            Vec::new()
                        }
                    } else {
                        let after_reset = context.nfa.transition(&reset_active, letter);
                        proof {
                            lemma_to_set_nonempty(after_reset@);
                        }
                        if after_reset.len() == 0 {
                            // the reset alone does not let the letter be read
                            if *skip {
                                let mut steps: Vec<NfaWordAnalysisStepKind> = Vec::new();
                                steps.push(
                                    NfaWordAnalysisStepKind::ResetAndOrSkip(
                                        NfaWordAnalysisRecoveryKind::ResetAndSkip,
                                    ),
                                );
                                steps
                            } else {
                                Vec::new()
                            }
                        } else {
                            // the reset lets the letter be read: do not skip
                            let mut steps: Vec<NfaWordAnalysisStepKind> = Vec::new();
                            steps.push(
                                NfaWordAnalysisStepKind::ResetAndOrSkip(
                                    NfaWordAnalysisRecoveryKind::ResetOnly,
                                ),
                            );
                            steps
                        }
                    }
                },
            }
        }
    }

    /// Applies a chosen step to a configuration, producing the next
    /// configuration: reading adopts the step's successor states and
    /// advances; a recovery adopts the policy's reset states when it resets,
    /// and advances when it skips.
    pub fn process_new_step(
        context: &NfaWordAnalysisContext,
        param: &NfaWordAnalysisParameterization,
        parent_state: &NfaWordAnalysisNodeKind,
        step_to_process: &NfaWordAnalysisStepKind,
        _new_state_id: u32,
        _node_counter: u32,
    ) -> (r: NfaWordAnalysisNodeKind)
        requires
            context.wf(),
            param.wf(&context.nfa),
            parent_state.wf(&context.nfa),
            step_to_process.wf(&context.nfa),
            (match step_to_process {
                NfaWordAnalysisStepKind::ResetAndOrSkip(kind) => kind.resets()
                    ==> param.policy.spec_reset_policy() is Some,
                _ => true,
            }),
            parent_state.pos_in_trace < usize::MAX,
        ensures
            r.wf(&context.nfa),
            (match step_to_process {
                NfaWordAnalysisStepKind::ReadNext(v) => r.active_states@ == v@ && r.pos_in_trace
                    == parent_state.pos_in_trace + 1,
                NfaWordAnalysisStepKind::ResetAndOrSkip(kind) => {
                    &&& r.active() == (if kind.resets() {
                        match param.policy.spec_reset_policy() {
                            Some(target) => target.resolved(&context.nfa),
                            None => parent_state.active(),
                        }
                    } else {
                        parent_state.active()
                    })
                    &&& r.pos_in_trace == parent_state.pos_in_trace + (if kind.skips() {
                        1int
                    } else {
                        0int
                    })
                },
            }),
    {
        match step_to_process {
            NfaWordAnalysisStepKind::ReadNext(new_active) => NfaWordAnalysisNodeKind::new(
                copy_states(new_active),
                parent_state.pos_in_trace + 1,
            ),
            NfaWordAnalysisStepKind::ResetAndOrSkip(kind) => {
                let new_active = if kind.did_reset() {
                    proof {
                        lemma_reset_policy_wf(param.policy, &context.nfa);
                    }
                    let target = param.policy.get_reset_policy().unwrap();
                    target.get_reset_states(&context.nfa)
                } else {
                    copy_states(&parent_state.active_states)
                };
                let new_pos = if kind.did_skip() {
                    parent_state.pos_in_trace + 1
                } else {
                    parent_state.pos_in_trace
                };
                NfaWordAnalysisNodeKind::new(new_active, new_pos)
            },
        }
    }

    /// The filter criterion of a queued step: this analysis measures
    /// nothing.
    pub fn get_criterion(
        _context: &NfaWordAnalysisContext,
        _param: &NfaWordAnalysisParameterization,
        _parent_state: &NfaWordAnalysisNodeKind,
        _step_to_process: &NfaWordAnalysisStepKind,
        _new_state_id: u32,
        _node_counter: u32,
    ) -> NfaWordAnalysisFilterCriterion {
        NfaWordAnalysisFilterCriterion {}
    }

    /// The classification of a configuration with no admissible step: the
    /// word was fully consumed exactly when the position reached its end.
    pub fn get_local_verdict_when_no_child(
        context: &NfaWordAnalysisContext,
        _param: &NfaWordAnalysisParameterization,
        node_kind: &NfaWordAnalysisNodeKind,
    ) -> (r: NfaWordAnalysisLocalVerdict)
        ensures
            r == (if node_kind.pos_in_trace < context.word@.len() {
                NfaWordAnalysisLocalVerdict::FailureToEmptyTrace
            } else {
                NfaWordAnalysisLocalVerdict::EmptiedTrace
            }),
    {
        if node_kind.pos_in_trace < context.word.len() {
            NfaWordAnalysisLocalVerdict::FailureToEmptyTrace
        } else {
            NfaWordAnalysisLocalVerdict::EmptiedTrace
        }
    }

    /// Classifies a configuration without materializing a child, reusing the
    /// decision table as a pure lookahead: a configuration whose next step
    /// is a recovery is a deviation point.
    pub fn get_local_verdict_from_static_analysis(
        context: &NfaWordAnalysisContext,
        param: &NfaWordAnalysisParameterization,
        node_kind: &mut NfaWordAnalysisNodeKind,
    ) -> (r: Option<
        (NfaWordAnalysisLocalVerdict, NfaWordAnalysisStaticLocalVerdictAnalysisProof),
    >)
        requires
            context.wf(),
            param.wf(&context.nfa),
            old(node_kind).wf(&context.nfa),
        ensures
            *final(node_kind) == *old(node_kind),
            (r is Some) == (spec_decision(
                context.nfa,
                context.word@,
                param.policy,
                old(node_kind).active(),
                old(node_kind).pos_in_trace as int,
            ) matches Some(NfaWordAnalysisStepLabel::Recover(_))),
            (match r {
                Some(p) => p.0 == NfaWordAnalysisLocalVerdict::Deviation,
                None => true,
            }),
    {
        let next = Self::collect_next_steps(context, param, node_kind);
        if next.len() > 0 {
            match &next[0] {
                NfaWordAnalysisStepKind::ResetAndOrSkip(_) => Some(
                    (
                        NfaWordAnalysisLocalVerdict::Deviation,
                        NfaWordAnalysisStaticLocalVerdictAnalysisProof {},
                    ),
                ),
                NfaWordAnalysisStepKind::ReadNext(_) => None,
            }
        } else {
            None
        }
    }

    /// A deviation point is not terminal: the run continues after it.
    pub fn pursue_process_after_static_verdict(
        _context: &NfaWordAnalysisContext,
        _param: &NfaWordAnalysisParameterization,
        _loc_verd: &NfaWordAnalysisLocalVerdict,
    ) -> (r: bool)
        ensures
            r,
    {
        true
    }
}

} // verus!
