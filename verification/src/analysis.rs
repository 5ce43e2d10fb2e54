//! One full replay of the word: the fold of the per-step decisions into a
//! global verdict, and the laws the fold obeys.

use vstd::prelude::*;

use crate::context::NfaWordAnalysisContext;
use crate::handler::{spec_applied, spec_decision, NfaWordAnalysisProcessHandler};
use crate::nfa::{set_nonempty, Nfa};
use crate::param::{
    NfaWordAnalysisParameterization, NfaWordAnalysisPolicy, NfaWordAnalysisResetOn,
};
use crate::step::{NfaWordAnalysisRecoveryKind, NfaWordAnalysisStepKind, NfaWordAnalysisStepLabel};
use crate::verdict::{NfaWordAnalysisGlobalVerdict, NfaWordAnalysisLocalVerdict};

verus! {

/// The outcome of replaying the word from one configuration: the terminal
/// configuration reached, the deviation events folded on the way (as an
/// unbounded count), and whether the word was consumed in full.
pub struct NfaWordAnalysisRunOutcome {
    pub terminal_active: Set<usize>,
    pub terminal_pos: int,
    pub deviations: int,
    pub completed: bool,
}

/// The tie-breaker of the replay's termination measure: 1 while the current
/// letter leads nowhere. A reset that does not skip keeps the position but
/// is only decided when it makes the letter readable, which brings this
/// measure from 1 to 0.
pub open spec fn stuck_measure(nfa: Nfa, word: Seq<usize>, active: Set<usize>, pos: int) -> int {
    if 0 <= pos < word.len() && !set_nonempty(nfa.next_states(active, word[pos])) {
        1
    } else {
        0
    }
}

/// Replays the word from `(active, pos)` with `deviations` events already
/// folded: applies the decided step until none is admissible, counting one
/// deviation for every recovery taken, then classifies the terminal
/// configuration — completed exactly when the position reached the end.
pub open spec fn spec_run(
    nfa: Nfa,
    word: Seq<usize>,
    policy: NfaWordAnalysisPolicy,
    active: Set<usize>,
    pos: int,
    deviations: int,
) -> NfaWordAnalysisRunOutcome
    decreases word.len() - pos, stuck_measure(nfa, word, active, pos),
{
    match spec_decision(nfa, word, policy, active, pos) {
        None => NfaWordAnalysisRunOutcome {
            terminal_active: active,
            terminal_pos: pos,
            deviations,
            completed: pos >= word.len(),
        },
        Some(label) => {
            let next = spec_applied(nfa, word, policy, active, pos, label);
            let folded = match label {
                NfaWordAnalysisStepLabel::ReadNext => deviations,
                NfaWordAnalysisStepLabel::Recover(_) => deviations + 1,
            };
            spec_run(nfa, word, policy, next.0, next.1, folded)
        },
    }
}

/// One full analysis: replay from the resolved start configuration at the
/// head of the word, with no deviations folded yet.
pub open spec fn spec_analysis(
    nfa: Nfa,
    word: Seq<usize>,
    param: NfaWordAnalysisParameterization,
) -> NfaWordAnalysisRunOutcome {
    spec_run(nfa, word, param.policy, param.start_on.resolved(&nfa), 0, 0)
}

/// What a decided step guarantees: it is only decided before the end of the
/// word; reading is decided exactly when the letter leads somewhere; a
/// recovery only resets when the policy names a reset target; and a reset
/// that does not skip makes the letter readable.
pub proof fn lemma_decision_properties(
    nfa: Nfa,
    word: Seq<usize>,
    policy: NfaWordAnalysisPolicy,
    active: Set<usize>,
    pos: int,
)
    ensures
        (match spec_decision(nfa, word, policy, active, pos) {
            None => true,
            Some(label) => {
                &&& 0 <= pos < word.len()
                &&& (match label {
                    NfaWordAnalysisStepLabel::ReadNext => set_nonempty(
                        nfa.next_states(active, word[pos]),
                    ),
                    NfaWordAnalysisStepLabel::Recover(kind) => {
                        &&& !set_nonempty(nfa.next_states(active, word[pos]))
                        &&& (kind.resets() ==> policy.spec_reset_policy() is Some)
                        &&& (kind == NfaWordAnalysisRecoveryKind::ResetOnly ==> set_nonempty(
                            nfa.next_states(
                                spec_applied(nfa, word, policy, active, pos, label).0,
                                word[pos],
                            ),
                        ))
                    },
                })
            },
        }),
{
    match policy {
        NfaWordAnalysisPolicy::StopAtDeviation => {},
        NfaWordAnalysisPolicy::TryResetThenMaySkip(_, _) => {},
        NfaWordAnalysisPolicy::SkipAndMayReset(_) => {},
    }
}

/// Monotonic deviations: folding the remaining steps of a derivation never
/// decreases the deviation count.
pub proof fn lemma_run_deviations_monotonic(
    nfa: Nfa,
    word: Seq<usize>,
    policy: NfaWordAnalysisPolicy,
    active: Set<usize>,
    pos: int,
    deviations: int,
)
    ensures
        spec_run(nfa, word, policy, active, pos, deviations).deviations >= deviations,
    decreases word.len() - pos, stuck_measure(nfa, word, active, pos),
{
    match spec_decision(nfa, word, policy, active, pos) {
        None => {},
        Some(label) => {
            let next = spec_applied(nfa, word, policy, active, pos, label);
            let folded = match label {
                NfaWordAnalysisStepLabel::ReadNext => deviations,
                NfaWordAnalysisStepLabel::Recover(_) => deviations + 1,
            };
            lemma_decision_properties(nfa, word, policy, active, pos);
            lemma_run_deviations_monotonic(nfa, word, policy, next.0, next.1, folded);
        },
    }
}

/// Each position of the word gives rise to at most two folded deviations,
/// so the deviation count of a run is bounded by twice the word's length.
pub proof fn lemma_run_deviations_bounded(
    nfa: Nfa,
    word: Seq<usize>,
    policy: NfaWordAnalysisPolicy,
    active: Set<usize>,
    pos: int,
    deviations: int,
)
    requires
        0 <= pos <= word.len(),
    ensures
        spec_run(nfa, word, policy, active, pos, deviations).deviations <= deviations + 2 * (
        word.len() - pos) - (if pos < word.len() && set_nonempty(
            nfa.next_states(active, word[pos]),
        ) {
            1int
        } else {
            0int
        }),
    decreases word.len() - pos, stuck_measure(nfa, word, active, pos),
{
    match spec_decision(nfa, word, policy, active, pos) {
        None => {},
        Some(label) => {
            let next = spec_applied(nfa, word, policy, active, pos, label);
            let folded = match label {
                NfaWordAnalysisStepLabel::ReadNext => deviations,
                NfaWordAnalysisStepLabel::Recover(_) => deviations + 1,
            };
            lemma_decision_properties(nfa, word, policy, active, pos);
            lemma_run_deviations_bounded(nfa, word, policy, next.0, next.1, folded);
        },
    }
}

/// Completion correctness: the terminal position never passes the end of
/// the word, and the run is completed exactly when the terminal position
/// reached it.
pub proof fn lemma_run_completion(
    nfa: Nfa,
    word: Seq<usize>,
    policy: NfaWordAnalysisPolicy,
    active: Set<usize>,
    pos: int,
    deviations: int,
)
    requires
        0 <= pos <= word.len(),
    ensures
        0 <= spec_run(nfa, word, policy, active, pos, deviations).terminal_pos <= word.len(),
        spec_run(nfa, word, policy, active, pos, deviations).completed == (spec_run(
            nfa,
            word,
            policy,
            active,
            pos,
            deviations,
        ).terminal_pos == word.len()),
    decreases word.len() - pos, stuck_measure(nfa, word, active, pos),
{
    match spec_decision(nfa, word, policy, active, pos) {
        None => {},
        Some(label) => {
            let next = spec_applied(nfa, word, policy, active, pos, label);
            let folded = match label {
                NfaWordAnalysisStepLabel::ReadNext => deviations,
                NfaWordAnalysisStepLabel::Recover(_) => deviations + 1,
            };
            lemma_decision_properties(nfa, word, policy, active, pos);
            lemma_run_completion(nfa, word, policy, next.0, next.1, folded);
        },
    }
}

/// No-op reset exclusion: at a stuck configuration under
/// `TryResetThenMaySkip` whose reset target would add no new state, the
/// engine never resets without skipping: it resets and skips when skipping
/// is allowed, and otherwise stops.
pub proof fn lemma_no_useless_reset(
    nfa: Nfa,
    word: Seq<usize>,
    reset: NfaWordAnalysisResetOn,
    allow_skip: bool,
    active: Set<usize>,
    pos: int,
)
    requires
        0 <= pos < word.len(),
        !set_nonempty(nfa.next_states(active, word[pos])),
        reset.resolved(&nfa).subset_of(active),
    ensures
        spec_decision(
            nfa,
            word,
            NfaWordAnalysisPolicy::TryResetThenMaySkip(reset, allow_skip),
            active,
            pos,
        ) != Some(
            NfaWordAnalysisStepLabel::Recover(NfaWordAnalysisRecoveryKind::ResetOnly),
        ),
        spec_decision(
            nfa,
            word,
            NfaWordAnalysisPolicy::TryResetThenMaySkip(reset, allow_skip),
            active,
            pos,
        ) == (if allow_skip {
            Some(NfaWordAnalysisStepLabel::Recover(NfaWordAnalysisRecoveryKind::ResetAndSkip))
        } else {
            None
        }),
{
}

/// Purity: two full analyses of the same automaton, word and
/// parameterization yield the same global verdict.
pub proof fn lemma_analysis_deterministic(
    nfa: Nfa,
    word: Seq<usize>,
    param: NfaWordAnalysisParameterization,
    first: NfaWordAnalysisGlobalVerdict,
    second: NfaWordAnalysisGlobalVerdict,
)
    requires
        first.deviations == spec_analysis(nfa, word, param).deviations,
        first.emptied_trace == spec_analysis(nfa, word, param).completed,
        second.deviations == spec_analysis(nfa, word, param).deviations,
        second.emptied_trace == spec_analysis(nfa, word, param).completed,
    ensures
        first == second,
{
}

/// One full analysis of `context.word` against `context.nfa` under `param`:
/// replays the word step by step, counts each recovery as one deviation,
/// and classifies the terminal configuration.
///
/// The word must be short enough that the deviation count fits its
/// counter: at most two deviations arise per position.
pub fn run_analysis(
    context: &NfaWordAnalysisContext,
    param: &NfaWordAnalysisParameterization,
) -> (verdict: NfaWordAnalysisGlobalVerdict)
    requires
        context.wf(),
        param.wf(&context.nfa),
        context.word@.len() <= 0x7fff_ffff,
    ensures
        verdict.deviations == spec_analysis(context.nfa, context.word@, *param).deviations,
        verdict.emptied_trace == spec_analysis(context.nfa, context.word@, *param).completed,
        verdict.emptied_trace == (spec_analysis(context.nfa, context.word@, *param).terminal_pos
            == context.word@.len()),
{
    let ghost total = spec_analysis(context.nfa, context.word@, *param);
    let mut node = param.make_init_node(&context.nfa);
    let mut verdict = NfaWordAnalysisGlobalVerdict::get_baseline_verdict();
    loop
        invariant
            context.wf(),
            param.wf(&context.nfa),
            node.wf(&context.nfa),
            context.word@.len() <= 0x7fff_ffff,
            node.pos_in_trace <= context.word@.len(),
            total == spec_analysis(context.nfa, context.word@, *param),
            spec_run(
                context.nfa,
                context.word@,
                param.policy,
                node.active(),
                node.pos_in_trace as int,
                verdict.deviations as int,
            ) == total,
        decreases
                context.word@.len() - node.pos_in_trace,
                stuck_measure(context.nfa, context.word@, node.active(), node.pos_in_trace as int),
    {
        let steps = NfaWordAnalysisProcessHandler::collect_next_steps(context, param, &node);
        let ghost d = spec_decision(
            context.nfa,
            context.word@,
            param.policy,
            node.active(),
            node.pos_in_trace as int,
        );
        proof {
            lemma_decision_properties(
                context.nfa,
                context.word@,
                param.policy,
                node.active(),
                node.pos_in_trace as int,
            );
        }
        if steps.len() == 0 {
            proof {
                lemma_run_completion(
                    context.nfa,
                    context.word@,
                    param.policy,
                    param.start_on.resolved(&context.nfa),
                    0,
                    0,
                );
            }
            let local = NfaWordAnalysisProcessHandler::get_local_verdict_when_no_child(
                context,
                param,
                &node,
            );
            return verdict.update_with_local_verdict(&local);
        }
        let ghost label = d->Some_0;
        let ghost applied = spec_applied(
            context.nfa,
            context.word@,
            param.policy,
            node.active(),
            node.pos_in_trace as int,
            label,
        );
        let is_recovery = match &steps[0] {
            NfaWordAnalysisStepKind::ResetAndOrSkip(_) => true,
            NfaWordAnalysisStepKind::ReadNext(_) => false,
        };
        if is_recovery {
            proof {
                lemma_run_deviations_monotonic(
                    context.nfa,
                    context.word@,
                    param.policy,
                    applied.0,
                    applied.1,
                    verdict.deviations as int + 1,
                );
                lemma_run_deviations_bounded(
                    context.nfa,
                    context.word@,
                    param.policy,
                    param.start_on.resolved(&context.nfa),
                    0,
                    0,
                );
            }
            verdict = verdict.update_with_local_verdict(&NfaWordAnalysisLocalVerdict::Deviation);
        }
        node = NfaWordAnalysisProcessHandler::process_new_step(
            context,
            param,
            &node,
            &steps[0],
            0,
            0,
        );
    }
}

} // verus!
