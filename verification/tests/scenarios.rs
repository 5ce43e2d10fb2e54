// End-to-end replays of small automata: the single-self-loop automaton under
// each policy, the reset-then-skip derivation step by step, and the edge
// cases of the verdict fold.

use autour_process::analysis::run_analysis;
use autour_process::context::NfaWordAnalysisContext;
use autour_process::handler::NfaWordAnalysisProcessHandler;
use autour_process::nfa::Nfa;
use autour_process::param::{
    NfaWordAnalysisParameterization, NfaWordAnalysisPolicy, NfaWordAnalysisResetOn,
};
use autour_process::step::{NfaWordAnalysisRecoveryKind, NfaWordAnalysisStepKind};

// letters of the test automata
const A: usize = 0;
const B: usize = 1;
const D: usize = 3;

/// One state looping on 'a'; 'b' is declared but has no transition.
fn self_loop_nfa() -> Nfa {
    Nfa {
        n_states: 1,
        n_letters: 2,
        initials: vec![0],
        edges: vec![(0, A, 0)],
    }
}

/// Three states: a: {0}->{0,1}, b: {1}->{2}, c: {2}->{0}; 'd' is declared
/// but has no transition.
fn three_state_nfa() -> Nfa {
    Nfa {
        n_states: 3,
        n_letters: 4,
        initials: vec![0],
        edges: vec![(0, A, 0), (0, A, 1), (1, B, 2), (2, 2, 0)],
    }
}

#[test]
fn single_self_loop_consumes_whole_word() {
    let context = NfaWordAnalysisContext::new(self_loop_nfa(), vec![A, A, A]);
    let param = NfaWordAnalysisParameterization::new(
        NfaWordAnalysisResetOn::Initials,
        NfaWordAnalysisPolicy::StopAtDeviation,
    );
    let verdict = run_analysis(&context, &param);
    assert_eq!(verdict.deviations, 0);
    assert!(verdict.emptied_trace);
}

#[test]
fn stuck_without_recovery_fails() {
    let context = NfaWordAnalysisContext::new(self_loop_nfa(), vec![B]);
    let param = NfaWordAnalysisParameterization::new(
        NfaWordAnalysisResetOn::Initials,
        NfaWordAnalysisPolicy::StopAtDeviation,
    );
    let verdict = run_analysis(&context, &param);
    assert_eq!(verdict.deviations, 0);
    assert!(!verdict.emptied_trace);
}

#[test]
fn skip_recovers_a_stuck_run() {
    let context = NfaWordAnalysisContext::new(self_loop_nfa(), vec![B]);
    let param = NfaWordAnalysisParameterization::new(
        NfaWordAnalysisResetOn::Initials,
        NfaWordAnalysisPolicy::SkipAndMayReset(None),
    );
    // the step decided at position 0 is a pure skip: no reset
    let start = param.make_init_node(&context.nfa);
    let steps = NfaWordAnalysisProcessHandler::collect_next_steps(&context, &param, &start);
    assert_eq!(steps.len(), 1);
    match &steps[0] {
        NfaWordAnalysisStepKind::ResetAndOrSkip(kind) => {
            assert_eq!(*kind, NfaWordAnalysisRecoveryKind::SkipOnly);
            assert!(!kind.did_reset());
            assert!(kind.did_skip());
        }
        other => panic!("expected a recovery step, got {}", other.description()),
    }
    let verdict = run_analysis(&context, &param);
    assert_eq!(verdict.deviations, 1);
    assert!(verdict.emptied_trace);
}

#[test]
fn reset_then_skip_derivation() {
    let context = NfaWordAnalysisContext::new(three_state_nfa(), vec![A, D, B]);
    let param = NfaWordAnalysisParameterization::new(
        NfaWordAnalysisResetOn::Initials,
        NfaWordAnalysisPolicy::TryResetThenMaySkip(NfaWordAnalysisResetOn::AllStates, true),
    );

    // step 1: read 'a' from {0} into {0,1}
    let start = param.make_init_node(&context.nfa);
    assert_eq!(start.active_states, vec![0]);
    assert_eq!(start.pos_in_trace, 0);
    let steps = NfaWordAnalysisProcessHandler::collect_next_steps(&context, &param, &start);
    assert_eq!(steps.len(), 1);
    match &steps[0] {
        NfaWordAnalysisStepKind::ReadNext(new_active) => {
            assert_eq!(*new_active, vec![0, 1]);
        }
        other => panic!("expected a read step, got {}", other.description()),
    }
    let after_a =
        NfaWordAnalysisProcessHandler::process_new_step(&context, &param, &start, &steps[0], 1, 1);
    assert_eq!(after_a.active_states, vec![0, 1]);
    assert_eq!(after_a.pos_in_trace, 1);

    // step 2: 'd' leads nowhere; resolve(AllStates) = {0,1,2} is no subset
    // of {0,1} and still cannot read 'd', so recover by reset and skip
    let steps = NfaWordAnalysisProcessHandler::collect_next_steps(&context, &param, &after_a);
    assert_eq!(steps.len(), 1);
    match &steps[0] {
        NfaWordAnalysisStepKind::ResetAndOrSkip(kind) => {
            assert_eq!(*kind, NfaWordAnalysisRecoveryKind::ResetAndSkip);
        }
        other => panic!("expected a recovery step, got {}", other.description()),
    }
    let after_d = NfaWordAnalysisProcessHandler::process_new_step(
        &context, &param, &after_a, &steps[0], 2, 2,
    );
    assert_eq!(after_d.active_states, vec![0, 1, 2]);
    assert_eq!(after_d.pos_in_trace, 2);

    // step 3: read 'b' from {0,1,2} into {2}
    let steps = NfaWordAnalysisProcessHandler::collect_next_steps(&context, &param, &after_d);
    assert_eq!(steps.len(), 1);
    match &steps[0] {
        NfaWordAnalysisStepKind::ReadNext(new_active) => {
            assert_eq!(*new_active, vec![2]);
        }
        other => panic!("expected a read step, got {}", other.description()),
    }
    let after_b = NfaWordAnalysisProcessHandler::process_new_step(
        &context, &param, &after_d, &steps[0], 3, 3,
    );
    assert_eq!(after_b.active_states, vec![2]);
    assert_eq!(after_b.pos_in_trace, 3);

    // position 3 is the end of the word: one deviation, completed
    let verdict = run_analysis(&context, &param);
    assert_eq!(verdict.deviations, 1);
    assert!(verdict.emptied_trace);
}

#[test]
fn useless_reset_skips_when_allowed() {
    // the active states already include the reset target, so the engine
    // must not reset without skipping
    let context = NfaWordAnalysisContext::new(self_loop_nfa(), vec![B]);
    let param = NfaWordAnalysisParameterization::new(
        NfaWordAnalysisResetOn::Initials,
        NfaWordAnalysisPolicy::TryResetThenMaySkip(NfaWordAnalysisResetOn::Initials, true),
    );
    let start = param.make_init_node(&context.nfa);
    let steps = NfaWordAnalysisProcessHandler::collect_next_steps(&context, &param, &start);
    assert_eq!(steps.len(), 1);
    match &steps[0] {
        NfaWordAnalysisStepKind::ResetAndOrSkip(kind) => {
            assert_eq!(*kind, NfaWordAnalysisRecoveryKind::ResetAndSkip);
        }
        other => panic!("expected a recovery step, got {}", other.description()),
    }
}

#[test]
fn useless_reset_stops_when_skip_disallowed() {
    let context = NfaWordAnalysisContext::new(self_loop_nfa(), vec![B]);
    let param = NfaWordAnalysisParameterization::new(
        NfaWordAnalysisResetOn::Initials,
        NfaWordAnalysisPolicy::TryResetThenMaySkip(NfaWordAnalysisResetOn::Initials, false),
    );
    let start = param.make_init_node(&context.nfa);
    let steps = NfaWordAnalysisProcessHandler::collect_next_steps(&context, &param, &start);
    assert_eq!(steps.len(), 0);
    let verdict = run_analysis(&context, &param);
    assert_eq!(verdict.deviations, 0);
    assert!(!verdict.emptied_trace);
}

#[test]
fn empty_word_is_emptied_immediately() {
    let context = NfaWordAnalysisContext::new(self_loop_nfa(), Vec::new());
    let param = NfaWordAnalysisParameterization::new(
        NfaWordAnalysisResetOn::Initials,
        NfaWordAnalysisPolicy::StopAtDeviation,
    );
    let verdict = run_analysis(&context, &param);
    assert_eq!(verdict.deviations, 0);
    assert!(verdict.emptied_trace);
}

#[test]
fn every_letter_skipped_counts_every_deviation() {
    let context = NfaWordAnalysisContext::new(self_loop_nfa(), vec![B, B, B]);
    let param = NfaWordAnalysisParameterization::new(
        NfaWordAnalysisResetOn::Initials,
        NfaWordAnalysisPolicy::SkipAndMayReset(None),
    );
    let verdict = run_analysis(&context, &param);
    assert_eq!(verdict.deviations, 3);
    assert!(verdict.emptied_trace);
}

#[test]
fn skip_and_reset_together() {
    // skipping with a simultaneous reset to a specific state
    let context = NfaWordAnalysisContext::new(three_state_nfa(), vec![D, B]);
    let param = NfaWordAnalysisParameterization::new(
        NfaWordAnalysisResetOn::Initials,
        NfaWordAnalysisPolicy::SkipAndMayReset(Some(NfaWordAnalysisResetOn::Specific(vec![1]))),
    );
    let start = param.make_init_node(&context.nfa);
    let steps = NfaWordAnalysisProcessHandler::collect_next_steps(&context, &param, &start);
    assert_eq!(steps.len(), 1);
    match &steps[0] {
        NfaWordAnalysisStepKind::ResetAndOrSkip(kind) => {
            assert_eq!(*kind, NfaWordAnalysisRecoveryKind::ResetAndSkip);
        }
        other => panic!("expected a recovery step, got {}", other.description()),
    }
    // after resetting to {1} and skipping 'd', 'b' is read into {2}
    let verdict = run_analysis(&context, &param);
    assert_eq!(verdict.deviations, 1);
    assert!(verdict.emptied_trace);
}

#[test]
fn repeated_analyses_agree() {
    let param = NfaWordAnalysisParameterization::new(
        NfaWordAnalysisResetOn::Initials,
        NfaWordAnalysisPolicy::TryResetThenMaySkip(NfaWordAnalysisResetOn::AllStates, true),
    );
    let context = NfaWordAnalysisContext::new(three_state_nfa(), vec![A, D, B]);
    let first = run_analysis(&context, &param);
    let second = run_analysis(&context, &param);
    assert_eq!(first, second);
}
