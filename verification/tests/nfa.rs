// The six analyses of the three-state automaton (a: {0}->{0,1},
// b: {1}->{2}, c: {2}->{0}) under the different policies, and checks of the
// automaton primitives themselves.

use autour_process::analysis::run_analysis;
use autour_process::context::NfaWordAnalysisContext;
use autour_process::nfa::{is_subset_of, state_set_contains, Nfa};
use autour_process::node::NfaWordAnalysisNodeKind;
use autour_process::param::{
    NfaWordAnalysisParameterization, NfaWordAnalysisPolicy, NfaWordAnalysisResetOn,
};

// letters of the test automaton
const A: usize = 0;
const B: usize = 1;
const C: usize = 2;
const D: usize = 3;

fn get_rv_nfa() -> Nfa {
    Nfa {
        n_states: 3,
        n_letters: 4,
        initials: vec![0],
        edges: vec![(0, A, 0), (0, A, 1), (1, B, 2), (2, C, 0)],
    }
}

fn ana_test(
    output_name: String,
    param: NfaWordAnalysisParameterization,
    nfa: Nfa,
    word: Vec<usize>,
    expected_deviations: u32,
    expected_emptied: bool,
) {
    let context = NfaWordAnalysisContext::new(nfa, word);
    assert!(context.is_well_formed(), "{}", output_name);
    assert!(param.is_valid_for(&context.nfa), "{}", output_name);
    let verdict = run_analysis(&context, &param);
    assert_eq!(verdict.deviations, expected_deviations, "{}", output_name);
    assert_eq!(verdict.emptied_trace, expected_emptied, "{}", output_name);
}

#[test]
fn tests() {
    let param_accept = NfaWordAnalysisParameterization::new(
        NfaWordAnalysisResetOn::Initials,
        NfaWordAnalysisPolicy::StopAtDeviation,
    );
    let param_accept_start_spec = NfaWordAnalysisParameterization::new(
        NfaWordAnalysisResetOn::Specific(vec![1]),
        NfaWordAnalysisPolicy::StopAtDeviation,
    );
    let param_reset_no_skip = NfaWordAnalysisParameterization::new(
        NfaWordAnalysisResetOn::Initials,
        NfaWordAnalysisPolicy::TryResetThenMaySkip(NfaWordAnalysisResetOn::AllStates, false),
    );
    let param_reset_then_skip = NfaWordAnalysisParameterization::new(
        NfaWordAnalysisResetOn::Initials,
        NfaWordAnalysisPolicy::TryResetThenMaySkip(NfaWordAnalysisResetOn::AllStates, true),
    );

    ana_test(
        "accept".to_string(),
        param_accept.clone(),
        get_rv_nfa(),
        vec![A, B, C],
        0,
        true,
    );
    ana_test(
        "fail".to_string(),
        param_accept.clone(),
        get_rv_nfa(),
        vec![B],
        0,
        false,
    );
    ana_test(
        "start_away".to_string(),
        param_accept_start_spec.clone(),
        get_rv_nfa(),
        vec![B],
        0,
        true,
    );
    ana_test(
        "reset".to_string(),
        param_reset_no_skip.clone(),
        get_rv_nfa(),
        vec![A, C],
        1,
        true,
    );
    ana_test(
        "reset_fail".to_string(),
        param_reset_no_skip.clone(),
        get_rv_nfa(),
        vec![A, D],
        0,
        false,
    );
    ana_test(
        "skip".to_string(),
        param_reset_then_skip.clone(),
        get_rv_nfa(),
        vec![A, D, B],
        1,
        true,
    );
}

#[test]
fn transition_unions_successors() {
    let nfa = get_rv_nfa();
    // the two edges of state 0 under 'a' merge into one set
    assert_eq!(nfa.transition(&vec![0], A), vec![0, 1]);
    assert_eq!(nfa.transition(&vec![0, 1], B), vec![2]);
    // a letter no active state can read leads nowhere
    assert_eq!(nfa.transition(&vec![0, 1], C), Vec::<usize>::new());
    // an alphabet letter with no transitions at all leads nowhere
    assert_eq!(nfa.transition(&vec![0, 1, 2], D), Vec::<usize>::new());
}

#[test]
fn reset_targets_resolve() {
    let nfa = get_rv_nfa();
    assert_eq!(
        NfaWordAnalysisResetOn::Initials.get_reset_states(&nfa),
        vec![0]
    );
    assert_eq!(
        NfaWordAnalysisResetOn::AllStates.get_reset_states(&nfa),
        vec![0, 1, 2]
    );
    assert_eq!(
        NfaWordAnalysisResetOn::Specific(vec![0, 2]).get_reset_states(&nfa),
        vec![0, 2]
    );
}

#[test]
fn state_set_primitives() {
    assert!(state_set_contains(&vec![0, 2, 5], 5));
    assert!(!state_set_contains(&vec![0, 2, 5], 3));
    assert!(is_subset_of(&vec![0, 2], &vec![0, 1, 2]));
    assert!(!is_subset_of(&vec![0, 3], &vec![0, 1, 2]));
    assert!(is_subset_of(&Vec::new(), &vec![0]));
}

#[test]
fn memoization_is_structural_equality() {
    let n1 = NfaWordAnalysisNodeKind::new(vec![0, 2], 4);
    let n2 = NfaWordAnalysisNodeKind::new(vec![0, 2], 4);
    let n3 = NfaWordAnalysisNodeKind::new(vec![0, 1], 4);
    let n4 = NfaWordAnalysisNodeKind::new(vec![0, 2], 5);
    assert!(n1.is_included_for_memoization(&n2));
    assert!(!n1.is_included_for_memoization(&n3));
    assert!(!n1.is_included_for_memoization(&n4));
}

#[test]
fn well_formedness_checks() {
    let nfa = get_rv_nfa();
    assert!(nfa.is_well_formed());
    let bad_edge = Nfa {
        n_states: 3,
        n_letters: 4,
        initials: vec![0],
        edges: vec![(0, A, 7)],
    };
    assert!(!bad_edge.is_well_formed());
    let unsorted_initials = Nfa {
        n_states: 3,
        n_letters: 4,
        initials: vec![2, 0],
        edges: vec![],
    };
    assert!(!unsorted_initials.is_well_formed());
    // a word with a letter outside the alphabet is rejected at the boundary
    let context = NfaWordAnalysisContext::new(get_rv_nfa(), vec![A, 9]);
    assert!(!context.is_well_formed());
    // a specific reset target outside the universe is rejected
    let param = NfaWordAnalysisParameterization::new(
        NfaWordAnalysisResetOn::Specific(vec![9]),
        NfaWordAnalysisPolicy::StopAtDeviation,
    );
    assert!(!param.is_valid_for(&nfa));
}
