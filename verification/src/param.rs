//! The recovery policy: reset targets, the three deviation policies, and the
//! parameterization of one analysis.

use vstd::prelude::*;
use vstd::string::StringExecFns;

use crate::nfa::{check_state_set, copy_states, is_state_set, within_universe, Nfa};
use crate::node::NfaWordAnalysisNodeKind;
use crate::render::{render_states, states_repr};

verus! {

/// Where a reset takes the active states: the automaton's initial states,
/// all of its states, or a given state set.
#[derive(Debug, Clone)]
pub enum NfaWordAnalysisResetOn {
    Initials,
    AllStates,
    Specific(Vec<usize>),
}

impl NfaWordAnalysisResetOn {
    /// A `Specific` target must itself be a state set within the
    /// automaton's universe.
    pub open spec fn wf(&self, nfa: &Nfa) -> bool {
        match self {
            NfaWordAnalysisResetOn::Specific(v) => is_state_set(v@) && within_universe(
                v@,
                nfa.n_states,
            ),
            _ => true,
        }
    }

    /// The concrete state set this target stands for.
    pub open spec fn resolved(&self, nfa: &Nfa) -> Set<usize> {
        match self {
            NfaWordAnalysisResetOn::Initials => nfa.initials@.to_set(),
            NfaWordAnalysisResetOn::AllStates => nfa.universe(),
            NfaWordAnalysisResetOn::Specific(v) => v@.to_set(),
        }
    }

    /// Resolves this target to its concrete state set.
    pub fn get_reset_states(&self, nfa: &Nfa) -> (r: Vec<usize>)
        requires
            nfa.wf(),
            self.wf(nfa),
        ensures
            is_state_set(r@),
            within_universe(r@, nfa.n_states),
            r@.to_set() == self.resolved(nfa),
    {
        match self {
            NfaWordAnalysisResetOn::Initials => copy_states(&nfa.initials),
            NfaWordAnalysisResetOn::AllStates => {
                let mut r: Vec<usize> = Vec::new();
                let mut s: usize = 0;
                while s < nfa.n_states
                    invariant
                        s <= nfa.n_states,
                        r@.len() == s,
                        forall|j: int| 0 <= j < r@.len() ==> #[trigger] r@[j] == j,
                    decreases nfa.n_states - s,
                {
                    r.push(s);
                    s += 1;
                }
                proof {
                    assert forall|i: int, j: int| 0 <= i < j < r@.len() implies r@[i] < r@[j] by {
                        assert(r@[i] == i && r@[j] == j);
                    }
                    assert forall|x: usize| #[trigger]
                        nfa.universe().contains(x) implies r@.to_set().contains(x) by {
                        assert(r@[x as int] == x);
                    }
                    assert forall|x: usize| #[trigger]
                        r@.to_set().contains(x) implies nfa.universe().contains(x) by {
                        let j = choose|j: int| 0 <= j < r@.len() && r@[j] == x;
                    }
                    assert(r@.to_set() =~= nfa.universe());
                }
                r
            },
            NfaWordAnalysisResetOn::Specific(v) => copy_states(v),
        }
    }

    /// Whether `wf` holds, checked at run time.
    pub fn is_valid_for(&self, nfa: &Nfa) -> (r: bool)
        ensures
            r == self.wf(nfa),
    {
        match self {
            NfaWordAnalysisResetOn::Specific(v) => check_state_set(v, nfa.n_states),
            _ => true,
        }
    }

    /// The wording of this target, as a reporting layer prints it.
    pub open spec fn description_repr(&self) -> Seq<char> {
        match self {
            NfaWordAnalysisResetOn::Initials => "from NFA initial states"@,
            NfaWordAnalysisResetOn::AllStates => "from all states"@,
            NfaWordAnalysisResetOn::Specific(v) => "on specific states : "@ + states_repr(v@),
        }
    }

    /// Renders this target in words.
    pub fn description(&self) -> (r: String)
        ensures
            r@ == self.description_repr(),
    {
        match self {
            NfaWordAnalysisResetOn::Initials => "from NFA initial states".to_owned(),
            NfaWordAnalysisResetOn::AllStates => "from all states".to_owned(),
            NfaWordAnalysisResetOn::Specific(states) => String::from_str(
                "on specific states : ",
            ).concat(render_states(states).as_str()),
        }
    }
}

/// How the engine reacts when the current letter cannot be consumed from the
/// current configuration.
#[derive(Debug, Clone)]
pub enum NfaWordAnalysisPolicy {
    /// No recovery; the run becomes stuck.
    StopAtDeviation,
    /// Always attempt a reset first; the flag says whether a useless or
    /// unhelpful reset may be followed by skipping the letter.
    TryResetThenMaySkip(NfaWordAnalysisResetOn, bool),
    /// Always skip the unreadable letter, optionally also resetting.
    SkipAndMayReset(Option<NfaWordAnalysisResetOn>),
}

impl NfaWordAnalysisPolicy {
    /// Every reset target named by the policy is well formed for `nfa`.
    pub open spec fn wf(&self, nfa: &Nfa) -> bool {
        match self {
            NfaWordAnalysisPolicy::StopAtDeviation => true,
            NfaWordAnalysisPolicy::TryResetThenMaySkip(reset, _) => reset.wf(nfa),
            NfaWordAnalysisPolicy::SkipAndMayReset(may_reset) => match may_reset {
                Some(reset) => reset.wf(nfa),
                None => true,
            },
        }
    }

    /// The reset target in effect under this policy, if any.
    pub open spec fn spec_reset_policy(&self) -> Option<NfaWordAnalysisResetOn> {
        match self {
            NfaWordAnalysisPolicy::StopAtDeviation => None,
            NfaWordAnalysisPolicy::TryResetThenMaySkip(reset, _) => Some(*reset),
            NfaWordAnalysisPolicy::SkipAndMayReset(may_reset) => *may_reset,
        }
    }

    /// The reset target in effect under this policy, if any.
    pub fn get_reset_policy(&self) -> (r: Option<&NfaWordAnalysisResetOn>)
        ensures
            (r is Some) == (self.spec_reset_policy() is Some),
            (match r {
                Some(target) => self.spec_reset_policy() == Some(*target),
                None => true,
            }),
    {
        match self {
            NfaWordAnalysisPolicy::StopAtDeviation => None,
            NfaWordAnalysisPolicy::TryResetThenMaySkip(reset, _) => Some(reset),
            NfaWordAnalysisPolicy::SkipAndMayReset(may_reset) => {
                if let Some(reset) = may_reset {
                    Some(reset)
                } else {
                    None
                }
            },
        }
    }

    /// Whether `wf` holds, checked at run time.
    pub fn is_valid_for(&self, nfa: &Nfa) -> (r: bool)
        ensures
            r == self.wf(nfa),
    {
        match self {
            NfaWordAnalysisPolicy::StopAtDeviation => true,
            NfaWordAnalysisPolicy::TryResetThenMaySkip(reset, _) => reset.is_valid_for(nfa),
            NfaWordAnalysisPolicy::SkipAndMayReset(may_reset) => {
                if let Some(reset) = may_reset {
                    reset.is_valid_for(nfa)
                } else {
                    true
                }
            },
        }
    }

    /// The wording of this policy, as a reporting layer prints it.
    pub open spec fn description_repr(&self) -> Seq<char> {
        match self {
            NfaWordAnalysisPolicy::StopAtDeviation => "stop at first deviation"@,
            NfaWordAnalysisPolicy::TryResetThenMaySkip(reset, skip) => if *skip {
                "try reset "@ + reset.description_repr() + " and if fail then skip letter"@
            } else {
                "reset "@ + reset.description_repr()
            },
            NfaWordAnalysisPolicy::SkipAndMayReset(may_reset) => match may_reset {
                None => "skip letter"@,
                Some(reset) => "skip letter and reset "@ + reset.description_repr(),
            },
        }
    }

    /// Renders this policy in words.
    pub fn description(&self) -> (r: String)
        ensures
            r@ == self.description_repr(),
    {
        match self {
            NfaWordAnalysisPolicy::StopAtDeviation => "stop at first deviation".to_owned(),
            NfaWordAnalysisPolicy::TryResetThenMaySkip(reset, skip) => {
                if *skip {
                    String::from_str("try reset ").concat(reset.description().as_str()).concat(
                        " and if fail then skip letter",
                    )
                } else {
                    String::from_str("reset ").concat(reset.description().as_str())
                }
            },
            NfaWordAnalysisPolicy::SkipAndMayReset(may_reset) => {
                match may_reset {
                    None => "skip letter".to_owned(),
                    Some(reset) => String::from_str("skip letter and reset ").concat(
                        reset.description().as_str(),
                    ),
                }
            },
        }
    }
}

/// The parameterization of one analysis: where the initial configuration
/// starts, and the deviation policy.
#[derive(Debug, Clone)]
pub struct NfaWordAnalysisParameterization {
    pub start_on: NfaWordAnalysisResetOn,
    pub policy: NfaWordAnalysisPolicy,
}

impl NfaWordAnalysisParameterization {
    /// Both the start target and the policy's reset targets are well formed
    /// for `nfa`.
    pub open spec fn wf(&self, nfa: &Nfa) -> bool {
        &&& self.start_on.wf(nfa)
        &&& self.policy.wf(nfa)
    }

    pub fn new(start_on: NfaWordAnalysisResetOn, policy: NfaWordAnalysisPolicy) -> (r: Self)
        ensures
            r.start_on == start_on,
            r.policy == policy,
    {
        Self { start_on, policy }
    }

    /// The initial configuration: the resolved start states, before any
    /// letter is read.
    pub fn make_init_node(&self, nfa: &Nfa) -> (r: NfaWordAnalysisNodeKind)
        requires
            nfa.wf(),
            self.start_on.wf(nfa),
        ensures
            r.wf(nfa),
            r.active() == self.start_on.resolved(nfa),
            r.pos_in_trace == 0,
    {
        NfaWordAnalysisNodeKind::new(self.start_on.get_reset_states(nfa), 0)
    }

    /// Whether `wf` holds, checked at run time.
    pub fn is_valid_for(&self, nfa: &Nfa) -> (r: bool)
        ensures
            r == self.wf(nfa),
    {
        self.start_on.is_valid_for(nfa) && self.policy.is_valid_for(nfa)
    }

    /// The lines a reporting layer prints for this parameterization.
    pub fn get_param_as_strings(&self) -> (r: Vec<String>)
        ensures
            r@.len() == 3,
            r@[0]@ == "process = NFA word analysis"@,
            r@[1]@ == "start = "@ + self.start_on.description_repr(),
            r@[2]@ == "on deviation policy = "@ + self.policy.description_repr(),
    {
        let mut params: Vec<String> = Vec::new();
        params.push("process = NFA word analysis".to_owned());
        params.push(String::from_str("start = ").concat(self.start_on.description().as_str()));
        params.push(
            String::from_str("on deviation policy = ").concat(self.policy.description().as_str()),
        );
        params
    }
}

} // verus!
