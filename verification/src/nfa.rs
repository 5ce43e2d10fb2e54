//! The automaton consumed by the analysis: states, initial states and a
//! transition relation, together with the "union of successors" primitive
//! that the decision engine queries.

use vstd::prelude::*;

verus! {

/// A set of states is kept as a strictly increasing vector of state
/// identifiers, so that two vectors hold the same set exactly when they are
/// equal element for element.
pub open spec fn is_state_set(s: Seq<usize>) -> bool {
    forall|i: int, j: int| 0 <= i < j < s.len() ==> s[i] < s[j]
}

/// Every element of `s` is one of the `n_states` declared states.
pub open spec fn within_universe(s: Seq<usize>, n_states: usize) -> bool {
    forall|i: int| 0 <= i < s.len() ==> s[i] < n_states
}

/// A set of states holds some state.
pub open spec fn set_nonempty(s: Set<usize>) -> bool {
    exists|x: usize| s.contains(x)
}

/// A nondeterministic finite automaton over the letters `0 .. n_letters`,
/// with states `0 .. n_states`. The transition relation is given edge by
/// edge: `(source, letter, target)`.
pub struct Nfa {
    pub n_states: usize,
    pub n_letters: usize,
    pub initials: Vec<usize>,
    pub edges: Vec<(usize, usize, usize)>,
}

impl Nfa {
    /// The initial states form a state set, and every edge stays within the
    /// declared states and letters.
    pub open spec fn wf(&self) -> bool {
        &&& is_state_set(self.initials@)
        &&& within_universe(self.initials@, self.n_states)
        &&& forall|k: int|
            0 <= k < self.edges@.len() ==> {
                &&& (#[trigger] self.edges@[k]).0 < self.n_states
                &&& self.edges@[k].1 < self.n_letters
                &&& self.edges@[k].2 < self.n_states
            }
    }

    /// The set of all declared states.
    pub open spec fn universe(&self) -> Set<usize> {
        Set::new(|s: usize| s < self.n_states)
    }

    /// State `s` reaches state `t` when reading `letter`.
    pub open spec fn has_edge(&self, s: usize, letter: usize, t: usize) -> bool {
        exists|k: int|
            0 <= k < self.edges@.len() && (#[trigger] self.edges@[k]).0 == s
                && self.edges@[k].1 == letter && self.edges@[k].2 == t
    }

    /// The union of the successors of every state of `active` under
    /// `letter`; empty when no state of `active` has a successor.
    pub open spec fn next_states(&self, active: Set<usize>, letter: usize) -> Set<usize> {
        Set::new(
            |t: usize| exists|s: usize| active.contains(s) && #[trigger] self.has_edge(s, letter, t),
        )
    }

    proof fn lemma_next_states_within_universe(&self, active: Set<usize>, letter: usize)
        requires
            self.wf(),
        ensures
            forall|t: usize| #[trigger]
                self.next_states(active, letter).contains(t) ==> t < self.n_states,
    {
        assert forall|t: usize| #[trigger]
            self.next_states(active, letter).contains(t) implies t < self.n_states by {
            let s = choose|s: usize| active.contains(s) && #[trigger] self.has_edge(s, letter, t);
            let k = choose|k: int|
                0 <= k < self.edges@.len() && (#[trigger] self.edges@[k]).0 == s
                    && self.edges@[k].1 == letter && self.edges@[k].2 == t;
        }
    }

    /// Whether some state of `active` has an edge under `letter` into
    /// `target`.
    fn reaches_target(&self, active: &Vec<usize>, letter: usize, target: usize) -> (r: bool)
        ensures
            r == self.next_states(active@.to_set(), letter).contains(target),
    {
        let ghost goal = self.next_states(active@.to_set(), letter);
        let mut k: usize = 0;
        while k < self.edges.len()
            invariant
                goal == self.next_states(active@.to_set(), letter),
                k <= self.edges@.len(),
                forall|j: int|
                    0 <= j < k ==> !((#[trigger] self.edges@[j]).1 == letter
                        && self.edges@[j].2 == target && active@.contains(self.edges@[j].0)),
            decreases self.edges@.len() - k,
        {
            let e = self.edges[k];
            if e.1 == letter && e.2 == target && state_set_contains(active, e.0) {
                proof {
                    assert(self.has_edge(e.0, letter, target)) by {
                        assert((#[trigger] self.edges@[k as int]).0 == e.0
                            && self.edges@[k as int].1 == letter
                            && self.edges@[k as int].2 == target);
                    }
                    assert(goal.contains(target)) by {
                        assert(active@.to_set().contains(e.0) && self.has_edge(e.0, letter, target));
                    }
                }
                return true;
            }
            k += 1;
        }
        proof {
            if goal.contains(target) {
                let s = choose|s: usize|
                    active@.to_set().contains(s) && #[trigger] self.has_edge(s, letter, target);
                let j = choose|j: int|
                    0 <= j < self.edges@.len() && (#[trigger] self.edges@[j]).0 == s
                        && self.edges@[j].1 == letter && self.edges@[j].2 == target;
                assert(active@.contains(self.edges@[j].0));
                assert(false);
            }
        }
        false
    }

    /// The union of the successors of every state of `active` under
    /// `letter`, as a state set.
    pub fn transition(&self, active: &Vec<usize>, letter: usize) -> (r: Vec<usize>)
        requires
            self.wf(),
            is_state_set(active@),
            within_universe(active@, self.n_states),
            letter < self.n_letters,
        ensures
            is_state_set(r@),
            within_universe(r@, self.n_states),
            r@.to_set() == self.next_states(active@.to_set(), letter),
    {
        let ghost goal = self.next_states(active@.to_set(), letter);
        let mut result: Vec<usize> = Vec::new();
        let mut t: usize = 0;
        while t < self.n_states
            invariant
                goal == self.next_states(active@.to_set(), letter),
                t <= self.n_states,
                is_state_set(result@),
                forall|i: int| 0 <= i < result@.len() ==> #[trigger] result@[i] < t,
                forall|i: int| 0 <= i < result@.len() ==> goal.contains(#[trigger] result@[i]),
                forall|x: usize| x < t && #[trigger] goal.contains(x) ==> result@.contains(x),
            decreases self.n_states - t,
        {
            if self.reaches_target(active, letter, t) {
                let ghost prev = result@;
                result.push(t);
                proof {
                    assert forall|i: int, j: int|
                        0 <= i < j < result@.len() implies result@[i] < result@[j] by {
                        if j < prev.len() {
                            assert(prev[i] < prev[j]);
                        } else {
                            assert(prev[i] < t);
                        }
                    }
                    assert forall|x: usize|
                        x < t + 1 && #[trigger] goal.contains(x) implies result@.contains(x) by {
                        if x == t {
                            assert(result@[prev.len() as int] == t);
                        } else {
                            let i = choose|i: int| 0 <= i < prev.len() && prev[i] == x;
                            assert(result@[i] == x);
                        }
                    }
                }
            }
            t += 1;
        }
        proof {
            self.lemma_next_states_within_universe(active@.to_set(), letter);
            assert forall|x: usize| #[trigger] result@.to_set().contains(x) implies goal.contains(
                x,
            ) by {
                let i = choose|i: int| 0 <= i < result@.len() && result@[i] == x;
            }
            assert(result@.to_set() =~= goal);
        }
        result
    }

    /// Whether this automaton satisfies `wf`, checked at run time; the
    /// boundary that receives an automaton from outside uses this before
    /// starting an analysis.
    pub fn is_well_formed(&self) -> (r: bool)
        ensures
            r == self.wf(),
    {
        if !check_state_set(&self.initials, self.n_states) {
            return false;
        }
        let mut k: usize = 0;
        while k < self.edges.len()
            invariant
                k <= self.edges@.len(),
                forall|j: int|
                    0 <= j < k ==> {
                        &&& (#[trigger] self.edges@[j]).0 < self.n_states
                        &&& self.edges@[j].1 < self.n_letters
                        &&& self.edges@[j].2 < self.n_states
                    },
            decreases self.edges@.len() - k,
        {
            let e = self.edges[k];
            if e.0 >= self.n_states || e.1 >= self.n_letters || e.2 >= self.n_states {
                return false;
            }
            k += 1;
        }
        true
    }
}

/// A vector holds an element exactly when its set of elements is non-empty
/// for it; in particular an empty vector stands for the empty set.
pub proof fn lemma_to_set_nonempty(v: Seq<usize>)
    ensures
        (v.len() > 0) == set_nonempty(v.to_set()),
{
    if v.len() > 0 {
        assert(v.to_set().contains(v[0]));
    } else {
        if set_nonempty(v.to_set()) {
            let x = choose|x: usize| v.to_set().contains(x);
            let i = choose|i: int| 0 <= i < v.len() && v[i] == x;
            assert(false);
        }
    }
}

/// Whether `v` holds `x`.
pub fn state_set_contains(v: &Vec<usize>, x: usize) -> (r: bool)
    ensures
        r == v@.contains(x),
{
    let mut i: usize = 0;
    while i < v.len()
        invariant
            i <= v@.len(),
            forall|j: int| 0 <= j < i ==> v@[j] != x,
        decreases v@.len() - i,
    {
        if v[i] == x {
            return true;
        }
        i += 1;
    }
    proof {
        if v@.contains(x) {
            let j = choose|j: int| 0 <= j < v@.len() && v@[j] == x;
            assert(false);
        }
    }
    false
}

/// Whether every state of `a` also stands in `b`.
pub fn is_subset_of(a: &Vec<usize>, b: &Vec<usize>) -> (r: bool)
    ensures
        r == a@.to_set().subset_of(b@.to_set()),
{
    let mut i: usize = 0;
    while i < a.len()
        invariant
            i <= a@.len(),
            forall|j: int| 0 <= j < i ==> b@.contains(#[trigger] a@[j]),
        decreases a@.len() - i,
    {
        if !state_set_contains(b, a[i]) {
            proof {
                assert(a@.to_set().contains(a@[i as int]));
            }
            return false;
        }
        i += 1;
    }
    proof {
        assert forall|x: usize| #[trigger] a@.to_set().contains(x) implies b@.to_set().contains(
            x,
        ) by {
            let j = choose|j: int| 0 <= j < a@.len() && a@[j] == x;
        }
    }
    true
}

/// Copies a vector of states.
pub fn copy_states(v: &Vec<usize>) -> (r: Vec<usize>)
    ensures
        r@ == v@,
{
    let mut r: Vec<usize> = Vec::new();
    let mut i: usize = 0;
    while i < v.len()
        invariant
            i <= v@.len(),
            r@ == v@.subrange(0, i as int),
        decreases v@.len() - i,
    {
        r.push(v[i]);
        proof {
            assert(r@ =~= v@.subrange(0, i + 1));
        }
        i += 1;
    }
    proof {
        assert(r@ =~= v@);
    }
    r
}

/// Whether `v` is a strictly increasing vector of states below `n_states`,
/// checked at run time.
pub fn check_state_set(v: &Vec<usize>, n_states: usize) -> (r: bool)
    ensures
        r == (is_state_set(v@) && within_universe(v@, n_states)),
{
    let mut i: usize = 0;
    while i < v.len()
        invariant
            i <= v@.len(),
            forall|j: int| 0 <= j < i ==> #[trigger] v@[j] < n_states,
            forall|j: int| 0 < j < i ==> v@[j - 1] < #[trigger] v@[j],
        decreases v@.len() - i,
    {
        if v[i] >= n_states {
            return false;
        }
        if i > 0 && v[i - 1] >= v[i] {
            return false;
        }
        i += 1;
    }
    proof {
        lemma_adjacent_increasing_is_state_set(v@);
    }
    true
}

/// A vector whose adjacent elements increase is strictly increasing at every
/// pair of positions.
proof fn lemma_adjacent_increasing_is_state_set(s: Seq<usize>)
    requires
        forall|j: int| 0 < j < s.len() ==> s[j - 1] < #[trigger] s[j],
    ensures
        is_state_set(s),
{
    assert forall|i: int, j: int| 0 <= i < j < s.len() implies s[i] < s[j] by {
        lemma_increasing_span(s, i, j);
    }
}

proof fn lemma_increasing_span(s: Seq<usize>, i: int, j: int)
    requires
        forall|k: int| 0 < k < s.len() ==> s[k - 1] < #[trigger] s[k],
        0 <= i < j < s.len(),
    ensures
        s[i] < s[j],
    decreases j - i,
{
    if j > i + 1 {
        lemma_increasing_span(s, i, j - 1);
    }
}

/// Two state sets holding the same states are equal element for element.
pub proof fn lemma_state_set_extensional(a: Seq<usize>, b: Seq<usize>)
    requires
        is_state_set(a),
        is_state_set(b),
        a.to_set() == b.to_set(),
    ensures
        a == b,
    decreases a.len(),
{
    if a.len() == 0 {
        if b.len() > 0 {
            assert(b.to_set().contains(b[0]));
            let i = choose|i: int| 0 <= i < a.len() && a[i] == b[0];
            assert(false);
        }
        assert(a =~= b);
    } else {
        assert(a.to_set().contains(a[0]));
        assert(b.to_set().contains(b[0]));
        let ia = choose|i: int| 0 <= i < b.len() && b[i] == a[0];
        let ib = choose|i: int| 0 <= i < a.len() && a[i] == b[0];
        assert(b[0] <= b[ia]);
        assert(a[0] <= a[ib]);
        assert(a[0] == b[0]);
        let a1 = a.drop_first();
        let b1 = b.drop_first();
        assert forall|x: usize| #[trigger] a1.to_set().contains(x) implies b1.to_set().contains(
            x,
        ) by {
            lemma_drop_first_membership(a, b, x);
        }
        assert forall|x: usize| #[trigger] b1.to_set().contains(x) implies a1.to_set().contains(
            x,
        ) by {
            lemma_drop_first_membership(b, a, x);
        }
        assert(a1.to_set() =~= b1.to_set());
        lemma_state_set_extensional(a1, b1);
        assert forall|i: int| 0 <= i < a.len() implies a[i] == b[i] by {
            if i > 0 {
                assert(a1[i - 1] == b1[i - 1]);
            }
        }
        assert(a =~= b);
    }
}

/// A state found past the head of one of two state sets holding the same
/// states and the same head is also found past the head of the other.
proof fn lemma_drop_first_membership(a: Seq<usize>, b: Seq<usize>, x: usize)
    requires
        is_state_set(a),
        is_state_set(b),
        a.to_set() == b.to_set(),
        a.len() > 0,
        b.len() > 0,
        a[0] == b[0],
        a.drop_first().to_set().contains(x),
    ensures
        b.drop_first().to_set().contains(x),
{
    let a1 = a.drop_first();
    let i = choose|i: int| 0 <= i < a1.len() && a1[i] == x;
    assert(a[i + 1] == x);
    assert(a[0] < x);
    assert(a.to_set().contains(x));
    assert(b.to_set().contains(x));
    let j = choose|j: int| 0 <= j < b.len() && b[j] == x;
    assert(j != 0);
    assert(b.drop_first()[j - 1] == x);
}

} // verus!
