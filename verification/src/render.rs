//! Textual rendering of numbers and state sets, shared by the drawer's
//! identifiers and the descriptions of parameterizations and verdicts.

use vstd::prelude::*;
use vstd::string::StringExecFns;

verus! {

/// The decimal digit character of `d`, for `0 <= d <= 9`.
pub open spec fn dec_digit(d: int) -> char {
    if d == 0 {
        '0'
    } else if d == 1 {
        '1'
    } else if d == 2 {
        '2'
    } else if d == 3 {
        '3'
    } else if d == 4 {
        '4'
    } else if d == 5 {
        '5'
    } else if d == 6 {
        '6'
    } else if d == 7 {
        '7'
    } else if d == 8 {
        '8'
    } else {
        '9'
    }
}

/// The decimal rendering of a non-negative number, most significant digit
/// first.
pub open spec fn dec_repr(n: int) -> Seq<char>
    decreases n,
{
    if n < 10 {
        seq![dec_digit(n)]
    } else {
        dec_repr(n / 10).push(dec_digit(n % 10))
    }
}

/// Renders `n` in decimal.
pub fn u64_to_dec_string(n: u64) -> (r: String)
    ensures
        r@ == dec_repr(n as int),
    decreases n,
{
    proof {
        reveal_strlit("0");
        reveal_strlit("1");
        reveal_strlit("2");
        reveal_strlit("3");
        reveal_strlit("4");
        reveal_strlit("5");
        reveal_strlit("6");
        reveal_strlit("7");
        reveal_strlit("8");
        reveal_strlit("9");
    }
    let digit: &str = match n % 10 {
        0 => "0",
        1 => "1",
        2 => "2",
        3 => "3",
        4 => "4",
        5 => "5",
        6 => "6",
        7 => "7",
        8 => "8",
        _ => "9",
    };
    proof {
        assert(digit@ =~= seq![dec_digit(n as int % 10)]);
    }
    if n < 10 {
        let r = digit.to_owned();
        proof {
            assert(r@ =~= dec_repr(n as int));
        }
        r
    } else {
        let prefix = u64_to_dec_string(n / 10);
        let r = prefix.concat(digit);
        proof {
            assert(r@ =~= dec_repr(n as int));
        }
        r
    }
}

/// Renders `n` in decimal.
pub fn u32_to_dec_string(n: u32) -> (r: String)
    ensures
        r@ == dec_repr(n as int),
{
    u64_to_dec_string(n as u64)
}

/// Renders `n` in decimal.
pub fn usize_to_dec_string(n: usize) -> (r: String)
    ensures
        r@ == dec_repr(n as int),
{
    u64_to_dec_string(n as u64)
}

/// The comma-separated decimal renderings of the elements of `s`.
pub open spec fn states_list_repr(s: Seq<usize>) -> Seq<char>
    decreases s.len(),
{
    if s.len() == 0 {
        Seq::empty()
    } else if s.len() == 1 {
        dec_repr(s[0] as int)
    } else {
        states_list_repr(s.drop_last()) + seq![',', ' '] + dec_repr(s.last() as int)
    }
}

/// The rendering of a state set: its elements in order, comma separated,
/// between braces.
pub open spec fn states_repr(s: Seq<usize>) -> Seq<char> {
    seq!['{'] + states_list_repr(s) + seq!['}']
}

/// Renders the states of `v` in order, comma separated, between braces.
pub fn render_states(v: &Vec<usize>) -> (r: String)
    ensures
        r@ == states_repr(v@),
{
    proof {
        reveal_strlit("{");
        reveal_strlit("}");
        reveal_strlit(", ");
    }
    let mut body = String::new();
    let mut i: usize = 0;
    while i < v.len()
        invariant
            i <= v@.len(),
            body@ == states_list_repr(v@.take(i as int)),
        decreases v@.len() - i,
    {
        if i > 0 {
            body.append(", ");
        }
        let elem = usize_to_dec_string(v[i]);
        body.append(elem.as_str());
        proof {
            reveal_strlit(", ");
            let prefix = v@.take(i + 1);
            assert(prefix.drop_last() =~= v@.take(i as int));
            assert(prefix.last() == v@[i as int]);
            if i == 0 {
                assert(body@ =~= states_list_repr(prefix));
            } else {
                assert(seq![',', ' '] =~= ", "@);
                assert(body@ =~= states_list_repr(prefix));
            }
        }
        i += 1;
    }
    let mut r = String::from_str("{");
    r.append(body.as_str());
    r.append("}");
    proof {
        assert(v@.take(v@.len() as int) =~= v@);
        assert(r@ =~= states_repr(v@));
    }
    r
}

} // verus!
