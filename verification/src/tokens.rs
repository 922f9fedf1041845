//! Whitespace tokenization of flag strings: a flag group is the
//! sequence of maximal non-whitespace runs of its configuration value,
//! in order.
use vstd::prelude::*;
use crate::scan::find_ws_at;
use crate::scan::find_ws;
use crate::scan::is_ws;
use crate::scan::is_ws_exec;
use crate::scan::lemma_find_ws_at;
use crate::chars::substring;
use crate::chars::to_chars;

verus! {

/// The whitespace-separated tokens of `s` starting at `from`: maximal
/// runs of non-whitespace characters, in order of appearance.
pub open spec fn tokens_from(s: Seq<char>, from: int) -> Seq<Seq<char>>
    decreases s.len() - from,
    via tokens_from_decreases
{
    if from < 0 || from >= s.len() {
        Seq::empty()
    } else if is_ws(s[from]) {
        tokens_from(s, from + 1)
    } else {
        seq![s.subrange(from, find_ws_at(s, from))] + tokens_from(s, find_ws_at(s, from))
    }
}

#[via_fn]
proof fn tokens_from_decreases(s: Seq<char>, from: int) {
    if 0 <= from < s.len() && !is_ws(s[from]) {
        lemma_find_ws_at(s, from);
    }
}

/// The whitespace-separated tokens of the whole string `s`.
pub open spec fn spec_tokens(s: Seq<char>) -> Seq<Seq<char>> {
    tokens_from(s, 0)
}

/// Splits `v` on runs of ASCII whitespace, preserving token order.
pub fn tokenize_chars(v: &Vec<char>) -> (r: Vec<String>)
    ensures
        r.deep_view() == spec_tokens(v@),
{
    let ghost all = tokens_from(v@, 0);
    let mut r: Vec<String> = Vec::new();
    let mut i: usize = 0;
    while i < v.len()
        invariant
            i <= v@.len(),
            r.deep_view() + tokens_from(v@, i as int) == all,
        decreases v@.len() - i,
    {
        if is_ws_exec(v[i]) {
            i = i + 1;
        } else {
            proof {
                lemma_find_ws_at(v@, i as int);
            }
            let j = find_ws(v, i);
            let tok = substring(v, i, j);
            let ghost prev = r.deep_view();
            r.push(tok);
            proof {
                assert(r.deep_view() =~= prev + seq![tok@]);
                assert(prev + seq![tok@] + tokens_from(v@, j as int) =~= prev + (seq![tok@]
                    + tokens_from(v@, j as int)));
            }
            i = j;
        }
    }
    proof {
        assert(r.deep_view() + tokens_from(v@, i as int) =~= r.deep_view());
    }
    r
}

/// Splits `s` on runs of ASCII whitespace, preserving token order.
pub fn tokenize(s: &str) -> (r: Vec<String>)
    ensures
        r.deep_view() == spec_tokens(s@),
{
    let v = to_chars(s);
    tokenize_chars(&v)
}

} // verus!
