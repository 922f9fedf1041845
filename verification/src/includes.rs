//! `#include "…"` extraction: each line contributes at most one target,
//! the text between the first include marker's opening quote and the
//! last double quote of the line; targets are resolved against the
//! first include-path root to seed the header fixer's second phase.
use vstd::prelude::*;
use crate::scan::find_sub_at;
use crate::scan::find_sub;
use crate::scan::lemma_find_sub_at;
use crate::scan::rfind_char_before;
use crate::scan::rfind_char;
use crate::scan::find_char_at;
use crate::scan::find_char;
use crate::scan::lemma_find_char_at;
use crate::chars::to_chars;
use crate::chars::substring;
use crate::directives::line_end;
use crate::paths::spec_join;
use crate::paths::join_path;

verus! {

/// The token that opens an include directive, quote included.
pub open spec fn include_directive_marker() -> Seq<char> {
    "#include \""@
}

/// The include target of the line `s[from..end)`: the text between the
/// first include marker's opening quote and the last double quote of
/// the line, when the marker occurs and such a quote follows it.
pub open spec fn line_include(s: Seq<char>, from: int, end: int) -> Option<Seq<char>> {
    let i = find_sub_at(s, from, include_directive_marker());
    if i >= end {
        None
    } else {
        let a = i + include_directive_marker().len();
        let b = rfind_char_before(s, end, '"');
        if a <= b {
            Some(s.subrange(a, b))
        } else {
            None
        }
    }
}

/// The include targets of the text `s` from `from` on, line by line.
pub open spec fn includes_from(s: Seq<char>, from: int) -> Seq<Seq<char>>
    decreases s.len() - from,
    via includes_from_decreases
{
    if from < 0 || from >= s.len() {
        Seq::empty()
    } else {
        let e = line_end(s, from);
        (match line_include(s, from, e) {
            Some(t) => seq![t],
            None => Seq::empty(),
        }) + includes_from(s, e)
    }
}

#[via_fn]
proof fn includes_from_decreases(s: Seq<char>, from: int) {
    if 0 <= from < s.len() {
        lemma_find_char_at(s, from, '\n');
    }
}

/// All include targets of the text `s`, in order of appearance.
pub open spec fn spec_includes(s: Seq<char>) -> Seq<Seq<char>> {
    includes_from(s, 0)
}

/// Extracts every `#include "…"` target of `text`, in order.
pub fn extract_includes(text: &str) -> (r: Vec<String>)
    ensures
        r.deep_view() == spec_includes(text@),
{
    let v = to_chars(text);
    let m = to_chars("#include \"");
    let mut r: Vec<String> = Vec::new();
    let mut i: usize = 0;
    while i < v.len()
        invariant
            i <= v@.len(),
            v@ == text@,
            m@ == include_directive_marker(),
            r.deep_view() + includes_from(v@, i as int) == spec_includes(text@),
        decreases v@.len() - i,
    {
        proof {
            lemma_find_char_at(v@, i as int, '\n');
        }
        let nl = find_char(&v, i, '\n');
        let e: usize = if nl < v.len() {
            nl + 1
        } else {
            v.len()
        };
        proof {
            assert(e as int == line_end(v@, i as int));
            lemma_find_sub_at(v@, i as int, m@);
        }
        let mi = find_sub(&v, i, &m);
        if mi < e {
            let a: usize = mi + m.len();
            match rfind_char(&v, e, '"') {
                Some(b) => {
                    if a <= b {
                        proof {
                            crate::scan::lemma_rfind_char_before(v@, e as int, '"');
                        }
                        let t = substring(&v, a, b);
                        let ghost prev = r.deep_view();
                        r.push(t);
                        proof {
                            assert(r.deep_view() =~= prev.push(t@));
                            assert(includes_from(v@, i as int) == seq![t@] + includes_from(
                                v@,
                                e as int,
                            ));
                            assert(r.deep_view() + includes_from(v@, e as int) =~= prev
                                + includes_from(v@, i as int));
                        }
                    } else {
                        proof {
                            assert(includes_from(v@, i as int) == Seq::<Seq<char>>::empty()
                                + includes_from(v@, e as int));
                        }
                    }
                },
                None => {
                    proof {
                        assert(includes_from(v@, i as int) == Seq::<Seq<char>>::empty()
                            + includes_from(v@, e as int));
                    }
                },
            }
        } else {
            proof {
                assert(includes_from(v@, i as int) == Seq::<Seq<char>>::empty() + includes_from(
                    v@,
                    e as int,
                ));
            }
        }
        i = e;
    }
    proof {
        assert(r.deep_view() + includes_from(v@, i as int) =~= r.deep_view());
    }
    r
}

/// The candidate header paths named directly by the snippet: its
/// include targets, resolved against the first include-path root.
pub open spec fn spec_snippet_candidates(s: Seq<char>, dirs: Seq<Seq<char>>) -> Seq<Seq<char>> {
    spec_includes(s).map_values(|t: Seq<char>| spec_join(dirs[0], t))
}

/// A snippet with no `#include` directives produces an empty candidate
/// list for the fixer's second phase, whatever the include roots.
pub proof fn lemma_no_includes_no_candidates(s: Seq<char>, dirs: Seq<Seq<char>>)
    requires
        spec_includes(s).len() == 0,
    ensures
        spec_snippet_candidates(s, dirs) == Seq::<Seq<char>>::empty(),
{
    assert(spec_snippet_candidates(s, dirs) =~= Seq::<Seq<char>>::empty());
}

/// Resolves each include target of the stripped snippet against the
/// first include-path root; a snippet without includes needs no roots
/// and yields no candidates.
pub fn snippet_include_candidates(stripped: &str, include_roots: &Vec<String>) -> (r: Vec<String>)
    requires
        spec_includes(stripped@).len() == 0 || include_roots@.len() > 0,
    ensures
        r.deep_view() == spec_snippet_candidates(stripped@, include_roots.deep_view()),
{
    let inc = extract_includes(stripped);
    let mut r: Vec<String> = Vec::new();
    if inc.len() == 0 {
        proof {
            lemma_no_includes_no_candidates(stripped@, include_roots.deep_view());
            assert(r.deep_view() =~= Seq::<Seq<char>>::empty());
        }
        return r;
    }
    let root = &include_roots[0];
    proof {
        assert(include_roots.deep_view()[0] == include_roots@[0]@);
    }
    let mut j: usize = 0;
    while j < inc.len()
        invariant
            j <= inc@.len(),
            inc.deep_view() == spec_includes(stripped@),
            include_roots@.len() > 0,
            root@ == include_roots.deep_view()[0],
            r.deep_view() == spec_snippet_candidates(stripped@, include_roots.deep_view()).take(
                j as int,
            ),
        decreases inc@.len() - j,
    {
        proof {
            assert(inc.deep_view()[j as int] == inc@[j as int]@);
        }
        let c = join_path(root, &inc[j]);
        let ghost prev = r.deep_view();
        r.push(c);
        proof {
            assert(r.deep_view() =~= prev.push(c@));
            assert(r.deep_view() =~= spec_snippet_candidates(
                stripped@,
                include_roots.deep_view(),
            ).take(j as int + 1));
        }
        j = j + 1;
    }
    proof {
        let all = spec_snippet_candidates(stripped@, include_roots.deep_view());
        assert(all.take(all.len() as int) =~= all);
    }
    r
}

} // verus!
