//! The Flag Resolver: each classic flag group (`CFLAGS`, `CPPFLAGS`,
//! `CXXFLAGS`, `LDFLAGS`) is the whitespace tokenization of the
//! Configuration Map's value for that name, else of the ambient
//! environment's, else empty; and the Include Path Set is derived from
//! the `CFLAGS` tokens carrying the include-path marker.
use vstd::prelude::*;
use crate::config::ConfigMap;
use crate::tokens::spec_tokens;
use crate::tokens::tokenize_chars;
use crate::scan::matches_at;
use crate::scan::matches_at_exec;
use crate::chars::to_chars;
use crate::chars::substring;

verus! {

/// The string a flag group is derived from: the Configuration Map's
/// value for `name`, else the ambient environment's, else empty.
pub open spec fn spec_flag_source(
    cfg: Map<Seq<char>, Seq<char>>,
    ambient: Map<Seq<char>, Seq<char>>,
    name: Seq<char>,
) -> Seq<char> {
    if cfg.contains_key(name) {
        cfg[name]
    } else if ambient.contains_key(name) {
        ambient[name]
    } else {
        Seq::empty()
    }
}

/// The flag group for `name`: its source string, whitespace-tokenized.
pub open spec fn spec_flag_group(
    cfg: Map<Seq<char>, Seq<char>>,
    ambient: Map<Seq<char>, Seq<char>>,
    name: Seq<char>,
) -> Seq<Seq<char>> {
    spec_tokens(spec_flag_source(cfg, ambient, name))
}

/// The flag group for `name`: the tokens of `variables`' value for it,
/// else of `ambient`'s (the process environment, handed in as a map),
/// else none.
pub fn get_env_flags(variables: &ConfigMap, ambient: &ConfigMap, name: &String) -> (r: Vec<String>)
    ensures
        r.deep_view() == spec_flag_group(variables@, ambient@, name@),
{
    let source: Option<&String> = match variables.get(name) {
        Some(value) => Some(value),
        None => ambient.get(name),
    };
    match source {
        Some(value) => {
            let ch = to_chars(value.as_str());
            tokenize_chars(&ch)
        },
        None => {
            let r: Vec<String> = Vec::new();
            proof {
                assert(r.deep_view() =~= spec_tokens(Seq::<char>::empty()));
            }
            r
        },
    }
}

/// The include-path marker that opens an include directory token.
pub open spec fn include_marker() -> Seq<char> {
    "-I"@
}

/// The include directories named by a `CFLAGS` token sequence: the
/// tokens that start with the include-path marker, marker stripped, in
/// order.
pub open spec fn spec_include_dirs(tokens: Seq<Seq<char>>) -> Seq<Seq<char>>
    decreases tokens.len(),
{
    if tokens.len() == 0 {
        Seq::empty()
    } else {
        spec_include_dirs(tokens.drop_last()) + (if matches_at(tokens.last(), 0, include_marker()) {
            seq![tokens.last().skip(include_marker().len() as int)]
        } else {
            Seq::empty()
        })
    }
}

/// The include directories named by `cflags` (see
/// [`spec_include_dirs`]).
pub fn include_dirs(cflags: &Vec<String>) -> (r: Vec<String>)
    ensures
        r.deep_view() == spec_include_dirs(cflags.deep_view()),
{
    let ghost cv = cflags.deep_view();
    let p = to_chars("-I");
    let mut r: Vec<String> = Vec::new();
    let mut i: usize = 0;
    while i < cflags.len()
        invariant
            i <= cflags@.len(),
            cv == cflags.deep_view(),
            p@ == include_marker(),
            r.deep_view() == spec_include_dirs(cv.take(i as int)),
        decreases cflags@.len() - i,
    {
        let ghost pre = cv.take(i as int);
        let ghost cur = cv.take(i as int + 1);
        proof {
            assert(cur.drop_last() =~= pre);
            assert(cur.last() == cv[i as int]);
            assert(cv[i as int] == cflags@[i as int]@);
        }
        let c = to_chars(cflags[i].as_str());
        if matches_at_exec(&c, 0, &p) {
            let dir = substring(&c, p.len(), c.len());
            let ghost prev = r.deep_view();
            proof {
                assert(dir@ =~= cv[i as int].skip(include_marker().len() as int));
            }
            r.push(dir);
            proof {
                assert(r.deep_view() =~= prev.push(cv[i as int].skip(
                    include_marker().len() as int,
                )));
                assert(spec_include_dirs(cur) =~= spec_include_dirs(pre).push(cv[i as int].skip(
                    include_marker().len() as int,
                )));
            }
        } else {
            proof {
                assert(spec_include_dirs(cur) =~= spec_include_dirs(pre));
            }
        }
        i = i + 1;
    }
    proof {
        assert(cv.take(cv.len() as int) =~= cv);
    }
    r
}

} // verus!
