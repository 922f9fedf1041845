//! Path strings: joining a relative name onto a directory, the parent
//! directory of a path, and replacing a path's extension.  Paths are
//! plain character strings; both separator characters are recognized,
//! and joining inserts a forward slash.
use vstd::prelude::*;
use crate::scan::rfind_char_before;
use crate::scan::lemma_rfind_char_before;
use crate::scan::rfind_char;
use crate::chars::to_chars;
use crate::chars::subvec;
use crate::chars::chars_to_string;
use vstd::string::StringExecFns;

verus! {

/// A path separator.
pub open spec fn is_sep(c: char) -> bool {
    c == '/' || c == '\\'
}

/// Index of the last separator of `s` strictly before `end`; `-1` when
/// there is none.
pub open spec fn rfind_sep_before(s: Seq<char>, end: int) -> int
    decreases end,
{
    if end <= 0 || end > s.len() {
        -1
    } else if is_sep(s[end - 1]) {
        end - 1
    } else {
        rfind_sep_before(s, end - 1)
    }
}

pub proof fn lemma_rfind_sep_before(s: Seq<char>, end: int)
    requires
        0 <= end <= s.len(),
    ensures
        -1 <= rfind_sep_before(s, end) < end,
        forall|j: int| rfind_sep_before(s, end) < j < end ==> !is_sep(s[j]),
        rfind_sep_before(s, end) >= 0 ==> is_sep(s[rfind_sep_before(s, end)]),
    decreases end,
{
    if end > 0 && !is_sep(s[end - 1]) {
        lemma_rfind_sep_before(s, end - 1);
    }
}

fn rfind_sep(v: &Vec<char>, end: usize) -> (r: Option<usize>)
    requires
        end <= v@.len(),
    ensures
        match r {
            Some(i) => i == rfind_sep_before(v@, end as int),
            None => rfind_sep_before(v@, end as int) == -1,
        },
    decreases end,
{
    if end == 0 {
        None
    } else if v[end - 1] == '/' || v[end - 1] == '\\' {
        Some(end - 1)
    } else {
        rfind_sep(v, end - 1)
    }
}

/// The directory part of `path`: everything before its last separator;
/// the separator itself when the path is like `/name`; empty when the
/// path has no separator.
pub open spec fn spec_parent_dir(path: Seq<char>) -> Seq<char> {
    let k = rfind_sep_before(path, path.len() as int);
    if k < 0 {
        Seq::empty()
    } else if k == 0 {
        path.subrange(0, 1)
    } else {
        path.subrange(0, k)
    }
}

/// The directory part of `path` (see [`spec_parent_dir`]).
pub fn parent_dir(path: &String) -> (r: String)
    ensures
        r@ == spec_parent_dir(path@),
{
    let v = to_chars(path.as_str());
    proof {
        lemma_rfind_sep_before(path@, path@.len() as int);
    }
    let part = match rfind_sep(&v, v.len()) {
        None => Vec::new(),
        Some(k) => {
            if k == 0 {
                subvec(&v, 0, 1)
            } else {
                subvec(&v, 0, k)
            }
        },
    };
    proof {
        if rfind_sep_before(path@, path@.len() as int) < 0 {
            assert(part@ =~= spec_parent_dir(path@));
        }
    }
    chars_to_string(&part)
}

/// `rel` resolved against the directory `dir`: the concatenation, with
/// a forward slash inserted unless `dir` is empty or already ends in a
/// separator.  `rel` is taken as a relative name.
pub open spec fn spec_join(dir: Seq<char>, rel: Seq<char>) -> Seq<char> {
    if dir.len() == 0 {
        rel
    } else if is_sep(dir.last()) {
        dir + rel
    } else {
        dir + seq!['/'] + rel
    }
}

/// `rel` resolved against the directory `dir` (see [`spec_join`]).
pub fn join_path(dir: &String, rel: &String) -> (r: String)
    ensures
        r@ == spec_join(dir@, rel@),
{
    let d = to_chars(dir.as_str());
    if d.len() == 0 {
        let r = rel.clone();
        return r;
    }
    let last = d[d.len() - 1];
    let mut out = dir.clone();
    if !(last == '/' || last == '\\') {
        out.append("/");
        proof {
            reveal_strlit("/");
            assert(out@ =~= dir@ + seq!['/']);
        }
    }
    out.append(rel.as_str());
    proof {
        if !is_sep(dir@.last()) {
            assert(out@ =~= dir@ + seq!['/'] + rel@);
        }
    }
    out
}

/// `path` with its extension replaced by `ext`: the file name's last
/// dot-suffix is cut when it has one (a leading dot does not count),
/// and `.ext` is appended.
pub open spec fn spec_with_extension(path: Seq<char>, ext: Seq<char>) -> Seq<char> {
    let ns = rfind_sep_before(path, path.len() as int) + 1;
    let d = rfind_char_before(path, path.len() as int, '.');
    if d > ns {
        path.subrange(0, d + 1) + ext
    } else {
        path + seq!['.'] + ext
    }
}

/// `path` with its extension replaced by `ext` (see
/// [`spec_with_extension`]).
pub fn with_extension(path: &String, ext: &str) -> (r: String)
    ensures
        r@ == spec_with_extension(path@, ext@),
{
    let v = to_chars(path.as_str());
    proof {
        lemma_rfind_sep_before(path@, path@.len() as int);
        lemma_rfind_char_before(path@, path@.len() as int, '.');
    }
    let ns: usize = match rfind_sep(&v, v.len()) {
        Some(k) => k + 1,
        None => 0,
    };
    match rfind_char(&v, v.len(), '.') {
        Some(d) => {
            if d > ns {
                let head = subvec(&v, 0, d + 1);
                let mut out = chars_to_string(&head);
                out.append(ext);
                proof {
                    assert(out@ =~= path@.subrange(0, d + 1) + ext@);
                }
                return out;
            }
            let mut out = path.clone();
            out.append(".");
            out.append(ext);
            proof {
                reveal_strlit(".");
                assert(out@ =~= path@ + seq!['.'] + ext@);
            }
            out
        },
        None => {
            let mut out = path.clone();
            out.append(".");
            out.append(ext);
            proof {
                reveal_strlit(".");
                assert(out@ =~= path@ + seq!['.'] + ext@);
            }
            out
        },
    }
}

/// Whether `s` ends with the header-file convention suffix: the letter
/// `h`.
pub open spec fn is_header_name(s: Seq<char>) -> bool {
    s.len() > 0 && s.last() == 'h'
}

/// The entries of a directory listing that name header files, in order.
pub open spec fn spec_header_candidates(entries: Seq<Seq<char>>) -> Seq<Seq<char>>
    decreases entries.len(),
{
    if entries.len() == 0 {
        Seq::empty()
    } else {
        spec_header_candidates(entries.drop_last()) + (if is_header_name(entries.last()) {
            seq![entries.last()]
        } else {
            Seq::empty()
        })
    }
}

/// Keeps the entries of a directory listing that name header files
/// (their name ends in `h`), preserving order.
pub fn header_candidates(entries: &Vec<String>) -> (r: Vec<String>)
    ensures
        r.deep_view() == spec_header_candidates(entries.deep_view()),
{
    let ghost ev = entries.deep_view();
    let mut r: Vec<String> = Vec::new();
    let mut i: usize = 0;
    while i < entries.len()
        invariant
            i <= entries@.len(),
            ev == entries.deep_view(),
            r.deep_view() == spec_header_candidates(ev.take(i as int)),
        decreases entries@.len() - i,
    {
        let ghost pre = ev.take(i as int);
        let ghost cur = ev.take(i as int + 1);
        proof {
            assert(cur.drop_last() =~= pre);
            assert(cur.last() == ev[i as int]);
            assert(ev[i as int] == entries@[i as int]@);
        }
        let e = &entries[i];
        let c = to_chars(e.as_str());
        let keep = if c.len() == 0 {
            false
        } else {
            c[c.len() - 1] == 'h'
        };
        proof {
            assert(keep == is_header_name(ev[i as int]));
        }
        if keep {
            let ghost prev = r.deep_view();
            r.push(e.clone());
            proof {
                assert(r.deep_view() =~= prev.push(ev[i as int]));
                assert(spec_header_candidates(cur) =~= spec_header_candidates(pre).push(
                    ev[i as int],
                ));
            }
        } else {
            proof {
                assert(spec_header_candidates(cur) =~= spec_header_candidates(pre));
            }
        }
        i = i + 1;
    }
    proof {
        assert(ev.take(ev.len() as int) =~= ev);
    }
    r
}

} // verus!
