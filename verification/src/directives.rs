//! The Directive Extractor: configuration lines embedded in a program
//! text are parsed into Configuration Map entries and removed from the
//! text handed to the compiler.
//!
//! A directive is a whole line of the form
//! `#inline_c_rs <name>: "<value>"`, optionally ending in a carriage
//! return, and always terminated by a newline.  The name is any
//! non-empty run of characters other than `:`, trimmed of blanks; the
//! value is any non-empty run of characters other than `"`.
use vstd::prelude::*;
use crate::scan::find_char_at;
use crate::scan::find_char;
use crate::scan::find_non_blank_at;
use crate::scan::find_non_blank;
use crate::scan::matches_at;
use crate::scan::matches_at_exec;
use crate::scan::spec_trim;
use crate::scan::trim_chars;
use crate::scan::lemma_find_char_at;
use crate::chars::to_chars;
use crate::chars::subvec;
use crate::chars::substring;
use crate::chars::chars_to_string;
use crate::config::ConfigMap;
use crate::config::map_of;
use crate::config::entries_view;
use crate::config::lemma_map_of_get;
use crate::config::lemma_map_of_concat;

verus! {

/// The token that opens a directive line.
pub open spec fn directive_marker() -> Seq<char> {
    "#inline_c_rs "@
}

/// The prefix that selects and is stripped from environment variable
/// names seeding the Configuration Map.
pub open spec fn env_prefix() -> Seq<char> {
    "INLINE_C_RS_"@
}

/// End (exclusive) of the line starting at `from`, including its
/// terminating newline when there is one.
pub open spec fn line_end(s: Seq<char>, from: int) -> int {
    if find_char_at(s, from, '\n') < s.len() {
        find_char_at(s, from, '\n') + 1
    } else {
        s.len() as int
    }
}

/// Parses the line `s[from..end)` as a directive: the marker, a
/// non-empty colon-terminated name (returned trimmed of blanks), blanks,
/// a non-empty double-quoted value (returned verbatim), an optional
/// carriage return, and the terminating newline.
pub open spec fn directive_parse_at(s: Seq<char>, from: int, end: int) -> Option<
    (Seq<char>, Seq<char>),
> {
    if !matches_at(s, from, directive_marker()) {
        None
    } else {
        let ms = from + directive_marker().len();
        let colon = find_char_at(s, ms, ':');
        if colon >= end || colon <= ms {
            None
        } else {
            let q1 = find_non_blank_at(s, colon + 1);
            if q1 >= end || s[q1] != '"' {
                None
            } else {
                let q2 = find_char_at(s, q1 + 1, '"');
                if q2 >= end || q2 == q1 + 1 {
                    None
                } else if (end - q2 == 2 && s[q2 + 1] == '\n') || (end - q2 == 3 && s[q2 + 1]
                    == '\r' && s[q2 + 2] == '\n') {
                    Some((spec_trim(s.subrange(ms, colon)), s.subrange(q1 + 1, q2)))
                } else {
                    None
                }
            }
        }
    }
}

/// The program text with every directive line removed.
pub open spec fn strip_from(s: Seq<char>, from: int) -> Seq<char>
    decreases s.len() - from,
    via strip_from_decreases
{
    if from < 0 || from >= s.len() {
        Seq::empty()
    } else {
        let e = line_end(s, from);
        (if directive_parse_at(s, from, e) is Some {
            Seq::empty()
        } else {
            s.subrange(from, e)
        }) + strip_from(s, e)
    }
}

#[via_fn]
proof fn strip_from_decreases(s: Seq<char>, from: int) {
    if 0 <= from < s.len() {
        lemma_find_char_at(s, from, '\n');
    }
}

/// The directive entries of the program text, in order of appearance.
pub open spec fn entries_from(s: Seq<char>, from: int) -> Seq<(Seq<char>, Seq<char>)>
    decreases s.len() - from,
    via entries_from_decreases
{
    if from < 0 || from >= s.len() {
        Seq::empty()
    } else {
        let e = line_end(s, from);
        (match directive_parse_at(s, from, e) {
            Some(p) => seq![p],
            None => Seq::empty(),
        }) + entries_from(s, e)
    }
}

#[via_fn]
proof fn entries_from_decreases(s: Seq<char>, from: int) {
    if 0 <= from < s.len() {
        lemma_find_char_at(s, from, '\n');
    }
}

/// The stripped variant of the program text `s`.
pub open spec fn spec_stripped(s: Seq<char>) -> Seq<char> {
    strip_from(s, 0)
}

/// All directive entries of the program text `s`, in order.
pub open spec fn spec_directive_entries(s: Seq<char>) -> Seq<(Seq<char>, Seq<char>)> {
    entries_from(s, 0)
}

/// The Configuration Map entries seeded from the environment: pairs
/// whose name carries the environment prefix, with the prefix removed.
pub open spec fn env_seed_entries(e: Seq<(Seq<char>, Seq<char>)>) -> Seq<(Seq<char>, Seq<char>)>
    decreases e.len(),
{
    if e.len() == 0 {
        Seq::empty()
    } else {
        env_seed_entries(e.drop_last()) + (if matches_at(e.last().0, 0, env_prefix()) {
            seq![(e.last().0.skip(env_prefix().len() as int), e.last().1)]
        } else {
            Seq::empty()
        })
    }
}

/// The Configuration Map a program text and an environment produce:
/// environment seeds first, directive entries after (and therefore
/// overriding).
pub open spec fn spec_config(program: Seq<char>, env: Seq<(Seq<char>, Seq<char>)>) -> Seq<
    (Seq<char>, Seq<char>),
> {
    env_seed_entries(env) + spec_directive_entries(program)
}

/// `i` begins a line of `s`: it is the start of the text or the
/// position right after a newline.
pub open spec fn is_line_start(s: Seq<char>, i: int) -> bool {
    i == 0 || (0 < i <= s.len() && s[i - 1] == '\n')
}

proof fn lemma_strip_from_identity(s: Seq<char>, from: int)
    requires
        0 <= from <= s.len(),
        forall|i: int|
            0 <= i < s.len() && is_line_start(s, i) ==> directive_parse_at(
                s,
                i,
                line_end(s, i),
            ) is None,
        is_line_start(s, from),
    ensures
        strip_from(s, from) == s.subrange(from, s.len() as int),
    decreases s.len() - from,
{
    if from >= s.len() {
        assert(strip_from(s, from) =~= s.subrange(from, s.len() as int));
    } else {
        lemma_find_char_at(s, from, '\n');
        let e = line_end(s, from);
        assert(directive_parse_at(s, from, e) is None);
        if e < s.len() {
            assert(is_line_start(s, e));
            lemma_strip_from_identity(s, e);
        } else {
            assert(strip_from(s, e) =~= s.subrange(e, s.len() as int));
        }
        assert(s.subrange(from, e) + s.subrange(e, s.len() as int) =~= s.subrange(
            from,
            s.len() as int,
        ));
    }
}

/// A program text containing zero directive lines strips to itself:
/// extraction is a no-op on it.
pub proof fn lemma_no_directives_strip_identity(s: Seq<char>)
    requires
        forall|i: int|
            0 <= i < s.len() && is_line_start(s, i) ==> directive_parse_at(
                s,
                i,
                line_end(s, i),
            ) is None,
    ensures
        spec_stripped(s) == s,
{
    lemma_strip_from_identity(s, 0);
    assert(s.subrange(0, s.len() as int) =~= s);
}

/// A well-formed directive line: none of it reaches the stripped text,
/// its entry carries the quoted value verbatim, and inserting it after
/// any earlier entries leaves the map holding that value under its name.
pub proof fn lemma_directive_line(
    s: Seq<char>,
    base: Seq<(Seq<char>, Seq<char>)>,
    n: Seq<char>,
    v: Seq<char>,
)
    requires
        s.len() > 0,
        line_end(s, 0) == s.len(),
        directive_parse_at(s, 0, s.len() as int) == Some((n, v)),
    ensures
        spec_stripped(s) == Seq::<char>::empty(),
        spec_directive_entries(s) == seq![(n, v)],
        map_of(base + spec_directive_entries(s)).contains_key(n),
        map_of(base + spec_directive_entries(s))[n] == v,
{
    assert(strip_from(s, 0) =~= Seq::<char>::empty() + strip_from(s, s.len() as int));
    assert(strip_from(s, 0) =~= Seq::<char>::empty());
    assert(entries_from(s, 0) =~= seq![(n, v)] + entries_from(s, s.len() as int));
    assert(entries_from(s, 0) =~= seq![(n, v)]);
    let all = base + seq![(n, v)];
    assert(all.drop_last() =~= base);
    assert(all.last() == (n, v));
}

/// Every well-formed directive line of a program text has its entry —
/// name trimmed, value verbatim — among the emitted directive entries.
pub proof fn lemma_directive_recorded(s: Seq<char>, i: int, n: Seq<char>, v: Seq<char>)
    requires
        0 <= i < s.len(),
        is_line_start(s, i),
        directive_parse_at(s, i, line_end(s, i)) == Some((n, v)),
    ensures
        spec_directive_entries(s).contains((n, v)),
{
    lemma_directive_recorded_from(s, 0, i, n, v);
}

proof fn lemma_directive_recorded_from(s: Seq<char>, from: int, i: int, n: Seq<char>, v: Seq<char>)
    requires
        0 <= from <= i < s.len(),
        is_line_start(s, from),
        is_line_start(s, i),
        directive_parse_at(s, i, line_end(s, i)) == Some((n, v)),
    ensures
        entries_from(s, from).contains((n, v)),
    decreases i - from,
{
    lemma_find_char_at(s, from, '\n');
    let e = line_end(s, from);
    let head = match directive_parse_at(s, from, e) {
        Some(p) => seq![p],
        None => Seq::<(Seq<char>, Seq<char>)>::empty(),
    };
    assert(entries_from(s, from) == head + entries_from(s, e));
    if from == i {
        assert((head + entries_from(s, e))[0] == (n, v));
    } else {
        // The next line starts at or before `i`: the newline closing the
        // line of `from` sits at or before the one right before `i`.
        assert(s[i - 1] == '\n');
        assert(find_char_at(s, from, '\n') <= i - 1);
        assert(is_line_start(s, e));
        lemma_directive_recorded_from(s, e, i, n, v);
        let j = choose|j: int|
            0 <= j < entries_from(s, e).len() && entries_from(s, e)[j] == (n, v);
        assert((head + entries_from(s, e))[head.len() + j] == (n, v));
    }
}

/// Directive-sourced values always override environment-sourced values
/// of the same name, and a name only the environment carries keeps its
/// environment value unchanged.
pub proof fn lemma_directives_override(
    program: Seq<char>,
    env: Seq<(Seq<char>, Seq<char>)>,
    k: Seq<char>,
)
    ensures
        map_of(spec_directive_entries(program)).contains_key(k) ==> map_of(
            spec_config(program, env),
        ).contains_key(k) && map_of(spec_config(program, env))[k] == map_of(
            spec_directive_entries(program),
        )[k],
        !map_of(spec_directive_entries(program)).contains_key(k) ==> (map_of(
            spec_config(program, env),
        ).contains_key(k) <==> map_of(env_seed_entries(env)).contains_key(k)),
        !map_of(spec_directive_entries(program)).contains_key(k) && map_of(
            env_seed_entries(env),
        ).contains_key(k) ==> map_of(spec_config(program, env))[k] == map_of(
            env_seed_entries(env),
        )[k],
{
    lemma_map_of_get(spec_directive_entries(program), k);
    lemma_map_of_concat(env_seed_entries(env), spec_directive_entries(program), k);
}

fn directive_at(v: &Vec<char>, from: usize, end: usize, m: &Vec<char>) -> (r: Option<
    (String, String),
>)
    requires
        from <= end <= v@.len(),
        m@ == directive_marker(),
    ensures
        match r {
            Some(p) => directive_parse_at(v@, from as int, end as int) == Some((p.0@, p.1@)),
            None => directive_parse_at(v@, from as int, end as int) is None,
        },
{
    if !matches_at_exec(v, from, m) {
        return None;
    }
    let n: usize = v.len();
    proof {
        assert(from + m@.len() <= n);
    }
    let ms: usize = from + m.len();
    proof {
        lemma_find_char_at(v@, ms as int, ':');
    }
    let colon = find_char(v, ms, ':');
    if colon >= end || colon <= ms {
        return None;
    }
    let q1 = find_non_blank(v, colon + 1);
    if q1 >= end {
        return None;
    }
    if v[q1] != '"' {
        return None;
    }
    proof {
        crate::scan::lemma_find_non_blank_at(v@, colon as int + 1);
    }
    let q2 = find_char(v, q1 + 1, '"');
    proof {
        lemma_find_char_at(v@, q1 as int + 1, '"');
    }
    if q2 >= end || q2 == q1 + 1 {
        return None;
    }
    let tail_ok = (end - q2 == 2 && v[q2 + 1] == '\n') || (end - q2 == 3 && v[q2 + 1] == '\r'
        && v[q2 + 2] == '\n');
    if !tail_ok {
        return None;
    }
    let raw_name = subvec(v, ms, colon);
    let name = trim_chars(&raw_name);
    let name_s = chars_to_string(&name);
    let value = substring(v, q1 + 1, q2);
    proof {
        assert(directive_parse_at(v@, from as int, end as int) == Some((name_s@, value@)));
    }
    Some((name_s, value))
}

/// Scans `program` for directive lines; returns the stripped text and
/// the Configuration Map, seeded from prefixed `env` entries and then
/// overridden by the directives, in order.
pub fn extract_config(program: &str, env: &Vec<(String, String)>) -> (r: (String, ConfigMap))
    ensures
        r.0@ == spec_stripped(program@),
        r.1.entry_seq() == spec_config(program@, entries_view(env@)),
        r.1@ == map_of(spec_config(program@, entries_view(env@))),
{
    let v = to_chars(program);
    let m = to_chars("#inline_c_rs ");
    let p = to_chars("INLINE_C_RS_");
    let ghost ev = entries_view(env@);

    let mut cfg = ConfigMap::new();

    // Seed from environment entries carrying the prefix.
    let mut idx: usize = 0;
    while idx < env.len()
        invariant
            idx <= env@.len(),
            ev == entries_view(env@),
            p@ == env_prefix(),
            cfg.entry_seq() == env_seed_entries(ev.take(idx as int)),
        decreases env@.len() - idx,
    {
        let ghost pre = ev.take(idx as int);
        let ghost cur = ev.take(idx as int + 1);
        proof {
            assert(cur.drop_last() =~= pre);
            assert(cur.last() == ev[idx as int]);
            assert(ev[idx as int] == (env@[idx as int].0@, env@[idx as int].1@));
        }
        let name_chars = to_chars(env[idx].0.as_str());
        if matches_at_exec(&name_chars, 0, &p) {
            let stripped_name = substring(&name_chars, p.len(), name_chars.len());
            proof {
                assert(stripped_name@ =~= ev[idx as int].0.skip(env_prefix().len() as int));
            }
            let value = env[idx].1.clone();
            cfg.insert(stripped_name, value);
            proof {
                assert(env_seed_entries(cur) =~= env_seed_entries(pre).push(
                    (ev[idx as int].0.skip(env_prefix().len() as int), ev[idx as int].1),
                ));
            }
        } else {
            proof {
                assert(env_seed_entries(cur) =~= env_seed_entries(pre));
            }
        }
        idx = idx + 1;
    }
    proof {
        assert(ev.take(ev.len() as int) =~= ev);
    }

    // Walk the program line by line: record directives, keep the rest.
    let ghost seeds = env_seed_entries(ev);
    let mut out: Vec<char> = Vec::new();
    let mut i: usize = 0;
    while i < v.len()
        invariant
            i <= v@.len(),
            v@ == program@,
            m@ == directive_marker(),
            out@ + strip_from(v@, i as int) == spec_stripped(v@),
            cfg.entry_seq() + entries_from(v@, i as int) == seeds + spec_directive_entries(v@),
        decreases v@.len() - i,
    {
        proof {
            lemma_find_char_at(v@, i as int, '\n');
        }
        let nl = find_char(&v, i, '\n');
        let e: usize = if nl < v.len() {
            nl + 1
        } else {
            v.len()
        };
        proof {
            assert(e as int == line_end(v@, i as int));
        }
        match directive_at(&v, i, e, &m) {
            Some(p) => {
                let ghost prevseq = cfg.entry_seq();
                let ghost entry = (p.0@, p.1@);
                cfg.insert(p.0, p.1);
                proof {
                    assert(entries_from(v@, i as int) == seq![entry] + entries_from(v@, e as int));
                    assert(cfg.entry_seq() + entries_from(v@, e as int) =~= prevseq + entries_from(
                        v@,
                        i as int,
                    ));
                    assert(strip_from(v@, i as int) == Seq::<char>::empty() + strip_from(
                        v@,
                        e as int,
                    ));
                    assert(out@ + strip_from(v@, e as int) =~= out@ + strip_from(v@, i as int));
                }
            },
            None => {
                let ghost prevout = out@;
                let mut piece = subvec(&v, i, e);
                out.append(&mut piece);
                proof {
                    assert(out@ =~= prevout + v@.subrange(i as int, e as int));
                    assert(out@ + strip_from(v@, e as int) =~= prevout + strip_from(v@, i as int));
                }
            },
        }
        i = e;
    }
    proof {
        assert(out@ + strip_from(v@, i as int) =~= out@);
        assert(cfg.entry_seq() + entries_from(v@, i as int) =~= cfg.entry_seq());
        cfg.lemma_view_is_fold();
    }
    let stripped = chars_to_string(&out);
    (stripped, cfg)
}

} // verus!
