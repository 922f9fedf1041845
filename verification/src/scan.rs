//! Scanning primitives over character vectors: first occurrence of a
//! character, of a whitespace class, or of a substring, together with
//! the lemmas that characterize them.
use vstd::prelude::*;

verus! {

/// ASCII whitespace, the class on which flag strings are tokenized.
pub open spec fn is_ws(c: char) -> bool {
    c == ' ' || c == '\t' || c == '\n' || c == '\r' || c == '\x0c'
}

/// Blank characters that may sit between a directive's colon and its
/// opening quote, and that are trimmed from a directive's name: ASCII
/// whitespace apart from the newline that terminates the line itself.
pub open spec fn is_blank(c: char) -> bool {
    c == ' ' || c == '\t' || c == '\r' || c == '\x0b' || c == '\x0c'
}

/// Index of the first occurrence of `c` in `s` at or after `from`;
/// `s.len()` when there is none.
pub open spec fn find_char_at(s: Seq<char>, from: int, c: char) -> int
    decreases s.len() - from,
{
    if from < 0 || from >= s.len() {
        s.len() as int
    } else if s[from] == c {
        from
    } else {
        find_char_at(s, from + 1, c)
    }
}

pub proof fn lemma_find_char_at(s: Seq<char>, from: int, c: char)
    requires
        0 <= from <= s.len(),
    ensures
        from <= find_char_at(s, from, c) <= s.len(),
        forall|j: int| from <= j < find_char_at(s, from, c) ==> s[j] != c,
        find_char_at(s, from, c) < s.len() ==> s[find_char_at(s, from, c)] == c,
    decreases s.len() - from,
{
    if from < s.len() && s[from] != c {
        lemma_find_char_at(s, from + 1, c);
    }
}

/// First occurrence of `c` in `v` at or after `from`, or `v.len()`.
pub fn find_char(v: &Vec<char>, from: usize, c: char) -> (r: usize)
    requires
        from <= v@.len(),
    ensures
        r == find_char_at(v@, from as int, c),
    decreases v@.len() - from,
{
    if from >= v.len() {
        v.len()
    } else if v[from] == c {
        from
    } else {
        find_char(v, from + 1, c)
    }
}

/// Index of the first whitespace character at or after `from`.
pub open spec fn find_ws_at(s: Seq<char>, from: int) -> int
    decreases s.len() - from,
{
    if from < 0 || from >= s.len() {
        s.len() as int
    } else if is_ws(s[from]) {
        from
    } else {
        find_ws_at(s, from + 1)
    }
}

pub proof fn lemma_find_ws_at(s: Seq<char>, from: int)
    requires
        0 <= from <= s.len(),
    ensures
        from <= find_ws_at(s, from) <= s.len(),
        forall|j: int| from <= j < find_ws_at(s, from) ==> !is_ws(s[j]),
        find_ws_at(s, from) < s.len() ==> is_ws(s[find_ws_at(s, from)]),
    decreases s.len() - from,
{
    if from < s.len() && !is_ws(s[from]) {
        lemma_find_ws_at(s, from + 1);
    }
}

pub fn is_ws_exec(c: char) -> (r: bool)
    ensures
        r == is_ws(c),
{
    c == ' ' || c == '\t' || c == '\n' || c == '\r' || c == '\x0c'
}

pub fn is_blank_exec(c: char) -> (r: bool)
    ensures
        r == is_blank(c),
{
    c == ' ' || c == '\t' || c == '\r' || c == '\x0b' || c == '\x0c'
}

/// First whitespace character of `v` at or after `from`, or `v.len()`.
pub fn find_ws(v: &Vec<char>, from: usize) -> (r: usize)
    requires
        from <= v@.len(),
    ensures
        r == find_ws_at(v@, from as int),
    decreases v@.len() - from,
{
    if from >= v.len() {
        v.len()
    } else if is_ws_exec(v[from]) {
        from
    } else {
        find_ws(v, from + 1)
    }
}

/// First non-blank character of `v` at or after `from`, or `v.len()`.
pub open spec fn find_non_blank_at(s: Seq<char>, from: int) -> int
    decreases s.len() - from,
{
    if from < 0 || from >= s.len() {
        s.len() as int
    } else if !is_blank(s[from]) {
        from
    } else {
        find_non_blank_at(s, from + 1)
    }
}

pub proof fn lemma_find_non_blank_at(s: Seq<char>, from: int)
    requires
        0 <= from <= s.len(),
    ensures
        from <= find_non_blank_at(s, from) <= s.len(),
        forall|j: int| from <= j < find_non_blank_at(s, from) ==> is_blank(s[j]),
        find_non_blank_at(s, from) < s.len() ==> !is_blank(s[find_non_blank_at(s, from)]),
    decreases s.len() - from,
{
    if from < s.len() && is_blank(s[from]) {
        lemma_find_non_blank_at(s, from + 1);
    }
}

pub fn find_non_blank(v: &Vec<char>, from: usize) -> (r: usize)
    requires
        from <= v@.len(),
    ensures
        r == find_non_blank_at(v@, from as int),
    decreases v@.len() - from,
{
    if from >= v.len() {
        v.len()
    } else if !is_blank_exec(v[from]) {
        from
    } else {
        find_non_blank(v, from + 1)
    }
}

/// Index of the last non-blank character of `s` strictly before `end`;
/// `-1` when there is none.
pub open spec fn rfind_non_blank_before(s: Seq<char>, end: int) -> int
    decreases end,
{
    if end <= 0 || end > s.len() {
        -1
    } else if !is_blank(s[end - 1]) {
        end - 1
    } else {
        rfind_non_blank_before(s, end - 1)
    }
}

pub proof fn lemma_rfind_non_blank_before(s: Seq<char>, end: int)
    requires
        0 <= end <= s.len(),
    ensures
        -1 <= rfind_non_blank_before(s, end) < end,
        forall|j: int| rfind_non_blank_before(s, end) < j < end ==> is_blank(s[j]),
        rfind_non_blank_before(s, end) >= 0 ==> !is_blank(s[rfind_non_blank_before(s, end)]),
    decreases end,
{
    if end > 0 && is_blank(s[end - 1]) {
        lemma_rfind_non_blank_before(s, end - 1);
    }
}

fn rfind_non_blank(v: &Vec<char>, end: usize) -> (r: Option<usize>)
    requires
        end <= v@.len(),
    ensures
        match r {
            Some(i) => i == rfind_non_blank_before(v@, end as int),
            None => rfind_non_blank_before(v@, end as int) == -1,
        },
    decreases end,
{
    if end == 0 {
        None
    } else if !is_blank_exec(v[end - 1]) {
        Some(end - 1)
    } else {
        rfind_non_blank(v, end - 1)
    }
}

/// `s` with leading and trailing blanks removed.
pub open spec fn spec_trim(s: Seq<char>) -> Seq<char> {
    let a = find_non_blank_at(s, 0);
    let b = rfind_non_blank_before(s, s.len() as int);
    if a >= s.len() {
        Seq::empty()
    } else {
        s.subrange(a, b + 1)
    }
}

/// Removes leading and trailing blanks from `v`.
pub fn trim_chars(v: &Vec<char>) -> (r: Vec<char>)
    ensures
        r@ == spec_trim(v@),
{
    proof {
        lemma_find_non_blank_at(v@, 0);
        lemma_rfind_non_blank_before(v@, v@.len() as int);
    }
    let a = find_non_blank(v, 0);
    if a == v.len() {
        Vec::new()
    } else {
        proof {
            let b = rfind_non_blank_before(v@, v@.len() as int);
            assert(b >= a) by {
                if b < a as int {
                    assert(is_blank(v@[a as int]));
                }
            }
        }
        match rfind_non_blank(v, v.len()) {
            Some(b) => crate::chars::subvec(v, a, b + 1),
            None => Vec::new(),
        }
    }
}

/// `pat` occurs in `s` starting exactly at index `i`.
pub open spec fn matches_at(s: Seq<char>, i: int, pat: Seq<char>) -> bool {
    0 <= i && i + pat.len() <= s.len() && s.subrange(i, i + pat.len()) == pat
}

/// Whether `pat` occurs in `v` starting exactly at `i`.
pub fn matches_at_exec(v: &Vec<char>, i: usize, pat: &Vec<char>) -> (r: bool)
    requires
        i <= v@.len(),
    ensures
        r == matches_at(v@, i as int, pat@),
{
    if pat.len() > v.len() - i {
        proof {
            assert(!matches_at(v@, i as int, pat@));
        }
        return false;
    }
    let mut j: usize = 0;
    let mut k: usize = i;
    while j < pat.len()
        invariant
            v@.len() <= usize::MAX,
            i + pat@.len() <= v@.len(),
            j <= pat@.len(),
            k == i + j,
            forall|m: int| 0 <= m < j ==> v@[i + m] == pat@[m],
        decreases pat@.len() - j,
    {
        if v[k] != pat[j] {
            proof {
                assert(v@.subrange(i as int, i + pat@.len())[j as int] != pat@[j as int]);
            }
            return false;
        }
        j = j + 1;
        k = k + 1;
    }
    proof {
        assert(v@.subrange(i as int, i + pat@.len()) =~= pat@);
    }
    true
}

/// Index of the first occurrence of `pat` in `s` at or after `from`;
/// `s.len()` when there is none.
pub open spec fn find_sub_at(s: Seq<char>, from: int, pat: Seq<char>) -> int
    decreases s.len() - from,
{
    if from < 0 || from >= s.len() || from + pat.len() > s.len() {
        s.len() as int
    } else if matches_at(s, from, pat) {
        from
    } else {
        find_sub_at(s, from + 1, pat)
    }
}

pub proof fn lemma_find_sub_at(s: Seq<char>, from: int, pat: Seq<char>)
    requires
        0 <= from <= s.len(),
    ensures
        from <= find_sub_at(s, from, pat) <= s.len(),
        pat.len() > 0 ==> forall|j: int|
            from <= j < find_sub_at(s, from, pat) ==> !matches_at(s, j, pat),
        find_sub_at(s, from, pat) < s.len() ==> matches_at(s, find_sub_at(s, from, pat), pat),
    decreases s.len() - from,
{
    if from >= s.len() || from + pat.len() > s.len() {
        assert forall|j: int| from <= j < s.len() && pat.len() > 0 implies !matches_at(
            s,
            j,
            pat,
        ) by {
            assert(j + pat.len() > s.len());
        }
    } else if !matches_at(s, from, pat) {
        lemma_find_sub_at(s, from + 1, pat);
    }
}

/// First occurrence of `pat` in `v` at or after `from`, or `v.len()`.
pub fn find_sub(v: &Vec<char>, from: usize, pat: &Vec<char>) -> (r: usize)
    requires
        from <= v@.len(),
    ensures
        r == find_sub_at(v@, from as int, pat@),
    decreases v@.len() - from,
{
    if from >= v.len() || pat.len() > v.len() - from {
        v.len()
    } else if matches_at_exec(v, from, pat) {
        from
    } else {
        find_sub(v, from + 1, pat)
    }
}

/// Index of the last occurrence of `c` in `s` strictly before `end`;
/// `-1` when there is none.
pub open spec fn rfind_char_before(s: Seq<char>, end: int, c: char) -> int
    decreases end,
{
    if end <= 0 || end > s.len() {
        -1
    } else if s[end - 1] == c {
        end - 1
    } else {
        rfind_char_before(s, end - 1, c)
    }
}

pub proof fn lemma_rfind_char_before(s: Seq<char>, end: int, c: char)
    requires
        0 <= end <= s.len(),
    ensures
        -1 <= rfind_char_before(s, end, c) < end,
        forall|j: int| rfind_char_before(s, end, c) < j < end ==> s[j] != c,
        rfind_char_before(s, end, c) >= 0 ==> s[rfind_char_before(s, end, c)] == c,
    decreases end,
{
    if end > 0 && s[end - 1] != c {
        lemma_rfind_char_before(s, end - 1, c);
    }
}

/// Last occurrence of `c` in `v` strictly before `end`, or `None`.
pub fn rfind_char(v: &Vec<char>, end: usize, c: char) -> (r: Option<usize>)
    requires
        end <= v@.len(),
    ensures
        match r {
            Some(i) => i == rfind_char_before(v@, end as int, c),
            None => rfind_char_before(v@, end as int, c) == -1,
        },
    decreases end,
{
    if end == 0 {
        None
    } else if v[end - 1] == c {
        Some(end - 1)
    } else {
        rfind_char(v, end - 1, c)
    }
}

} // verus!
