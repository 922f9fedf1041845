//! The Configuration Map: named string values, case-sensitive, where a
//! later insertion for the same name wins over an earlier one.
use vstd::prelude::*;

verus! {

/// The view of a list of owned string pairs as a list of character
/// sequences.
pub open spec fn entries_view(s: Seq<(String, String)>) -> Seq<(Seq<char>, Seq<char>)> {
    s.map_values(|p: (String, String)| (p.0@, p.1@))
}

/// The map that results from inserting the entries of `s` in order,
/// later entries overwriting earlier ones of the same name.
pub open spec fn map_of(s: Seq<(Seq<char>, Seq<char>)>) -> Map<Seq<char>, Seq<char>>
    decreases s.len(),
{
    if s.len() == 0 {
        Map::empty()
    } else {
        map_of(s.drop_last()).insert(s.last().0, s.last().1)
    }
}

/// Index of the last entry of `s` named `k`; `-1` when there is none.
pub open spec fn last_key_index(s: Seq<(Seq<char>, Seq<char>)>, k: Seq<char>) -> int
    decreases s.len(),
{
    if s.len() == 0 {
        -1
    } else if s.last().0 == k {
        s.len() - 1
    } else {
        last_key_index(s.drop_last(), k)
    }
}

/// `map_of` holds a name exactly when some entry carries it, and maps
/// it to the value of the last such entry.
pub proof fn lemma_map_of_get(s: Seq<(Seq<char>, Seq<char>)>, k: Seq<char>)
    ensures
        -1 <= last_key_index(s, k) < s.len(),
        map_of(s).contains_key(k) <==> last_key_index(s, k) >= 0,
        last_key_index(s, k) >= 0 ==> s[last_key_index(s, k)].0 == k && map_of(s)[k]
            == s[last_key_index(s, k)].1,
        forall|j: int| last_key_index(s, k) < j < s.len() ==> s[j].0 != k,
    decreases s.len(),
{
    if s.len() > 0 && s.last().0 != k {
        lemma_map_of_get(s.drop_last(), k);
        let t = s.drop_last();
        let l = last_key_index(s, k);
        assert(l == last_key_index(t, k));
        assert forall|j: int| l < j < s.len() implies s[j].0 != k by {
            if j < s.len() - 1 {
                assert(s[j] == t[j]);
            }
        }
        if l >= 0 {
            assert(s[l] == t[l]);
        }
    }
}

/// Entries of `b` override entries of `a`: a name that `b` carries gets
/// its value from `b` alone, and a name that `b` does not carry keeps
/// exactly the binding it has from `a`.
pub proof fn lemma_map_of_concat(
    a: Seq<(Seq<char>, Seq<char>)>,
    b: Seq<(Seq<char>, Seq<char>)>,
    k: Seq<char>,
)
    ensures
        last_key_index(b, k) >= 0 ==> map_of(a + b).contains_key(k) && map_of(a + b)[k] == map_of(
            b,
        )[k],
        last_key_index(b, k) < 0 ==> (map_of(a + b).contains_key(k) <==> map_of(a).contains_key(
            k,
        )) && (map_of(a).contains_key(k) ==> map_of(a + b)[k] == map_of(a)[k]),
    decreases b.len(),
{
    lemma_map_of_get(b, k);
    if b.len() == 0 {
        assert(a + b =~= a);
    } else {
        lemma_map_of_concat(a, b.drop_last(), k);
        assert((a + b).drop_last() =~= a + b.drop_last());
        assert((a + b).last() == b.last());
        lemma_map_of_get(b.drop_last(), k);
    }
}

/// A mapping from configuration names to string values; a later
/// `insert` for a name already present overwrites its value.
pub struct ConfigMap {
    entries: Vec<(String, String)>,
}

impl View for ConfigMap {
    type V = Map<Seq<char>, Seq<char>>;

    closed spec fn view(&self) -> Map<Seq<char>, Seq<char>> {
        map_of(entries_view(self.entries@))
    }
}

impl ConfigMap {
    /// The sequence of insertions this map was built from, in order.
    pub closed spec fn entry_seq(&self) -> Seq<(Seq<char>, Seq<char>)> {
        entries_view(self.entries@)
    }

    /// The map is always the fold of its insertion sequence.
    pub proof fn lemma_view_is_fold(&self)
        ensures
            self@ == map_of(self.entry_seq()),
    {
    }

    /// An empty Configuration Map.
    pub fn new() -> (r: ConfigMap)
        ensures
            r@ == Map::<Seq<char>, Seq<char>>::empty(),
            r.entry_seq() == Seq::<(Seq<char>, Seq<char>)>::empty(),
    {
        let r = ConfigMap { entries: Vec::new() };
        proof {
            assert(r.entry_seq() =~= Seq::<(Seq<char>, Seq<char>)>::empty());
        }
        r
    }

    /// Binds `name` to `value`, overwriting any earlier binding.
    pub fn insert(&mut self, name: String, value: String)
        ensures
            final(self)@ == old(self)@.insert(name@, value@),
            final(self).entry_seq() == old(self).entry_seq().push((name@, value@)),
    {
        let ghost prev = entries_view(self.entries@);
        self.entries.push((name, value));
        proof {
            assert(entries_view(self.entries@) =~= prev.push(
                (self.entries@.last().0@, self.entries@.last().1@),
            ));
            assert(entries_view(self.entries@).drop_last() =~= prev);
        }
    }

    /// The insertions this map was built from, in order: a caller that
    /// replays them (later pairs overwriting earlier ones) rebuilds the
    /// map.
    pub fn pairs(&self) -> (r: &Vec<(String, String)>)
        ensures
            entries_view(r@) == self.entry_seq(),
    {
        &self.entries
    }

    /// The value bound to `name`, when one is.
    pub fn get(&self, name: &String) -> (r: Option<&String>)
        ensures
            match r {
                Some(v) => self@.contains_key(name@) && v@ == self@[name@],
                None => !self@.contains_key(name@),
            },
    {
        let ghost s = entries_view(self.entries@);
        proof {
            lemma_map_of_get(s, name@);
        }
        let mut i: usize = self.entries.len();
        while i > 0
            invariant
                i <= self.entries@.len(),
                s == entries_view(self.entries@),
                forall|j: int| i <= j < s.len() ==> s[j].0 != name@,
            decreases i,
        {
            i = i - 1;
            proof {
                assert(s[i as int] == (self.entries@[i as int].0@, self.entries@[i as int].1@));
            }
            if self.entries[i].0 == *name {
                proof {
                    assert(s[i as int].0 == name@);
                    lemma_map_of_get(s, name@);
                    assert(last_key_index(s, name@) == i as int);
                    assert(self@[name@] == s[i as int].1);
                }
                return Some(&self.entries[i].1);
            }
        }
        None
    }
}

} // verus!
