//! Maps keyed by strings, kept as a vector of entries whose keys differ,
//! such as theme colors (`"editor.background"` → `"#1e1e1e"`).
use vstd::prelude::*;

verus! {

/// Whether some entry of `s` has key `k`.
pub open spec fn has_key<V: View>(s: Seq<(String, V)>, k: Seq<char>) -> bool {
    exists|i: int| 0 <= i < s.len() && #[trigger] s[i].0@ == k
}

/// No two entries of `s` share a key.
pub open spec fn unique_keys<V: View>(s: Seq<(String, V)>) -> bool {
    forall|i: int, j: int| 0 <= i < j < s.len() ==> (#[trigger] s[i]).0@ != (#[trigger] s[j]).0@
}

/// The value of the entry of `s` with key `k`.
pub open spec fn value_for<V: View>(s: Seq<(String, V)>, k: Seq<char>) -> V::V {
    s[choose|i: int| 0 <= i < s.len() && #[trigger] s[i].0@ == k].1@
}

/// The entries of `s` as a map from key to value.
pub open spec fn entries_map<V: View>(s: Seq<(String, V)>) -> Map<Seq<char>, V::V> {
    Map::new(|k: Seq<char>| has_key(s, k), |k: Seq<char>| value_for(s, k))
}

proof fn lemma_value_for<V: View>(s: Seq<(String, V)>, i: int)
    requires
        unique_keys(s),
        0 <= i < s.len(),
    ensures
        entries_map(s).contains_key(s[i].0@),
        entries_map(s)[s[i].0@] == s[i].1@,
{
    let k = s[i].0@;
    assert(has_key(s, k));
    let c = choose|c: int| 0 <= c < s.len() && #[trigger] s[c].0@ == k;
    if c < i {
        assert(s[c].0@ != s[i].0@);
    } else if i < c {
        assert(s[i].0@ != s[c].0@);
    }
}

/// Adding an entry whose key is new inserts it into the map.
proof fn lemma_push_entry<V: View>(s: Seq<(String, V)>, e: (String, V))
    requires
        unique_keys(s),
        !has_key(s, e.0@),
    ensures
        unique_keys(s.push(e)),
        entries_map(s.push(e)) == entries_map(s).insert(e.0@, e.1@),
{
    let t = s.push(e);
    assert forall|i: int, j: int| 0 <= i < j < t.len() implies (#[trigger] t[i]).0@ != (#[trigger] t[j]).0@ by {
        if j == s.len() {
            assert(t[i] == s[i]);
        } else {
            assert(t[i] == s[i] && t[j] == s[j]);
        }
    }
    assert forall|k: Seq<char>| #[trigger] has_key(t, k) == (has_key(s, k) || k == e.0@) by {
        if has_key(s, k) {
            let i = choose|i: int| 0 <= i < s.len() && #[trigger] s[i].0@ == k;
            assert(t[i].0@ == k);
        }
        if k == e.0@ {
            assert(t[s.len() as int].0@ == k);
        }
        if has_key(t, k) {
            let i = choose|i: int| 0 <= i < t.len() && #[trigger] t[i].0@ == k;
            if i < s.len() {
                assert(s[i].0@ == k);
            }
        }
    }
    assert forall|k: Seq<char>| #[trigger] entries_map(t).contains_key(k) implies entries_map(t)[k]
        == entries_map(s).insert(e.0@, e.1@)[k] by {
        let i = choose|i: int| 0 <= i < t.len() && #[trigger] t[i].0@ == k;
        lemma_value_for(t, i);
        if i < s.len() {
            assert(t[i] == s[i]);
            lemma_value_for(s, i);
        }
    }
    assert(entries_map(t) =~= entries_map(s).insert(e.0@, e.1@));
}

/// Replacing the value of entry `i` keeps its key and updates the map.
proof fn lemma_set_entry<V: View>(s: Seq<(String, V)>, i: int, e: (String, V))
    requires
        unique_keys(s),
        0 <= i < s.len(),
        s[i].0@ == e.0@,
    ensures
        unique_keys(s.update(i, e)),
        entries_map(s.update(i, e)) == entries_map(s).insert(e.0@, e.1@),
{
    let t = s.update(i, e);
    assert forall|a: int, b: int| 0 <= a < b < t.len() implies (#[trigger] t[a]).0@ != (#[trigger] t[b]).0@ by {
        assert(s[a].0@ != s[b].0@);
    }
    assert forall|k: Seq<char>| #[trigger] has_key(t, k) == has_key(s, k) by {
        if has_key(s, k) {
            let j = choose|j: int| 0 <= j < s.len() && #[trigger] s[j].0@ == k;
            assert(t[j].0@ == k);
        }
        if has_key(t, k) {
            let j = choose|j: int| 0 <= j < t.len() && #[trigger] t[j].0@ == k;
            assert(s[j].0@ == k);
        }
    }
    assert(has_key(s, e.0@)) by {
        assert(s[i].0@ == e.0@);
    }
    assert forall|k: Seq<char>| #[trigger] entries_map(t).contains_key(k) implies entries_map(t)[k]
        == entries_map(s).insert(e.0@, e.1@)[k] by {
        let j = choose|j: int| 0 <= j < t.len() && #[trigger] t[j].0@ == k;
        lemma_value_for(t, j);
        if j != i {
            lemma_value_for(s, j);
        }
    }
    assert(entries_map(t) =~= entries_map(s).insert(e.0@, e.1@));
}

/// The map of the first `i + 1` entries adds entry `i` to that of the first `i`.
proof fn lemma_take_entry<V: View>(s: Seq<(String, V)>, i: int)
    requires
        unique_keys(s),
        0 <= i < s.len(),
    ensures
        unique_keys(s.take(i)),
        !has_key(s.take(i), s[i].0@),
        entries_map(s.take(i + 1)) == entries_map(s.take(i)).insert(s[i].0@, s[i].1@),
{
    let p = s.take(i);
    assert forall|a: int, b: int| 0 <= a < b < p.len() implies (#[trigger] p[a]).0@ != (#[trigger] p[b]).0@ by {
        assert(s[a].0@ != s[b].0@);
    }
    if has_key(p, s[i].0@) {
        let j = choose|j: int| 0 <= j < p.len() && #[trigger] p[j].0@ == s[i].0@;
        assert(s[j].0@ != s[i].0@);
    }
    lemma_push_entry(p, s[i]);
    assert(p.push(s[i]) =~= s.take(i + 1));
}

/// Position of the entry of `entries` with key `key`, if any.
fn key_index<V: View>(entries: &Vec<(String, V)>, key: &String) -> (r: Option<usize>)
    ensures
        r matches Some(i) ==> i < entries@.len() && entries@[i as int].0@ == key@,
        r is None ==> !has_key(entries@, key@),
{
    let mut i: usize = 0;
    while i < entries.len()
        invariant
            i <= entries@.len(),
            forall|j: int| 0 <= j < i ==> #[trigger] entries@[j].0@ != key@,
        decreases entries.len() - i,
    {
        if entries[i].0 == *key {
            return Some(i);
        }
        i += 1;
    }
    None
}

/// Values keyed by strings; each key occurs once.
pub struct KeyMap<V: View> {
    entries: Vec<(String, V)>,
}

/// Theme colors keyed by their VS Code name.
pub type ColorMap = KeyMap<String>;

impl<V: View> View for KeyMap<V> {
    type V = Map<Seq<char>, V::V>;

    closed spec fn view(&self) -> Map<Seq<char>, V::V> {
        entries_map(self.entries@)
    }
}

impl<V: View> KeyMap<V> {
    #[verifier::type_invariant]
    spec fn keys_unique(self) -> bool {
        unique_keys(self.entries@)
    }

    /// An empty map.
    pub fn new() -> (m: Self)
        ensures
            m@ == Map::<Seq<char>, V::V>::empty(),
            m.size() == 0,
    {
        let m = KeyMap { entries: Vec::new() };
        assert(m@ =~= Map::<Seq<char>, V::V>::empty());
        m
    }

    /// Number of entries.
    pub closed spec fn size(&self) -> nat {
        self.entries@.len()
    }

    /// Number of entries (each key counts once).
    pub fn len(&self) -> (n: usize)
        ensures
            n == self.size(),
    {
        self.entries.len()
    }

    /// Removes every entry.
    pub fn clear(&mut self)
        ensures
            final(self)@ == Map::<Seq<char>, V::V>::empty(),
            final(self).size() == 0,
    {
        self.entries = Vec::new();
        assert(self@ =~= Map::<Seq<char>, V::V>::empty());
    }

    /// The value stored under `key`.
    pub fn get(&self, key: &str) -> (r: Option<&V>)
        ensures
            r matches Some(v) ==> self@.contains_key(key@) && self@[key@] == v@,
            r is None ==> !self@.contains_key(key@),
    {
        proof {
            use_type_invariant(self);
        }
        let k = key.to_owned();
        match key_index(&self.entries, &k) {
            Some(i) => {
                proof {
                    lemma_value_for(self.entries@, i as int);
                }
                Some(&self.entries[i].1)
            },
            None => None,
        }
    }

    /// Stores `value` under `key`, replacing any earlier value.
    pub fn insert(&mut self, key: String, value: V)
        ensures
            final(self)@ == old(self)@.insert(key@, value@),
            final(self).size() == (if old(self)@.contains_key(key@) {
                old(self).size()
            } else {
                old(self).size() + 1
            }),
    {
        proof {
            use_type_invariant(&*self);
        }
        let mut v: Vec<(String, V)> = Vec::new();
        std::mem::swap(&mut v, &mut self.entries);
        let ghost s = v@;
        match key_index(&v, &key) {
            Some(i) => {
                proof {
                    lemma_value_for(s, i as int);
                    lemma_set_entry(s, i as int, (key, value));
                }
                v.set(i, (key, value));
            },
            None => {
                proof {
                    lemma_push_entry(s, (key, value));
                }
                v.push((key, value));
            },
        }
        self.entries = v;
    }

}

impl KeyMap<String> {
    /// Stores every entry of `other`, its values replacing those of `self`.
    pub fn extend_from(&mut self, other: &ColorMap)
        ensures
            final(self)@ == old(self)@.union_prefer_right(other@),
    {
        proof {
            use_type_invariant(other);
        }
        let ghost start = self@;
        let mut i: usize = 0;
        while i < other.entries.len()
            invariant
                i <= other.entries@.len(),
                unique_keys(other.entries@),
                self@ == start.union_prefer_right(entries_map(other.entries@.take(i as int))),
            decreases other.entries.len() - i,
        {
            let ghost before = self@;
            proof {
                lemma_take_entry(other.entries@, i as int);
            }
            let k = other.entries[i].0.clone();
            let v = other.entries[i].1.clone();
            self.insert(k, v);
            assert(self@ =~= start.union_prefer_right(entries_map(other.entries@.take(i + 1))));
            i += 1;
        }
        assert(other.entries@.take(other.entries@.len() as int) =~= other.entries@);
    }
}

} // verus!
