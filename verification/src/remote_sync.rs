//! Transient remote-sync coordination: remote projects waiting to be
//! focused once the next state sync brings their new terminal, and the last
//! snapshot of each remote project.
use vstd::prelude::*;
use crate::lifecycle::{distinct_ids, id_set, with};
use crate::text::{chars_of, is_prefix, vec_starts_with};

verus! {

/// Remote project ids awaiting focus on the next state sync (a set).
pub struct RemoteSyncState {
    pending_focus: Vec<String>,
}

impl RemoteSyncState {
    /// No project id is queued twice.
    #[verifier::type_invariant]
    spec fn queued_once(self) -> bool {
        distinct_ids(self.pending_focus@)
    }

    /// The project ids awaiting focus.
    pub closed spec fn pending(self) -> Set<Seq<char>> {
        id_set(self.pending_focus@)
    }

    /// Nothing awaits focus.
    pub fn new() -> (s: Self)
        ensures
            s.pending() == Set::<Seq<char>>::empty(),
    {
        let v: Vec<String> = Vec::new();
        assert(distinct_ids(v@));
        let s = RemoteSyncState { pending_focus: v };
        assert(s.pending() =~= Set::<Seq<char>>::empty());
        s
    }

    /// Records that remote project `project_id` should get focus.
    pub fn queue_focus(&mut self, project_id: &str)
        ensures
            final(self).pending() == old(self).pending().insert(project_id@),
    {
        proof {
            use_type_invariant(&*self);
        }
        let mut v: Vec<String> = Vec::new();
        std::mem::swap(&mut v, &mut self.pending_focus);
        with(&mut v, project_id);
        self.pending_focus = v;
    }

    /// The project ids awaiting focus.
    pub fn pending_focus(&self) -> (r: &Vec<String>)
        ensures
            id_set(r@) == self.pending(),
            distinct_ids(r@),
    {
        proof {
            use_type_invariant(self);
        }
        &self.pending_focus
    }

    /// Hands out every project id awaiting focus and forgets them.
    pub fn drain_pending_focus(&mut self) -> (r: Vec<String>)
        ensures
            id_set(r@) == old(self).pending(),
            distinct_ids(r@),
            final(self).pending() == Set::<Seq<char>>::empty(),
    {
        proof {
            use_type_invariant(&*self);
        }
        let mut r: Vec<String> = Vec::new();
        std::mem::swap(&mut r, &mut self.pending_focus);
        assert(id_set(self.pending_focus@) =~= Set::<Seq<char>>::empty());
        r
    }
}

/// No key occurs twice among `e`.
pub open spec fn keys_distinct<S>(e: Seq<(String, S)>) -> bool {
    forall|i: int, j: int| 0 <= i < j < e.len() ==> #[trigger] e[i].0@ != #[trigger] e[j].0@
}

/// Position of the first entry of `e[i..]` with key `k`.
pub open spec fn key_index_from<S>(e: Seq<(String, S)>, k: Seq<char>, i: int) -> Option<int>
    decreases e.len() - i,
{
    if i < 0 || i >= e.len() {
        None
    } else if e[i].0@ == k {
        Some(i)
    } else {
        key_index_from(e, k, i + 1)
    }
}

/// The entries as a map from key to value (the first entry of each key).
pub open spec fn entries_map<S>(e: Seq<(String, S)>) -> Map<Seq<char>, S> {
    Map::new(|k: Seq<char>| key_index_from(e, k, 0) is Some, |k: Seq<char>| e[key_index_from(e, k, 0)->0].1)
}

proof fn lemma_key_index_from<S>(e: Seq<(String, S)>, k: Seq<char>, i: int)
    requires
        0 <= i <= e.len(),
    ensures
        key_index_from(e, k, i) matches Some(j) ==> i <= j < e.len() && e[j].0@ == k && forall|m: int|
            i <= m < j ==> e[m].0@ != k,
        key_index_from(e, k, i) is None ==> forall|m: int| i <= m < e.len() ==> e[m].0@ != k,
    decreases e.len() - i,
{
    if i < e.len() {
        lemma_key_index_from(e, k, i + 1);
    }
}

/// With distinct keys, the map holds exactly the entries' keys, each with
/// its entry's value.
proof fn lemma_entries_map<S>(e: Seq<(String, S)>)
    requires
        keys_distinct(e),
    ensures
        forall|j: int|
            0 <= j < e.len() ==> entries_map(e).contains_key(#[trigger] e[j].0@) && entries_map(e)[e[j].0@]
                == e[j].1,
        forall|k: Seq<char>|
            #[trigger] entries_map(e).contains_key(k) ==> exists|j: int| 0 <= j < e.len() && e[j].0@ == k,
{
    assert forall|j: int| 0 <= j < e.len() implies entries_map(e).contains_key(#[trigger] e[j].0@)
        && entries_map(e)[e[j].0@] == e[j].1 by {
        lemma_key_index_from(e, e[j].0@, 0);
        match key_index_from(e, e[j].0@, 0) {
            Some(m) => {
                if m != j {
                    assert(m < j);
                }
            },
            None => {},
        }
    }
    assert forall|k: Seq<char>| #[trigger] entries_map(e).contains_key(k) implies exists|j: int|
        0 <= j < e.len() && e[j].0@ == k by {
        lemma_key_index_from(e, k, 0);
    }
}

/// Finds the first entry with key `id`.
fn find_key<S>(e: &Vec<(String, S)>, id: &str) -> (r: Option<usize>)
    ensures
        match r {
            Some(i) => i < e@.len() && key_index_from(e@, id@, 0) == Some(i as int),
            None => key_index_from(e@, id@, 0) is None,
        },
{
    let key = id.to_owned();
    let mut i: usize = 0;
    while i < e.len()
        invariant
            i <= e@.len(),
            key@ == id@,
            key_index_from(e@, id@, 0) == key_index_from(e@, id@, i as int),
        decreases e.len() - i,
    {
        if e[i].0 == key {
            return Some(i);
        }
        i += 1;
    }
    None
}

/// `x` is an entry of `orig[n..]` whose key does not start with `p`.
spec fn came_from<S>(orig: Seq<(String, S)>, x: (String, S), n: int, p: Seq<char>) -> bool {
    exists|j: int| n <= j < orig.len() && orig[j] == x && !is_prefix(p, orig[j].0@)
}

/// Every entry of `kept` is an entry of `orig[n..]` whose key does not start with `p`.
#[verifier::opaque]
spec fn from_tail<S>(orig: Seq<(String, S)>, kept: Seq<(String, S)>, n: int, p: Seq<char>) -> bool {
    forall|a: int| 0 <= a < kept.len() ==> #[trigger] came_from(orig, kept[a], n, p)
}

/// Every entry of `orig[n..]` whose key does not start with `p` is in `kept`.
#[verifier::opaque]
spec fn covers_tail<S>(orig: Seq<(String, S)>, kept: Seq<(String, S)>, n: int, p: Seq<char>) -> bool {
    forall|j: int|
        n <= j < orig.len() && !is_prefix(p, orig[j].0@) ==> exists|a: int|
            0 <= a < kept.len() && #[trigger] kept[a] == orig[j]
}

proof fn lemma_step_distinct<S>(orig: Seq<(String, S)>, before: Seq<(String, S)>, n: int, p: Seq<char>)
    requires
        1 <= n <= orig.len(),
        keys_distinct(orig),
        keys_distinct(before),
        from_tail(orig, before, n, p),
    ensures
        keys_distinct(before.push(orig[n - 1])),
{
    reveal(from_tail);
    let after = before.push(orig[n - 1]);
    assert forall|a: int, b: int| 0 <= a < b < after.len() implies #[trigger] after[a].0@ != #[trigger] after[b].0@ by {
        assert(after[a] == before[a]);
        if b == before.len() {
            assert(came_from(orig, before[a], n, p));
            let j = choose|j: int| n <= j < orig.len() && orig[j] == before[a] && !is_prefix(p, orig[j].0@);
            assert(orig[n - 1].0@ != orig[j].0@);
        } else {
            assert(after[b] == before[b]);
        }
    }
}

proof fn lemma_step_from_tail<S>(orig: Seq<(String, S)>, before: Seq<(String, S)>, n: int, p: Seq<char>, keep: bool)
    requires
        1 <= n <= orig.len(),
        from_tail(orig, before, n, p),
        keep == !is_prefix(p, orig[n - 1].0@),
    ensures
        from_tail(orig, if keep { before.push(orig[n - 1]) } else { before }, n - 1, p),
{
    reveal(from_tail);
    let after = if keep {
        before.push(orig[n - 1])
    } else {
        before
    };
    assert forall|a: int| 0 <= a < after.len() implies #[trigger] came_from(orig, after[a], n - 1, p) by {
        if a < before.len() {
            assert(after[a] == before[a]);
            assert(came_from(orig, before[a], n, p));
            let j = choose|j: int| n <= j < orig.len() && orig[j] == before[a] && !is_prefix(p, orig[j].0@);
            assert(n - 1 <= j < orig.len() && orig[j] == after[a] && !is_prefix(p, orig[j].0@));
        } else {
            assert(keep);
            assert(after[a] == orig[n - 1]);
            assert(n - 1 <= n - 1 < orig.len() && orig[n - 1] == after[a] && !is_prefix(p, orig[n - 1].0@));
        }
    }
    assert(from_tail(orig, after, n - 1, p));
}

proof fn lemma_step_covers<S>(orig: Seq<(String, S)>, before: Seq<(String, S)>, n: int, p: Seq<char>, keep: bool)
    requires
        1 <= n <= orig.len(),
        covers_tail(orig, before, n, p),
        keep == !is_prefix(p, orig[n - 1].0@),
    ensures
        covers_tail(orig, if keep { before.push(orig[n - 1]) } else { before }, n - 1, p),
{
    reveal(covers_tail);
    let after = if keep {
        before.push(orig[n - 1])
    } else {
        before
    };
    assert forall|j: int| n - 1 <= j < orig.len() && !is_prefix(p, orig[j].0@) implies exists|a: int|
        0 <= a < after.len() && #[trigger] after[a] == orig[j] by {
        if j == n - 1 {
            assert(after[before.len() as int] == orig[j]);
        } else {
            let a = choose|a: int| 0 <= a < before.len() && #[trigger] before[a] == orig[j];
            assert(after[a] == before[a]);
        }
    }
}

proof fn lemma_retained<S>(orig: Seq<(String, S)>, kept: Seq<(String, S)>, p: Seq<char>)
    requires
        keys_distinct(orig),
        keys_distinct(kept),
        from_tail(orig, kept, 0, p),
        covers_tail(orig, kept, 0, p),
    ensures
        entries_map(kept) == entries_map(orig).restrict(Set::new(|k: Seq<char>| !is_prefix(p, k))),
{
    lemma_entries_map(orig);
    lemma_entries_map(kept);
    let om = entries_map(orig);
    let nm = entries_map(kept);
    let want = om.restrict(Set::new(|k: Seq<char>| !is_prefix(p, k)));
    assert forall|x: Seq<char>| #[trigger] nm.contains_key(x) implies want.contains_key(x) && nm[x] == want[x] by {
        reveal(from_tail);
        let a = choose|a: int| 0 <= a < kept.len() && kept[a].0@ == x;
        assert(came_from(orig, kept[a], 0, p));
        let j = choose|j: int| 0 <= j < orig.len() && orig[j] == kept[a] && !is_prefix(p, orig[j].0@);
        assert(om.contains_key(orig[j].0@));
        assert(om[orig[j].0@] == orig[j].1);
        assert(nm[kept[a].0@] == kept[a].1);
    }
    assert forall|x: Seq<char>| #[trigger] want.contains_key(x) implies nm.contains_key(x) by {
        reveal(covers_tail);
        let j = choose|j: int| 0 <= j < orig.len() && orig[j].0@ == x;
        assert(!is_prefix(p, orig[j].0@));
        let a = choose|a: int| 0 <= a < kept.len() && #[trigger] kept[a] == orig[j];
        assert(nm.contains_key(kept[a].0@));
    }
    assert(nm =~= want);
}

/// The last snapshot of each remote project, keyed by project id.
pub struct SnapshotStore<S> {
    entries: Vec<(String, S)>,
}

impl<S> SnapshotStore<S> {
    /// No project id has two snapshots.
    #[verifier::type_invariant]
    spec fn one_per_key(self) -> bool {
        keys_distinct(self.entries@)
    }

    /// The snapshot of each project id.
    pub closed spec fn snapshots(self) -> Map<Seq<char>, S> {
        entries_map(self.entries@)
    }

    /// A store with no snapshot.
    pub fn new() -> (r: Self)
        ensures
            r.snapshots() == Map::<Seq<char>, S>::empty(),
    {
        let e: Vec<(String, S)> = Vec::new();
        let r = SnapshotStore { entries: e };
        assert(r.snapshots() =~= Map::<Seq<char>, S>::empty());
        r
    }

    /// The snapshot of project `project_id`, if there is one.
    pub fn snapshot(&self, project_id: &str) -> (r: Option<&S>)
        ensures
            match r {
                Some(v) => self.snapshots().contains_key(project_id@) && *v == self.snapshots()[project_id@],
                None => !self.snapshots().contains_key(project_id@),
            },
    {
        match find_key(&self.entries, project_id) {
            Some(i) => Some(&self.entries[i].1),
            None => None,
        }
    }

    /// Stores `snapshot` for project `project_id`, replacing any earlier one.
    pub fn set_snapshot(&mut self, project_id: &str, snapshot: S)
        ensures
            final(self).snapshots() == old(self).snapshots().insert(project_id@, snapshot),
    {
        proof {
            use_type_invariant(&*self);
        }
        let mut e: Vec<(String, S)> = Vec::new();
        std::mem::swap(&mut e, &mut self.entries);
        let ghost old_e = e@;
        let ghost k = project_id@;
        proof {
            lemma_key_index_from(old_e, k, 0);
            lemma_entries_map(old_e);
        }
        match find_key(&e, project_id) {
            Some(i) => {
                let _ = e.remove(i);
            },
            None => {},
        }
        let ghost mid = e@;
        assert(forall|m: int| 0 <= m < mid.len() ==> mid[m].0@ != k) by {
            match key_index_from(old_e, k, 0) {
                Some(i) => {
                    assert forall|m: int| 0 <= m < mid.len() implies mid[m].0@ != k by {
                        if m < i {
                            assert(mid[m] == old_e[m]);
                        } else {
                            assert(mid[m] == old_e[m + 1]);
                        }
                    }
                },
                None => {},
            }
        }
        e.push((project_id.to_owned(), snapshot));
        let ghost ne = e@;
        assert(keys_distinct(ne)) by {
            assert forall|a: int, b: int| 0 <= a < b < ne.len() implies #[trigger] ne[a].0@ != #[trigger] ne[b].0@ by {
                if b == mid.len() {
                    assert(ne[a] == mid[a]);
                } else {
                    assert(ne[a] == mid[a] && ne[b] == mid[b]);
                    match key_index_from(old_e, k, 0) {
                        Some(i) => {
                            let a0 = if a < i { a } else { a + 1 };
                            let b0 = if b < i { b } else { b + 1 };
                            assert(mid[a] == old_e[a0]);
                            assert(mid[b] == old_e[b0]);
                        },
                        None => {},
                    }
                }
            }
        }
        proof {
            lemma_entries_map(ne);
            let om = entries_map(old_e);
            let nm = entries_map(ne);
            assert forall|x: Seq<char>| nm.contains_key(x) <==> om.insert(k, snapshot).contains_key(x) by {
                if nm.contains_key(x) && x != k {
                    let j = choose|j: int| 0 <= j < ne.len() && ne[j].0@ == x;
                    assert(j < mid.len());
                    assert(ne[j] == mid[j]);
                    match key_index_from(old_e, k, 0) {
                        Some(i) => {
                            if j < i {
                                assert(mid[j] == old_e[j]);
                                assert(old_e[j].0@ == x);
                            } else {
                                assert(mid[j] == old_e[j + 1]);
                                assert(old_e[j + 1].0@ == x);
                            }
                        },
                        None => {
                            assert(old_e[j].0@ == x);
                        },
                    }
                }
                if om.contains_key(x) && x != k {
                    let j = choose|j: int| 0 <= j < old_e.len() && old_e[j].0@ == x;
                    match key_index_from(old_e, k, 0) {
                        Some(i) => {
                            assert(j != i);
                            if j < i {
                                assert(ne[j] == old_e[j]);
                            } else {
                                assert(ne[j - 1] == old_e[j]);
                            }
                        },
                        None => {
                            assert(ne[j] == old_e[j]);
                        },
                    }
                }
                if x == k {
                    assert(ne[mid.len() as int].0@ == k);
                }
            }
            assert forall|x: Seq<char>| #[trigger] nm.contains_key(x) implies nm[x] == om.insert(k, snapshot)[x] by {
                let j = choose|j: int| 0 <= j < ne.len() && ne[j].0@ == x;
                if x == k {
                    assert(j == mid.len());
                } else {
                    assert(j < mid.len());
                    match key_index_from(old_e, k, 0) {
                        Some(i) => {
                            if j < i {
                                assert(ne[j] == old_e[j]);
                            } else {
                                assert(ne[j] == old_e[j + 1]);
                            }
                        },
                        None => {
                            assert(ne[j] == old_e[j]);
                        },
                    }
                }
            }
            assert(nm =~= om.insert(k, snapshot));
        }
        self.entries = e;
    }

    /// Forgets the snapshot of project `project_id`.
    pub fn remove_snapshot(&mut self, project_id: &str)
        ensures
            final(self).snapshots() == old(self).snapshots().remove(project_id@),
    {
        proof {
            use_type_invariant(&*self);
        }
        let mut e: Vec<(String, S)> = Vec::new();
        std::mem::swap(&mut e, &mut self.entries);
        let ghost old_e = e@;
        let ghost k = project_id@;
        proof {
            lemma_key_index_from(old_e, k, 0);
            lemma_entries_map(old_e);
        }
        match find_key(&e, project_id) {
            Some(i) => {
                let _ = e.remove(i);
            },
            None => {},
        }
        let ghost ne = e@;
        proof {
            let om = entries_map(old_e);
            let back = |j: int| -> int {
                match key_index_from(old_e, k, 0) {
                    Some(i) => if j < i { j } else { j + 1 },
                    None => j,
                }
            };
            assert forall|j: int| 0 <= j < ne.len() implies ne[j] == old_e[back(j)] && 0 <= back(j) < old_e.len() by {}
            assert(keys_distinct(ne)) by {
                assert forall|a: int, b: int| 0 <= a < b < ne.len() implies #[trigger] ne[a].0@ != #[trigger] ne[b].0@ by {
                    assert(ne[a] == old_e[back(a)]);
                    assert(ne[b] == old_e[back(b)]);
                }
            }
            lemma_entries_map(ne);
            let nm = entries_map(ne);
            assert forall|x: Seq<char>| nm.contains_key(x) <==> om.remove(k).contains_key(x) by {
                if nm.contains_key(x) {
                    let j = choose|j: int| 0 <= j < ne.len() && ne[j].0@ == x;
                    assert(ne[j] == old_e[back(j)]);
                    assert(old_e[back(j)].0@ == x);
                }
                if om.contains_key(x) && x != k {
                    let j = choose|j: int| 0 <= j < old_e.len() && old_e[j].0@ == x;
                    match key_index_from(old_e, k, 0) {
                        Some(i) => {
                            assert(j != i);
                            if j < i {
                                assert(ne[j] == old_e[j]);
                            } else {
                                assert(ne[j - 1] == old_e[j]);
                            }
                        },
                        None => {
                            assert(ne[j] == old_e[j]);
                        },
                    }
                }
            }
            assert forall|x: Seq<char>| #[trigger] nm.contains_key(x) implies nm[x] == om.remove(k)[x] by {
                let j = choose|j: int| 0 <= j < ne.len() && ne[j].0@ == x;
                assert(ne[j] == old_e[back(j)]);
            }
            assert(nm =~= om.remove(k));
        }
        self.entries = e;
    }

    /// Forgets the snapshots of every project whose id starts with `prefix`.
    pub fn retain_not_starting_with(&mut self, prefix: &str)
        ensures
            final(self).snapshots() == old(self).snapshots().restrict(
                Set::new(|k: Seq<char>| !is_prefix(prefix@, k)),
            ),
    {
        proof {
            use_type_invariant(&*self);
        }
        let mut rest: Vec<(String, S)> = Vec::new();
        std::mem::swap(&mut rest, &mut self.entries);
        let ghost orig = rest@;
        let p = chars_of(prefix);
        let mut kept: Vec<(String, S)> = Vec::new();
        proof {
            reveal(from_tail);
            reveal(covers_tail);
        }
        while rest.len() > 0
            invariant
                rest@ == orig.take(rest@.len() as int),
                rest@.len() <= orig.len(),
                keys_distinct(orig),
                keys_distinct(kept@),
                p@ == prefix@,
                from_tail(orig, kept@, rest@.len() as int, p@),
                covers_tail(orig, kept@, rest@.len() as int, p@),
            decreases rest@.len(),
        {
            let ghost n = rest@.len() as int;
            let ghost before = kept@;
            let item = rest.pop().unwrap();
            assert(item == orig[n - 1]);
            assert(rest@ =~= orig.take(n - 1));
            let kc = chars_of(item.0.as_str());
            let keep = !vec_starts_with(&kc, &p);
            if keep {
                kept.push(item);
            }
            proof {
                if keep {
                    lemma_step_distinct(orig, before, n, p@);
                }
                lemma_step_from_tail(orig, before, n, p@, keep);
                lemma_step_covers(orig, before, n, p@, keep);
            }
        }
        proof {
            lemma_retained(orig, kept@, p@);
        }
        self.entries = kept;
    }
}

} // verus!
