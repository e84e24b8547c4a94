//! Transient project lifecycle state: which projects are being created or
//! closed, which worktree paths are being removed, and worktree closes that
//! wait for a hook terminal to finish. Nothing here is persisted.
use vstd::prelude::*;
use crate::state::{contains_id, has_id, ids};

verus! {

/// A worktree close waiting for its hook terminal to exit.
#[derive(Debug)]
pub struct PendingWorktreeClose {
    pub project_id: String,
    pub hook_terminal_id: String,
    pub branch: String,
    pub main_repo_path: String,
}

/// The strings of `v` as a set of character sequences.
pub open spec fn id_set(v: Seq<String>) -> Set<Seq<char>> {
    Set::new(|id: Seq<char>| has_id(v, id))
}

/// No string occurs twice in `v`.
pub open spec fn distinct_ids(v: Seq<String>) -> bool {
    forall|i: int, j: int| 0 <= i < j < v.len() ==> #[trigger] v[i]@ != #[trigger] v[j]@
}

/// `v` without the strings equal to `id`.
pub(crate) fn without(v: &Vec<String>, id: &str) -> (r: Vec<String>)
    ensures
        id_set(r@) == id_set(v@).remove(id@),
        distinct_ids(v@) ==> distinct_ids(r@),
{
    let key = id.to_owned();
    let mut r: Vec<String> = Vec::new();
    let mut i: usize = 0;
    while i < v.len()
        invariant
            i <= v.len(),
            key@ == id@,
            forall|x: Seq<char>| has_id(r@, x) == (x != id@ && has_id(v@.take(i as int), x)),
            distinct_ids(v@) ==> distinct_ids(r@),
        decreases v.len() - i,
    {
        let ghost old_r = r@;
        let same = v[i] == key;
        if !same {
            r.push(v[i].clone());
            proof {
                if distinct_ids(v@) {
                    assert forall|a: int, b: int| 0 <= a < b < r@.len() implies #[trigger] r@[a]@ != #[trigger] r@[b]@ by {
                        if b == old_r.len() && r@[a]@ == r@[b]@ {
                            assert(old_r[a]@ == v@[i as int]@);
                            assert(has_id(old_r, v@[i as int]@));
                            let k = choose|k: int| 0 <= k < i && #[trigger] v@.take(i as int)[k]@ == v@[i as int]@;
                            assert(v@[k]@ == v@[i as int]@);
                        } else if b < old_r.len() {
                            assert(r@[a] == old_r[a] && r@[b] == old_r[b]);
                        }
                    }
                }
            }
        }
        assert forall|x: Seq<char>| has_id(r@, x) == (x != id@ && has_id(v@.take(i + 1), x)) by {
            if has_id(r@, x) {
                let j = choose|j: int| 0 <= j < r@.len() && #[trigger] r@[j]@ == x;
                if j < old_r.len() {
                    assert(old_r[j]@ == x);
                    assert(has_id(old_r, x));
                    assert(has_id(v@.take(i as int), x));
                    let k = choose|k: int| 0 <= k < i && #[trigger] v@.take(i as int)[k]@ == x;
                    assert(v@.take(i + 1)[k]@ == x);
                } else {
                    assert(v@.take(i + 1)[i as int]@ == x);
                }
            }
            if x != id@ && has_id(v@.take(i + 1), x) {
                let k = choose|k: int| 0 <= k < i + 1 && #[trigger] v@.take(i + 1)[k]@ == x;
                if k < i {
                    assert(v@.take(i as int)[k]@ == x);
                    assert(has_id(old_r, x));
                    let j = choose|j: int| 0 <= j < old_r.len() && #[trigger] old_r[j]@ == x;
                    assert(r@[j]@ == x);
                } else {
                    assert(r@[old_r.len() as int]@ == x);
                }
            }
        }
        i += 1;
    }
    assert(v@.take(v.len() as int) =~= v@);
    assert(id_set(r@) =~= id_set(v@).remove(id@));
    r
}

/// `v` with `id` added unless it is already there.
pub(crate) fn with(v: &mut Vec<String>, id: &str)
    ensures
        id_set(final(v)@) == id_set(old(v)@).insert(id@),
        distinct_ids(old(v)@) ==> distinct_ids(final(v)@),
{
    let s = id.to_owned();
    if !contains_id(v, &s) {
        let ghost old_v = v@;
        v.push(s);
        assert forall|a: int, b: int| distinct_ids(old_v) && 0 <= a < b < v@.len() implies #[trigger] v@[a]@
            != #[trigger] v@[b]@ by {
            if b == old_v.len() {
                assert(v@[a] == old_v[a]);
                if old_v[a]@ == id@ {
                    assert(has_id(old_v, id@));
                }
            } else {
                assert(v@[a] == old_v[a] && v@[b] == old_v[b]);
            }
        }
        assert forall|x: Seq<char>| has_id(v@, x) == (has_id(old_v, x) || x == id@) by {
            if has_id(v@, x) {
                let j = choose|j: int| 0 <= j < v@.len() && #[trigger] v@[j]@ == x;
                if j < old_v.len() {
                    assert(old_v[j]@ == x);
                }
            }
            if has_id(old_v, x) {
                let j = choose|j: int| 0 <= j < old_v.len() && #[trigger] old_v[j]@ == x;
                assert(v@[j]@ == x);
            }
            if x == id@ {
                assert(v@[old_v.len() as int]@ == x);
            }
        }
    }
    assert(id_set(v@) =~= id_set(old(v)@).insert(id@));
}

/// Whether some pending close of `s` waits on hook terminal `hook`.
pub open spec fn has_hook(s: Seq<PendingWorktreeClose>, hook: Seq<char>) -> bool {
    exists|i: int| 0 <= i < s.len() && #[trigger] s[i].hook_terminal_id@ == hook
}

/// No two pending closes of `s` wait on the same hook terminal.
pub open spec fn unique_hooks(s: Seq<PendingWorktreeClose>) -> bool {
    forall|i: int, j: int|
        0 <= i < j < s.len() ==> (#[trigger] s[i]).hook_terminal_id@ != (#[trigger] s[j]).hook_terminal_id@
}

/// The pending close of `s` waiting on hook terminal `h`.
pub open spec fn entry_for(s: Seq<PendingWorktreeClose>, h: Seq<char>) -> PendingWorktreeClose {
    s[choose|i: int| 0 <= i < s.len() && #[trigger] s[i].hook_terminal_id@ == h]
}

/// Pending closes of `s` keyed by hook terminal id.
pub open spec fn closes_map(s: Seq<PendingWorktreeClose>) -> Map<Seq<char>, PendingWorktreeClose> {
    Map::new(|h: Seq<char>| has_hook(s, h), |h: Seq<char>| entry_for(s, h))
}

proof fn lemma_entry_for(s: Seq<PendingWorktreeClose>, h: Seq<char>, i: int)
    requires
        unique_hooks(s),
        0 <= i < s.len(),
        s[i].hook_terminal_id@ == h,
    ensures
        entry_for(s, h) == s[i],
{
    let c = choose|c: int| 0 <= c < s.len() && #[trigger] s[c].hook_terminal_id@ == h;
    assert(0 <= c < s.len() && s[c].hook_terminal_id@ == h);
    if c < i {
        assert(s[c].hook_terminal_id@ != s[i].hook_terminal_id@);
    } else if i < c {
        assert(s[i].hook_terminal_id@ != s[c].hook_terminal_id@);
    }
}

/// Position of the pending close waiting on `hook`, if any.
fn hook_index(s: &Vec<PendingWorktreeClose>, hook: &String) -> (r: Option<usize>)
    ensures
        r matches Some(i) ==> i < s@.len() && s@[i as int].hook_terminal_id@ == hook@,
        r is None ==> !has_hook(s@, hook@),
{
    let mut i: usize = 0;
    while i < s.len()
        invariant
            i <= s.len(),
            forall|j: int| 0 <= j < i ==> #[trigger] s@[j].hook_terminal_id@ != hook@,
        decreases s.len() - i,
    {
        if s[i].hook_terminal_id == *hook {
            return Some(i);
        }
        i += 1;
    }
    None
}

/// Removes the close at `i`; the map loses exactly its key.
proof fn lemma_remove_entry(s: Seq<PendingWorktreeClose>, i: int)
    requires
        unique_hooks(s),
        0 <= i < s.len(),
    ensures
        unique_hooks(s.remove(i)),
        closes_map(s.remove(i)) == closes_map(s).remove(s[i].hook_terminal_id@),
{
    let t = s.remove(i);
    let h = s[i].hook_terminal_id@;
    assert forall|a: int, b: int| 0 <= a < b < t.len() implies (#[trigger] t[a]).hook_terminal_id@ != (#[trigger] t[b]).hook_terminal_id@ by {
        let a2 = if a < i { a } else { a + 1 };
        let b2 = if b < i { b } else { b + 1 };
        assert(t[a] == s[a2] && t[b] == s[b2]);
        assert(s[a2].hook_terminal_id@ != s[b2].hook_terminal_id@);
    }
    assert forall|k: Seq<char>| #[trigger] has_hook(t, k) == (has_hook(s, k) && k != h) by {
        if has_hook(t, k) {
            let a = choose|a: int| 0 <= a < t.len() && #[trigger] t[a].hook_terminal_id@ == k;
            let a2 = if a < i { a } else { a + 1 };
            assert(s[a2].hook_terminal_id@ == k);
            if k == h {
                if a2 < i {
                    assert(s[a2].hook_terminal_id@ != s[i].hook_terminal_id@);
                } else {
                    assert(s[i].hook_terminal_id@ != s[a2].hook_terminal_id@);
                }
            }
        }
        if has_hook(s, k) && k != h {
            let a = choose|a: int| 0 <= a < s.len() && #[trigger] s[a].hook_terminal_id@ == k;
            assert(a != i);
            let a2 = if a < i { a } else { a - 1 };
            assert(t[a2].hook_terminal_id@ == k);
        }
    }
    assert forall|k: Seq<char>| has_hook(t, k) implies entry_for(t, k) == entry_for(s, k) by {
        let a = choose|a: int| 0 <= a < t.len() && #[trigger] t[a].hook_terminal_id@ == k;
        let a2 = if a < i { a } else { a + 1 };
        lemma_entry_for(t, k, a);
        lemma_entry_for(s, k, a2);
    }
    assert(closes_map(t) =~= closes_map(s).remove(h));
}

/// Appends a close whose hook is not yet present; the map gains its key.
proof fn lemma_push_entry(s: Seq<PendingWorktreeClose>, p: PendingWorktreeClose)
    requires
        unique_hooks(s),
        !has_hook(s, p.hook_terminal_id@),
    ensures
        unique_hooks(s.push(p)),
        closes_map(s.push(p)) == closes_map(s).insert(p.hook_terminal_id@, p),
{
    let t = s.push(p);
    let h = p.hook_terminal_id@;
    assert forall|a: int, b: int| 0 <= a < b < t.len() implies (#[trigger] t[a]).hook_terminal_id@ != (#[trigger] t[b]).hook_terminal_id@ by {
        if b == s.len() {
            assert(t[a] == s[a]);
        } else {
            assert(t[a] == s[a] && t[b] == s[b]);
        }
    }
    assert forall|k: Seq<char>| #[trigger] has_hook(t, k) == (has_hook(s, k) || k == h) by {
        if has_hook(t, k) {
            let a = choose|a: int| 0 <= a < t.len() && #[trigger] t[a].hook_terminal_id@ == k;
            if a < s.len() {
                assert(s[a].hook_terminal_id@ == k);
            }
        }
        if has_hook(s, k) {
            let a = choose|a: int| 0 <= a < s.len() && #[trigger] s[a].hook_terminal_id@ == k;
            assert(t[a].hook_terminal_id@ == k);
        }
        if k == h {
            assert(t[s.len() as int].hook_terminal_id@ == k);
        }
    }
    assert forall|k: Seq<char>| has_hook(t, k) implies entry_for(t, k) == (if k == h { p } else { entry_for(s, k) }) by {
        if k == h {
            lemma_entry_for(t, k, s.len() as int);
        } else {
            let a = choose|a: int| 0 <= a < t.len() && #[trigger] t[a].hook_terminal_id@ == k;
            assert(a < s.len());
            lemma_entry_for(t, k, a);
            lemma_entry_for(s, k, a);
        }
    }
    assert(closes_map(t) =~= closes_map(s).insert(h, p));
}

/// Tracks transient "is this project being created/closed/removed" state.
pub struct ProjectLifecycleTracker {
    creating: Vec<String>,
    closing: Vec<String>,
    removing_worktree_paths: Vec<String>,
    pending_worktree_closes: Vec<PendingWorktreeClose>,
}

impl ProjectLifecycleTracker {
    /// At most one pending close per hook terminal, and no id twice in a set.
    #[verifier::type_invariant]
    spec fn one_close_per_hook(self) -> bool {
        &&& unique_hooks(self.pending_worktree_closes@)
        &&& distinct_ids(self.creating@)
        &&& distinct_ids(self.closing@)
        &&& distinct_ids(self.removing_worktree_paths@)
    }

    /// Projects whose worktree is still being created.
    pub closed spec fn creating_set(self) -> Set<Seq<char>> {
        id_set(self.creating@)
    }

    /// Projects being closed.
    pub closed spec fn closing_set(self) -> Set<Seq<char>> {
        id_set(self.closing@)
    }

    /// Worktree paths being removed.
    pub closed spec fn removing_set(self) -> Set<Seq<char>> {
        id_set(self.removing_worktree_paths@)
    }

    /// Pending worktree closes keyed by hook terminal id.
    pub closed spec fn pending(self) -> Map<Seq<char>, PendingWorktreeClose> {
        closes_map(self.pending_worktree_closes@)
    }

    /// An empty tracker.
    pub fn new() -> (t: Self)
        ensures
            t.creating_set() == Set::<Seq<char>>::empty(),
            t.closing_set() == Set::<Seq<char>>::empty(),
            t.removing_set() == Set::<Seq<char>>::empty(),
            t.pending() == Map::<Seq<char>, PendingWorktreeClose>::empty(),
    {
        let empty: Vec<String> = Vec::new();
        assert(distinct_ids(empty@));
        let t = ProjectLifecycleTracker {
            creating: Vec::new(),
            closing: Vec::new(),
            removing_worktree_paths: Vec::new(),
            pending_worktree_closes: Vec::new(),
        };
        assert(t.creating_set() =~= Set::<Seq<char>>::empty());
        assert(t.closing_set() =~= Set::<Seq<char>>::empty());
        assert(t.removing_set() =~= Set::<Seq<char>>::empty());
        assert(t.pending() =~= Map::<Seq<char>, PendingWorktreeClose>::empty());
        t
    }

    pub fn mark_creating(&mut self, project_id: &str)
        ensures
            final(self).creating_set() == old(self).creating_set().insert(project_id@),
            final(self).closing_set() == old(self).closing_set(),
            final(self).removing_set() == old(self).removing_set(),
            final(self).pending() == old(self).pending(),
    {
        proof {
            use_type_invariant(&*self);
        }
        let mut v: Vec<String> = Vec::new();
        std::mem::swap(&mut v, &mut self.creating);
        with(&mut v, project_id);
        self.creating = v;
    }

    pub fn finish_creating(&mut self, project_id: &str)
        ensures
            final(self).creating_set() == old(self).creating_set().remove(project_id@),
            final(self).closing_set() == old(self).closing_set(),
            final(self).removing_set() == old(self).removing_set(),
            final(self).pending() == old(self).pending(),
    {
        proof {
            use_type_invariant(&*self);
        }
        self.creating = without(&self.creating, project_id);
    }

    pub fn is_creating(&self, project_id: &str) -> (r: bool)
        ensures
            r == self.creating_set().contains(project_id@),
    {
        let s = project_id.to_owned();
        contains_id(&self.creating, &s)
    }

    pub fn mark_closing(&mut self, project_id: &str)
        ensures
            final(self).closing_set() == old(self).closing_set().insert(project_id@),
            final(self).creating_set() == old(self).creating_set(),
            final(self).removing_set() == old(self).removing_set(),
            final(self).pending() == old(self).pending(),
    {
        proof {
            use_type_invariant(&*self);
        }
        let mut v: Vec<String> = Vec::new();
        std::mem::swap(&mut v, &mut self.closing);
        with(&mut v, project_id);
        self.closing = v;
    }

    pub fn finish_closing(&mut self, project_id: &str)
        ensures
            final(self).closing_set() == old(self).closing_set().remove(project_id@),
            final(self).creating_set() == old(self).creating_set(),
            final(self).removing_set() == old(self).removing_set(),
            final(self).pending() == old(self).pending(),
    {
        proof {
            use_type_invariant(&*self);
        }
        self.closing = without(&self.closing, project_id);
    }

    pub fn is_closing(&self, project_id: &str) -> (r: bool)
        ensures
            r == self.closing_set().contains(project_id@),
    {
        let s = project_id.to_owned();
        contains_id(&self.closing, &s)
    }

    pub fn mark_worktree_removing(&mut self, path: &str)
        ensures
            final(self).removing_set() == old(self).removing_set().insert(path@),
            final(self).creating_set() == old(self).creating_set(),
            final(self).closing_set() == old(self).closing_set(),
            final(self).pending() == old(self).pending(),
    {
        proof {
            use_type_invariant(&*self);
        }
        let mut v: Vec<String> = Vec::new();
        std::mem::swap(&mut v, &mut self.removing_worktree_paths);
        with(&mut v, path);
        self.removing_worktree_paths = v;
    }

    pub fn finish_worktree_removing(&mut self, path: &str)
        ensures
            final(self).removing_set() == old(self).removing_set().remove(path@),
            final(self).creating_set() == old(self).creating_set(),
            final(self).closing_set() == old(self).closing_set(),
            final(self).pending() == old(self).pending(),
    {
        proof {
            use_type_invariant(&*self);
        }
        self.removing_worktree_paths = without(&self.removing_worktree_paths, path);
    }

    pub fn is_worktree_removing(&self, path: &str) -> (r: bool)
        ensures
            r == self.removing_set().contains(path@),
    {
        let s = path.to_owned();
        contains_id(&self.removing_worktree_paths, &s)
    }
}

impl ProjectLifecycleTracker {
    /// Registers a pending worktree close and marks its project as closing.
    pub fn register_pending_close(&mut self, pending: PendingWorktreeClose)
        ensures
            final(self).pending() == old(self).pending().insert(pending.hook_terminal_id@, pending),
            final(self).closing_set() == old(self).closing_set().insert(pending.project_id@),
            final(self).creating_set() == old(self).creating_set(),
            final(self).removing_set() == old(self).removing_set(),
    {
        proof {
            use_type_invariant(&*self);
        }
        let mut c: Vec<String> = Vec::new();
        std::mem::swap(&mut c, &mut self.closing);
        with(&mut c, pending.project_id.as_str());
        self.closing = c;
        let mut s: Vec<PendingWorktreeClose> = Vec::new();
        std::mem::swap(&mut s, &mut self.pending_worktree_closes);
        let ghost s0 = s@;
        match hook_index(&s, &pending.hook_terminal_id) {
            Some(i) => {
                proof {
                    lemma_remove_entry(s0, i as int);
                }
                let _replaced = s.remove(i);
                proof {
                    assert(!has_hook(s@, pending.hook_terminal_id@));
                    lemma_push_entry(s@, pending);
                    assert(closes_map(s0).remove(pending.hook_terminal_id@).insert(pending.hook_terminal_id@, pending)
                        =~= closes_map(s0).insert(pending.hook_terminal_id@, pending));
                }
            },
            None => {
                proof {
                    lemma_push_entry(s@, pending);
                }
            },
        }
        s.push(pending);
        self.pending_worktree_closes = s;
    }

    /// Takes (removes) the pending close waiting on `hook_terminal_id`.
    pub fn take_pending_close(&mut self, hook_terminal_id: &str) -> (r: Option<PendingWorktreeClose>)
        ensures
            old(self).pending().contains_key(hook_terminal_id@) ==> r == Some(old(self).pending()[hook_terminal_id@]),
            !old(self).pending().contains_key(hook_terminal_id@) ==> r is None,
            final(self).pending() == old(self).pending().remove(hook_terminal_id@),
            final(self).closing_set() == old(self).closing_set(),
            final(self).creating_set() == old(self).creating_set(),
            final(self).removing_set() == old(self).removing_set(),
    {
        proof {
            use_type_invariant(&*self);
        }
        let key = hook_terminal_id.to_owned();
        let mut s: Vec<PendingWorktreeClose> = Vec::new();
        std::mem::swap(&mut s, &mut self.pending_worktree_closes);
        let ghost s0 = s@;
        let r = match hook_index(&s, &key) {
            Some(i) => {
                proof {
                    lemma_remove_entry(s0, i as int);
                    lemma_entry_for(s0, key@, i as int);
                }
                Some(s.remove(i))
            },
            None => {
                assert(closes_map(s0).remove(key@) =~= closes_map(s0));
                None
            },
        };
        self.pending_worktree_closes = s;
        r
    }

    /// Cancels a pending close: removes it and unmarks its project as closing.
    pub fn cancel_pending_close(&mut self, hook_terminal_id: &str)
        ensures
            final(self).pending() == old(self).pending().remove(hook_terminal_id@),
            old(self).pending().contains_key(hook_terminal_id@) ==> final(self).closing_set()
                == old(self).closing_set().remove(old(self).pending()[hook_terminal_id@].project_id@),
            !old(self).pending().contains_key(hook_terminal_id@) ==> final(self).closing_set()
                == old(self).closing_set(),
            final(self).creating_set() == old(self).creating_set(),
            final(self).removing_set() == old(self).removing_set(),
    {
        proof {
            use_type_invariant(&*self);
        }
        if let Some(pending) = self.take_pending_close(hook_terminal_id) {
            proof {
                use_type_invariant(&*self);
            }
            self.closing = without(&self.closing, pending.project_id.as_str());
        }
    }
}

} // verus!
