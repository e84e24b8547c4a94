//! The queue of toast notifications shown over the window.
use vstd::prelude::*;

verus! {

broadcast use vstd::string::group_string_axioms;

/// How a toast is styled.
#[derive(Clone, Copy, Debug, PartialEq, Eq, Structural)]
pub enum ToastLevel {
    Success,
    Info,
    Warning,
    Error,
}

/// One notification.
#[derive(Clone, Debug)]
pub struct Toast {
    pub id: String,
    pub message: String,
    pub level: ToastLevel,
}

/// At most this many toasts are kept; the oldest go first.
pub const MAX_VISIBLE_TOASTS: usize = 5;

/// The newest `MAX_VISIBLE_TOASTS` entries of `q`, in order.
pub open spec fn capped(q: Seq<Toast>) -> Seq<Toast> {
    if q.len() > MAX_VISIBLE_TOASTS {
        q.subrange(q.len() - MAX_VISIBLE_TOASTS, q.len() as int)
    } else {
        q
    }
}

/// `q` without the toasts whose id is `id`, in order.
pub open spec fn without_id(q: Seq<Toast>, id: Seq<char>) -> Seq<Toast>
    decreases q.len(),
{
    if q.len() == 0 {
        Seq::empty()
    } else {
        let rest = without_id(q.drop_last(), id);
        if q.last().id@ == id {
            rest
        } else {
            rest.push(q.last())
        }
    }
}

/// The toasts on screen, oldest first.
pub struct ToastManager {
    queue: Vec<Toast>,
}

impl ToastManager {
    /// The toasts held, oldest first.
    pub closed spec fn toasts(&self) -> Seq<Toast> {
        self.queue@
    }

    #[verifier::type_invariant]
    spec fn bounded(&self) -> bool {
        self.queue@.len() <= MAX_VISIBLE_TOASTS
    }

    /// An empty queue.
    pub fn new() -> (m: ToastManager)
        ensures
            m.toasts() == Seq::<Toast>::empty(),
    {
        ToastManager { queue: Vec::new() }
    }

    /// The toasts held, oldest first.
    pub fn snapshot(&self) -> (r: &Vec<Toast>)
        ensures
            r@ == self.toasts(),
            r@.len() <= MAX_VISIBLE_TOASTS,
    {
        proof { use_type_invariant(self); }
        &self.queue
    }

    /// Drops the oldest entries of `q` until at most the cap remain.
    fn trim_oldest(q: &mut Vec<Toast>)
        ensures
            final(q)@ == capped(old(q)@),
    {
        let ghost full = q@;
        while q.len() > MAX_VISIBLE_TOASTS
            invariant
                q@.len() >= MAX_VISIBLE_TOASTS || q@ == full,
                q@.len() <= full.len(),
                q@ == full.subrange(full.len() - q@.len(), full.len() as int),
            decreases q.len(),
        {
            q.remove(0);
        }
        assert(full.subrange(full.len() - full.len(), full.len() as int) =~= full);
    }

    /// Adds `toast` as the newest entry and drops the oldest beyond the cap.
    pub fn post(&mut self, toast: Toast)
        ensures
            final(self).toasts() == capped(old(self).toasts().push(toast)),
    {
        let mut q = Vec::new();
        std::mem::swap(&mut q, &mut self.queue);
        q.push(toast);
        Self::trim_oldest(&mut q);
        self.queue = q;
    }

    /// Adds `toasts` in order as the newest entries and drops the oldest
    /// beyond the cap; an empty batch changes nothing.
    pub fn post_batch(&mut self, toasts: Vec<Toast>)
        ensures
            toasts@.len() == 0 ==> final(self).toasts() == old(self).toasts(),
            final(self).toasts() == capped(old(self).toasts() + toasts@),
    {
        proof { use_type_invariant(&*self); }
        if toasts.len() == 0 {
            assert(self.queue@ + toasts@ =~= self.queue@);
            return;
        }
        let mut q = Vec::new();
        std::mem::swap(&mut q, &mut self.queue);
        let ghost start = q@;
        let mut i: usize = 0;
        while i < toasts.len()
            invariant
                i <= toasts@.len(),
                q@ == start + toasts@.take(i as int),
            decreases toasts.len() - i,
        {
            q.push(toasts[i].clone_toast());
            assert(toasts@.take(i as int).push(toasts@[i as int]) =~= toasts@.take(i + 1));
            i += 1;
        }
        assert(toasts@.take(toasts@.len() as int) =~= toasts@);
        Self::trim_oldest(&mut q);
        self.queue = q;
    }

    /// Removes every toast whose id is `id`.
    pub fn dismiss(&mut self, id: &str)
        ensures
            final(self).toasts() == without_id(old(self).toasts(), id@),
    {
        proof { use_type_invariant(&*self); }
        let mut q = Vec::new();
        std::mem::swap(&mut q, &mut self.queue);
        let ghost start = q@;
        let key = id.to_owned();
        let mut kept: Vec<Toast> = Vec::new();
        let mut i: usize = 0;
        while i < q.len()
            invariant
                q@ == start,
                key@ == id@,
                start.len() <= MAX_VISIBLE_TOASTS,
                i <= q@.len(),
                kept@ == without_id(q@.take(i as int), id@),
                kept@.len() <= i,
            decreases q.len() - i,
        {
            assert(q@.take(i + 1).drop_last() =~= q@.take(i as int));
            if q[i].id != key {
                kept.push(q[i].clone_toast());
            }
            i += 1;
        }
        assert(q@.take(q@.len() as int) =~= q@);
        self.queue = kept;
    }
}

impl Toast {
    /// A copy of this toast.
    pub fn clone_toast(&self) -> (r: Toast)
        ensures
            r == *self,
    {
        Toast { id: self.id.clone(), message: self.message.clone(), level: self.level }
    }
}

/// Posting never lets the queue grow past the cap, and the toast just
/// posted is always the newest one shown.
pub proof fn law_post_keeps_newest(queue: Seq<Toast>, toast: Toast)
    ensures
        capped(queue.push(toast)).len() <= MAX_VISIBLE_TOASTS,
        capped(queue.push(toast)).last() == toast,
{
}

/// After dismissing `id` no toast with that id is left, and every other
/// toast stays.
pub proof fn law_dismiss_removes_only_that_id(queue: Seq<Toast>, id: Seq<char>)
    ensures
        forall|i: int| 0 <= i < without_id(queue, id).len() ==> (#[trigger] without_id(queue, id)[i]).id@ != id,
        forall|t: Toast| queue.contains(t) && t.id@ != id ==> #[trigger] without_id(queue, id).contains(t),
    decreases queue.len(),
{
    if queue.len() > 0 {
        let rest = queue.drop_last();
        law_dismiss_removes_only_that_id(rest, id);
        let r = without_id(rest, id);
        let w = without_id(queue, id);
        assert forall|i: int| 0 <= i < w.len() implies (#[trigger] w[i]).id@ != id by {
            if i < r.len() {
                assert(w[i] == r[i]);
            }
        }
        assert forall|t: Toast| queue.contains(t) && t.id@ != id implies #[trigger] w.contains(t) by {
            let j = choose|j: int| 0 <= j < queue.len() && queue[j] == t;
            if j < rest.len() {
                assert(rest[j] == t);
                assert(r.contains(t));
                let k = choose|k: int| 0 <= k < r.len() && r[k] == t;
                assert(w[k] == t);
            } else {
                assert(w[w.len() - 1] == t);
            }
        }
    }
}

} // verus!
