//! Queues of transient UI requests, handed from the view that raises them
//! to the view that shows them, first in first out.
use vstd::prelude::*;
use crate::sidebar::SidebarRequest;

verus! {

/// Pending overlay requests (of type `O`) and sidebar requests.
pub struct RequestBroker<O> {
    overlay_requests: Vec<O>,
    sidebar_requests: Vec<SidebarRequest>,
}

impl<O> RequestBroker<O> {
    /// The overlay requests waiting, oldest first.
    pub closed spec fn overlays(&self) -> Seq<O> {
        self.overlay_requests@
    }

    /// The sidebar requests waiting, oldest first.
    pub closed spec fn sidebars(&self) -> Seq<SidebarRequest> {
        self.sidebar_requests@
    }

    /// No request waits.
    pub fn new() -> (b: Self)
        ensures
            b.overlays() == Seq::<O>::empty(),
            b.sidebars() == Seq::<SidebarRequest>::empty(),
    {
        RequestBroker { overlay_requests: Vec::new(), sidebar_requests: Vec::new() }
    }

    /// Queues an overlay request behind the others.
    pub fn push_overlay_request(&mut self, request: O)
        ensures
            final(self).overlays() == old(self).overlays().push(request),
            final(self).sidebars() == old(self).sidebars(),
    {
        self.overlay_requests.push(request);
    }

    /// Queues a sidebar request behind the others.
    pub fn push_sidebar_request(&mut self, request: SidebarRequest)
        ensures
            final(self).sidebars() == old(self).sidebars().push(request),
            final(self).overlays() == old(self).overlays(),
    {
        self.sidebar_requests.push(request);
    }

    /// Hands out the overlay requests in the order they came and empties
    /// that queue.
    pub fn drain_overlay_requests(&mut self) -> (r: Vec<O>)
        ensures
            r@ == old(self).overlays(),
            final(self).overlays() == Seq::<O>::empty(),
            final(self).sidebars() == old(self).sidebars(),
    {
        let mut r: Vec<O> = Vec::new();
        std::mem::swap(&mut r, &mut self.overlay_requests);
        r
    }

    /// Hands out the sidebar requests in the order they came and empties
    /// that queue.
    pub fn drain_sidebar_requests(&mut self) -> (r: Vec<SidebarRequest>)
        ensures
            r@ == old(self).sidebars(),
            final(self).sidebars() == Seq::<SidebarRequest>::empty(),
            final(self).overlays() == old(self).overlays(),
    {
        let mut r: Vec<SidebarRequest> = Vec::new();
        std::mem::swap(&mut r, &mut self.sidebar_requests);
        r
    }

    pub fn has_overlay_requests(&self) -> (r: bool)
        ensures
            r == (self.overlays().len() > 0),
    {
        self.overlay_requests.len() > 0
    }

    pub fn has_sidebar_requests(&self) -> (r: bool)
        ensures
            r == (self.sidebars().len() > 0),
    {
        self.sidebar_requests.len() > 0
    }
}

} // verus!
