//! The sidebar's visibility state: open, auto-hide, and shown-on-hover, and
//! the animation each change asks for. Widths and animation progress are
//! kept by the view.
use vstd::prelude::*;

verus! {

/// Where a sidebar animation should go.
#[derive(Clone, Copy, Debug, PartialEq, Eq, Structural)]
pub enum AnimationTarget {
    /// No animation.
    Stay,
    /// To fully open.
    Open,
    /// To fully closed.
    Close,
}

/// Requests the sidebar view handles.
#[derive(Clone, Debug)]
pub enum SidebarRequest {
    RenameProject { project_id: String, project_name: String },
    RenameFolder { folder_id: String, folder_name: String },
    QuickCreateWorktree { project_id: String },
}

/// Open/closed, auto-hide and hover state of the sidebar.
#[derive(Clone, Copy, Debug, PartialEq, Eq, Structural)]
pub struct SidebarVisibility {
    /// Open by the user's choice.
    pub open: bool,
    /// Auto-hide mode.
    pub auto_hide: bool,
    /// Shown for now because the mouse is over it (auto-hide mode).
    pub hover_shown: bool,
}

/// Length of the open and close animations, in milliseconds.
pub const ANIMATION_DURATION_MS: u64 = 150;

/// Time of one animation frame (about 60 frames a second), in milliseconds.
pub const FRAME_TIME_MS: u64 = 16;

/// Number of frames an open or close animation takes.
pub fn animation_steps() -> (n: usize)
    ensures
        n == ANIMATION_DURATION_MS / FRAME_TIME_MS,
{
    (ANIMATION_DURATION_MS / FRAME_TIME_MS) as usize
}

impl SidebarVisibility {
    pub fn is_open(&self) -> (r: bool)
        ensures
            r == self.open,
    {
        self.open
    }

    pub fn is_auto_hide(&self) -> (r: bool)
        ensures
            r == self.auto_hide,
    {
        self.auto_hide
    }

    pub fn is_hover_shown(&self) -> (r: bool)
        ensures
            r == self.hover_shown,
    {
        self.hover_shown
    }

    /// The state restored from settings.
    pub fn new(is_open: bool, auto_hide: bool) -> (s: Self)
        ensures
            s == (SidebarVisibility { open: is_open, auto_hide, hover_shown: false }),
    {
        SidebarVisibility { open: is_open, auto_hide, hover_shown: false }
    }

    /// Opens a closed sidebar or closes an open one; ends any hover showing.
    pub fn toggle(&mut self) -> (t: AnimationTarget)
        ensures
            *final(self) == toggled(*old(self)),
            t == (if final(self).open {
                AnimationTarget::Open
            } else {
                AnimationTarget::Close
            }),
    {
        self.open = !self.open;
        self.hover_shown = false;
        if self.open {
            AnimationTarget::Open
        } else {
            AnimationTarget::Close
        }
    }

    /// Switches auto-hide; turning it on closes an open sidebar.
    pub fn toggle_auto_hide(&mut self) -> (t: AnimationTarget)
        ensures
            final(self).auto_hide == !old(self).auto_hide,
            final(self).hover_shown == old(self).hover_shown,
            final(self).open == (old(self).open && !final(self).auto_hide),
            t == (if final(self).auto_hide && old(self).open {
                AnimationTarget::Close
            } else {
                AnimationTarget::Stay
            }),
    {
        self.auto_hide = !self.auto_hide;
        if self.auto_hide && self.open {
            self.open = false;
            AnimationTarget::Close
        } else {
            AnimationTarget::Stay
        }
    }

    /// In auto-hide mode, shows a closed sidebar while the mouse is over it.
    pub fn show_on_hover(&mut self) -> (t: AnimationTarget)
        ensures
            (*final(self), t) == after_hover(*old(self)),
    {
        if self.auto_hide && !self.open && !self.hover_shown {
            self.hover_shown = true;
            AnimationTarget::Open
        } else {
            AnimationTarget::Stay
        }
    }

    /// In auto-hide mode, hides a sidebar shown on hover once the mouse leaves.
    pub fn hide_on_leave(&mut self) -> (t: AnimationTarget)
        ensures
            (*final(self), t) == after_leave(*old(self)),
    {
        if self.auto_hide && self.hover_shown {
            self.hover_shown = false;
            AnimationTarget::Close
        } else {
            AnimationTarget::Stay
        }
    }
}

/// The state and animation after the mouse enters the sidebar's edge.
pub open spec fn after_hover(s: SidebarVisibility) -> (SidebarVisibility, AnimationTarget) {
    if s.auto_hide && !s.open && !s.hover_shown {
        (SidebarVisibility { hover_shown: true, ..s }, AnimationTarget::Open)
    } else {
        (s, AnimationTarget::Stay)
    }
}

/// The state and animation after the mouse leaves the sidebar.
pub open spec fn after_leave(s: SidebarVisibility) -> (SidebarVisibility, AnimationTarget) {
    if s.auto_hide && s.hover_shown {
        (SidebarVisibility { hover_shown: false, ..s }, AnimationTarget::Close)
    } else {
        (s, AnimationTarget::Stay)
    }
}

/// The state after a toggle.
pub open spec fn toggled(s: SidebarVisibility) -> SidebarVisibility {
    SidebarVisibility { open: !s.open, auto_hide: s.auto_hide, hover_shown: false }
}

/// Toggling twice restores whether the sidebar is open and leaves it not
/// shown on hover.
pub proof fn law_toggle_twice(s: SidebarVisibility)
    ensures
        toggled(toggled(s)) == (SidebarVisibility { open: s.open, auto_hide: s.auto_hide, hover_shown: false }),
{
}

/// In auto-hide mode, the mouse entering a hidden sidebar opens it and
/// leaving closes it again, back to the state before.
pub proof fn law_hover_then_leave(s: SidebarVisibility)
    requires
        s.auto_hide,
        !s.open,
        !s.hover_shown,
    ensures
        after_hover(s).1 == AnimationTarget::Open,
        after_leave(after_hover(s).0) == (s, AnimationTarget::Close),
{
}

} // verus!
