use notmux::lifecycle::{PendingWorktreeClose, ProjectLifecycleTracker};

fn pending(project_id: &str, hook_terminal_id: &str) -> PendingWorktreeClose {
    PendingWorktreeClose {
        project_id: project_id.to_string(),
        hook_terminal_id: hook_terminal_id.to_string(),
        branch: "main".to_string(),
        main_repo_path: "/tmp/repo".to_string(),
    }
}

#[test]
fn creating_lifecycle() {
    let mut tracker = ProjectLifecycleTracker::new();
    assert!(!tracker.is_creating("p1"));
    tracker.mark_creating("p1");
    assert!(tracker.is_creating("p1"));
    tracker.finish_creating("p1");
    assert!(!tracker.is_creating("p1"));
}

#[test]
fn closing_lifecycle() {
    let mut tracker = ProjectLifecycleTracker::new();
    tracker.mark_closing("p1");
    assert!(tracker.is_closing("p1"));
    tracker.finish_closing("p1");
    assert!(!tracker.is_closing("p1"));
}

#[test]
fn worktree_removal_lifecycle() {
    let mut tracker = ProjectLifecycleTracker::new();
    tracker.mark_worktree_removing("/tmp/wt");
    assert!(tracker.is_worktree_removing("/tmp/wt"));
    tracker.finish_worktree_removing("/tmp/wt");
    assert!(!tracker.is_worktree_removing("/tmp/wt"));
}

#[test]
fn pending_close_marks_project_closing() {
    let mut tracker = ProjectLifecycleTracker::new();
    tracker.register_pending_close(pending("p1", "hook1"));
    assert!(tracker.is_closing("p1"));
}

#[test]
fn take_pending_close_removes_entry() {
    let mut tracker = ProjectLifecycleTracker::new();
    tracker.register_pending_close(pending("p1", "hook1"));
    let taken = tracker.take_pending_close("hook1");
    assert!(taken.is_some());
    assert!(tracker.take_pending_close("hook1").is_none());
    // closing state is not cleared by take (only by cancel)
    assert!(tracker.is_closing("p1"));
}

#[test]
fn cancel_pending_close_clears_closing() {
    let mut tracker = ProjectLifecycleTracker::new();
    tracker.register_pending_close(pending("p1", "hook1"));
    tracker.cancel_pending_close("hook1");
    assert!(!tracker.is_closing("p1"));
}

#[test]
fn marking_twice_then_finishing_once_clears() {
    let mut tracker = ProjectLifecycleTracker::new();
    tracker.mark_creating("p1");
    tracker.mark_creating("p1");
    tracker.finish_creating("p1");
    assert!(!tracker.is_creating("p1"));
}

#[test]
fn states_are_independent_per_project() {
    let mut tracker = ProjectLifecycleTracker::new();
    tracker.mark_creating("p1");
    tracker.mark_closing("p2");
    assert!(tracker.is_creating("p1"));
    assert!(!tracker.is_closing("p1"));
    assert!(tracker.is_closing("p2"));
    assert!(!tracker.is_creating("p2"));
}

#[test]
fn registering_again_replaces_pending_close() {
    let mut tracker = ProjectLifecycleTracker::new();
    tracker.register_pending_close(pending("p1", "hook1"));
    let mut second = pending("p2", "hook1");
    second.branch = "feature".to_string();
    tracker.register_pending_close(second);
    let taken = tracker.take_pending_close("hook1").unwrap();
    assert_eq!(taken.project_id, "p2");
    assert_eq!(taken.branch, "feature");
    assert!(tracker.take_pending_close("hook1").is_none());
}
