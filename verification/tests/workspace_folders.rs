use notmux::lifecycle::PendingWorktreeClose;
use notmux::state::{FolderColor, FolderData, ProjectData, WorkspaceData, WorktreeMetadata};
use notmux::workspace::Workspace;

fn make_project(id: &str) -> ProjectData {
    ProjectData {
        id: id.to_string(),
        name: format!("Project {}", id),
        path: format!("/tmp/{}", id),
        show_in_overview: true,
        worktree_info: None,
        worktree_ids: Vec::new(),
        folder_color: FolderColor::default(),
        is_remote: false,
        connection_id: None,
    }
}

fn make_workspace_data(projects: Vec<ProjectData>, order: Vec<&str>) -> WorkspaceData {
    WorkspaceData {
        version: 1,
        projects,
        project_order: order.into_iter().map(String::from).collect(),
        folders: vec![],
    }
}

fn folder(id: &str, name: &str, projects: Vec<&str>) -> FolderData {
    FolderData {
        id: id.to_string(),
        name: name.to_string(),
        project_ids: projects.into_iter().map(String::from).collect(),
        collapsed: false,
        folder_color: FolderColor::default(),
    }
}

#[test]
fn test_delete_folder_preserves_project_order_around_folder() {
    let mut data = make_workspace_data(
        vec![make_project("p1"), make_project("p2"), make_project("p3")],
        vec!["p1", "f1", "p3"],
    );
    data.folders = vec![folder("f1", "Folder", vec!["p2"])];
    let mut ws = Workspace::new(data);
    ws.delete_folder("f1");
    // p2 should be inserted where f1 was (between p1 and p3)
    assert_eq!(ws.data.project_order, vec!["p1", "p2", "p3"]);
    assert!(ws.data.folders.is_empty());
}

#[test]
fn test_move_project_to_folder_at_position() {
    let mut data = make_workspace_data(
        vec![make_project("p1"), make_project("p2"), make_project("p3")],
        vec!["f1", "p2", "p3"],
    );
    data.folders = vec![folder("f1", "Folder", vec!["p1"])];
    let mut ws = Workspace::new(data);
    // Move p2 to folder at position 0 (before p1)
    ws.move_project_to_folder("p2", "f1", Some(0));
    assert_eq!(ws.data.folders[0].project_ids, vec!["p2", "p1"]);
    assert!(!ws.data.project_order.contains(&"p2".to_string()));
}

#[test]
fn test_create_folder() {
    let mut ws = Workspace::new(make_workspace_data(vec![], vec![]));
    let folder_id = ws.create_folder("My Folder".to_string());
    assert_eq!(ws.data().folders.len(), 1);
    assert_eq!(ws.data().folders[0].name, "My Folder");
    assert_eq!(ws.data().folders[0].id, folder_id);
    assert_eq!(folder_id.len(), 36);
    assert!(ws.data().project_order.contains(&folder_id));
}

#[test]
fn test_delete_folder_splices_all_projects() {
    let mut data = make_workspace_data(vec![make_project("p1"), make_project("p2")], vec!["f1"]);
    data.folders = vec![folder("f1", "Folder", vec!["p1", "p2"])];
    let mut ws = Workspace::new(data);
    ws.delete_folder("f1");
    assert!(ws.data().folders.is_empty());
    assert_eq!(ws.data().project_order, vec!["p1", "p2"]);
}

#[test]
fn test_move_project_to_folder_appends_by_default() {
    let mut data = make_workspace_data(vec![make_project("p1"), make_project("p2")], vec!["f1", "p1", "p2"]);
    data.folders = vec![folder("f1", "Folder", vec![])];
    let mut ws = Workspace::new(data);
    ws.move_project_to_folder("p1", "f1", None);
    assert!(!ws.data().project_order.contains(&"p1".to_string()));
    assert_eq!(ws.data().folders[0].project_ids, vec!["p1".to_string()]);
}

#[test]
fn test_folder_filter_cleared_on_delete() {
    let mut data = make_workspace_data(vec![make_project("p1"), make_project("p2")], vec!["f1", "f2"]);
    data.folders = vec![folder("f1", "Folder 1", vec!["p1"]), folder("f2", "Folder 2", vec!["p2"])];
    let mut ws = Workspace::new(data);
    ws.set_folder_filter(Some("f1".to_string()));
    assert_eq!(ws.active_folder_filter(), Some(&"f1".to_string()));
    ws.delete_folder("f2");
    assert_eq!(ws.active_folder_filter(), Some(&"f1".to_string()));
    ws.delete_folder("f1");
    assert!(ws.active_folder_filter().is_none());
}

#[test]
fn test_rename_recolor_collapse() {
    let mut data = make_workspace_data(vec![], vec!["f1"]);
    data.folders = vec![folder("f1", "Old", vec![])];
    let mut ws = Workspace::new(data);
    ws.rename_folder("f1", "New".to_string());
    ws.set_folder_item_color("f1", FolderColor::Teal);
    ws.toggle_folder_collapsed("f1");
    assert_eq!(ws.data().folders[0].name, "New");
    assert_eq!(ws.data().folders[0].folder_color, FolderColor::Teal);
    assert!(ws.data().folders[0].collapsed);
    ws.rename_folder("missing", "X".to_string());
    assert_eq!(ws.data().folders[0].name, "New");
}

#[test]
fn test_move_project_out_and_reorder() {
    let mut data = make_workspace_data(
        vec![make_project("p1"), make_project("p2"), make_project("p3")],
        vec!["f1", "p3"],
    );
    data.folders = vec![folder("f1", "F", vec!["p1", "p2"])];
    let mut ws = Workspace::new(data);
    ws.reorder_project_in_folder("f1", "p1", 2);
    assert_eq!(ws.data().folders[0].project_ids, vec!["p2", "p1"]);
    ws.move_project_out_of_folder("p1", 99);
    assert_eq!(ws.data().project_order, vec!["f1", "p3", "p1"]);
    assert_eq!(ws.data().folders[0].project_ids, vec!["p2"]);
    ws.move_item_in_order("p1", 0);
    assert_eq!(ws.data().project_order, vec!["p1", "f1", "p3"]);
    ws.move_item_in_order("p1", 3);
    assert_eq!(ws.data().project_order, vec!["f1", "p3", "p1"]);
}

#[test]
fn test_folder_lookups_and_worktrees() {
    let mut wt = make_project("w1");
    wt.worktree_info = Some(WorktreeMetadata {
        parent_project_id: "p1".to_string(),
        color_override: None,
        main_repo_path: "/tmp/p1".to_string(),
        worktree_path: "/tmp/w1".to_string(),
        branch_name: "b".to_string(),
    });
    let mut p1 = make_project("p1");
    p1.folder_color = FolderColor::Red;
    let mut data = make_workspace_data(vec![p1, wt, make_project("p2")], vec!["f1", "p2"]);
    data.folders = vec![folder("f1", "F", vec!["p1"])];
    let ws = Workspace::new(data);
    assert_eq!(ws.folder_for_project("p1").unwrap().id, "f1");
    assert!(ws.folder_for_project("w1").is_none());
    assert_eq!(ws.folder_for_project_or_parent("w1").unwrap().id, "f1");
    assert!(ws.folder_for_project_or_parent("p2").is_none());
    assert_eq!(ws.worktree_child_ids("p1"), vec!["w1".to_string()]);
    assert_eq!(ws.worktree_parent_path("w1"), Some("/tmp/p1".to_string()));
    assert_eq!(ws.worktree_parent_path("p1"), None);
    let w = ws.project("w1").unwrap();
    assert_eq!(ws.effective_folder_color(w), FolderColor::Red);
    assert!(ws.is_folder("f1"));
    assert!(!ws.is_folder("p1"));
}

#[test]
fn test_remove_remote_projects() {
    let mut r1 = make_project("remote:c1:p1");
    r1.is_remote = true;
    let mut r2 = make_project("remote:c2:p1");
    r2.is_remote = true;
    let mut data = make_workspace_data(
        vec![make_project("local"), r1, r2],
        vec!["local", "remote:c1:f", "remote:c1:p1", "remote:c2:p1"],
    );
    data.folders = vec![folder("remote:c1:f", "Remote", vec!["remote:c1:p1"])];
    let mut ws = Workspace::new(data);
    ws.focus_manager.set_focused_project_id(Some("remote:c1:p1".to_string()));
    assert!(ws.is_remote_project("remote:c1:p1"));
    ws.remove_remote_projects("c1");
    assert_eq!(ws.data().projects.len(), 2);
    assert!(ws.data().folders.is_empty());
    assert_eq!(ws.data().project_order, vec!["local", "remote:c2:p1"]);
    assert!(ws.focused_project_id().is_none());
    assert!(!ws.is_remote_project("remote:c1:p1"));
}

#[test]
fn test_toggle_folder_focus() {
    let mut data = make_workspace_data(vec![make_project("p1")], vec!["f1"]);
    data.folders = vec![folder("f1", "F", vec!["p1"])];
    let mut ws = Workspace::new(data);
    ws.focus_manager.set_focused_project_id(Some("p1".to_string()));
    ws.toggle_folder_focus("f1");
    assert_eq!(ws.active_folder_filter(), Some(&"f1".to_string()));
    assert!(ws.focused_project_id().is_none());
    ws.toggle_folder_focus("f1");
    assert!(ws.active_folder_filter().is_none());
}

#[test]
fn test_replace_data_resets_focus() {
    let mut ws = Workspace::new(make_workspace_data(vec![make_project("p1")], vec!["p1"]));
    ws.focus_manager.set_focused_project_id(Some("p1".to_string()));
    ws.set_folder_filter(Some("f".to_string()));
    ws.replace_data(make_workspace_data(vec![make_project("p2")], vec!["p2"]));
    assert!(ws.focused_project_id().is_none());
    assert!(ws.active_folder_filter().is_none());
    assert_eq!(ws.visible_projects()[0].id, "p2");
}

#[test]
fn test_create_folder_gpui() {
    let data = make_workspace_data(vec![], vec![]);
    let mut ws = Workspace::new(data);
    let folder_id = ws.create_folder("My Folder".to_string());
    assert_eq!(ws.data().folders.len(), 1);
    assert_eq!(ws.data().folders[0].name, "My Folder");
    assert_eq!(ws.data().folders[0].id, folder_id);
    assert!(ws.data().project_order.contains(&folder_id));
}

#[test]
fn test_delete_folder_gpui() {
    let mut data = make_workspace_data(vec![make_project("p1"), make_project("p2")], vec!["f1"]);
    data.folders = vec![folder("f1", "Folder", vec!["p1", "p2"])];
    let mut ws = Workspace::new(data);
    ws.delete_folder("f1");
    assert!(ws.data().folders.is_empty());
    assert_eq!(ws.data().project_order, vec!["p1", "p2"]);
}

#[test]
fn test_move_project_to_folder_gpui() {
    let mut data = make_workspace_data(vec![make_project("p1"), make_project("p2")], vec!["f1", "p1", "p2"]);
    data.folders = vec![folder("f1", "Folder", vec![])];
    let mut ws = Workspace::new(data);
    ws.move_project_to_folder("p1", "f1", None);
    assert!(!ws.data().project_order.contains(&"p1".to_string()));
    assert_eq!(ws.data().folders[0].project_ids, vec!["p1".to_string()]);
}

#[test]
fn test_folder_filter_not_cleared_on_other_folder_delete() {
    let mut data = make_workspace_data(vec![make_project("p1"), make_project("p2")], vec!["f1", "f2"]);
    data.folders = vec![folder("f1", "Folder 1", vec!["p1"]), folder("f2", "Folder 2", vec!["p2"])];
    let mut ws = Workspace::new(data);
    ws.set_folder_filter(Some("f1".to_string()));
    ws.delete_folder("f2");
    assert_eq!(ws.active_folder_filter(), Some(&"f1".to_string()));
}

#[test]
fn data_version_counts_data_changes_only() {
    let mut data = make_workspace_data(vec![make_project("p1")], vec!["f1", "p1"]);
    data.folders = vec![folder("f1", "Folder", vec![])];
    let mut ws = Workspace::new(data);
    assert_eq!(ws.data_version(), 0);
    ws.rename_folder("f1", "Renamed".to_string());
    assert_eq!(ws.data_version(), 1);
    ws.rename_folder("missing", "x".to_string());
    assert_eq!(ws.data_version(), 1);
    ws.set_folder_filter(Some("f1".to_string()));
    ws.toggle_folder_focus("f1");
    assert_eq!(ws.data_version(), 1);
    ws.move_item_in_order("p1", 0);
    assert_eq!(ws.data_version(), 2);
    ws.move_item_in_order("nowhere", 0);
    assert_eq!(ws.data_version(), 2);
    ws.replace_data(make_workspace_data(vec![], vec![]));
    assert_eq!(ws.data_version(), 2);
    ws.create_folder("New".to_string());
    assert_eq!(ws.data_version(), 3);
    ws.notify_data();
    assert_eq!(ws.data_version(), 4);
}

#[test]
fn toggling_overview_visibility_flips_only_that_project() {
    let mut ws = Workspace::new(make_workspace_data(vec![make_project("p1"), make_project("p2")], vec!["p1", "p2"]));
    ws.toggle_project_overview_visibility("p1");
    assert!(!ws.project("p1").unwrap().show_in_overview);
    assert!(ws.project("p2").unwrap().show_in_overview);
    assert_eq!(ws.data_version(), 1);
    ws.toggle_project_overview_visibility("p1");
    assert!(ws.project("p1").unwrap().show_in_overview);
    ws.toggle_project_overview_visibility("nope");
    assert_eq!(ws.data_version(), 2);
}

#[test]
fn lifecycle_conveniences_track_creating_and_closing() {
    let mut ws = Workspace::new(make_workspace_data(vec![make_project("p1")], vec!["p1"]));
    ws.mark_creating_project("p1");
    assert!(ws.is_creating_project("p1"));
    ws.finish_creating_project("p1");
    assert!(!ws.is_creating_project("p1"));
    ws.register_pending_worktree_close(PendingWorktreeClose {
        project_id: "p1".to_string(),
        hook_terminal_id: "hook-1".to_string(),
        branch: "feature".to_string(),
        main_repo_path: "/repo".to_string(),
    });
    assert!(ws.is_project_closing("p1"));
    ws.cancel_pending_worktree_close("hook-1");
    assert!(!ws.is_project_closing("p1"));
    assert!(ws.take_pending_worktree_close("hook-1").is_none());
    ws.mark_worktree_removing("/repo/wt");
    ws.finish_worktree_removing("/repo/wt");
    assert_eq!(ws.data_version(), 0);
}

#[test]
fn pending_remote_focus_is_drained_once() {
    let mut ws = Workspace::new(make_workspace_data(vec![], vec![]));
    ws.queue_pending_remote_focus("remote:c:p1");
    ws.queue_pending_remote_focus("remote:c:p1");
    ws.queue_pending_remote_focus("remote:c:p2");
    let mut drained = ws.drain_pending_remote_focus();
    drained.sort();
    assert_eq!(drained, vec!["remote:c:p1", "remote:c:p2"]);
    assert!(ws.drain_pending_remote_focus().is_empty());
    assert_eq!(ws.projects().len(), 0);
}
