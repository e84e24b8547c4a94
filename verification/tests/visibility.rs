use notmux::state::{FolderColor, FolderData, ProjectData, WorkspaceData, WorktreeMetadata};
use notmux::visibility::compute_visible_projects;

fn make_project(id: &str, visible: bool) -> ProjectData {
    ProjectData {
        id: id.to_string(),
        name: format!("Project {}", id),
        path: "/tmp/test".to_string(),
        show_in_overview: visible,
        worktree_info: None,
        worktree_ids: Vec::new(),
        folder_color: FolderColor::default(),
        is_remote: false,
        connection_id: None,
    }
}

fn make_wt(id: &str, parent: &str) -> ProjectData {
    let mut p = make_project(id, true);
    p.worktree_info = Some(WorktreeMetadata {
        parent_project_id: parent.to_string(),
        color_override: None,
        main_repo_path: "/tmp/repo".to_string(),
        worktree_path: format!("/tmp/{}", id),
        branch_name: format!("branch-{}", id),
    });
    p
}

fn make_data(projects: Vec<ProjectData>, order: Vec<&str>) -> WorkspaceData {
    WorkspaceData {
        version: 1,
        projects,
        project_order: order.into_iter().map(String::from).collect(),
        folders: Vec::new(),
    }
}

#[test]
fn filters_hidden_projects() {
    let data = make_data(
        vec![
            make_project("p1", true),
            make_project("p2", false),
            make_project("p3", true),
        ],
        vec!["p1", "p2", "p3"],
    );
    let visible = compute_visible_projects(&data, None, false, None);
    assert_eq!(visible.len(), 2);
    assert_eq!(visible[0].id, "p1");
    assert_eq!(visible[1].id, "p3");
}

#[test]
fn focused_project_shown_even_when_hidden() {
    let data = make_data(
        vec![
            make_project("p1", true),
            make_project("p2", true),
            make_project("p3", false),
        ],
        vec!["p1", "p2", "p3"],
    );
    let focused = "p3".to_string();
    let visible = compute_visible_projects(&data, Some(&focused), false, None);
    assert_eq!(visible.len(), 1);
    assert_eq!(visible[0].id, "p3");
}

#[test]
fn folder_expands_children() {
    let mut data = make_data(
        vec![make_project("p1", true), make_project("p2", true)],
        vec!["f1"],
    );
    data.folders.push(FolderData {
        id: "f1".to_string(),
        name: "Folder".to_string(),
        project_ids: vec!["p1".to_string(), "p2".to_string()],
        collapsed: false,
        folder_color: FolderColor::default(),
    });
    let visible = compute_visible_projects(&data, None, false, None);
    assert_eq!(visible.len(), 2);
}

#[test]
fn folder_filter_hides_top_level() {
    let mut data = make_data(
        vec![
            make_project("p1", true),
            make_project("p2", true),
            make_project("p3", true),
        ],
        vec!["f1", "p3"],
    );
    data.folders.push(FolderData {
        id: "f1".to_string(),
        name: "Folder".to_string(),
        project_ids: vec!["p1".to_string(), "p2".to_string()],
        collapsed: false,
        folder_color: FolderColor::default(),
    });
    let filter = "f1".to_string();
    let visible = compute_visible_projects(&data, None, false, Some(&filter));
    assert_eq!(visible.len(), 2);
    assert!(visible.iter().all(|p| p.id != "p3"));
}

#[test]
fn worktree_children_grouped_after_parent() {
    let mut parent = make_project("parent", true);
    parent.worktree_ids = vec!["wt1".to_string()];
    let wt1 = make_wt("wt1", "parent");
    let data = make_data(vec![parent, wt1], vec!["parent"]);
    let visible = compute_visible_projects(&data, None, false, None);
    assert_eq!(visible.len(), 2);
    assert_eq!(visible[0].id, "parent");
    assert_eq!(visible[1].id, "wt1");
}

#[test]
fn focus_worktree_shows_only_worktree() {
    let mut parent = make_project("parent", true);
    parent.worktree_ids = vec!["wt1".to_string()];
    let wt1 = make_wt("wt1", "parent");
    let data = make_data(vec![parent, wt1], vec!["parent"]);
    let focused = "wt1".to_string();
    let visible = compute_visible_projects(&data, Some(&focused), false, None);
    assert_eq!(visible.len(), 1);
    assert_eq!(visible[0].id, "wt1");
}

#[test]
fn focus_parent_individual_hides_worktrees() {
    let mut parent = make_project("parent", true);
    parent.worktree_ids = vec!["wt1".to_string()];
    let wt1 = make_wt("wt1", "parent");
    let data = make_data(vec![parent, wt1], vec!["parent"]);
    let focused = "parent".to_string();
    let visible = compute_visible_projects(&data, Some(&focused), true, None);
    assert_eq!(visible.len(), 1);
    assert_eq!(visible[0].id, "parent");
}

#[test]
fn orphan_worktree_shown_when_parent_hidden() {
    // Hidden parent without worktree_ids — the child still has worktree_info
    // pointing at it and lives in project_order as an independent entry.
    let parent = make_project("p1", false);
    let w1 = make_wt("w1", "p1");
    let data = make_data(vec![parent, w1], vec!["p1", "w1"]);
    let visible = compute_visible_projects(&data, None, false, None);
    assert_eq!(visible.len(), 1);
    assert_eq!(visible[0].id, "w1");
}
