use notmux::state::{FolderColor, FolderData, ProjectData, WorkspaceData, WorktreeMetadata};
use notmux::workspace::Workspace;

fn make_project(id: &str, visible: bool) -> ProjectData {
    ProjectData {
        id: id.to_string(),
        name: format!("Project {}", id),
        path: "/tmp/test".to_string(),
        show_in_overview: visible,
        worktree_info: None,
        worktree_ids: Vec::new(),
        folder_color: FolderColor::default(),
        is_remote: false,
        connection_id: None,
    }
}

fn make_workspace_data(projects: Vec<ProjectData>, order: Vec<&str>) -> WorkspaceData {
    WorkspaceData {
        version: 1,
        projects,
        project_order: order.into_iter().map(String::from).collect(),
        folders: Vec::new(),
    }
}

#[test]
fn test_visible_projects_filters_hidden() {
    let data = make_workspace_data(
        vec![make_project("p1", true), make_project("p2", false), make_project("p3", true)],
        vec!["p1", "p2", "p3"],
    );
    let ws = Workspace::new(data);

    let visible = ws.visible_projects();
    assert_eq!(visible.len(), 2);
    assert_eq!(visible[0].id, "p1");
    assert_eq!(visible[1].id, "p3");
}

#[test]
fn test_visible_projects_with_focused_project() {
    let data = make_workspace_data(
        vec![make_project("p1", true), make_project("p2", true), make_project("p3", false)],
        vec!["p1", "p2", "p3"],
    );
    let mut ws = Workspace::new(data);

    ws.focus_manager.set_focused_project_id(Some("p3".to_string()));

    let visible = ws.visible_projects();
    assert_eq!(visible.len(), 1);
    assert_eq!(visible[0].id, "p3");
}

#[test]
fn test_visible_projects_with_folder() {
    let mut data = make_workspace_data(
        vec![make_project("p1", true), make_project("p2", true)],
        vec!["f1"],
    );
    data.folders = vec![FolderData {
        id: "f1".to_string(),
        name: "Folder".to_string(),
        project_ids: vec!["p1".to_string(), "p2".to_string()],
        collapsed: false,
        folder_color: FolderColor::default(),
    }];

    let ws = Workspace::new(data);

    let visible = ws.visible_projects();
    assert_eq!(visible.len(), 2);
    assert_eq!(visible[0].id, "p1");
    assert_eq!(visible[1].id, "p2");
}

#[test]
fn test_folder_for_project() {
    let mut data = make_workspace_data(
        vec![make_project("p1", true), make_project("p2", true)],
        vec!["f1", "p2"],
    );
    data.folders = vec![FolderData {
        id: "f1".to_string(),
        name: "Folder".to_string(),
        project_ids: vec!["p1".to_string()],
        collapsed: false,
        folder_color: FolderColor::default(),
    }];
    let ws = Workspace::new(data);

    assert_eq!(ws.folder_for_project("p1").unwrap().id, "f1");
    assert!(ws.folder_for_project("p2").is_none());
}

#[test]
fn test_visible_projects_with_folder_filter() {
    let mut data = make_workspace_data(
        vec![
            make_project("p1", true), make_project("p2", true),
            make_project("p3", true), make_project("p4", true),
            make_project("p5", true),
        ],
        vec!["f1", "f2", "p5"],
    );
    data.folders = vec![
        FolderData {
            id: "f1".to_string(),
            name: "Folder 1".to_string(),
            project_ids: vec!["p1".to_string(), "p2".to_string()],
            collapsed: false,
            folder_color: FolderColor::default(),
        },
        FolderData {
            id: "f2".to_string(),
            name: "Folder 2".to_string(),
            project_ids: vec!["p3".to_string(), "p4".to_string()],
            collapsed: false,
            folder_color: FolderColor::default(),
        },
    ];

    let mut ws = Workspace::new(data);

    assert_eq!(ws.visible_projects().len(), 5);

    ws.active_folder_filter = Some("f1".to_string());
    let visible = ws.visible_projects();
    assert_eq!(visible.len(), 2);
    assert_eq!(visible[0].id, "p1");
    assert_eq!(visible[1].id, "p2");

    ws.active_folder_filter = Some("f2".to_string());
    let visible = ws.visible_projects();
    assert_eq!(visible.len(), 2);
    assert_eq!(visible[0].id, "p3");
    assert_eq!(visible[1].id, "p4");
}

#[test]
fn test_folder_filter_hides_top_level_projects() {
    let mut data = make_workspace_data(
        vec![
            make_project("p1", true), make_project("p2", true),
            make_project("p3", true),
        ],
        vec!["f1", "p3"],
    );
    data.folders = vec![FolderData {
        id: "f1".to_string(),
        name: "Folder".to_string(),
        project_ids: vec!["p1".to_string(), "p2".to_string()],
        collapsed: false,
        folder_color: FolderColor::default(),
    }];

    let mut ws = Workspace::new(data);
    ws.active_folder_filter = Some("f1".to_string());

    let visible = ws.visible_projects();
    assert_eq!(visible.len(), 2);
    assert!(visible.iter().all(|p| p.id != "p3"));
}

#[test]
fn test_visible_projects_worktree_focus() {
    let mut p1 = make_project("p1", true);
    p1.worktree_ids = vec!["w1".to_string(), "w2".to_string()];
    let mut w1 = make_project("w1", true);
    w1.worktree_info = Some(WorktreeMetadata {
        parent_project_id: "p1".to_string(),
        color_override: None,
        main_repo_path: "/tmp/repo".to_string(),
        worktree_path: "/tmp/wt1".to_string(),
        branch_name: "branch-w1".to_string(),
    });
    let mut w2 = make_project("w2", true);
    w2.worktree_info = Some(WorktreeMetadata {
        parent_project_id: "p1".to_string(),
        color_override: None,
        main_repo_path: "/tmp/repo".to_string(),
        worktree_path: "/tmp/wt2".to_string(),
        branch_name: "branch-w2".to_string(),
    });

    let data = make_workspace_data(
        vec![p1, w1, w2, make_project("p2", true)],
        vec!["p1", "p2"],
    );
    let mut ws = Workspace::new(data);

    ws.focus_manager.set_focused_project_id(Some("p1".to_string()));
    let visible = ws.visible_projects();
    assert_eq!(visible.len(), 3);
    assert_eq!(visible[0].id, "p1");
    assert_eq!(visible[1].id, "w1");
    assert_eq!(visible[2].id, "w2");

    ws.focus_manager.set_focused_project_id(Some("w1".to_string()));
    let visible = ws.visible_projects();
    assert_eq!(visible.len(), 1);
    assert_eq!(visible[0].id, "w1");

    ws.focus_manager.set_focused_project_id(None);
    let visible = ws.visible_projects();
    assert_eq!(visible.len(), 4);
}

#[test]
fn test_folder_filter_includes_worktree_children() {
    let mut p1 = make_project("p1", true);
    p1.worktree_ids = vec!["w1".to_string(), "w2".to_string()];
    let mut w1 = make_project("w1", true);
    w1.worktree_info = Some(WorktreeMetadata {
        parent_project_id: "p1".to_string(),
        color_override: None,
        main_repo_path: "/tmp/repo".to_string(),
        worktree_path: "/tmp/wt1".to_string(),
        branch_name: "branch-w1".to_string(),
    });
    let mut w2 = make_project("w2", true);
    w2.worktree_info = Some(WorktreeMetadata {
        parent_project_id: "p1".to_string(),
        color_override: None,
        main_repo_path: "/tmp/repo".to_string(),
        worktree_path: "/tmp/wt2".to_string(),
        branch_name: "branch-w2".to_string(),
    });

    let mut data = make_workspace_data(
        vec![p1, w1, w2, make_project("p2", true)],
        vec!["f1", "p2"],
    );
    data.folders = vec![FolderData {
        id: "f1".to_string(),
        name: "Folder".to_string(),
        project_ids: vec!["p1".to_string()],
        collapsed: false,
        folder_color: FolderColor::default(),
    }];

    let mut ws = Workspace::new(data);

    assert_eq!(ws.visible_projects().len(), 4);

    ws.active_folder_filter = Some("f1".to_string());
    let visible = ws.visible_projects();
    assert_eq!(visible.len(), 3);
    assert_eq!(visible[0].id, "p1");
    assert_eq!(visible[1].id, "w1");
    assert_eq!(visible[2].id, "w2");
}

#[test]
fn test_folder_filter_worktree_children_not_duplicated() {
    let mut w1 = make_project("w1", true);
    w1.worktree_info = Some(WorktreeMetadata {
        parent_project_id: "p1".to_string(),
        color_override: None,
        main_repo_path: "/tmp/repo".to_string(),
        worktree_path: "/tmp/wt1".to_string(),
        branch_name: "branch-w1".to_string(),
    });

    let mut p1 = make_project("p1", true);
    p1.worktree_ids = vec!["w1".to_string()];

    let mut data = make_workspace_data(
        vec![p1, w1, make_project("p2", true)],
        vec!["f1", "w1", "p2"],
    );
    data.folders = vec![FolderData {
        id: "f1".to_string(),
        name: "Folder".to_string(),
        project_ids: vec!["p1".to_string()],
        collapsed: false,
        folder_color: FolderColor::default(),
    }];

    let mut ws = Workspace::new(data);
    ws.active_folder_filter = Some("f1".to_string());

    let visible = ws.visible_projects();
    assert_eq!(visible.len(), 2);
    assert_eq!(visible.iter().filter(|p| p.id == "w1").count(), 1);
}

#[test]
fn test_worktree_children_ordered_within_folder_section() {
    let mut w1 = make_project("w1", true);
    w1.worktree_info = Some(WorktreeMetadata {
        parent_project_id: "p1".to_string(),
        color_override: None,
        main_repo_path: "/tmp/repo".to_string(),
        worktree_path: "/tmp/wt1".to_string(),
        branch_name: "branch-w1".to_string(),
    });

    let mut p1 = make_project("p1", true);
    p1.worktree_ids = vec!["w1".to_string()];

    let mut data = make_workspace_data(
        vec![p1, make_project("p2", true), w1, make_project("p3", true)],
        vec!["f1", "w1", "f2", "p3"],
    );
    data.folders = vec![
        FolderData {
            id: "f1".to_string(),
            name: "Folder 1".to_string(),
            project_ids: vec!["p1".to_string()],
            collapsed: false,
            folder_color: FolderColor::default(),
        },
        FolderData {
            id: "f2".to_string(),
            name: "Folder 2".to_string(),
            project_ids: vec!["p2".to_string()],
            collapsed: false,
            folder_color: FolderColor::default(),
        },
    ];

    let ws = Workspace::new(data);
    let visible = ws.visible_projects();

    assert_eq!(visible.len(), 4);
    assert_eq!(visible[0].id, "p1");
    assert_eq!(visible[1].id, "w1");
    assert_eq!(visible[2].id, "p2");
    assert_eq!(visible[3].id, "p3");
}

#[test]
fn test_worktree_before_parent_folder_in_project_order() {
    let mut w1 = make_project("w1", true);
    w1.worktree_info = Some(WorktreeMetadata {
        parent_project_id: "p2".to_string(),
        color_override: None,
        main_repo_path: "/tmp/repo".to_string(),
        worktree_path: "/tmp/wt1".to_string(),
        branch_name: "branch-w1".to_string(),
    });

    let mut p2 = make_project("p2", false);
    p2.worktree_ids = vec!["w1".to_string()];

    let mut data = make_workspace_data(
        vec![make_project("p1", true), p2, w1],
        vec!["w1", "f1", "f2"],
    );
    data.folders = vec![
        FolderData {
            id: "f1".to_string(),
            name: "Folder 1".to_string(),
            project_ids: vec!["p1".to_string()],
            collapsed: false,
            folder_color: FolderColor::default(),
        },
        FolderData {
            id: "f2".to_string(),
            name: "Folder 2".to_string(),
            project_ids: vec!["p2".to_string()],
            collapsed: false,
            folder_color: FolderColor::default(),
        },
    ];

    let ws = Workspace::new(data);
    let visible = ws.visible_projects();

    assert_eq!(visible.len(), 2);
    assert_eq!(visible[0].id, "p1");
    assert_eq!(visible[1].id, "w1");
    assert_eq!(visible.iter().filter(|p| p.id == "w1").count(), 1);
}

#[test]
fn test_worktree_children_ordered_when_parent_hidden() {
    let mut w1 = make_project("w1", true);
    w1.worktree_info = Some(WorktreeMetadata {
        parent_project_id: "p1".to_string(),
        color_override: None,
        main_repo_path: "/tmp/repo".to_string(),
        worktree_path: "/tmp/wt1".to_string(),
        branch_name: "branch-w1".to_string(),
    });

    let mut p1 = make_project("p1", false);
    p1.worktree_ids = vec!["w1".to_string()];

    let mut data = make_workspace_data(
        vec![p1, make_project("p2", true), w1],
        vec!["f1", "w1", "f2"],
    );
    data.folders = vec![
        FolderData {
            id: "f1".to_string(),
            name: "Folder 1".to_string(),
            project_ids: vec!["p1".to_string()],
            collapsed: false,
            folder_color: FolderColor::default(),
        },
        FolderData {
            id: "f2".to_string(),
            name: "Folder 2".to_string(),
            project_ids: vec!["p2".to_string()],
            collapsed: false,
            folder_color: FolderColor::default(),
        },
    ];

    let ws = Workspace::new(data);
    let visible = ws.visible_projects();

    assert_eq!(visible.len(), 2);
    assert_eq!(visible[0].id, "w1");
    assert_eq!(visible[1].id, "p2");
}

#[test]
fn test_worktree_child_in_folder_not_duplicated() {
    let mut w1 = make_project("w1", true);
    w1.worktree_info = Some(WorktreeMetadata {
        parent_project_id: "p1".to_string(),
        color_override: None,
        main_repo_path: "/tmp/repo".to_string(),
        worktree_path: "/tmp/wt1".to_string(),
        branch_name: "branch-w1".to_string(),
    });

    let mut data = make_workspace_data(
        vec![make_project("p1", true), w1, make_project("p2", true)],
        vec!["f1", "f2"],
    );
    data.folders = vec![
        FolderData {
            id: "f1".to_string(),
            name: "Folder 1".to_string(),
            project_ids: vec!["p1".to_string(), "w1".to_string()],
            collapsed: false,
            folder_color: FolderColor::default(),
        },
        FolderData {
            id: "f2".to_string(),
            name: "Folder 2".to_string(),
            project_ids: vec!["p2".to_string()],
            collapsed: false,
            folder_color: FolderColor::default(),
        },
    ];

    let ws = Workspace::new(data);
    let visible = ws.visible_projects();

    assert_eq!(visible.len(), 3);
    assert_eq!(visible[0].id, "p1");
    assert_eq!(visible[1].id, "w1");
    assert_eq!(visible[2].id, "p2");
    assert_eq!(visible.iter().filter(|p| p.id == "w1").count(), 1);
}

#[test]
fn test_orphan_worktree_shown_when_parent_not_in_result() {
    let mut w1 = make_project("w1", true);
    w1.worktree_info = Some(WorktreeMetadata {
        parent_project_id: "p1".to_string(),
        color_override: None,
        main_repo_path: "/tmp/repo".to_string(),
        worktree_path: "/tmp/wt1".to_string(),
        branch_name: "branch-w1".to_string(),
    });

    let data = make_workspace_data(
        vec![make_project("p1", false), w1],
        vec!["p1", "w1"],
    );
    let ws = Workspace::new(data);

    let visible = ws.visible_projects();
    assert_eq!(visible.len(), 1);
    assert_eq!(visible[0].id, "w1");
}

#[test]
fn test_folder_filter_with_focus_override() {
    let mut data = make_workspace_data(
        vec![
            make_project("p1", true), make_project("p2", true),
            make_project("p3", true),
        ],
        vec!["f1", "p3"],
    );
    data.folders = vec![FolderData {
        id: "f1".to_string(),
        name: "Folder".to_string(),
        project_ids: vec!["p1".to_string(), "p2".to_string()],
        collapsed: false,
        folder_color: FolderColor::default(),
    }];

    let mut ws = Workspace::new(data);
    ws.active_folder_filter = Some("f1".to_string());

    ws.focus_manager.set_focused_project_id(Some("p3".to_string()));

    let visible = ws.visible_projects();
    assert_eq!(visible.len(), 1);
    assert_eq!(visible[0].id, "p3");
}

#[test]
fn test_visible_projects_includes_worktree_children() {
    let mut parent = make_project("parent", true);
    parent.worktree_ids = vec!["wt1".to_string(), "wt2".to_string()];
    let mut wt1 = make_project("wt1", true);
    wt1.worktree_info = Some(WorktreeMetadata {
        parent_project_id: "parent".to_string(),
        color_override: None,
        main_repo_path: "/tmp/repo".to_string(),
        worktree_path: "/tmp/wt1".to_string(),
        branch_name: String::new(),
    });
    let mut wt2 = make_project("wt2", true);
    wt2.worktree_info = Some(WorktreeMetadata {
        parent_project_id: "parent".to_string(),
        color_override: None,
        main_repo_path: "/tmp/repo".to_string(),
        worktree_path: "/tmp/wt2".to_string(),
        branch_name: String::new(),
    });
    let data = make_workspace_data(vec![parent, wt1, wt2], vec!["parent"]);
    let ws = Workspace::new(data);

    let visible = ws.visible_projects();
    assert_eq!(visible.len(), 3);
    assert_eq!(visible[0].id, "parent");
    assert_eq!(visible[1].id, "wt1");
    assert_eq!(visible[2].id, "wt2");
}

#[test]
fn test_visible_projects_worktree_children_in_folder() {
    let mut parent = make_project("parent", true);
    parent.worktree_ids = vec!["wt1".to_string()];
    let mut wt1 = make_project("wt1", true);
    wt1.worktree_info = Some(WorktreeMetadata {
        parent_project_id: "parent".to_string(),
        color_override: None,
        main_repo_path: "/tmp/repo".to_string(),
        worktree_path: "/tmp/wt1".to_string(),
        branch_name: String::new(),
    });
    let other = make_project("other", true);
    let mut data = make_workspace_data(vec![parent, wt1, other], vec!["f1", "other"]);
    data.folders = vec![FolderData {
        id: "f1".to_string(),
        name: "Folder".to_string(),
        project_ids: vec!["parent".to_string()],
        collapsed: false,
        folder_color: FolderColor::default(),
    }];
    let ws = Workspace::new(data);

    let visible = ws.visible_projects();
    assert_eq!(visible.len(), 3);
    assert_eq!(visible[0].id, "parent");
    assert_eq!(visible[1].id, "wt1");
    assert_eq!(visible[2].id, "other");
}

#[test]
fn test_focus_parent_shows_parent_and_worktrees() {
    let mut parent = make_project("parent", true);
    parent.worktree_ids = vec!["wt1".to_string(), "wt2".to_string()];
    let mut wt1 = make_project("wt1", true);
    wt1.worktree_info = Some(WorktreeMetadata {
        parent_project_id: "parent".to_string(),
        color_override: None,
        main_repo_path: "/tmp/repo".to_string(),
        worktree_path: "/tmp/wt1".to_string(),
        branch_name: String::new(),
    });
    let mut wt2 = make_project("wt2", true);
    wt2.worktree_info = Some(WorktreeMetadata {
        parent_project_id: "parent".to_string(),
        color_override: None,
        main_repo_path: "/tmp/repo".to_string(),
        worktree_path: "/tmp/wt2".to_string(),
        branch_name: String::new(),
    });
    let data = make_workspace_data(vec![parent, wt1, wt2], vec!["parent"]);
    let mut ws = Workspace::new(data);
    ws.focus_manager.set_focused_project_id(Some("parent".to_string()));

    let visible = ws.visible_projects();
    assert_eq!(visible.len(), 3);
    assert_eq!(visible[0].id, "parent");
    assert_eq!(visible[1].id, "wt1");
    assert_eq!(visible[2].id, "wt2");
}

#[test]
fn test_focus_worktree_shows_only_worktree() {
    let mut parent = make_project("parent", true);
    parent.worktree_ids = vec!["wt1".to_string(), "wt2".to_string()];
    let mut wt1 = make_project("wt1", true);
    wt1.worktree_info = Some(WorktreeMetadata {
        parent_project_id: "parent".to_string(),
        color_override: None,
        main_repo_path: "/tmp/repo".to_string(),
        worktree_path: "/tmp/wt1".to_string(),
        branch_name: String::new(),
    });
    let mut wt2 = make_project("wt2", true);
    wt2.worktree_info = Some(WorktreeMetadata {
        parent_project_id: "parent".to_string(),
        color_override: None,
        main_repo_path: "/tmp/repo".to_string(),
        worktree_path: "/tmp/wt2".to_string(),
        branch_name: String::new(),
    });
    let data = make_workspace_data(vec![parent, wt1, wt2], vec!["parent"]);
    let mut ws = Workspace::new(data);
    ws.focus_manager.set_focused_project_id(Some("wt1".to_string()));

    let visible = ws.visible_projects();
    assert_eq!(visible.len(), 1);
    assert_eq!(visible[0].id, "wt1");
}

#[test]
fn test_focus_parent_individual_shows_only_parent() {
    let mut parent = make_project("parent", true);
    parent.worktree_ids = vec!["wt1".to_string(), "wt2".to_string()];
    let mut wt1 = make_project("wt1", true);
    wt1.worktree_info = Some(WorktreeMetadata {
        parent_project_id: "parent".to_string(),
        color_override: None,
        main_repo_path: "/tmp/repo".to_string(),
        worktree_path: "/tmp/wt1".to_string(),
        branch_name: String::new(),
    });
    let mut wt2 = make_project("wt2", true);
    wt2.worktree_info = Some(WorktreeMetadata {
        parent_project_id: "parent".to_string(),
        color_override: None,
        main_repo_path: "/tmp/repo".to_string(),
        worktree_path: "/tmp/wt2".to_string(),
        branch_name: String::new(),
    });
    let data = make_workspace_data(vec![parent, wt1, wt2], vec!["parent"]);
    let mut ws = Workspace::new(data);

    ws.focus_manager.set_focused_project_id_individual(Some("parent".to_string()));
    let visible = ws.visible_projects();
    assert_eq!(visible.len(), 1);
    assert_eq!(visible[0].id, "parent");

    ws.focus_manager.set_focused_project_id(Some("parent".to_string()));
    let visible = ws.visible_projects();
    assert_eq!(visible.len(), 3);
}

#[test]
fn test_visible_projects_gpui() {
    let p1 = make_project("p1", false);
    let p2 = make_project("p2", true);
    let p3 = make_project("p3", false);
    let data = make_workspace_data(vec![p1, p2, p3], vec!["p1", "p2", "p3"]);
    let mut ws = Workspace::new(data);

    let visible = ws.visible_projects();
    assert_eq!(visible.len(), 1);
    assert_eq!(visible[0].id, "p2");

    ws.toggle_project_overview_visibility("p1");

    let visible = ws.visible_projects();
    assert_eq!(visible.len(), 2);
    assert_eq!(visible[0].id, "p1");
    assert_eq!(visible[1].id, "p2");
}

fn make_remote_project(id: &str, conn_id: &str) -> ProjectData {
    let mut p = make_project(id, true);
    p.is_remote = true;
    p.connection_id = Some(conn_id.to_string());
    p
}

#[test]
fn test_visible_projects_includes_remote_in_folders() {
    let local = make_project("local1", true);
    let mut remote1 = make_remote_project("remote:conn1:p1", "conn1");
    remote1.show_in_overview = true;
    let mut remote2 = make_remote_project("remote:conn1:p2", "conn1");
    remote2.show_in_overview = false;

    let mut data = make_workspace_data(vec![local, remote1, remote2], vec!["local1", "remote:conn1:folder1"]);
    data.folders.push(FolderData {
        id: "remote:conn1:folder1".to_string(),
        name: "Server 1".to_string(),
        project_ids: vec!["remote:conn1:p1".to_string(), "remote:conn1:p2".to_string()],
        collapsed: false,
        folder_color: FolderColor::default(),
    });

    let ws = Workspace::new(data);
    let visible = ws.visible_projects();
    assert_eq!(visible.len(), 2);
    assert_eq!(visible[0].id, "local1");
    assert_eq!(visible[1].id, "remote:conn1:p1");
}
