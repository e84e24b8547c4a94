use notmux::sidebar_cursor::{GroupKind, ProjectRows, SidebarAction, SidebarCursorItem, SidebarNav};
use notmux::state::{FolderColor, FolderData, ProjectData, WorkspaceData, WorktreeMetadata};
use notmux::workspace::Workspace;

fn project(id: &str) -> ProjectData {
    ProjectData {
        id: id.to_string(),
        name: id.to_string(),
        path: format!("/tmp/{}", id),
        show_in_overview: true,
        worktree_info: None,
        worktree_ids: Vec::new(),
        folder_color: FolderColor::default(),
        is_remote: false,
        connection_id: None,
    }
}

fn worktree(id: &str, parent: &str) -> ProjectData {
    let mut p = project(id);
    p.worktree_info = Some(WorktreeMetadata {
        parent_project_id: parent.to_string(),
        color_override: None,
        main_repo_path: format!("/tmp/{}", parent),
        worktree_path: format!("/tmp/{}", id),
        branch_name: "b".to_string(),
    });
    p
}

fn data(projects: Vec<ProjectData>, order: Vec<&str>, folders: Vec<FolderData>) -> WorkspaceData {
    WorkspaceData {
        version: 1,
        projects,
        project_order: order.into_iter().map(String::from).collect(),
        folders,
    }
}

fn rows(pid: &str, terminals: Vec<&str>, services: Vec<&str>, hooks: Vec<&str>) -> ProjectRows {
    ProjectRows {
        project_id: pid.to_string(),
        terminal_ids: terminals.into_iter().map(String::from).collect(),
        service_names: services.into_iter().map(String::from).collect(),
        hook_terminal_ids: hooks.into_iter().map(String::from).collect(),
    }
}

fn describe(items: &[SidebarCursorItem]) -> Vec<String> {
    items
        .iter()
        .map(|i| match i {
            SidebarCursorItem::Folder { folder_id } => format!("folder {}", folder_id),
            SidebarCursorItem::Project { project_id } => format!("project {}", project_id),
            SidebarCursorItem::WorktreeProject { project_id } => format!("worktree {}", project_id),
            SidebarCursorItem::GroupHeader { project_id, group } => format!("group {} {}", project_id, group.label()),
            SidebarCursorItem::Terminal { project_id, terminal_id } => format!("terminal {} {}", project_id, terminal_id),
            SidebarCursorItem::Service { project_id, service_name } => format!("service {} {}", project_id, service_name),
            SidebarCursorItem::Hook { project_id, terminal_id } => format!("hook {} {}", project_id, terminal_id),
            SidebarCursorItem::RemoteConnection { connection_id } => format!("connection {}", connection_id),
            SidebarCursorItem::RemoteProject { connection_id, project_id } => {
                format!("remote {} {}", connection_id, project_id)
            }
        })
        .collect()
}

#[test]
fn collapsed_projects_show_one_row_each() {
    let d = data(vec![project("a"), project("b")], vec!["a", "b"], vec![]);
    let nav = SidebarNav::new();
    let items = nav.build_cursor_items(&d, &vec![rows("a", vec!["t1"], vec![], vec![])]);
    assert_eq!(describe(&items), vec!["project a", "project b"]);
}

#[test]
fn expanded_project_lists_its_groups() {
    let d = data(vec![project("a")], vec!["a"], vec![]);
    let mut nav = SidebarNav::new();
    nav.toggle_expanded(&"a".to_string());
    let r = vec![rows("a", vec!["t1", "t2"], vec!["web"], vec!["h1"])];
    let items = nav.build_cursor_items(&d, &r);
    assert_eq!(
        describe(&items),
        vec![
            "project a",
            "group a Terminals",
            "terminal a t1",
            "terminal a t2",
            "group a Services",
            "service a web",
            "group a Hooks",
            "hook a h1",
        ]
    );
    nav.toggle_group(&"a".to_string(), GroupKind::Terminals);
    let items = nav.build_cursor_items(&d, &r);
    assert_eq!(
        describe(&items),
        vec!["project a", "group a Terminals", "group a Services", "service a web", "group a Hooks", "hook a h1"]
    );
}

#[test]
fn worktree_parent_is_a_group_with_its_worktrees() {
    let mut parent = project("p");
    parent.worktree_ids = vec!["w1".to_string(), "gone".to_string()];
    let d = data(vec![parent, worktree("w1", "p")], vec!["p", "w1"], vec![]);
    let mut nav = SidebarNav::new();
    let items = nav.build_cursor_items(&d, &vec![]);
    assert_eq!(describe(&items), vec!["project p", "worktree p", "worktree w1"]);
    nav.toggle_worktrees_collapsed(&"p".to_string());
    let items = nav.build_cursor_items(&d, &vec![]);
    assert_eq!(describe(&items), vec!["project p"]);
}

#[test]
fn orphan_worktree_is_a_plain_row() {
    let d = data(vec![worktree("w1", "missing")], vec!["w1"], vec![]);
    let nav = SidebarNav::new();
    let items = nav.build_cursor_items(&d, &vec![]);
    assert_eq!(describe(&items), vec!["project w1"]);
}

#[test]
fn folders_list_their_projects_unless_collapsed() {
    let f = FolderData {
        id: "f".to_string(),
        name: "F".to_string(),
        project_ids: vec!["a".to_string(), "b".to_string()],
        collapsed: false,
        folder_color: FolderColor::default(),
    };
    let mut d = data(vec![project("a"), project("b"), project("c")], vec!["f", "c"], vec![f]);
    let nav = SidebarNav::new();
    assert_eq!(
        describe(&nav.build_cursor_items(&d, &vec![])),
        vec!["folder f", "project a", "project b", "project c"]
    );
    d.folders[0].collapsed = true;
    assert_eq!(describe(&nav.build_cursor_items(&d, &vec![])), vec!["folder f", "project c"]);
}

#[test]
fn cursor_moves_and_clamps() {
    let mut nav = SidebarNav::new();
    nav.cursor_up(3);
    assert_eq!(nav.cursor_index, Some(2));
    nav.cursor_down(3);
    assert_eq!(nav.cursor_index, Some(2));
    nav.cursor_up(3);
    nav.cursor_up(3);
    nav.cursor_up(3);
    assert_eq!(nav.cursor_index, Some(0));
    nav.clear_cursor();
    nav.cursor_down(3);
    assert_eq!(nav.cursor_index, Some(0));
    nav.cursor_down(0);
    assert_eq!(nav.cursor_index, Some(0));
    nav.cursor_index = Some(9);
    nav.validate_cursor(4);
    assert_eq!(nav.cursor_index, Some(3));
    nav.validate_cursor(0);
    assert_eq!(nav.cursor_index, None);
}

#[test]
fn activate_cursor_prefers_the_focused_project() {
    let d = data(vec![project("a"), project("b")], vec!["a", "b"], vec![]);
    let mut nav = SidebarNav::new();
    let items = nav.build_cursor_items(&d, &vec![]);
    let b = "b".to_string();
    nav.activate_cursor(&items, Some(&b));
    assert_eq!(nav.cursor_index, Some(1));
    let z = "z".to_string();
    nav.activate_cursor(&items, Some(&z));
    assert_eq!(nav.cursor_index, Some(0));
    nav.activate_cursor(&Vec::new(), Some(&b));
    assert_eq!(nav.cursor_index, None);
}

#[test]
fn confirm_focuses_projects_and_toggles_groups() {
    let mut parent = project("p");
    parent.worktree_ids = vec!["w".to_string()];
    let d = data(vec![parent, worktree("w", "p"), project("q")], vec!["p", "q"], vec![]);
    let ws = Workspace::new(d.clone());
    let mut nav = SidebarNav::new();
    let items = nav.build_cursor_items(&d, &vec![]);
    assert_eq!(describe(&items), vec!["project p", "worktree p", "worktree w", "project q"]);

    nav.cursor_index = Some(0);
    match nav.confirm(&ws, &items) {
        Some(SidebarAction::FocusProject { project_id, individual }) => {
            assert_eq!(project_id, "p");
            assert!(!individual);
        }
        _ => panic!("expected project focus"),
    }
    assert_eq!(nav.cursor_index, None);

    nav.cursor_index = Some(3);
    match nav.confirm(&ws, &items) {
        Some(SidebarAction::FocusProject { project_id, individual }) => {
            assert_eq!(project_id, "q");
            assert!(individual);
        }
        _ => panic!("expected individual focus"),
    }

    nav.cursor_index = Some(2);
    match nav.confirm(&ws, &items) {
        Some(SidebarAction::FocusProject { project_id, individual }) => {
            assert_eq!(project_id, "w");
            assert!(individual);
        }
        _ => panic!("expected worktree focus"),
    }

    let group_items = vec![SidebarCursorItem::GroupHeader { project_id: "q".to_string(), group: GroupKind::Services }];
    nav.cursor_index = Some(0);
    assert!(nav.confirm(&ws, &group_items).is_none());
    assert!(nav.is_group_collapsed(&"q".to_string(), GroupKind::Services));
    assert_eq!(nav.cursor_index, Some(0));

    nav.cursor_index = Some(7);
    assert!(nav.confirm(&ws, &items).is_none());
}

#[test]
fn toggle_expand_follows_the_row_kind() {
    let mut parent = project("p");
    parent.worktree_ids = vec!["w".to_string()];
    let d = data(vec![parent, worktree("w", "p"), project("q")], vec!["p", "q"], vec![]);
    let ws = Workspace::new(d.clone());
    let mut nav = SidebarNav::new();
    let items = nav.build_cursor_items(&d, &vec![]);

    nav.cursor_index = Some(0);
    assert!(nav.toggle_expand(&ws, &items).is_none());
    assert!(!nav.is_project_expanded(&"p".to_string(), true));

    nav.cursor_index = Some(3);
    assert!(nav.toggle_expand(&ws, &items).is_none());
    assert!(nav.is_project_expanded(&"q".to_string(), false));

    let folder_items = vec![SidebarCursorItem::Folder { folder_id: "f".to_string() }];
    nav.cursor_index = Some(0);
    match nav.toggle_expand(&ws, &folder_items) {
        Some(SidebarAction::ToggleFolder { folder_id }) => assert_eq!(folder_id, "f"),
        _ => panic!("expected folder toggle"),
    }
}
