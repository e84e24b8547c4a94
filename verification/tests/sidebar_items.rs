use notmux::sidebar_items::{sidebar_items, SidebarItem};
use notmux::state::{FolderColor, FolderData, ProjectData, WorkspaceData, WorktreeMetadata};

fn project(id: &str, color: FolderColor) -> ProjectData {
    ProjectData {
        id: id.to_string(),
        name: format!("Project {}", id),
        path: format!("/tmp/{}", id),
        show_in_overview: true,
        worktree_info: None,
        worktree_ids: Vec::new(),
        folder_color: color,
        is_remote: false,
        connection_id: None,
    }
}

fn worktree(id: &str, parent: &str) -> ProjectData {
    let mut p = project(id, FolderColor::Default);
    p.worktree_info = Some(WorktreeMetadata {
        parent_project_id: parent.to_string(),
        color_override: None,
        main_repo_path: "/repo".to_string(),
        worktree_path: format!("/repo/{}", id),
        branch_name: id.to_string(),
    });
    p
}

fn sample() -> WorkspaceData {
    let mut p = project("p", FolderColor::Blue);
    p.worktree_ids = vec!["w1".to_string(), "gone".to_string()];
    WorkspaceData {
        version: 1,
        projects: vec![p, worktree("w1", "p"), worktree("w2", "missing"), project("q", FolderColor::Red)],
        project_order: vec!["p".to_string(), "w1".to_string(), "w2".to_string(), "f".to_string()],
        folders: vec![FolderData {
            id: "f".to_string(),
            name: "Folder".to_string(),
            project_ids: vec!["q".to_string(), "nope".to_string()],
            collapsed: false,
            folder_color: FolderColor::Default,
        }],
    }
}

#[test]
fn worktrees_sit_under_their_parent_with_its_color() {
    let items = sidebar_items(
        &sample(),
        &vec!["w1".to_string()],
        &vec!["q".to_string()],
        vec![("p".to_string(), vec![1u32]), ("w1".to_string(), vec![2u32])],
    );
    assert_eq!(items.len(), 3);
    match &items[0] {
        SidebarItem::Project { project, index, worktree_children } => {
            assert_eq!(project.id, "p");
            assert_eq!(*index, 0);
            assert_eq!(project.worktree_count, 1);
            assert!(!project.is_orphan);
            assert_eq!(project.services, vec![1]);
            assert_eq!(worktree_children.len(), 1);
            assert_eq!(worktree_children[0].id, "w1");
            assert_eq!(worktree_children[0].folder_color, FolderColor::Blue);
            assert!(worktree_children[0].is_closing);
            assert_eq!(worktree_children[0].services, vec![2]);
            assert_eq!(worktree_children[0].parent_project_id, Some("p".to_string()));
        }
        _ => panic!("expected the parent project first"),
    }
    match &items[1] {
        SidebarItem::Project { project, index, worktree_children } => {
            assert_eq!(project.id, "w2");
            assert_eq!(*index, 2);
            assert!(project.is_orphan);
            assert!(project.is_worktree);
            assert_eq!(project.worktree_count, 0);
            assert!(worktree_children.is_empty());
        }
        _ => panic!("expected the orphan worktree"),
    }
    match &items[2] {
        SidebarItem::Folder { folder, index, projects, worktree_children } => {
            assert_eq!(folder.id, "f");
            assert_eq!(*index, 3);
            assert_eq!(projects.len(), 1);
            assert_eq!(projects[0].id, "q");
            assert!(projects[0].is_creating);
            assert!(!projects[0].is_closing);
            assert!(worktree_children.is_empty());
        }
        _ => panic!("expected the folder"),
    }
}

#[test]
fn services_go_to_the_first_row_of_a_project() {
    let mut d = sample();
    d.project_order.push("p".to_string());
    let items = sidebar_items(&d, &Vec::new(), &Vec::new(), vec![("p".to_string(), vec![7u8])]);
    assert_eq!(items.len(), 4);
    match (&items[0], &items[3]) {
        (
            SidebarItem::Project { project: first, worktree_children: c1, .. },
            SidebarItem::Project { project: again, worktree_children: c2, .. },
        ) => {
            assert_eq!(first.services, vec![7]);
            assert!(again.services.is_empty());
            assert_eq!(c1.len(), 1);
            assert!(c2.is_empty());
            assert_eq!(again.worktree_count, 0);
        }
        _ => panic!("expected two rows of p"),
    }
}
