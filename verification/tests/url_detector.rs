use notmux::url_detector::{
    file_open_command, resolve_path, strip_line_col_suffix, DetectedLink, FileOpen, LinkKind, UrlDetector,
};

fn link(line: i32, col: usize, len: usize, text: &str, is_url: bool, group: usize) -> DetectedLink {
    DetectedLink {
        line,
        col,
        len,
        text: text.to_string(),
        is_url,
        wrap_group: group,
        file_line: if is_url { None } else { Some(12) },
        file_col: None,
    }
}

fn detector() -> UrlDetector {
    let mut d = UrlDetector::new();
    let links = vec![
        link(0, 5, 10, "https://a.example", true, 0),
        link(1, 0, 4, "/tmp/x.rs:12", false, 1),
        link(2, 0, 6, "/nope", false, 2),
    ];
    d.set_links(&links, &vec![false, true, false]);
    d
}

#[test]
fn file_links_kept_only_when_they_exist() {
    let d = detector();
    let m = d.matches_arc();
    assert_eq!(m.len(), 2);
    assert_eq!(m[0].kind, LinkKind::Url);
    assert_eq!(m[1].kind, LinkKind::FilePath { line: Some(12), col: None });
    assert_eq!(m[1].url, "/tmp/x.rs:12");
}

#[test]
fn find_at_covers_the_link_cells() {
    let d = detector();
    assert!(d.find_at(4, 0).is_none());
    assert_eq!(d.find_at(5, 0).unwrap().url, "https://a.example");
    assert_eq!(d.find_at(14, 0).unwrap().url, "https://a.example");
    assert!(d.find_at(15, 0).is_none());
    assert!(d.find_at(5, 1).is_none());
    assert!(d.find_at(usize::MAX, 0).is_none());
}

#[test]
fn hover_reports_changes_only() {
    let mut d = detector();
    assert!(d.update_hover(6, 0));
    assert_eq!(d.hovered_group(), Some(0));
    assert!(!d.update_hover(7, 0));
    assert!(d.update_hover(0, 1));
    assert_eq!(d.hovered_group(), Some(1));
    assert!(d.clear_hover());
    assert!(!d.clear_hover());
    assert_eq!(d.hovered_group(), None);
}

#[test]
fn generation_gates_updates() {
    let mut d = UrlDetector::new();
    assert!(d.begin_update(1));
    assert!(!d.begin_update(1));
    assert!(d.begin_update(2));
}

#[test]
fn path_cache_remembers_and_evicts_when_full() {
    let mut d = UrlDetector::new();
    assert_eq!(d.path_exists_cached("/a"), None);
    d.record_path_exists("/a", true);
    assert_eq!(d.path_exists_cached("/a"), Some(true));
    for i in 0..199 {
        d.record_path_exists(&format!("/p{}", i), false);
    }
    assert_eq!(d.path_exists_cached("/a"), Some(true));
    d.record_path_exists("/b", false);
    assert_eq!(d.path_exists_cached("/a"), None);
    assert_eq!(d.path_exists_cached("/b"), Some(false));
}

#[test]
fn strips_line_and_column_suffixes() {
    assert_eq!(strip_line_col_suffix("src/main.rs:12:5"), "src/main.rs");
    assert_eq!(strip_line_col_suffix("src/main.rs:12"), "src/main.rs");
    assert_eq!(strip_line_col_suffix("src/main.rs"), "src/main.rs");
    assert_eq!(strip_line_col_suffix("a:b:12"), "a:b");
    assert_eq!(strip_line_col_suffix("C:\\x"), "C:\\x");
    assert_eq!(strip_line_col_suffix("file:"), "file:");
}

#[test]
fn editor_commands() {
    match file_open_command("src/a.rs:3:4", Some(3), Some(4), "code", None) {
        FileOpen::Editor { program, args } => {
            assert_eq!(program, "code");
            assert_eq!(args, vec!["--goto".to_string(), "src/a.rs:3:4".to_string()]);
        }
        other => panic!("unexpected {:?}", other),
    }
    match file_open_command("~/a.rs", Some(7), None, "nvim", Some("/home/u")) {
        FileOpen::Editor { program, args } => {
            assert_eq!(program, "nvim");
            assert_eq!(args, vec!["+7".to_string(), "/home/u/a.rs".to_string()]);
        }
        other => panic!("unexpected {:?}", other),
    }
    match file_open_command("b.rs", Some(2), Some(9), "sublime", None) {
        FileOpen::Editor { program, args } => {
            assert_eq!(program, "subl");
            assert_eq!(args, vec!["b.rs:2:9".to_string()]);
        }
        other => panic!("unexpected {:?}", other),
    }
    match file_open_command("b.rs", None, Some(9), "zed", None) {
        FileOpen::Editor { program, args } => {
            assert_eq!(program, "zed");
            assert_eq!(args, vec!["b.rs".to_string()]);
        }
        other => panic!("unexpected {:?}", other),
    }
    match file_open_command("~/x:10", Some(10), None, "", Some("/h")) {
        FileOpen::SystemDefault { path } => assert_eq!(path, "/h/x"),
        other => panic!("unexpected {:?}", other),
    }
}

#[test]
fn resolve_path_expands_home_and_relative_links() {
    assert_eq!(resolve_path("~/notes.md:3", "/work", Some("/home/u")), "/home/u/notes.md");
    assert_eq!(resolve_path("~/notes.md", "/work", None), "~/notes.md");
    assert_eq!(resolve_path("./src/lib.rs:10:2", "/work", Some("/home/u")), "/work/./src/lib.rs");
    assert_eq!(resolve_path("../x.txt", "/work/", None), "/work/../x.txt");
    assert_eq!(resolve_path("/etc/hosts:1", "/work", None), "/etc/hosts");
    assert_eq!(resolve_path("src/main.rs", "/work", None), "src/main.rs");
}
