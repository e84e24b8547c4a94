use notmux::scrollback::{project_snapshot_dir, snapshot_path};
use notmux::settings::get_settings_path;
use notmux::text::join_path;

#[test]
fn snapshot_dir_lives_under_the_project() {
    assert_eq!(project_snapshot_dir("/home/u/proj"), "/home/u/proj/.vryn/scrollback");
    assert_eq!(project_snapshot_dir("/home/u/proj/"), "/home/u/proj/.vryn/scrollback");
}

#[test]
fn snapshot_file_is_key_dot_snap() {
    assert_eq!(snapshot_path("/p/.vryn/scrollback", "term_1"), "/p/.vryn/scrollback/term_1.snap");
}

#[test]
fn settings_file_in_config_dir() {
    assert_eq!(get_settings_path("/home/u/.config/okena"), "/home/u/.config/okena/settings.json");
}

#[test]
fn join_adds_one_separator() {
    assert_eq!(join_path("", "a"), "a");
    assert_eq!(join_path("/", "a"), "/a");
    assert_eq!(join_path("x", "a/b"), "x/a/b");
}
