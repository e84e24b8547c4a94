use notmux::file_explorer::{
    dir_row_status, dir_rollup, icon_for_extension, row_decoration, ColorRole, DirStatus, FileStatus, RowDecoration,
};

fn files(v: &[(&str, bool)]) -> Vec<(String, bool)> {
    v.iter().map(|(p, a)| (p.to_string(), *a)).collect()
}

#[test]
fn modified_file_below_marks_directory_modified() {
    let f = files(&[("src/new.rs", true), ("src/lib.rs", false)]);
    assert_eq!(dir_rollup(&f, "src"), Some(DirStatus::Modified));
}

#[test]
fn only_added_files_mark_directory_added() {
    let f = files(&[("src/new.rs", true), ("docs/readme.md", false)]);
    assert_eq!(dir_rollup(&f, "src"), Some(DirStatus::Added));
}

#[test]
fn sibling_with_common_name_prefix_is_not_below() {
    let f = files(&[("srcx/lib.rs", false)]);
    assert_eq!(dir_rollup(&f, "src"), None);
}

#[test]
fn root_rolls_up_everything() {
    let f = files(&[("a.txt", true), ("deep/b.txt", false)]);
    assert_eq!(dir_rollup(&f, ""), Some(DirStatus::Modified));
    assert_eq!(dir_rollup(&files(&[("a.txt", true)]), ""), Some(DirStatus::Added));
    assert_eq!(dir_rollup(&Vec::new(), ""), None);
}

#[test]
fn every_file_uses_the_generic_icon() {
    assert_eq!(icon_for_extension("main.RS"), "icons/file.svg");
    assert_eq!(icon_for_extension("photo.png"), "icons/file.svg");
    assert_eq!(icon_for_extension("Makefile"), "icons/file.svg");
}

#[test]
fn file_rows_get_badges_in_their_color() {
    assert_eq!(
        row_decoration(Some(FileStatus::Untracked), false),
        RowDecoration { name_color: ColorRole::Success, badge: Some('U'), dot: None }
    );
    assert_eq!(
        row_decoration(Some(FileStatus::Deleted), false),
        RowDecoration { name_color: ColorRole::Error, badge: Some('D'), dot: None }
    );
    assert_eq!(
        row_decoration(Some(FileStatus::Conflict), false),
        RowDecoration { name_color: ColorRole::Error, badge: Some('!'), dot: None }
    );
    assert_eq!(
        row_decoration(Some(FileStatus::Other), false),
        RowDecoration { name_color: ColorRole::Yellow, badge: Some('M'), dot: None }
    );
    assert_eq!(
        row_decoration(None, false),
        RowDecoration { name_color: ColorRole::TextPrimary, badge: None, dot: None }
    );
}

#[test]
fn directory_rows_get_dots_not_badges() {
    assert_eq!(
        row_decoration(dir_row_status(Some(DirStatus::Modified)), true),
        RowDecoration { name_color: ColorRole::Yellow, badge: None, dot: Some(ColorRole::Yellow) }
    );
    assert_eq!(
        row_decoration(dir_row_status(Some(DirStatus::Added)), true),
        RowDecoration { name_color: ColorRole::Success, badge: None, dot: Some(ColorRole::Success) }
    );
    assert_eq!(
        row_decoration(Some(FileStatus::Other), true),
        RowDecoration { name_color: ColorRole::Yellow, badge: None, dot: None }
    );
    assert_eq!(row_decoration(dir_row_status(None), true).dot, None);
}
