use notmux::diff::{DiffMode, DiffViewMode};

#[test]
fn view_mode_toggles() {
    assert_eq!(DiffViewMode::Unified.toggle(), DiffViewMode::SideBySide);
    assert_eq!(DiffViewMode::SideBySide.toggle(), DiffViewMode::Unified);
    assert_eq!(DiffViewMode::default(), DiffViewMode::Unified);
}

#[test]
fn diff_mode_labels() {
    assert_eq!(DiffMode::WorkingTree.display_name(), "Unstaged");
    assert_eq!(DiffMode::Staged.display_name(), "Staged");
    assert_eq!(DiffMode::Commit("abc1234def".to_string()).display_name(), "Commit abc1234");
    assert_eq!(DiffMode::Commit("abc".to_string()).display_name(), "Commit abc");
    assert_eq!(
        DiffMode::BranchCompare { base: "main".to_string(), head: "feature".to_string() }.display_name(),
        "main...feature"
    );
    assert_eq!(DiffMode::Commit("éééabc".to_string()).display_name(), "Commit éééa");
}

#[test]
fn diff_mode_toggle() {
    assert_eq!(DiffMode::WorkingTree.toggle(), DiffMode::Staged);
    assert_eq!(DiffMode::Staged.toggle(), DiffMode::WorkingTree);
    assert_eq!(DiffMode::Commit("x".to_string()).toggle(), DiffMode::WorkingTree);
    assert_eq!(DiffMode::default(), DiffMode::WorkingTree);
}
