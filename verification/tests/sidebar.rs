use notmux::sidebar::{AnimationTarget, SidebarVisibility};

#[test]
fn test_toggle() {
    let mut ctrl = SidebarVisibility::new(false, false);

    assert!(!ctrl.open);

    let target = ctrl.toggle();
    assert!(ctrl.open);
    assert_eq!(target, AnimationTarget::Open);

    let target = ctrl.toggle();
    assert!(!ctrl.open);
    assert_eq!(target, AnimationTarget::Close);
}

#[test]
fn test_auto_hide() {
    let mut ctrl = SidebarVisibility::new(true, false);

    // Enable auto-hide while open should close
    let target = ctrl.toggle_auto_hide();
    assert!(ctrl.auto_hide);
    assert!(!ctrl.open);
    assert_eq!(target, AnimationTarget::Close);
}

#[test]
fn test_hover_show_hide() {
    let mut ctrl = SidebarVisibility::new(false, true);

    let target = ctrl.show_on_hover();
    assert!(ctrl.hover_shown);
    assert_eq!(target, AnimationTarget::Open);

    let target = ctrl.hide_on_leave();
    assert!(!ctrl.hover_shown);
    assert_eq!(target, AnimationTarget::Close);
}

#[test]
fn hover_does_nothing_without_auto_hide() {
    let mut ctrl = SidebarVisibility::new(false, false);
    assert_eq!(ctrl.show_on_hover(), AnimationTarget::Stay);
    assert!(!ctrl.hover_shown);
    assert_eq!(ctrl.hide_on_leave(), AnimationTarget::Stay);
}

#[test]
fn disabling_auto_hide_keeps_closed() {
    let mut ctrl = SidebarVisibility::new(false, true);
    assert_eq!(ctrl.toggle_auto_hide(), AnimationTarget::Stay);
    assert!(!ctrl.auto_hide);
    assert!(!ctrl.open);
}

#[test]
fn animation_takes_nine_frames() {
    assert_eq!(notmux::sidebar::animation_steps(), 9);
}

#[test]
fn getters_report_the_state() {
    let mut s = SidebarVisibility::new(false, true);
    assert!(!s.is_open());
    assert!(s.is_auto_hide());
    assert!(!s.is_hover_shown());
    s.show_on_hover();
    assert!(s.is_hover_shown());
}
