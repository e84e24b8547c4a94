use notmux::toast::{Toast, ToastLevel, ToastManager, MAX_VISIBLE_TOASTS};

fn toast(id: &str) -> Toast {
    Toast { id: id.to_string(), message: format!("message {}", id), level: ToastLevel::Info }
}

fn ids(m: &ToastManager) -> Vec<String> {
    m.snapshot().iter().map(|t| t.id.clone()).collect()
}

#[test]
fn post_keeps_the_newest_five() {
    let mut m = ToastManager::new();
    for i in 0..7 {
        m.post(toast(&i.to_string()));
    }
    assert_eq!(MAX_VISIBLE_TOASTS, 5);
    assert_eq!(ids(&m), vec!["2", "3", "4", "5", "6"]);
}

#[test]
fn post_batch_appends_in_order_and_caps() {
    let mut m = ToastManager::new();
    m.post(toast("a"));
    m.post_batch(vec![toast("b"), toast("c"), toast("d"), toast("e"), toast("f")]);
    assert_eq!(ids(&m), vec!["b", "c", "d", "e", "f"]);
    m.post_batch(Vec::new());
    assert_eq!(ids(&m), vec!["b", "c", "d", "e", "f"]);
}

#[test]
fn dismiss_removes_by_id() {
    let mut m = ToastManager::new();
    m.post(toast("a"));
    m.post(toast("b"));
    m.post(Toast { id: "a".to_string(), message: "again".to_string(), level: ToastLevel::Error });
    m.dismiss("a");
    assert_eq!(ids(&m), vec!["b"]);
    m.dismiss("missing");
    assert_eq!(ids(&m), vec!["b"]);
}
