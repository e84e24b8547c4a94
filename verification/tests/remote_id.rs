use notmux::remote_id::{is_remote_terminal, make_prefixed_id, strip_prefix};

#[test]
fn make_prefixed_id_format() {
    assert_eq!(make_prefixed_id("conn-1", "term-a"), "remote:conn-1:term-a");
}

#[test]
fn strip_prefix_valid() {
    assert_eq!(strip_prefix("remote:conn-1:term-a", "conn-1"), "term-a");
}

#[test]
fn strip_prefix_no_match_returns_original() {
    assert_eq!(strip_prefix("remote:other:term-a", "conn-1"), "remote:other:term-a");
    assert_eq!(strip_prefix("plain-id", "conn-1"), "plain-id");
}

#[test]
fn is_remote_terminal_true_and_false() {
    assert!(is_remote_terminal("remote:conn-1:term-a", "conn-1"));
    assert!(!is_remote_terminal("remote:other:term-a", "conn-1"));
    assert!(!is_remote_terminal("plain-id", "conn-1"));
}

#[test]
fn prefixed_id_round_trips() {
    let id = make_prefixed_id("c", "t:1");
    assert!(is_remote_terminal(&id, "c"));
    assert_eq!(strip_prefix(&id, "c"), "t:1");
}
