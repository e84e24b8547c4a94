use notmux::terminal_input::{file_drop_inputs, filter_input, shell_escape_path, InputChunk};

#[test]
fn empty_text_sends_nothing_and_keeps_resize_authority() {
    let p = filter_input("");
    assert!(!p.claim_resize);
    assert!(p.chunks.is_empty());
}

#[test]
fn plain_text_is_sent_whole() {
    let p = filter_input("ls -la");
    assert!(p.claim_resize);
    assert_eq!(p.chunks, vec![InputChunk::Text("ls -la".to_string())]);
}

#[test]
fn function_key_characters_are_dropped() {
    let p = filter_input("a\u{F700}b\u{F8FF}");
    assert!(p.claim_resize);
    assert_eq!(p.chunks, vec![InputChunk::Text("ab".to_string())]);
}

#[test]
fn only_function_keys_sends_nothing_but_claims_resize() {
    let p = filter_input("\u{F701}\u{F702}");
    assert!(p.claim_resize);
    assert!(p.chunks.is_empty());
}

#[test]
fn control_characters_go_out_one_by_one() {
    let p = filter_input("a\u{8}\nb\r");
    assert_eq!(
        p.chunks,
        vec![
            InputChunk::Text("a".to_string()),
            InputChunk::Bytes(vec![0x7f]),
            InputChunk::Bytes(vec![b'\r']),
            InputChunk::Text("b".to_string()),
            InputChunk::Bytes(vec![b'\r']),
        ]
    );
}

#[test]
fn multibyte_characters_stay_whole_on_the_slow_path() {
    let p = filter_input("é\n");
    assert_eq!(
        p.chunks,
        vec![InputChunk::Text("é".to_string()), InputChunk::Bytes(vec![b'\r'])]
    );
}

#[test]
fn escapes_spaces_and_shell_syntax_in_paths() {
    assert_eq!(shell_escape_path("/tmp/my file (1).txt"), "/tmp/my\\ file\\ \\(1\\).txt");
    assert_eq!(shell_escape_path("a$b&c|d;e"), "a\\$b\\&c\\|d\\;e");
    assert_eq!(shell_escape_path("it's \"x\""), "it\\'s\\ \\\"x\\\"");
    assert_eq!(shell_escape_path("back\\slash~#!?*<>[]{}`"), "back\\\\slash\\~\\#\\!\\?\\*\\<\\>\\[\\]\\{\\}\\`");
}

#[test]
fn plain_paths_are_unchanged() {
    assert_eq!(shell_escape_path("/usr/local/bin/tool-1.2_x"), "/usr/local/bin/tool-1.2_x");
    assert_eq!(shell_escape_path(""), "");
}

/// What a shell reads from an escaped word: a backslash makes the next
/// character literal.
fn unescape(s: &str) -> String {
    let mut out = String::new();
    let mut chars = s.chars();
    while let Some(c) = chars.next() {
        if c == '\\' {
            if let Some(n) = chars.next() {
                out.push(n);
                continue;
            }
        }
        out.push(c);
    }
    out
}

#[test]
fn escaping_round_trips_through_the_shell() {
    for p in ["/tmp/a b/(c)", "x\\y", "plain", "~/$HOME & more!"] {
        assert_eq!(unescape(&shell_escape_path(p)), p);
    }
}

#[test]
fn dropped_files_are_typed_escaped_with_a_trailing_space() {
    let paths = vec!["/tmp/a b.txt".to_string(), "/etc/hosts".to_string()];
    assert_eq!(file_drop_inputs(&paths), vec!["/tmp/a\\ b.txt ", "/etc/hosts "]);
}
