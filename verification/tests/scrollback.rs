use notmux::scrollback::{
    capture_combined_raw, capture_raw, load_from_bytes, merge_existing_with_capture, parse_header, snapshot_key,
    tail_lines, MergeCapture,
};

const SNAPSHOT_FIXED_LEN: usize = 10;

fn contains(haystack: &[u8], needle: &[u8]) -> bool {
    haystack.windows(needle.len()).any(|w| w == needle)
}

#[test]
fn capture_raw_keeps_last_complete_lines() {
    let snapshot = capture_raw(b"one\r\ntwo\r\nthree\r\n", 80, 24, 2, None);
    assert_eq!(&snapshot[..4], b"VRN4");
    assert_eq!(&snapshot[SNAPSHOT_FIXED_LEN..], b"two\r\nthree\r\n");
}

#[test]
fn load_rejects_legacy_grid_snapshots() {
    assert!(load_from_bytes(b"VRNS\0P\0\x18\0\0legacy body").is_none());
}

#[test]
fn merge_existing_with_capture_keeps_last_n_lines_across_restarts() {
    let first = capture_raw(b"one\r\ntwo\r\nthree\r\n", 80, 24, 3, None);

    let second = merge_existing_with_capture(MergeCapture {
        stored: Some(&first),
        restored_replay_bytes: &[],
        replay_bytes: b"four\r\nfive\r\n",
        cols: 80,
        rows: 24,
        max_lines: 4,
        cwd: None,
    });

    let third = merge_existing_with_capture(MergeCapture {
        stored: Some(&second),
        restored_replay_bytes: &[],
        replay_bytes: b"six\r\n",
        cols: 80,
        rows: 24,
        max_lines: 4,
        cwd: None,
    });
    let (_, body_start) = parse_header(&third).unwrap();
    let body = &third[body_start..];

    assert!(!contains(body, b"one"), "oldest line should be trimmed");
    for expected in [b"three" as &[u8], b"four", b"five", b"six"] {
        assert!(contains(body, expected), "expected line missing: {:?}", String::from_utf8_lossy(expected));
    }
}

#[test]
fn capture_then_load_round_trips() {
    let snapshot = capture_raw(b"a\nb\nc\n", 120, 40, 10, Some("/home/me"));
    let loaded = load_from_bytes(&snapshot).unwrap();
    assert_eq!(loaded.original_cols, 120);
    assert_eq!(loaded.original_rows, 40);
    assert_eq!(loaded.cwd.as_deref(), Some("/home/me"));
    assert_eq!(loaded.bytes, b"a\nb\nc\n".to_vec());
}

#[test]
fn empty_cwd_reads_back_as_none() {
    let snapshot = capture_raw(b"x\n", 1, 2, 5, Some(""));
    assert_eq!(load_from_bytes(&snapshot).unwrap().cwd, None);
}

#[test]
fn capture_of_nothing_is_empty() {
    assert!(capture_raw(b"", 80, 24, 10, None).is_empty());
    assert!(capture_raw(b"abc\n", 80, 24, 0, None).is_empty());
}

#[test]
fn tail_lines_ignores_trailing_newlines() {
    assert_eq!(tail_lines(b"a\nb\nc\n\n\n", 2), b"b\nc\n\n\n".to_vec());
    assert_eq!(tail_lines(b"a\nb", 5), b"a\nb".to_vec());
    assert!(tail_lines(b"a\nb", 0).is_empty());
}

#[test]
fn combined_capture_inserts_line_break_between_blocks() {
    let snapshot = capture_combined_raw(b"old", b"new\n", 80, 24, 10, None);
    assert_eq!(&snapshot[SNAPSHOT_FIXED_LEN..], b"old\r\nnew\n");
    let kept = capture_combined_raw(b"old\n", b"new\n", 80, 24, 10, None);
    assert_eq!(&kept[SNAPSHOT_FIXED_LEN..], b"old\nnew\n");
}

#[test]
fn merge_without_stored_snapshot_starts_fresh() {
    let out = merge_existing_with_capture(MergeCapture {
        stored: None,
        restored_replay_bytes: b"restored\n",
        replay_bytes: b"new\n",
        cols: 80,
        rows: 24,
        max_lines: 10,
        cwd: Some("/w"),
    });
    let loaded = load_from_bytes(&out).unwrap();
    assert_eq!(loaded.bytes, b"restored\nnew\n".to_vec());
    assert_eq!(loaded.cwd.as_deref(), Some("/w"));
}

#[test]
fn snapshot_key_replaces_unsafe_characters() {
    assert_eq!(snapshot_key("proj/1:term a"), "proj_1_term_a");
    assert_eq!(snapshot_key("ok-id_2"), "ok-id_2");
}

#[test]
fn header_with_invalid_utf8_cwd_has_no_cwd() {
    let mut raw = b"VRN4\0\x50\0\x18\0\x02".to_vec();
    raw.extend_from_slice(&[0xff, 0xfe]);
    raw.extend_from_slice(b"body");
    let (meta, start) = parse_header(&raw).unwrap();
    assert_eq!(meta.cwd, None);
    assert_eq!(start, 12);
    assert_eq!(meta.original_cols, 80);
    assert_eq!(meta.original_rows, 24);
}
