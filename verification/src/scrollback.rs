//! Scrollback snapshots: the tail of a terminal's PTY output, stored with a
//! small header so it can be replayed after a restart.
//!
//! Layout: `VRN4`, columns (u16 BE), rows (u16 BE), cwd length (u16 BE), the
//! cwd bytes, then the PTY bytes.
use vstd::prelude::*;
use vstd::utf8::{decode_utf8, encode_utf8, valid_utf8};
use crate::text::{chars_of, join_path, path_join, push_char, string_from_chars};

verus! {

broadcast use vstd::utf8::encode_utf8_valid_utf8, vstd::utf8::encode_utf8_decode_utf8;

/// The file-format magic `VRN4`.
pub open spec fn magic() -> Seq<u8> {
    seq![0x56u8, 0x52u8, 0x4eu8, 0x34u8]
}

/// Length of the fixed header: magic, cols, rows, cwd length.
pub const SNAPSHOT_FIXED_LEN: usize = 10;

/// The two big-endian bytes of `v`.
pub open spec fn be16(v: u16) -> Seq<u8> {
    seq![(v / 256) as u8, (v % 256) as u8]
}

/// The value of two big-endian bytes.
pub open spec fn from_be16(hi: u8, lo: u8) -> u16 {
    (hi as int * 256 + lo as int) as u16
}

/// The key character for `c`: ASCII letters, digits, `-` and `_` stay, all
/// else becomes `_`.
pub open spec fn key_char(c: char) -> char {
    if ('a' <= c <= 'z') || ('A' <= c <= 'Z') || ('0' <= c <= '9') || c == '-' || c == '_' {
        c
    } else {
        '_'
    }
}

/// Builds the snapshot file key from a stable terminal slot id.
pub fn snapshot_key(slot_id: &str) -> (r: String)
    ensures
        r@ == slot_id@.map_values(|c: char| key_char(c)),
{
    let v = chars_of(slot_id);
    let mut out = String::new();
    let mut i: usize = 0;
    while i < v.len()
        invariant
            i <= v.len(),
            out@ == v@.take(i as int).map_values(|c: char| key_char(c)),
        decreases v.len() - i,
    {
        let c = v[i];
        let k = if ('a' <= c && c <= 'z') || ('A' <= c && c <= 'Z') || ('0' <= c && c <= '9') || c == '-' || c
            == '_' {
            c
        } else {
            '_'
        };
        push_char(&mut out, k);
        assert(v@.take(i + 1).map_values(|c: char| key_char(c)) =~= v@.take(i as int).map_values(
            |c: char| key_char(c),
        ).push(key_char(c)));
        i += 1;
    }
    assert(v@.take(v.len() as int) =~= v@);
    out
}

/// Where a project keeps its scrollback snapshots, relative to its root.
pub open spec fn snapshot_dir_name() -> Seq<char> {
    seq!['.', 'v', 'r', 'y', 'n', '/', 's', 'c', 'r', 'o', 'l', 'l', 'b', 'a', 'c', 'k']
}

/// The snapshot directory of the project at `project_path`.
pub fn project_snapshot_dir(project_path: &str) -> (r: String)
    ensures
        r@ == path_join(project_path@, snapshot_dir_name()),
{
    let r = join_path(project_path, ".vryn/scrollback");
    proof {
        reveal_strlit(".vryn/scrollback");
        assert(".vryn/scrollback"@ =~= snapshot_dir_name());
    }
    r
}

/// The snapshot file of terminal key `key` inside snapshot directory `dir`.
pub fn snapshot_path(dir: &str, key: &str) -> (r: String)
    ensures
        r@ == path_join(dir@, key@ + seq!['.', 's', 'n', 'a', 'p']),
{
    let name = snapshot_file_name(key);
    join_path(dir, name.as_str())
}

/// The file name of a snapshot: `{key}.snap`.
pub fn snapshot_file_name(key: &str) -> (r: String)
    ensures
        r@ == key@ + seq!['.', 's', 'n', 'a', 'p'],
{
    let v = chars_of(key);
    let mut s = string_from_chars(&v);
    push_char(&mut s, '.');
    push_char(&mut s, 's');
    push_char(&mut s, 'n');
    push_char(&mut s, 'a');
    push_char(&mut s, 'p');
    assert(s@ =~= key@ + seq!['.', 's', 'n', 'a', 'p']);
    s
}

/// Number of trailing `\n` bytes of `b[..end]`.
pub open spec fn trailing_newlines(b: Seq<u8>, end: int) -> int
    decreases end,
{
    if end <= 0 || end > b.len() || b[end - 1] != 10u8 {
        0
    } else {
        1 + trailing_newlines(b, end - 1)
    }
}

/// Scanning `b[..k]` backwards having seen `seen` newlines: the suffix that
/// starts after the `max`-th newline, or all of `b` when there are fewer.
pub open spec fn tail_scan(b: Seq<u8>, max: int, k: int, seen: int) -> Seq<u8>
    decreases k,
{
    if k <= 0 {
        b
    } else if b[k - 1] == 10u8 && seen + 1 >= max {
        b.skip(k)
    } else {
        tail_scan(b, max, k - 1, if b[k - 1] == 10u8 { seen + 1 } else { seen })
    }
}

/// The last `max_lines` lines of `b` (trailing newlines do not count as lines).
pub open spec fn spec_tail_lines(b: Seq<u8>, max_lines: u32) -> Seq<u8> {
    if max_lines == 0 {
        seq![]
    } else {
        tail_scan(b, max_lines as int, b.len() - trailing_newlines(b, b.len() as int), 0)
    }
}

proof fn lemma_trailing_newlines(b: Seq<u8>, end: int)
    requires
        0 <= end <= b.len(),
    ensures
        0 <= trailing_newlines(b, end) <= end,
    decreases end,
{
    if end > 0 && b[end - 1] == 10u8 {
        lemma_trailing_newlines(b, end - 1);
    }
}

/// The last `max_lines` lines of `bytes`.
pub fn tail_lines(bytes: &[u8], max_lines: u32) -> (r: Vec<u8>)
    ensures
        r@ == spec_tail_lines(bytes@, max_lines),
{
    if max_lines == 0 {
        return Vec::new();
    }
    let mut scan_end = bytes.len();
    while scan_end > 0 && bytes[scan_end - 1] == 10u8
        invariant
            scan_end <= bytes@.len(),
            bytes@.len() - trailing_newlines(bytes@, bytes@.len() as int) == scan_end - trailing_newlines(bytes@, scan_end as int),
        decreases scan_end,
    {
        scan_end -= 1;
    }
    let mut k = scan_end;
    let mut seen: u32 = 0;
    while k > 0
        invariant
            k <= bytes@.len(),
            seen < max_lines,
            spec_tail_lines(bytes@, max_lines) == tail_scan(bytes@, max_lines as int, k as int, seen as int),
        decreases k,
    {
        if bytes[k - 1] == 10u8 {
            if seen + 1 >= max_lines {
                return copy_from(bytes, k);
            }
            seen = seen + 1;
        }
        k -= 1;
    }
    copy_from(bytes, 0)
}

/// `b[from..]` as a new vector.
fn copy_from(b: &[u8], from: usize) -> (r: Vec<u8>)
    requires
        from <= b@.len(),
    ensures
        r@ == b@.skip(from as int),
{
    let mut r: Vec<u8> = Vec::new();
    let mut i = from;
    while i < b.len()
        invariant
            from <= i <= b@.len(),
            r@ == b@.subrange(from as int, i as int),
        decreases b@.len() - i,
    {
        r.push(b[i]);
        assert(b@.subrange(from as int, i as int).push(b@[i as int]) =~= b@.subrange(from as int, i + 1));
        i += 1;
    }
    r
}

/// Appends all of `b` to `out`.
fn append_bytes(out: &mut Vec<u8>, b: &[u8])
    ensures
        final(out)@ == old(out)@ + b@,
{
    let ghost start = out@;
    let mut i: usize = 0;
    while i < b.len()
        invariant
            i <= b@.len(),
            out@ == start + b@.take(i as int),
        decreases b@.len() - i,
    {
        out.push(b[i]);
        assert(b@.take(i + 1) =~= b@.take(i as int).push(b@[i as int]));
        i += 1;
    }
    assert(b@.take(b@.len() as int) =~= b@);
}

/// The UTF-8 bytes of `s`.
pub fn utf8_bytes(s: &str) -> (r: &[u8])
    ensures
        r@ == encode_utf8(s@),
{
    s.as_bytes()
}

pub open spec fn opt_cwd_bytes(cwd: Option<&str>) -> Seq<u8> {
    match cwd {
        Some(s) => encode_utf8(s@),
        None => seq![],
    }
}

/// The stored cwd: its UTF-8 bytes, cut at 65535 bytes.
pub open spec fn stored_cwd(cwd: Option<&str>) -> Seq<u8> {
    let b = opt_cwd_bytes(cwd);
    if b.len() > 65535 {
        b.take(65535)
    } else {
        b
    }
}

/// A snapshot built from `replay` bytes: empty when nothing is kept,
/// otherwise the header and the last `max_lines` lines.
pub open spec fn spec_capture_raw(replay: Seq<u8>, cols: u16, rows: u16, max_lines: u32, cwd: Option<&str>) -> Seq<u8> {
    let body = spec_tail_lines(replay, max_lines);
    if max_lines == 0 || replay.len() == 0 || body.len() == 0 {
        seq![]
    } else {
        let c = stored_cwd(cwd);
        magic() + be16(cols) + be16(rows) + be16(c.len() as u16) + c + body
    }
}

fn push_be16(out: &mut Vec<u8>, v: u16)
    ensures
        final(out)@ == old(out)@ + be16(v),
{
    out.push((v / 256) as u8);
    out.push((v % 256) as u8);
    assert(final(out)@ =~= old(out)@ + be16(v));
}

/// Builds a snapshot from raw PTY replay bytes.
pub fn capture_raw(replay_bytes: &[u8], cols: u16, rows: u16, max_lines: u32, cwd: Option<&str>) -> (r: Vec<u8>)
    ensures
        r@ == spec_capture_raw(replay_bytes@, cols, rows, max_lines, cwd),
{
    if max_lines == 0 || replay_bytes.len() == 0 {
        return Vec::new();
    }
    let body = tail_lines(replay_bytes, max_lines);
    if body.len() == 0 {
        return Vec::new();
    }
    let cwd_all: &[u8] = match cwd {
        Some(s) => utf8_bytes(s),
        None => {
            let e: &[u8] = &[];
            assert(e@ =~= seq![]);
            e
        },
    };
    let cl: usize = if cwd_all.len() > 65535 {
        65535
    } else {
        cwd_all.len()
    };
    let mut out: Vec<u8> = Vec::new();
    out.push(0x56u8);
    out.push(0x52u8);
    out.push(0x4eu8);
    out.push(0x34u8);
    assert(out@ =~= magic());
    push_be16(&mut out, cols);
    push_be16(&mut out, rows);
    push_be16(&mut out, cl as u16);
    let ghost head = out@;
    let mut i: usize = 0;
    while i < cl
        invariant
            i <= cl <= cwd_all@.len(),
            out@ == head + cwd_all@.take(i as int),
        decreases cl - i,
    {
        out.push(cwd_all[i]);
        assert(cwd_all@.take(i + 1) =~= cwd_all@.take(i as int).push(cwd_all@[i as int]));
        i += 1;
    }
    assert(cwd_all@.take(cl as int) =~= stored_cwd(cwd));
    append_bytes(&mut out, body.as_slice());
    out
}

/// Whether `out` already ends a line (or is empty).
pub open spec fn at_line_boundary(out: Seq<u8>) -> bool {
    out.len() == 0 || out.last() == 10u8 || out.last() == 13u8
}

/// Ends the current line with `\r\n` unless `out` is empty or already ends one.
pub fn append_line_boundary(out: &mut Vec<u8>)
    ensures
        at_line_boundary(old(out)@) ==> final(out)@ == old(out)@,
        !at_line_boundary(old(out)@) ==> final(out)@ == old(out)@ + seq![13u8, 10u8],
{
    let n = out.len();
    if n == 0 || out[n - 1] == 10u8 || out[n - 1] == 13u8 {
        return;
    }
    out.push(13u8);
    out.push(10u8);
    assert(final(out)@ =~= old(out)@ + seq![13u8, 10u8]);
}

/// Previous and new replay bytes joined at a line boundary.
pub open spec fn joined(prev: Seq<u8>, new: Seq<u8>) -> Seq<u8> {
    if at_line_boundary(prev) {
        prev + new
    } else {
        prev + seq![13u8, 10u8] + new
    }
}

/// A snapshot of the previous replay bytes followed by the new ones; the
/// line limit applies to the combined stream.
pub open spec fn spec_capture_combined(prev: Seq<u8>, new: Seq<u8>, cols: u16, rows: u16, max_lines: u32, cwd: Option<&str>) -> Seq<u8> {
    if prev.len() == 0 {
        spec_capture_raw(new, cols, rows, max_lines, cwd)
    } else if new.len() == 0 {
        spec_capture_raw(prev, cols, rows, max_lines, cwd)
    } else {
        spec_capture_raw(joined(prev, new), cols, rows, max_lines, cwd)
    }
}

/// Builds a snapshot from already-persisted replay bytes plus new ones.
pub fn capture_combined_raw(
    previous_replay_bytes: &[u8],
    new_replay_bytes: &[u8],
    cols: u16,
    rows: u16,
    max_lines: u32,
    cwd: Option<&str>,
) -> (r: Vec<u8>)
    ensures
        r@ == spec_capture_combined(previous_replay_bytes@, new_replay_bytes@, cols, rows, max_lines, cwd),
{
    if previous_replay_bytes.len() == 0 {
        return capture_raw(new_replay_bytes, cols, rows, max_lines, cwd);
    }
    if new_replay_bytes.len() == 0 {
        return capture_raw(previous_replay_bytes, cols, rows, max_lines, cwd);
    }
    let mut combined: Vec<u8> = Vec::new();
    append_bytes(&mut combined, previous_replay_bytes);
    append_line_boundary(&mut combined);
    append_bytes(&mut combined, new_replay_bytes);
    assert(combined@ =~= joined(previous_replay_bytes@, new_replay_bytes@));
    capture_raw(combined.as_slice(), cols, rows, max_lines, cwd)
}

/// Decodes bytes as UTF-8.
///
/// Wraps `std::str::from_utf8`, which accepts exactly the valid UTF-8 byte
/// sequences and then yields the text they encode.
#[verifier::external_body]
fn utf8_to_string(bytes: &[u8]) -> (r: Option<String>)
    ensures
        r is Some <==> valid_utf8(bytes@),
        r matches Some(s) ==> s@ == decode_utf8(bytes@),
{
    match std::str::from_utf8(bytes) {
        Ok(s) => Some(s.to_string()),
        Err(_) => None,
    }
}

/// Header-only metadata of a snapshot.
#[derive(Debug)]
pub struct SnapshotMeta {
    pub original_cols: u16,
    pub original_rows: u16,
    pub cwd: Option<String>,
}

/// A loaded snapshot: its metadata and the bytes to replay.
#[derive(Debug)]
pub struct LoadedSnapshot {
    pub original_cols: u16,
    pub original_rows: u16,
    pub cwd: Option<String>,
    pub bytes: Vec<u8>,
}

/// Whether `raw` carries a complete header.
pub open spec fn header_ok(raw: Seq<u8>) -> bool {
    raw.len() >= 10 && raw.take(4) == magic() && raw.len() >= 10 + from_be16(raw[8], raw[9])
}

/// Where the body of a well-formed snapshot starts.
pub open spec fn body_start(raw: Seq<u8>) -> int {
    10 + from_be16(raw[8], raw[9])
}

/// The cwd a header records: `None` when empty or not valid UTF-8.
pub open spec fn header_cwd(raw: Seq<u8>) -> Option<Seq<char>> {
    let c = raw.subrange(10, body_start(raw));
    if c.len() == 0 || !valid_utf8(c) {
        None
    } else {
        Some(decode_utf8(c))
    }
}

pub open spec fn opt_string_view(o: Option<String>) -> Option<Seq<char>> {
    match o {
        Some(s) => Some(s@),
        None => None,
    }
}

/// Parses the header: metadata and the position where the body starts.
pub fn parse_header(raw: &[u8]) -> (r: Option<(SnapshotMeta, usize)>)
    ensures
        r is Some <==> header_ok(raw@),
        r matches Some((meta, start)) ==> start == body_start(raw@) && meta.original_cols == from_be16(raw@[4], raw@[5])
            && meta.original_rows == from_be16(raw@[6], raw@[7]) && opt_string_view(meta.cwd) == header_cwd(raw@),
{
    if raw.len() < SNAPSHOT_FIXED_LEN || raw[0] != 0x56u8 || raw[1] != 0x52u8 || raw[2] != 0x4eu8 || raw[3] != 0x34u8 {
        proof {
            if raw@.len() >= 10 && raw@.take(4) == magic() {
                assert(raw@.take(4)[0] == raw@[0]);
                assert(raw@.take(4)[1] == raw@[1]);
                assert(raw@.take(4)[2] == raw@[2]);
                assert(raw@.take(4)[3] == raw@[3]);
            }
        }
        return None;
    }
    assert(raw@.take(4) =~= magic());
    let original_cols = (raw[4] as u16) * 256 + raw[5] as u16;
    let original_rows = (raw[6] as u16) * 256 + raw[7] as u16;
    let cwd_len = ((raw[8] as u16) * 256 + raw[9] as u16) as usize;
    let start = SNAPSHOT_FIXED_LEN + cwd_len;
    if raw.len() < start {
        return None;
    }
    let cwd = if cwd_len == 0 {
        None
    } else {
        let mut c: Vec<u8> = Vec::new();
        let mut i: usize = SNAPSHOT_FIXED_LEN;
        while i < start
            invariant
                10 <= i <= start <= raw@.len(),
                c@ == raw@.subrange(10, i as int),
            decreases start - i,
        {
            c.push(raw[i]);
            assert(raw@.subrange(10, i as int).push(raw@[i as int]) =~= raw@.subrange(10, i + 1));
            i += 1;
        }
        utf8_to_string(c.as_slice())
    };
    Some((SnapshotMeta { original_cols, original_rows, cwd }, start))
}

/// Reads a snapshot from its bytes: `None` for a bad header or an empty body.
pub fn load_from_bytes(raw: &[u8]) -> (r: Option<LoadedSnapshot>)
    ensures
        r is Some <==> header_ok(raw@) && raw@.len() > body_start(raw@),
        r matches Some(s) ==> s.bytes@ == raw@.skip(body_start(raw@)) && s.original_cols == from_be16(raw@[4], raw@[5])
            && s.original_rows == from_be16(raw@[6], raw@[7]) && opt_string_view(s.cwd) == header_cwd(raw@),
{
    let (meta, start) = match parse_header(raw) {
        Some(x) => x,
        None => {
            return None;
        },
    };
    let bytes = copy_from(raw, start);
    if bytes.len() == 0 {
        return None;
    }
    Some(LoadedSnapshot {
        original_cols: meta.original_cols,
        original_rows: meta.original_rows,
        cwd: meta.cwd,
        bytes,
    })
}

/// The replay body of a snapshot's bytes, or nothing when it does not load.
pub open spec fn loaded_body(raw: Seq<u8>) -> Seq<u8> {
    if header_ok(raw) && raw.len() > body_start(raw) {
        raw.skip(body_start(raw))
    } else {
        seq![]
    }
}

/// The new snapshot made from the stored snapshot file's bytes (`stored`,
/// absent when there is no file), bytes restored into the terminal at start,
/// and newly captured bytes: the restored stream is appended to the stored
/// body without a cwd, then the new capture is appended to that result.
pub open spec fn spec_merge(
    stored: Option<Seq<u8>>,
    restored: Seq<u8>,
    replay: Seq<u8>,
    cols: u16,
    rows: u16,
    max_lines: u32,
    cwd: Option<&str>,
) -> Seq<u8> {
    if max_lines == 0 {
        seq![]
    } else {
        let previous = match stored {
            Some(raw) => loaded_body(raw),
            None => seq![],
        };
        let first = spec_capture_combined(previous, restored, cols, rows, max_lines, None);
        spec_capture_combined(loaded_body(first), replay, cols, rows, max_lines, cwd)
    }
}

/// What a merge of new output into a stored snapshot works from. `stored`
/// holds the bytes of the snapshot file as read from disk, if there is one.
pub struct MergeCapture<'a> {
    pub stored: Option<&'a [u8]>,
    pub restored_replay_bytes: &'a [u8],
    pub replay_bytes: &'a [u8],
    pub cols: u16,
    pub rows: u16,
    pub max_lines: u32,
    pub cwd: Option<&'a str>,
}

pub open spec fn opt_bytes(b: Option<&[u8]>) -> Option<Seq<u8>> {
    match b {
        Some(x) => Some(x@),
        None => None,
    }
}

/// Appends newly captured output to the stored snapshot body, keeping the
/// last `max_lines` lines of the combined stream.
pub fn merge_existing_with_capture(input: MergeCapture<'_>) -> (r: Vec<u8>)
    ensures
        r@ == spec_merge(
            opt_bytes(input.stored),
            input.restored_replay_bytes@,
            input.replay_bytes@,
            input.cols,
            input.rows,
            input.max_lines,
            input.cwd,
        ),
{
    if input.max_lines == 0 {
        return Vec::new();
    }
    let previous = match input.stored {
        Some(raw) => match load_from_bytes(raw) {
            Some(snapshot) => snapshot.bytes,
            None => Vec::new(),
        },
        None => Vec::new(),
    };
    proof {
        match input.stored {
            Some(raw) => assert(previous@ =~= loaded_body(raw@)),
            None => assert(previous@ =~= Seq::<u8>::empty()),
        }
    }
    let restored = capture_combined_raw(
        previous.as_slice(),
        input.restored_replay_bytes,
        input.cols,
        input.rows,
        input.max_lines,
        None,
    );
    let restored_body = match load_from_bytes(restored.as_slice()) {
        Some(s) => s.bytes,
        None => Vec::new(),
    };
    assert(restored_body@ =~= loaded_body(restored@));
    capture_combined_raw(
        restored_body.as_slice(),
        input.replay_bytes,
        input.cols,
        input.rows,
        input.max_lines,
        input.cwd,
    )
}

proof fn lemma_be16(v: u16)
    ensures
        from_be16(be16(v)[0], be16(v)[1]) == v,
{
    let hi = (v / 256) as u8;
    let lo = (v % 256) as u8;
    assert(hi as int * 256 + lo as int == v as int);
}

/// The cwd a snapshot made with `cwd` reports when it is read back.
pub open spec fn expected_cwd(cwd: Option<&str>) -> Option<Seq<char>> {
    match cwd {
        Some(s) => if s@.len() == 0 {
            None
        } else {
            Some(s@)
        },
        None => None,
    }
}

/// Reading back what `capture_raw` wrote gives the kept lines, the terminal
/// size and the cwd again (for a cwd of at most 65535 UTF-8 bytes, which is
/// stored whole).
pub proof fn law_capture_then_load(replay: Seq<u8>, cols: u16, rows: u16, max_lines: u32, cwd: Option<&str>)
    requires
        spec_capture_raw(replay, cols, rows, max_lines, cwd).len() > 0,
        opt_cwd_bytes(cwd).len() <= 65535,
    ensures
        ({
            let raw = spec_capture_raw(replay, cols, rows, max_lines, cwd);
            &&& header_ok(raw)
            &&& raw.len() > body_start(raw)
            &&& raw.skip(body_start(raw)) == spec_tail_lines(replay, max_lines)
            &&& from_be16(raw[4], raw[5]) == cols
            &&& from_be16(raw[6], raw[7]) == rows
            &&& header_cwd(raw) == expected_cwd(cwd)
        }),
{
    let raw = spec_capture_raw(replay, cols, rows, max_lines, cwd);
    let c = stored_cwd(cwd);
    let body = spec_tail_lines(replay, max_lines);
    lemma_be16(cols);
    lemma_be16(rows);
    lemma_be16(c.len() as u16);
    assert(raw == magic() + be16(cols) + be16(rows) + be16(c.len() as u16) + c + body);
    assert(raw[4] == be16(cols)[0] && raw[5] == be16(cols)[1]);
    assert(raw[6] == be16(rows)[0] && raw[7] == be16(rows)[1]);
    assert(raw[8] == be16(c.len() as u16)[0] && raw[9] == be16(c.len() as u16)[1]);
    assert(raw.take(4) =~= magic());
    assert(body_start(raw) == 10 + c.len());
    assert(raw.skip(body_start(raw)) =~= body);
    assert(raw.subrange(10, body_start(raw)) =~= c);
    match cwd {
        Some(s) => {
            assert(c == encode_utf8(s@));
            assert(valid_utf8(encode_utf8(s@)));
            assert(decode_utf8(encode_utf8(s@)) == s@);
            if s@.len() == 0 {
                assert(encode_utf8(s@) =~= Seq::<u8>::empty()) by {
                    assert(s@ =~= Seq::<char>::empty());
                    reveal_with_fuel(encode_utf8, 1);
                }
            } else {
                if c.len() == 0 {
                    assert(decode_utf8(c) =~= Seq::<char>::empty()) by {
                        reveal_with_fuel(decode_utf8, 1);
                    }
                }
            }
        },
        None => {},
    }
}

proof fn lemma_trailing_stop(b: Seq<u8>, end: int)
    requires
        0 <= end <= b.len(),
    ensures
        end - trailing_newlines(b, end) > 0 ==> b[end - trailing_newlines(b, end) - 1] != 10u8,
    decreases end,
{
    if end > 0 && b[end - 1] == 10u8 {
        lemma_trailing_stop(b, end - 1);
    }
}

proof fn lemma_tail_scan_suffix(b: Seq<u8>, max: int, k: int, seen: int)
    requires
        0 <= k <= b.len(),
        k == b.len() && k > 0 ==> b[k - 1] != 10u8,
    ensures
        ({
            let r = tail_scan(b, max, k, seen);
            &&& r.len() <= b.len()
            &&& r == b.skip(b.len() - r.len())
            &&& b.len() > 0 ==> r.len() > 0
            &&& r.len() < b.len() ==> b[b.len() - r.len() - 1] == 10u8
        }),
    decreases k,
{
    if k > 0 && !(b[k - 1] == 10u8 && seen + 1 >= max) {
        lemma_tail_scan_suffix(b, max, k - 1, if b[k - 1] == 10u8 { seen + 1 } else { seen });
    } else if k <= 0 {
        assert(b.skip(0) =~= b);
    }
}

/// A snapshot is empty exactly when no line is asked for or there are no
/// replay bytes. Otherwise it is the header (magic `VRN4`, then columns, rows
/// and cwd length as big-endian `u16`, then the cwd bytes, all of them when
/// there are at most 65535) followed by the body: a non-empty suffix of the
/// replay bytes that is either all of them or starts right after a newline.
pub proof fn law_capture_layout(replay: Seq<u8>, cols: u16, rows: u16, max_lines: u32, cwd: Option<&str>)
    ensures
        (spec_capture_raw(replay, cols, rows, max_lines, cwd).len() == 0) == (max_lines == 0 || replay.len() == 0),
        max_lines > 0 && replay.len() > 0 ==> ({
            let body = spec_tail_lines(replay, max_lines);
            let c = stored_cwd(cwd);
            &&& spec_capture_raw(replay, cols, rows, max_lines, cwd) == magic() + be16(cols) + be16(rows) + be16(
                c.len() as u16,
            ) + c + body
            &&& opt_cwd_bytes(cwd).len() <= 65535 ==> c == opt_cwd_bytes(cwd)
            &&& body.len() > 0
            &&& body == replay.skip(replay.len() - body.len())
            &&& body.len() < replay.len() ==> replay[replay.len() - body.len() - 1] == 10u8
        }),
{
    if max_lines > 0 && replay.len() > 0 {
        let t = trailing_newlines(replay, replay.len() as int);
        lemma_trailing_newlines(replay, replay.len() as int);
        lemma_trailing_stop(replay, replay.len() as int);
        lemma_tail_scan_suffix(replay, max_lines as int, replay.len() - t, 0);
    }
}

} // verus!
