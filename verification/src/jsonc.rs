//! JSONC (JSON with comments) to strict JSON: `//` and `/* */` comments and
//! commas before `}` or `]` are removed; string literals are left alone.
use vstd::prelude::*;
use vstd::utf8::encode_utf8;
use crate::text::push_char;

verus! {

broadcast use vstd::string::group_string_axioms;

pub open spec fn is_json_ws(b: u8) -> bool {
    b == 0x20 || b == 0x09 || b == 0x0a || b == 0x0c || b == 0x0d
}

/// Index of the first newline at or after `j` (or the end).
pub open spec fn line_end(b: Seq<u8>, j: int) -> int
    decreases b.len() - j,
{
    if j >= b.len() || b[j] == 0x0a {
        j
    } else {
        line_end(b, j + 1)
    }
}

/// Index at or after `k` where a `*/` starts, or the last index when none does.
pub open spec fn block_stop(b: Seq<u8>, k: int) -> int
    decreases b.len() - k,
{
    if k + 1 >= b.len() || (b[k] == 0x2a && b[k + 1] == 0x2f) {
        k
    } else {
        block_stop(b, k + 1)
    }
}

/// Where scanning resumes after a block comment whose body starts at `k`.
pub open spec fn block_end(b: Seq<u8>, k: int) -> int {
    let e = block_stop(b, k) + 2;
    if e < b.len() {
        e
    } else {
        b.len() as int
    }
}

pub proof fn lemma_line_end(b: Seq<u8>, j: int)
    ensures
        line_end(b, j) >= j,
        j <= b.len() ==> line_end(b, j) <= b.len(),
    decreases b.len() - j,
{
    if !(j >= b.len() || b[j] == 0x0a) {
        lemma_line_end(b, j + 1);
    }
}

pub proof fn lemma_block_stop(b: Seq<u8>, k: int)
    ensures
        block_stop(b, k) >= k,
    decreases b.len() - k,
{
    if !(k + 1 >= b.len() || (b[k] == 0x2a && b[k + 1] == 0x2f)) {
        lemma_block_stop(b, k + 1);
    }
}

/// Text of `b` from `i` on with comments removed, each kept byte becoming
/// the character of that code; `in_str` tells whether `i` is inside a string.
pub open spec fn uncommented(b: Seq<u8>, i: int, in_str: bool) -> Seq<char>
    decreases b.len() - i,
{
    if i < 0 || i >= b.len() {
        seq![]
    } else if in_str {
        if b[i] == 0x5c && i + 1 < b.len() {
            seq![b[i] as char, b[i + 1] as char] + uncommented(b, i + 2, true)
        } else {
            seq![b[i] as char] + uncommented(b, i + 1, b[i] != 0x22)
        }
    } else if b[i] == 0x22 {
        seq!['"'] + uncommented(b, i + 1, true)
    } else if b[i] == 0x2f && i + 1 < b.len() && b[i + 1] == 0x2f {
        proof {
            lemma_line_end(b, i + 1);
        }
        uncommented(b, line_end(b, i + 1), false)
    } else if b[i] == 0x2f && i + 1 < b.len() && b[i + 1] == 0x2a {
        proof {
            lemma_block_stop(b, i + 2);
        }
        uncommented(b, block_end(b, i + 2), false)
    } else {
        seq![b[i] as char] + uncommented(b, i + 1, false)
    }
}

/// Index of the first non-whitespace byte at or after `j` (or the end).
pub open spec fn skip_ws(b: Seq<u8>, j: int) -> int
    decreases b.len() - j,
{
    if j >= b.len() || !is_json_ws(b[j]) {
        j
    } else {
        skip_ws(b, j + 1)
    }
}

/// Whether only whitespace separates `j` from a closing `}` or `]`.
pub open spec fn closes_after(b: Seq<u8>, j: int) -> bool {
    let k = skip_ws(b, j);
    k < b.len() && (b[k] == 0x7d || b[k] == 0x5d)
}

/// Text of `b` from `i` on with commas before `}`/`]` removed, each kept
/// byte becoming the character of that code.
pub open spec fn uncomma(b: Seq<u8>, i: int, in_str: bool) -> Seq<char>
    decreases b.len() - i,
{
    if i < 0 || i >= b.len() {
        seq![]
    } else if in_str {
        if b[i] == 0x5c && i + 1 < b.len() {
            seq![b[i] as char, b[i + 1] as char] + uncomma(b, i + 2, true)
        } else {
            seq![b[i] as char] + uncomma(b, i + 1, b[i] != 0x22)
        }
    } else if b[i] == 0x22 {
        seq!['"'] + uncomma(b, i + 1, true)
    } else if b[i] == 0x2c && closes_after(b, i + 1) {
        uncomma(b, i + 1, false)
    } else {
        seq![b[i] as char] + uncomma(b, i + 1, false)
    }
}

/// `input` with comments removed.
pub open spec fn spec_strip_comments(input: Seq<char>) -> Seq<char> {
    uncommented(encode_utf8(input), 0, false)
}

/// `input` with trailing commas removed.
pub open spec fn spec_strip_trailing_commas(input: Seq<char>) -> Seq<char> {
    uncomma(encode_utf8(input), 0, false)
}

/// `input` as strict JSON: comments removed, then trailing commas.
pub open spec fn spec_strip_jsonc(input: Seq<char>) -> Seq<char> {
    spec_strip_trailing_commas(spec_strip_comments(input))
}

/// Removes `//` and `/* */` comments outside string literals.
pub fn strip_comments(input: &str) -> (out: String)
    ensures
        out@ == spec_strip_comments(input@),
{
    let bytes = input.as_bytes();
    let ghost b = bytes@;
    let mut out = String::new();
    let mut i: usize = 0;
    let mut in_string = false;
    while i < bytes.len()
        invariant
            b == bytes@,
            b == encode_utf8(input@),
            i <= b.len(),
            out@ + uncommented(b, i as int, in_string) == uncommented(b, 0, false),
        decreases b.len() - i,
    {
        let c = bytes[i];
        let ghost before = out@;
        if in_string {
            push_char(&mut out, c as char);
            if c == 0x5c && i + 1 < bytes.len() {
                push_char(&mut out, bytes[i + 1] as char);
                assert(out@ + uncommented(b, i + 2, true) =~= before + uncommented(b, i as int, true));
                i += 2;
                continue;
            }
            if c == 0x22 {
                in_string = false;
            }
            assert(out@ + uncommented(b, i + 1, in_string) =~= before + uncommented(b, i as int, true));
            i += 1;
            continue;
        }
        if c == 0x22 {
            in_string = true;
            push_char(&mut out, '"');
            assert(out@ + uncommented(b, i + 1, true) =~= before + uncommented(b, i as int, false));
            i += 1;
            continue;
        }
        if c == 0x2f && i + 1 < bytes.len() {
            if bytes[i + 1] == 0x2f {
                let ghost start = i;
                proof {
                    lemma_line_end(b, i + 1);
                }
                while i < bytes.len() && bytes[i] != 0x0a
                    invariant
                        b == bytes@,
                        start <= i <= b.len(),
                        line_end(b, i as int) == line_end(b, start + 1),
                    decreases b.len() - i,
                {
                    i += 1;
                }
                continue;
            }
            if bytes[i + 1] == 0x2a {
                let ghost start = i;
                i += 2;
                while i < bytes.len() - 1 && !(bytes[i] == 0x2a && bytes[i + 1] == 0x2f)
                    invariant
                        b == bytes@,
                        start + 2 <= i <= b.len(),
                        b.len() >= 2,
                        block_stop(b, start + 2) == block_stop(b, i as int),
                    decreases b.len() - i,
                {
                    i += 1;
                }
                i = if i < bytes.len() - 2 {
                    i + 2
                } else {
                    bytes.len()
                };
                continue;
            }
        }
        push_char(&mut out, c as char);
        assert(out@ + uncommented(b, i + 1, false) =~= before + uncommented(b, i as int, false));
        i += 1;
    }
    assert(out@ =~= uncommented(b, 0, false));
    out
}

fn json_ws(b: u8) -> (r: bool)
    ensures
        r == is_json_ws(b),
{
    b == 0x20 || b == 0x09 || b == 0x0a || b == 0x0c || b == 0x0d
}

/// Removes commas that only whitespace separates from a closing `}` or `]`,
/// outside string literals.
pub fn strip_trailing_commas(input: &str) -> (out: String)
    ensures
        out@ == spec_strip_trailing_commas(input@),
{
    let bytes = input.as_bytes();
    let ghost b = bytes@;
    let mut out = String::new();
    let mut i: usize = 0;
    let mut in_string = false;
    while i < bytes.len()
        invariant
            b == bytes@,
            b == encode_utf8(input@),
            i <= b.len(),
            out@ + uncomma(b, i as int, in_string) == uncomma(b, 0, false),
        decreases b.len() - i,
    {
        let c = bytes[i];
        let ghost before = out@;
        if in_string {
            push_char(&mut out, c as char);
            if c == 0x5c && i + 1 < bytes.len() {
                push_char(&mut out, bytes[i + 1] as char);
                assert(out@ + uncomma(b, i + 2, true) =~= before + uncomma(b, i as int, true));
                i += 2;
                continue;
            }
            if c == 0x22 {
                in_string = false;
            }
            assert(out@ + uncomma(b, i + 1, in_string) =~= before + uncomma(b, i as int, true));
            i += 1;
            continue;
        }
        if c == 0x22 {
            in_string = true;
            push_char(&mut out, '"');
            assert(out@ + uncomma(b, i + 1, true) =~= before + uncomma(b, i as int, false));
            i += 1;
            continue;
        }
        if c == 0x2c {
            let mut j = i + 1;
            while j < bytes.len() && json_ws(bytes[j])
                invariant
                    b == bytes@,
                    i + 1 <= j <= b.len(),
                    skip_ws(b, j as int) == skip_ws(b, i + 1),
                decreases b.len() - j,
            {
                j += 1;
            }
            if j < bytes.len() && (bytes[j] == 0x7d || bytes[j] == 0x5d) {
                i += 1;
                continue;
            }
        }
        push_char(&mut out, c as char);
        assert(out@ + uncomma(b, i + 1, false) =~= before + uncomma(b, i as int, false));
        i += 1;
    }
    assert(out@ =~= uncomma(b, 0, false));
    out
}

/// Normalizes JSONC into strict JSON: comments first, then trailing commas.
pub fn strip_jsonc(input: &str) -> (out: String)
    ensures
        out@ == spec_strip_jsonc(input@),
{
    let without_comments = strip_comments(input);
    strip_trailing_commas(without_comments.as_str())
}

} // verus!
