//! Character-indexed text helpers for the markdown renderer.
use vstd::prelude::*;
use crate::text::{chars_of, string_from_chars, vec_slice};

verus! {

pub open spec fn clamp_to(i: usize, len: nat) -> int {
    if i < len {
        i as int
    } else {
        len as int
    }
}

/// Splits `s` at character positions `start` and `end` (each cut to the
/// length of `s`) into the text before, between and after them.
pub fn slice_by_chars(s: &str, start: usize, end: usize) -> (r: (String, String, String))
    requires
        clamp_to(start, s@.len()) <= clamp_to(end, s@.len()),
    ensures
        r.0@ == s@.take(clamp_to(start, s@.len())),
        r.1@ == s@.subrange(clamp_to(start, s@.len()), clamp_to(end, s@.len())),
        r.2@ == s@.skip(clamp_to(end, s@.len())),
{
    let chars = chars_of(s);
    let len = chars.len();
    let start = if start < len {
        start
    } else {
        len
    };
    let end = if end < len {
        end
    } else {
        len
    };
    let before = string_from_chars(&vec_slice(&chars, 0, start));
    let selected = string_from_chars(&vec_slice(&chars, start, end));
    let after = string_from_chars(&vec_slice(&chars, end, len));
    assert(chars@.subrange(0, start as int) =~= s@.take(start as int));
    assert(chars@.subrange(end as int, len as int) =~= s@.skip(end as int));
    (before, selected, after)
}

/// Number of characters (not bytes) of `s`.
pub fn char_len(s: &str) -> (n: usize)
    ensures
        n == s@.len(),
{
    chars_of(s).len()
}

} // verus!
