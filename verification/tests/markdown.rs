use notmux::markdown::{char_len, slice_by_chars};

#[test]
fn slices_by_characters() {
    let (a, b, c) = slice_by_chars("héllo wörld", 1, 4);
    assert_eq!(a, "h");
    assert_eq!(b, "éll");
    assert_eq!(c, "o wörld");
}

#[test]
fn slice_indices_are_clamped() {
    let (a, b, c) = slice_by_chars("abc", 2, 10);
    assert_eq!((a.as_str(), b.as_str(), c.as_str()), ("ab", "c", ""));
    let (a, b, c) = slice_by_chars("abc", 5, 9);
    assert_eq!((a.as_str(), b.as_str(), c.as_str()), ("abc", "", ""));
}

#[test]
fn counts_characters_not_bytes() {
    assert_eq!(char_len("wörld"), 5);
    assert_eq!(char_len(""), 0);
}
