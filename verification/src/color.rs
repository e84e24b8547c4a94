//! VS Code hex colors, alpha blending and border contrast.
use vstd::prelude::*;
use crate::text::{chars_of, trim, trim_chars};
use crate::vscode::ThemeColors;

verus! {

/// Number of bytes the UTF-8 encoding of `c` takes.
pub open spec fn utf8_width(c: char) -> int {
    if (c as u32) < 0x80 {
        1
    } else if (c as u32) < 0x800 {
        2
    } else if (c as u32) < 0x10000 {
        3
    } else {
        4
    }
}

/// Number of bytes the UTF-8 encoding of `s` takes (`str::len`).
pub open spec fn byte_len(s: Seq<char>) -> int
    decreases s.len(),
{
    if s.len() == 0 {
        0
    } else {
        byte_len(s.drop_last()) + utf8_width(s.last())
    }
}

/// Whether byte offset `k` of `s` falls between two characters.
pub open spec fn is_boundary(s: Seq<char>, k: int) -> bool {
    exists|j: int| 0 <= j <= s.len() && #[trigger] byte_len(s.take(j)) == k
}

pub open spec fn is_ascii(s: Seq<char>) -> bool {
    forall|k: int| 0 <= k < s.len() ==> (#[trigger] s[k] as u32) < 0x80
}

/// `s` without its leading `#` characters (`trim_start_matches('#')`).
pub open spec fn strip_hashes(s: Seq<char>) -> Seq<char>
    decreases s.len(),
{
    if s.len() > 0 && s[0] == '#' {
        strip_hashes(s.skip(1))
    } else {
        s
    }
}

/// The text a color parse looks at: trimmed, leading `#`s removed.
pub open spec fn color_digits(s: Seq<char>) -> Seq<char> {
    strip_hashes(trim(s))
}

/// Whether parsing `s` as a color slices a string inside a character, which
/// panics. A text of 3 or 4 bytes is cut into one-byte pieces from the left
/// until a piece is not a hex digit: it panics when the first non-ASCII
/// character comes after hex digits only. A text of 8 bytes is cut after its
/// 6th byte, which panics when that byte lies inside a character.
pub open spec fn color_parse_panics(s: Seq<char>) -> bool {
    let t = color_digits(s);
    ||| (byte_len(t) == 3 || byte_len(t) == 4) && exists|p: int|
        0 <= p < t.len() && (#[trigger] t[p] as u32) >= 0x80 && all_hex(t.take(p))
    ||| byte_len(t) == 8 && !is_boundary(t, 6)
}

pub open spec fn is_hex(c: char) -> bool {
    ('0' <= c <= '9') || ('a' <= c <= 'f') || ('A' <= c <= 'F')
}

pub open spec fn hex_val(c: char) -> int {
    if '0' <= c <= '9' {
        c as int - '0' as int
    } else if 'a' <= c <= 'f' {
        c as int - 'a' as int + 10
    } else {
        c as int - 'A' as int + 10
    }
}

/// Value of a run of hex digits.
pub open spec fn hex_value(s: Seq<char>) -> int
    decreases s.len(),
{
    if s.len() == 0 {
        0
    } else {
        hex_value(s.drop_last()) * 16 + hex_val(s.last())
    }
}

pub open spec fn all_hex(s: Seq<char>) -> bool {
    forall|k: int| 0 <= k < s.len() ==> is_hex(#[trigger] s[k])
}

/// `from_str_radix(s, 16)` for an unsigned type wide enough for `s`: an
/// optional `+` followed by one or more hex digits.
pub open spec fn parse_hex(s: Seq<char>) -> Option<int> {
    let digits = if s.len() > 0 && s[0] == '+' {
        s.skip(1)
    } else {
        s
    };
    if digits.len() == 0 || !all_hex(digits) {
        None
    } else {
        Some(hex_value(digits))
    }
}

/// A one-character channel `c`, read as the two-digit `cc`.
pub open spec fn short_channel(c: char) -> Option<int> {
    parse_hex(seq![c, c])
}

/// `parse_vscode_color_rgba` on the digits `t` (already trimmed and without `#`).
pub open spec fn rgba_of_digits(t: Seq<char>) -> Option<(u32, u8)> {
    if !is_ascii(t) {
        None
    } else if t.len() == 3 {
        match (short_channel(t[0]), short_channel(t[1]), short_channel(t[2])) {
            (Some(r), Some(g), Some(b)) => Some(((r * 65536 + g * 256 + b) as u32, 0xffu8)),
            _ => None,
        }
    } else if t.len() == 4 {
        match (short_channel(t[0]), short_channel(t[1]), short_channel(t[2]), short_channel(t[3])) {
            (Some(r), Some(g), Some(b), Some(a)) => Some(((r * 65536 + g * 256 + b) as u32, a as u8)),
            _ => None,
        }
    } else if t.len() == 6 {
        match parse_hex(t) {
            Some(v) => Some((v as u32, 0xffu8)),
            None => None,
        }
    } else if t.len() == 8 {
        match (parse_hex(t.take(6)), parse_hex(t.skip(6))) {
            (Some(v), Some(a)) => Some((v as u32, a as u8)),
            _ => None,
        }
    } else {
        None
    }
}

/// A VS Code hex color as (rgb, alpha); alpha is 0xff without an alpha suffix.
pub open spec fn spec_rgba(s: Seq<char>) -> Option<(u32, u8)> {
    rgba_of_digits(color_digits(s))
}

proof fn lemma_hex_value_bound(s: Seq<char>)
    requires
        all_hex(s),
    ensures
        0 <= hex_value(s),
        s.len() <= 8 ==> hex_value(s) < pow16(s.len() as int),
    decreases s.len(),
{
    if s.len() > 0 {
        lemma_hex_value_bound(s.drop_last());
        lemma_pow16(s.len() - 1);
    }
}

pub open spec fn pow16(n: int) -> int
    decreases n,
{
    if n <= 0 {
        1
    } else {
        16 * pow16(n - 1)
    }
}

proof fn lemma_pow16(n: int)
    requires
        n >= 0,
    ensures
        pow16(n + 1) == 16 * pow16(n),
        pow16(n) >= 1,
    decreases n,
{
    if n > 0 {
        lemma_pow16(n - 1);
    }
}

/// Exec `parse_hex` for at most 8 characters.
fn parse_hex_chars(s: &Vec<char>) -> (r: Option<u32>)
    requires
        s@.len() <= 8,
    ensures
        match r {
            Some(v) => parse_hex(s@) == Some(v as int),
            None => parse_hex(s@) is None,
        },
{
    let start: usize = if s.len() > 0 && s[0] == '+' {
        1
    } else {
        0
    };
    let ghost digits = s@.skip(start as int);
    proof {
        if start == 0 {
            assert(digits =~= s@);
        }
    }
    if start == s.len() {
        return None;
    }
    let mut v: u64 = 0;
    let mut i: usize = start;
    while i < s.len()
        invariant
            start <= i <= s.len() <= 8,
            digits == s@.skip(start as int),
            start == (if s@.len() > 0 && s@[0] == '+' { 1int } else { 0int }),
            all_hex(s@.subrange(start as int, i as int)),
            v as int == hex_value(s@.subrange(start as int, i as int)),
            v < pow16(i - start),
        decreases s.len() - i,
    {
        let c = s[i];
        let d: u64 = if '0' <= c && c <= '9' {
            (c as u32 - '0' as u32) as u64
        } else if 'a' <= c && c <= 'f' {
            (c as u32 - 'a' as u32 + 10) as u64
        } else if 'A' <= c && c <= 'F' {
            (c as u32 - 'A' as u32 + 10) as u64
        } else {
            assert(digits[i - start] == c);
            assert(!is_hex(digits[i - start]));
            return None;
        };
        let ghost pre = s@.subrange(start as int, i as int);
        let ghost post = s@.subrange(start as int, i + 1);
        assert(post.drop_last() =~= pre);
        proof {
            lemma_pow16(i - start);
            lemma_pow16((i - start) as int + 1);
            assert(pow16(8) == 4294967296) by {
                reveal_with_fuel(pow16, 9);
            }
            if i - start + 1 < 8 {
                lemma_pow16_mono((i - start + 1) as int, 8);
            }
        }
        v = v * 16 + d;
        i += 1;
    }
    assert(s@.subrange(start as int, s.len() as int) =~= digits);
    proof {
        lemma_pow16_mono((s.len() - start) as int, 8);
        assert(pow16(8) == 4294967296) by {
            reveal_with_fuel(pow16, 9);
        }
    }
    Some(v as u32)
}

proof fn lemma_pow16_mono(a: int, b: int)
    requires
        0 <= a <= b,
    ensures
        pow16(a) <= pow16(b),
    decreases b - a,
{
    if a < b {
        lemma_pow16_mono(a, b - 1);
        lemma_pow16(b - 1);
    }
}

proof fn lemma_strip_hashes_skip(s: Seq<char>, k: int)
    requires
        0 <= k <= s.len(),
        forall|j: int| 0 <= j < k ==> s[j] == '#',
    ensures
        strip_hashes(s) == strip_hashes(s.skip(k)),
    decreases k,
{
    if k > 0 {
        assert(s[0] == '#');
        assert(s.skip(1).skip(k - 1) =~= s.skip(k));
        lemma_strip_hashes_skip(s.skip(1), k - 1);
    } else {
        assert(s.skip(0) =~= s);
    }
}

/// One short channel `c` read as `cc`.
fn short_channel_exec(c: char) -> (r: Option<u32>)
    ensures
        match r {
            Some(v) => short_channel(c) == Some(v as int) && v < 256,
            None => short_channel(c) is None,
        },
{
    let v: Vec<char> = vec![c, c];
    assert(v@ =~= seq![c, c]);
    let r = parse_hex_chars(&v);
    proof {
        if let Some(x) = r {
            let digits = if v@[0] == '+' { v@.skip(1) } else { v@ };
            lemma_hex_value_bound(digits);
            assert(pow16(2) == 256 && pow16(1) == 16) by {
                reveal_with_fuel(pow16, 3);
            }
        }
    }
    r
}

/// Parses a VS Code hex color into (rgb, alpha).
pub fn parse_vscode_color_rgba(s: &str) -> (r: Option<(u32, u8)>)
    requires
        !color_parse_panics(s@),
    ensures
        r == spec_rgba(s@),
{
    let all = chars_of(s);
    let trimmed = trim_chars(&all);
    let mut k: usize = 0;
    while k < trimmed.len() && trimmed[k] == '#'
        invariant
            k <= trimmed@.len(),
            forall|j: int| 0 <= j < k ==> trimmed@[j] == '#',
        decreases trimmed.len() - k,
    {
        k += 1;
    }
    let t = crate::text::vec_slice(&trimmed, k, trimmed.len());
    proof {
        lemma_strip_hashes_skip(trimmed@, k as int);
        assert(trimmed@.skip(k as int) =~= t@);
        assert(strip_hashes(t@) == t@);
    }
    assert(t@ == color_digits(s@));
    let mut i: usize = 0;
    while i < t.len()
        invariant
            i <= t@.len(),
            t@ == color_digits(s@),
            forall|j: int| 0 <= j < i ==> (#[trigger] t@[j] as u32) < 0x80,
        decreases t.len() - i,
    {
        if (t[i] as u32) >= 0x80 {
            assert((t@[i as int] as u32) >= 0x80);
            assert(!is_ascii(t@));
            return None;
        }
        i += 1;
    }
    assert(is_ascii(t@));
    let n = t.len();
    if n == 3 || n == 4 {
        let r = short_channel_exec(t[0]);
        let g = short_channel_exec(t[1]);
        let b = short_channel_exec(t[2]);
        let a = if n == 4 {
            short_channel_exec(t[3])
        } else {
            Some(0xffu32)
        };
        match (r, g, b, a) {
            (Some(r), Some(g), Some(b), Some(a)) => Some((r * 65536 + g * 256 + b, a as u8)),
            _ => None,
        }
    } else if n == 6 {
        match parse_hex_chars(&t) {
            Some(v) => Some((v, 0xffu8)),
            None => None,
        }
    } else if n == 8 {
        let head = crate::text::vec_slice(&t, 0, 6);
        let tail = crate::text::vec_slice(&t, 6, 8);
        assert(head@ =~= t@.take(6));
        assert(tail@ =~= t@.skip(6));
        let v = parse_hex_chars(&head);
        let a = parse_hex_chars(&tail);
        match (v, a) {
            (Some(v), Some(a)) => {
                proof {
                    let digits = if tail@[0] == '+' { tail@.skip(1) } else { tail@ };
                    lemma_hex_value_bound(digits);
                    assert(pow16(2) == 256 && pow16(1) == 16) by {
                        reveal_with_fuel(pow16, 3);
                    }
                }
                Some((v, a as u8))
            },
            _ => None,
        }
    } else {
        None
    }
}

/// Parses a VS Code hex color into RGB, dropping any alpha.
pub fn parse_vscode_color(s: &str) -> (r: Option<u32>)
    requires
        !color_parse_panics(s@),
    ensures
        r == (match spec_rgba(s@) {
            Some((rgb, _)) => Some(rgb),
            None => None,
        }),
{
    match parse_vscode_color_rgba(s) {
        Some((rgb, _)) => Some(rgb),
        None => None,
    }
}

/// Channel of `v` at bit offset `shift` (16 red, 8 green, 0 blue).
pub open spec fn channel(v: u32, shift: u32) -> int {
    ((v >> shift) & 0xffu32) as int
}

/// One channel of `fg` at alpha `a` over `bg`, rounded.
pub open spec fn mix(f: int, b: int, a: int) -> int {
    (f * a + b * (255 - a) + 127) / 255
}

/// `fg` with alpha `alpha` composited over `bg`; opaque RGB.
pub open spec fn spec_blend(fg: u32, alpha: u8, bg: u32) -> u32 {
    if alpha == 0xff {
        fg
    } else if alpha == 0 {
        bg
    } else {
        let a = alpha as int;
        (mix(channel(fg, 16), channel(bg, 16), a) * 65536 + mix(channel(fg, 8), channel(bg, 8), a) * 256 + mix(
            channel(fg, 0),
            channel(bg, 0),
            a,
        )) as u32
    }
}

proof fn lemma_channel_bound(v: u32, shift: u32)
    ensures
        0 <= channel(v, shift) <= 255,
{
    assert((v >> shift) & 0xffu32 <= 0xffu32) by (bit_vector);
}

proof fn lemma_pack(r: u32, g: u32, b: u32)
    requires
        r <= 255,
        g <= 255,
        b <= 255,
    ensures
        (r << 16u32) | (g << 8u32) | b == r * 65536 + g * 256 + b,
{
    assert((r << 16u32) | (g << 8u32) | b == r * 65536 + g * 256 + b) by (bit_vector)
        requires
            r <= 255,
            g <= 255,
            b <= 255,
    ;
}

proof fn lemma_mix_bound(f: int, b: int, a: int)
    requires
        0 <= f <= 255,
        0 <= b <= 255,
        0 <= a <= 255,
    ensures
        0 <= mix(f, b, a) <= 255,
{
    assert(f * a <= 255 * a) by (nonlinear_arith)
        requires
            f <= 255,
            0 <= a,
    ;
    assert(b * (255 - a) <= 255 * (255 - a)) by (nonlinear_arith)
        requires
            b <= 255,
            0 <= 255 - a,
    ;
    assert(0 <= f * a) by (nonlinear_arith)
        requires
            0 <= f,
            0 <= a,
    ;
    assert(0 <= b * (255 - a)) by (nonlinear_arith)
        requires
            0 <= b,
            0 <= 255 - a,
    ;
}

/// Alpha-blends `fg` (with `alpha`) over `bg`; returns opaque RGB.
pub fn blend_over(fg: u32, alpha: u8, bg: u32) -> (r: u32)
    ensures
        r == spec_blend(fg, alpha, bg),
{
    if alpha == 0xff {
        return fg;
    }
    if alpha == 0 {
        return bg;
    }
    let a = alpha as u32;
    let inv = 255 - a;
    proof {
        lemma_channel_bound(fg, 16);
        lemma_channel_bound(fg, 8);
        lemma_channel_bound(fg, 0);
        lemma_channel_bound(bg, 16);
        lemma_channel_bound(bg, 8);
        lemma_channel_bound(bg, 0);
    }
    let fr = (fg >> 16) & 0xff;
    let fgc = (fg >> 8) & 0xff;
    let fb = fg & 0xff;
    let br = (bg >> 16) & 0xff;
    let bgc = (bg >> 8) & 0xff;
    let bb = bg & 0xff;
    assert(fb == (fg >> 0u32) & 0xffu32) by (bit_vector)
        requires
            fb == fg & 0xffu32,
    ;
    assert(bb == (bg >> 0u32) & 0xffu32) by (bit_vector)
        requires
            bb == bg & 0xffu32,
    ;
    assert(fr * a <= 255 * 255 && br * inv <= 255 * 255 && fgc * a <= 255 * 255 && bgc * inv <= 255 * 255
        && fb * a <= 255 * 255 && bb * inv <= 255 * 255) by (nonlinear_arith)
        requires
            fr <= 255,
            br <= 255,
            fgc <= 255,
            bgc <= 255,
            fb <= 255,
            bb <= 255,
            a <= 255,
            inv <= 255,
    ;
    let r = fr * a + br * inv;
    let g = fgc * a + bgc * inv;
    let b = fb * a + bb * inv;
    let mr = (r + 127) / 255;
    let mg = (g + 127) / 255;
    let mb = (b + 127) / 255;
    proof {
        lemma_mix_bound(fr as int, br as int, a as int);
        lemma_mix_bound(fgc as int, bgc as int, a as int);
        lemma_mix_bound(fb as int, bb as int, a as int);
        lemma_pack(mr, mg, mb);
    }
    (mr << 16) | (mg << 8) | mb
}

/// Channel `k` of blend result `r` lies between the channels of `fg` and
/// `bg`, and is their alpha-weighted mean rounded to the nearest value.
pub open spec fn channel_blended(fg: u32, alpha: u8, bg: u32, r: u32, k: u32) -> bool {
    let f = channel(fg, k);
    let b = channel(bg, k);
    let c = channel(r, k);
    let x = f * alpha + b * (255 - alpha);
    &&& (if f <= b { f <= c <= b } else { b <= c <= f })
    &&& -127 <= 255 * c - x <= 127
}

proof fn lemma_mix_between(f: int, b: int, a: int)
    requires
        0 <= f <= 255,
        0 <= b <= 255,
        0 <= a <= 255,
    ensures
        (if f <= b { f <= mix(f, b, a) <= b } else { b <= mix(f, b, a) <= f }),
        -127 <= 255 * mix(f, b, a) - (f * a + b * (255 - a)) <= 127,
{
    let x = f * a + b * (255 - a);
    let lo = if f <= b { f } else { b };
    let hi = if f <= b { b } else { f };
    assert(255 * lo <= x <= 255 * hi) by (nonlinear_arith)
        requires
            x == f * a + b * (255 - a),
            lo <= f <= hi,
            lo <= b <= hi,
            0 <= a <= 255,
    ;
    assert(lo <= (x + 127) / 255 <= hi) by (nonlinear_arith)
        requires
            255 * lo <= x <= 255 * hi,
            0 <= lo,
    ;
    assert(-127 <= 255 * ((x + 127) / 255) - x <= 127) by (nonlinear_arith)
        requires
            0 <= x,
    ;
}

proof fn lemma_unpack(r: u32, g: u32, b: u32)
    requires
        r <= 255,
        g <= 255,
        b <= 255,
    ensures
        channel((r * 65536 + g * 256 + b) as u32, 16) == r,
        channel((r * 65536 + g * 256 + b) as u32, 8) == g,
        channel((r * 65536 + g * 256 + b) as u32, 0) == b,
        r * 65536 + g * 256 + b <= 0xffffff,
{
    assert(((((r * 65536 + g * 256 + b) as u32) >> 16u32) & 0xffu32) == r && ((((r * 65536 + g * 256 + b) as u32)
        >> 8u32) & 0xffu32) == g && ((((r * 65536 + g * 256 + b) as u32) >> 0u32) & 0xffu32) == b && r * 65536 + g
        * 256 + b <= 0xffffff) by (bit_vector)
        requires
            r <= 255,
            g <= 255,
            b <= 255,
    ;
}

/// Blending keeps colors opaque RGB, gives `fg` at full alpha and `bg` at
/// zero alpha, and makes every channel the rounded alpha-weighted mean of
/// the two, between them.
pub proof fn law_blend_bounds(fg: u32, alpha: u8, bg: u32)
    requires
        fg <= 0xffffff,
        bg <= 0xffffff,
    ensures
        spec_blend(fg, alpha, bg) <= 0xffffff,
        alpha == 0xff ==> spec_blend(fg, alpha, bg) == fg,
        alpha == 0 ==> spec_blend(fg, alpha, bg) == bg,
        channel_blended(fg, alpha, bg, spec_blend(fg, alpha, bg), 16),
        channel_blended(fg, alpha, bg, spec_blend(fg, alpha, bg), 8),
        channel_blended(fg, alpha, bg, spec_blend(fg, alpha, bg), 0),
{
    lemma_channel_bound(fg, 16);
    lemma_channel_bound(fg, 8);
    lemma_channel_bound(fg, 0);
    lemma_channel_bound(bg, 16);
    lemma_channel_bound(bg, 8);
    lemma_channel_bound(bg, 0);
    let a = alpha as int;
    if alpha == 0xff || alpha == 0 {
        lemma_mix_between(channel(fg, 16), channel(bg, 16), a);
        assert(channel_blended(fg, alpha, bg, spec_blend(fg, alpha, bg), 16));
        assert(channel_blended(fg, alpha, bg, spec_blend(fg, alpha, bg), 8));
        assert(channel_blended(fg, alpha, bg, spec_blend(fg, alpha, bg), 0));
    } else {
        let mr = mix(channel(fg, 16), channel(bg, 16), a);
        let mg = mix(channel(fg, 8), channel(bg, 8), a);
        let mb = mix(channel(fg, 0), channel(bg, 0), a);
        lemma_mix_between(channel(fg, 16), channel(bg, 16), a);
        lemma_mix_between(channel(fg, 8), channel(bg, 8), a);
        lemma_mix_between(channel(fg, 0), channel(bg, 0), a);
        lemma_unpack(mr as u32, mg as u32, mb as u32);
    }
}

/// Rec. 601 luminance (0..255).
pub open spec fn spec_luma(rgb: u32) -> int {
    (channel(rgb, 16) * 299 + channel(rgb, 8) * 587 + channel(rgb, 0) * 114) / 1000
}

/// Rec. 601 luminance (0..255).
pub fn luma(rgb: u32) -> (r: u32)
    ensures
        r == spec_luma(rgb),
        r <= 255,
{
    proof {
        lemma_channel_bound(rgb, 16);
        lemma_channel_bound(rgb, 8);
        lemma_channel_bound(rgb, 0);
    }
    let r = (rgb >> 16) & 0xff;
    let g = (rgb >> 8) & 0xff;
    let b = rgb & 0xff;
    assert(b == (rgb >> 0u32) & 0xffu32) by (bit_vector)
        requires
            b == rgb & 0xffu32,
    ;
    (r * 299 + g * 587 + b * 114) / 1000
}

/// Luminance distance between two colors.
pub open spec fn luma_delta(a: u32, b: u32) -> int {
    if spec_luma(a) >= spec_luma(b) {
        spec_luma(a) - spec_luma(b)
    } else {
        spec_luma(b) - spec_luma(a)
    }
}

/// The border drawn instead of one that does not stand out: ~15% of the text
/// color over the backdrop.
pub open spec fn derived_border(bg: u32, text: u32) -> u32 {
    spec_blend(text, 0x26, bg)
}

/// `candidate` when its luminance differs from `bg` by at least 12, else
/// the derived border.
pub open spec fn visible_border(candidate: u32, bg: u32, text: u32) -> u32 {
    if luma_delta(bg, candidate) >= 12 {
        candidate
    } else {
        derived_border(bg, text)
    }
}

/// `candidate` when its luminance differs from `bg` by 12 to 60, else the
/// derived border.
pub open spec fn subtle_border(candidate: u32, bg: u32, text: u32) -> u32 {
    if 12 <= luma_delta(bg, candidate) <= 60 {
        candidate
    } else {
        derived_border(bg, text)
    }
}

/// Keeps `candidate` when its luminance differs from `bg` by at least 12;
/// otherwise derives a visible border from the text color.
pub fn ensure_visible_border(candidate: u32, bg: u32, text: u32) -> (r: u32)
    ensures
        r == visible_border(candidate, bg, text),
{
    let bl = luma(bg);
    let cl = luma(candidate);
    let delta = if bl >= cl {
        bl - cl
    } else {
        cl - bl
    };
    if delta >= 12 {
        return candidate;
    }
    blend_over(text, 0x26, bg)
}

/// Keeps `candidate` when its luminance differs from `bg` by 12 to 60;
/// otherwise derives a quiet border from the text color.
pub fn ensure_subtle_border(candidate: u32, bg: u32, text: u32) -> (r: u32)
    ensures
        r == subtle_border(candidate, bg, text),
{
    let bl = luma(bg);
    let cl = luma(candidate);
    let delta = if bl >= cl {
        bl - cl
    } else {
        cl - bl
    };
    if 12 <= delta && delta <= 60 {
        return candidate;
    }
    blend_over(text, 0x26, bg)
}

/// A terminal cell's background color as the emulator reports it: the
/// named default background, another named color, a palette index, or
/// an explicit RGB triple.
#[derive(Clone, Copy, Debug, PartialEq, Eq, Structural)]
pub enum CellColor {
    NamedBackground,
    NamedOther,
    Indexed(u8),
    Spec(u8, u8, u8),
}

/// Whether a cell shows the default background and can stay transparent:
/// the named background always, an RGB triple when it equals the theme's
/// terminal background, nothing else (palette black included).
pub fn is_default_bg(color: &CellColor, t: &ThemeColors) -> (r: bool)
    ensures
        r == match *color {
            CellColor::NamedBackground => true,
            CellColor::Spec(red, green, blue) => red == channel(t.term_background, 16)
                && green == channel(t.term_background, 8) && blue == channel(t.term_background, 0),
            _ => false,
        },
{
    match *color {
        CellColor::NamedBackground => true,
        CellColor::Spec(red, green, blue) => {
            let bg = t.term_background;
            let bg_r = ((bg >> 16u32) & 0xffu32) as u8;
            let bg_g = ((bg >> 8u32) & 0xffu32) as u8;
            let bg_b = (bg & 0xffu32) as u8;
            assert((bg >> 0u32) == bg) by (bit_vector);
            assert((bg >> 16u32) & 0xffu32 <= 0xff) by (bit_vector);
            assert((bg >> 8u32) & 0xffu32 <= 0xff) by (bit_vector);
            assert(bg & 0xffu32 <= 0xff) by (bit_vector);
            red == bg_r && green == bg_g && blue == bg_b
        },
        _ => false,
    }
}

} // verus!
