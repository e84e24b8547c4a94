//! Text helpers for the usage panel: timestamps shown as
//! "Mon D, YYYY - HH:MM TZ", and capitalization.
use vstd::prelude::*;
use crate::text::{chars_of, push_all, vec_slice};

verus! {

/// What jiff's `Timestamp` parser makes of `ts`, in nanoseconds since the
/// Unix epoch; none when it does not parse.
pub uninterp spec fn jiff_parse_nanos(ts: Seq<char>) -> Option<i128>;

/// Whether `Timestamp::from_nanosecond` accepts `n`: it lies between
/// `Timestamp::MIN` and `Timestamp::MAX` (the civil years -9999 to 9999
/// narrowed on both ends by the largest offset, 25:59:59), in nanoseconds.
pub open spec fn jiff_nanos_valid(n: i128) -> bool {
    -377705023201000000000 <= n <= 253402207200999999999
}

/// The timestamp at `n` nanoseconds written "%b %-d, %Y - %H:%M UTC" in UTC.
pub uninterp spec fn jiff_utc_label(n: i128) -> Seq<char>;

/// The uppercase mapping of `c` (one or more characters).
pub uninterp spec fn char_uppercase(c: char) -> Seq<char>;

/// Parses an RFC 3339 / ISO 8601 timestamp.
///
/// Wraps `<jiff::Timestamp as FromStr>::from_str` and `Timestamp::as_nanosecond`
/// (a conversion). The result depends on `ts` alone; every timestamp jiff
/// parses lies in its supported range, so `from_nanosecond` accepts it.
#[verifier::external_body]
fn parse_timestamp_nanos(ts: &str) -> (r: Option<i128>)
    ensures
        r == jiff_parse_nanos(ts@),
        r matches Some(n) ==> jiff_nanos_valid(n),
{
    ts.parse::<jiff::Timestamp>().ok().map(|t| t.as_nanosecond())
}

/// Formats a timestamp in UTC.
///
/// Wraps `Timestamp::from_nanosecond`, `to_zoned(TimeZone::UTC)` and
/// `Zoned::strftime`. `from_nanosecond` fails only out of range.
#[verifier::external_body]
fn utc_label(n: i128) -> (r: Option<String>)
    ensures
        r is Some <==> jiff_nanos_valid(n),
        r matches Some(s) ==> s@ == jiff_utc_label(n),
{
    match jiff::Timestamp::from_nanosecond(n) {
        Ok(t) => Some(t.to_zoned(jiff::tz::TimeZone::UTC).strftime("%b %-d, %Y - %H:%M UTC").to_string()),
        Err(_) => None,
    }
}

/// The timestamp at `n` nanoseconds written "%b %-d, %Y - %H:%M %Z" at UTC
/// offset `offset` seconds, with `abbrev` as the zone's abbreviation.
pub uninterp spec fn jiff_zoned_label(n: i128, offset: int, abbrev: Seq<char>) -> Seq<char>;

/// Formats a timestamp in the system's local time zone, giving the label,
/// the zone's offset at that instant (seconds east of UTC) and the zone's
/// abbreviation there.
///
/// Wraps `TimeZone::try_system`, `Timestamp::from_nanosecond`,
/// `Timestamp::to_zoned`, `Zoned::offset`, `TimeZone::to_offset_info` and
/// `Zoned::strftime`. Which zone the machine is in is not a function of
/// `n`, so the offset and abbreviation are left open; the label is the
/// pure rendering of `n` at them (`%Z` prints the abbreviation of the
/// zone's offset info at the instant). It is absent when the zone cannot be
/// determined or `n` is out of range.
#[verifier::external_body]
fn local_label(n: i128) -> (r: Option<(String, i32, String)>)
    ensures
        r matches Some((s, off, ab)) ==> jiff_nanos_valid(n) && s@ == jiff_zoned_label(n, off as int, ab@),
{
    let t = jiff::Timestamp::from_nanosecond(n).ok()?;
    let tz = jiff::tz::TimeZone::try_system().ok()?;
    let ab = tz.to_offset_info(t).abbreviation().to_string();
    let z = t.to_zoned(tz);
    Some((z.strftime("%b %-d, %Y - %H:%M %Z").to_string(), z.offset().seconds(), ab))
}

/// The UTC label of `ts`, or `ts` itself when it does not parse.
pub open spec fn spec_utc_timestamp(ts: Seq<char>) -> Seq<char> {
    match jiff_parse_nanos(ts) {
        Some(n) => jiff_utc_label(n),
        None => ts,
    }
}

/// Formats an API timestamp in UTC ("Mar 27, 2026 - 11:21 UTC"); text that
/// is not a timestamp comes back unchanged.
pub fn format_api_timestamp_utc(ts: &str) -> (r: String)
    ensures
        r@ == spec_utc_timestamp(ts@),
{
    match parse_timestamp_nanos(ts) {
        Some(n) => match utc_label(n) {
            Some(s) => s,
            None => ts.to_owned(),
        },
        None => ts.to_owned(),
    }
}

/// The label shown for `ts` given the local-time label `local`: the
/// local label when there is one, else the UTC label (or `ts` itself when
/// it is not a timestamp).
pub fn choose_label(local: Option<String>, ts: &str) -> (r: String)
    ensures
        r@ == match local {
            Some(s) => s@,
            None => spec_utc_timestamp(ts@),
        },
{
    match local {
        Some(s) => s,
        None => format_api_timestamp_utc(ts),
    }
}

/// Formats an API timestamp in local time, falling back to UTC when the
/// local zone is unknown; text that is not a timestamp comes back unchanged.
pub fn format_api_timestamp(ts: &str) -> (r: String)
    ensures
        jiff_parse_nanos(ts@) is None ==> r@ == ts@,
        jiff_parse_nanos(ts@) matches Some(n) ==> (r@ == jiff_utc_label(n) || exists|off: int, ab: Seq<char>|
            r@ == #[trigger] jiff_zoned_label(n, off, ab)),
{
    let local = match parse_timestamp_nanos(ts) {
        Some(n) => match local_label(n) {
            Some((s, _off, _ab)) => Some(s),
            None => None,
        },
        None => None,
    };
    choose_label(local, ts)
}

/// The uppercase mapping of a character.
///
/// Wraps `char::to_uppercase`: one or more characters, the character itself
/// when it has no uppercase mapping; for ASCII this is `to_ascii_uppercase`.
#[verifier::external_body]
fn uppercase_of(c: char) -> (r: String)
    ensures
        r@ == char_uppercase(c),
        'a' <= c <= 'z' ==> r@ == seq![((c as u32) - 32) as char],
        (c as u32) < 0x80 && !('a' <= c <= 'z') ==> r@ == seq![c],
{
    c.to_uppercase().to_string()
}

/// `s` with its first character in uppercase.
pub open spec fn spec_capitalize_first(s: Seq<char>) -> Seq<char> {
    if s.len() == 0 {
        s
    } else {
        char_uppercase(s[0]) + s.skip(1)
    }
}

/// Capitalizes the first character of `s`.
pub fn capitalize_first(s: &str) -> (r: String)
    ensures
        r@ == spec_capitalize_first(s@),
        s@.len() > 0 && 'a' <= s@[0] <= 'z' ==> r@ == seq![((s@[0] as u32) - 32) as char] + s@.skip(1),
        s@.len() > 0 && (s@[0] as u32) < 0x80 && !('a' <= s@[0] <= 'z') ==> r@ == s@,
{
    let v = chars_of(s);
    if v.len() == 0 {
        return String::new();
    }
    let mut out = uppercase_of(v[0]);
    let rest = vec_slice(&v, 1, v.len());
    push_all(&mut out, &rest);
    assert(rest@ =~= s@.skip(1));
    out
}

} // verus!
