//! Shell-integration command tracking: the parser turns the OSC
//! `777;vryn;{A|B|C|D};value` sequences that the integration scripts print into
//! events, and the tracker folds those events into a list of commands with
//! their rows, status, working directory and duration.
use vstd::prelude::*;
use vstd::utf8::{decode_utf8, valid_utf8};
use crate::text::{chars_of, is_prefix, parse_i32, parse_i32_chars, string_from_chars, trim, trim_chars, vec_slice, vec_starts_with};

verus! {

/// A point in time, as nanoseconds since the Unix epoch.
#[derive(Clone, Copy, Debug, PartialEq, Eq, Structural)]
pub struct Timestamp {
    pub nanos: u128,
}

/// A span of time in nanoseconds.
#[derive(Clone, Copy, Debug, PartialEq, Eq, Structural)]
pub struct Duration {
    pub nanos: u128,
}

impl Duration {
    /// A duration of `secs` whole seconds.
    pub fn from_secs(secs: u64) -> (d: Duration)
        ensures
            d.nanos == secs as int * 1_000_000_000,
    {
        Duration { nanos: secs as u128 * 1_000_000_000 }
    }
}

/// `earlier`-to-`later` distance, or `None` when `earlier` is later
/// (as `SystemTime::duration_since` answers).
pub open spec fn spec_duration_since(later: Timestamp, earlier: Timestamp) -> Option<Duration> {
    if later.nanos >= earlier.nanos {
        Some(Duration { nanos: (later.nanos - earlier.nanos) as u128 })
    } else {
        None
    }
}

impl Timestamp {
    /// The Unix epoch.
    pub fn unix_epoch() -> (t: Timestamp)
        ensures
            t.nanos == 0,
    {
        Timestamp { nanos: 0 }
    }

    /// The epoch plus `secs` seconds.
    pub fn from_secs(secs: u64) -> (t: Timestamp)
        ensures
            t.nanos == secs as int * 1_000_000_000,
    {
        Timestamp { nanos: secs as u128 * 1_000_000_000 }
    }

    /// How long after `earlier` this point lies.
    pub fn duration_since(self, earlier: Timestamp) -> (d: Option<Duration>)
        ensures
            d == spec_duration_since(self, earlier),
    {
        if self.nanos >= earlier.nanos {
            Some(Duration { nanos: self.nanos - earlier.nanos })
        } else {
            None
        }
    }
}

/// An event of the shell integration protocol.
#[derive(Clone, Debug, PartialEq, Eq)]
pub enum CommandTrackingEvent {
    PromptStart { cwd: Option<String> },
    CommandStart { command: String },
    CommandExecuted,
    CommandFinished { exit_code: Option<i32> },
}

/// The mathematical content of a `CommandTrackingEvent`.
pub enum EventView {
    PromptStart { cwd: Option<Seq<char>> },
    CommandStart { command: Seq<char> },
    CommandExecuted,
    CommandFinished { exit_code: Option<i32> },
}

pub open spec fn opt_str_view(o: Option<String>) -> Option<Seq<char>> {
    match o {
        Some(s) => Some(s@),
        None => None,
    }
}

impl View for CommandTrackingEvent {
    type V = EventView;

    open spec fn view(&self) -> EventView {
        match self {
            CommandTrackingEvent::PromptStart { cwd } => EventView::PromptStart { cwd: opt_str_view(*cwd) },
            CommandTrackingEvent::CommandStart { command } => EventView::CommandStart { command: command@ },
            CommandTrackingEvent::CommandExecuted => EventView::CommandExecuted,
            CommandTrackingEvent::CommandFinished { exit_code } => EventView::CommandFinished {
                exit_code: *exit_code,
            },
        }
    }
}

/// The characters `777;vryn;` that open every payload of the protocol.
pub open spec fn osc_tag() -> Seq<char> {
    seq!['7', '7', '7', ';', 'v', 'r', 'y', 'n', ';']
}

/// First position at or after `i` where `s` holds `c`.
pub open spec fn first_char_from(s: Seq<char>, c: char, i: int) -> Option<int>
    decreases s.len() - i,
{
    if i < 0 || i >= s.len() {
        None
    } else if s[i] == c {
        Some(i)
    } else {
        first_char_from(s, c, i + 1)
    }
}

/// `str::split_once(';')`, or the whole string and an empty value.
pub open spec fn split_kind(rest: Seq<char>) -> (Seq<char>, Seq<char>) {
    match first_char_from(rest, ';', 0) {
        Some(i) => (rest.take(i), rest.skip(i + 1)),
        None => (rest, seq![]),
    }
}

/// The trimmed value, or `None` when it is blank.
pub open spec fn spec_non_empty(value: Seq<char>) -> Option<Seq<char>> {
    if trim(value).len() == 0 {
        None
    } else {
        Some(trim(value))
    }
}

/// The event a payload encodes, if any.
pub open spec fn payload_event(p: Seq<char>) -> Option<EventView> {
    if !is_prefix(osc_tag(), p) {
        None
    } else {
        let (kind, value) = split_kind(p.skip(9));
        if kind == seq!['A'] {
            Some(EventView::PromptStart { cwd: spec_non_empty(value) })
        } else if kind == seq!['B'] {
            Some(EventView::CommandStart { command: trim(value) })
        } else if kind == seq!['C'] {
            Some(EventView::CommandExecuted)
        } else if kind == seq!['D'] {
            Some(EventView::CommandFinished { exit_code: parse_i32(trim(value)) })
        } else {
            None
        }
    }
}

/// The trimmed value as a string, or `None` when it is blank.
pub fn non_empty(value: &Vec<char>) -> (r: Option<String>)
    ensures
        opt_str_view(r) == spec_non_empty(value@),
{
    let t = trim_chars(value);
    if t.len() == 0 {
        None
    } else {
        Some(string_from_chars(&t))
    }
}

fn split_kind_exec(rest: &Vec<char>) -> (r: (Vec<char>, Vec<char>))
    ensures
        (r.0@, r.1@) == split_kind(rest@),
{
    let mut i: usize = 0;
    while i < rest.len()
        invariant
            i <= rest.len(),
            first_char_from(rest@, ';', 0) == first_char_from(rest@, ';', i as int),
        decreases rest.len() - i,
    {
        if rest[i] == ';' {
            return (vec_slice(rest, 0, i), vec_slice(rest, i + 1, rest.len()));
        }
        i += 1;
    }
    assert(rest@.subrange(0, rest@.len() as int) =~= rest@);
    (vec_slice(rest, 0, rest.len()), Vec::new())
}

fn is_single(v: &Vec<char>, c: char) -> (r: bool)
    ensures
        r == (v@ == seq![c]),
{
    if v.len() == 1 && v[0] == c {
        assert(v@ =~= seq![c]);
        true
    } else {
        false
    }
}

/// Decodes one payload (the text between `ESC ]` and the terminator).
pub fn parse_payload(payload: &str) -> (r: Option<CommandTrackingEvent>)
    ensures
        match r {
            Some(e) => payload_event(payload@) == Some(e@),
            None => payload_event(payload@) is None,
        },
{
    let p = chars_of(payload);
    let tag: Vec<char> = vec!['7', '7', '7', ';', 'v', 'r', 'y', 'n', ';'];
    assert(tag@ =~= osc_tag());
    if !vec_starts_with(&p, &tag) {
        return None;
    }
    let rest = vec_slice(&p, 9, p.len());
    assert(rest@ =~= p@.skip(9));
    let (kind, value) = split_kind_exec(&rest);
    if is_single(&kind, 'A') {
        Some(CommandTrackingEvent::PromptStart { cwd: non_empty(&value) })
    } else if is_single(&kind, 'B') {
        let t = trim_chars(&value);
        Some(CommandTrackingEvent::CommandStart { command: string_from_chars(&t) })
    } else if is_single(&kind, 'C') {
        Some(CommandTrackingEvent::CommandExecuted)
    } else if is_single(&kind, 'D') {
        let t = trim_chars(&value);
        Some(CommandTrackingEvent::CommandFinished { exit_code: parse_i32_chars(&t) })
    } else {
        None
    }
}

/// `String::from_utf8_lossy`: the text that `bytes` decode to, invalid
/// sequences replaced by U+FFFD.
pub uninterp spec fn utf8_lossy(bytes: Seq<u8>) -> Seq<char>;

/// Decodes bytes as UTF-8, replacing invalid sequences.
///
/// Wraps `String::from_utf8_lossy`; the contract names its result and states
/// what its documentation says of valid input: it is decoded unchanged.
#[verifier::external_body]
fn lossy_string(bytes: &[u8]) -> (s: String)
    ensures
        s@ == utf8_lossy(bytes@),
        valid_utf8(bytes@) ==> s@ == decode_utf8(bytes@),
{
    String::from_utf8_lossy(bytes).to_string()
}

/// The text of a sequence's payload bytes: decoded as they are when they are
/// valid UTF-8, else with invalid sequences replaced.
pub open spec fn payload_text(bytes: Seq<u8>) -> Seq<char> {
    if valid_utf8(bytes) {
        decode_utf8(bytes)
    } else {
        utf8_lossy(bytes)
    }
}

/// First position at or after `i` where `needle` occurs in `h`.
pub open spec fn first_window_from(h: Seq<u8>, needle: Seq<u8>, i: int) -> Option<int>
    decreases h.len() + 1 - i,
{
    if i < 0 || i + needle.len() > h.len() {
        None
    } else if h.subrange(i, i + needle.len()) == needle {
        Some(i)
    } else {
        first_window_from(h, needle, i + 1)
    }
}

/// First position where `needle` occurs in `h`.
pub open spec fn first_window(h: Seq<u8>, needle: Seq<u8>) -> Option<int> {
    first_window_from(h, needle, 0)
}

pub proof fn lemma_first_window_from(h: Seq<u8>, needle: Seq<u8>, i: int)
    requires
        0 <= i,
    ensures
        first_window_from(h, needle, i) matches Some(k) ==> i <= k && k + needle.len() <= h.len(),
    decreases h.len() + 1 - i,
{
    if i + needle.len() <= h.len() {
        lemma_first_window_from(h, needle, i + 1);
    }
}

/// Whether `needle` occurs in `haystack` at position `i`.
fn matches_at(haystack: &[u8], needle: &[u8], i: usize) -> (r: bool)
    requires
        i + needle@.len() <= haystack@.len(),
    ensures
        r == (haystack@.subrange(i as int, i + needle@.len()) == needle@),
{
    let n = needle.len();
    let hl = haystack.len();
    let mut j: usize = 0;
    while j < n
        invariant
            n == needle@.len(),
            hl == haystack@.len(),
            i + n <= haystack@.len(),
            j <= n,
            forall|k: int| 0 <= k < j ==> haystack@[i + k] == needle@[k],
        decreases n - j,
    {
        if haystack[i + j] != needle[j] {
            assert(haystack@.subrange(i as int, i + needle@.len())[j as int] != needle@[j as int]);
            return false;
        }
        j += 1;
    }
    assert(haystack@.subrange(i as int, i + needle@.len()) =~= needle@);
    true
}

/// First position where `needle` occurs in `haystack` (a window search).
pub fn find_bytes(haystack: &[u8], needle: &[u8]) -> (r: Option<usize>)
    requires
        needle@.len() > 0,
    ensures
        r matches Some(k) ==> first_window(haystack@, needle@) == Some(k as int),
        r is None ==> first_window(haystack@, needle@) is None,
{
    let n = needle.len();
    if n > haystack.len() {
        return None;
    }
    let hl = haystack.len();
    let last = hl - n;
    let mut i: usize = 0;
    while i <= last
        invariant
            n == needle@.len(),
            n > 0,
            hl == haystack@.len(),
            last + n == haystack@.len(),
            i <= last + 1,
            first_window(haystack@, needle@) == first_window_from(haystack@, needle@, i as int),
        decreases last + 1 - i,
    {
        if matches_at(haystack, needle, i) {
            return Some(i);
        }
        i += 1;
    }
    None
}

/// First position at or after `i` where `h` holds byte `b`.
pub open spec fn first_byte_from(h: Seq<u8>, b: u8, i: int) -> Option<int>
    decreases h.len() - i,
{
    if i < 0 || i >= h.len() {
        None
    } else if h[i] == b {
        Some(i)
    } else {
        first_byte_from(h, b, i + 1)
    }
}

pub proof fn lemma_first_byte_from(h: Seq<u8>, b: u8, i: int)
    requires
        0 <= i,
    ensures
        first_byte_from(h, b, i) matches Some(k) ==> i <= k < h.len() && h[k] == b,
    decreases h.len() - i,
{
    if i < h.len() {
        lemma_first_byte_from(h, b, i + 1);
    }
}

/// The string terminator `ESC \`.
pub open spec fn st_bytes() -> Seq<u8> {
    seq![0x1bu8, 0x5cu8]
}

/// The OSC introducer `ESC ]`.
pub open spec fn osc_start_bytes() -> Seq<u8> {
    seq![0x1bu8, 0x5du8]
}

/// Where the OSC body `d` ends and how long its terminator is: BEL (1 byte)
/// or ST (2 bytes), whichever comes first.
pub open spec fn osc_end(d: Seq<u8>) -> Option<(int, int)> {
    let bel = first_byte_from(d, 7u8, 0);
    let st = first_window(d, st_bytes());
    match (bel, st) {
        (Some(b), Some(t)) => if b < t {
            Some((b, 1))
        } else {
            Some((t, 2))
        },
        (Some(b), None) => Some((b, 1)),
        (None, Some(t)) => Some((t, 2)),
        (None, None) => None,
    }
}

pub proof fn lemma_osc_end(d: Seq<u8>)
    ensures
        osc_end(d) matches Some((e, t)) ==> 0 <= e && 1 <= t <= 2 && e + t <= d.len(),
{
    lemma_first_byte_from(d, 7u8, 0);
    lemma_first_window_from(d, st_bytes(), 0);
}

/// First position of byte `b` in `data`.
fn find_byte(data: &[u8], b: u8) -> (r: Option<usize>)
    ensures
        r matches Some(k) ==> first_byte_from(data@, b, 0) == Some(k as int),
        r is None ==> first_byte_from(data@, b, 0) is None,
{
    let mut i: usize = 0;
    while i < data.len()
        invariant
            i <= data.len(),
            first_byte_from(data@, b, 0) == first_byte_from(data@, b, i as int),
        decreases data.len() - i,
    {
        if data[i] == b {
            return Some(i);
        }
        i += 1;
    }
    None
}

/// Finds the end of an OSC body: position and terminator length.
pub fn find_osc_end(data: &[u8]) -> (r: Option<(usize, usize)>)
    ensures
        match r {
            Some((e, t)) => osc_end(data@) == Some((e as int, t as int)),
            None => osc_end(data@) is None,
        },
{
    let bel = find_byte(data, 7u8);
    let st_needle: Vec<u8> = vec![0x1bu8, 0x5cu8];
    assert(st_needle@ =~= st_bytes());
    let st = find_bytes(data, st_needle.as_slice());
    match (bel, st) {
        (Some(b), Some(t)) => if b < t {
            Some((b, 1))
        } else {
            Some((t, 2))
        },
        (Some(b), None) => Some((b, 1)),
        (None, Some(t)) => Some((t, 2)),
        (None, None) => None,
    }
}

/// Scanning a parser buffer: the events found, and what stays pending.
/// Junk before an `ESC ]` is dropped; an unterminated sequence stays pending
/// unless the buffer grew past 8192 bytes; a buffer with no `ESC ]` at all is
/// kept unless it grew past 4096 bytes.
pub open spec fn scan(buf: Seq<u8>) -> (Seq<EventView>, Seq<u8>)
    decreases buf.len(),
{
    match first_window(buf, osc_start_bytes()) {
        None => (seq![], if buf.len() > 4096 { seq![] } else { buf }),
        Some(start) => {
            let b = buf.skip(start);
            match osc_end(b.skip(2)) {
                None => (seq![], if b.len() > 8192 { seq![] } else { b }),
                Some((end, tl)) => {
                    proof {
                        lemma_first_window_from(buf, osc_start_bytes(), 0);
                        lemma_osc_end(b.skip(2));
                    }
                    let rest = b.skip(2 + end + tl);
                    let (evs, left) = scan(rest);
                    (
                        match payload_event(payload_text(b.subrange(2, 2 + end))) {
                            Some(e) => seq![e] + evs,
                            None => evs,
                        },
                        left,
                    )
                },
            }
        },
    }
}

/// `v[n..]` as a new vector.
fn skip_bytes(v: &Vec<u8>, n: usize) -> (r: Vec<u8>)
    requires
        n <= v@.len(),
    ensures
        r@ == v@.skip(n as int),
{
    let mut r: Vec<u8> = Vec::new();
    let mut i = n;
    while i < v.len()
        invariant
            n <= i <= v.len(),
            r@ == v@.subrange(n as int, i as int),
        decreases v.len() - i,
    {
        r.push(v[i]);
        assert(v@.subrange(n as int, i as int).push(v@[i as int]) =~= v@.subrange(n as int, i + 1));
        i += 1;
    }
    r
}

/// Splits the PTY output into shell-integration events; bytes of an
/// unfinished sequence are kept for the next call.
#[derive(Debug)]
pub struct CommandSequenceParser {
    pending: Vec<u8>,
}

pub open spec fn events_view(v: Seq<CommandTrackingEvent>) -> Seq<EventView> {
    v.map_values(|e: CommandTrackingEvent| e@)
}

impl CommandSequenceParser {
    /// The bytes kept for the next call.
    pub closed spec fn pending(self) -> Seq<u8> {
        self.pending@
    }

    pub fn new() -> (p: Self)
        ensures
            p.pending() == Seq::<u8>::empty(),
    {
        CommandSequenceParser { pending: Vec::new() }
    }

    /// Feeds output bytes; returns the events completed by them.
    pub fn push(&mut self, data: &[u8]) -> (events: Vec<CommandTrackingEvent>)
        ensures
            events_view(events@) == scan(old(self).pending() + data@).0,
            final(self).pending() == scan(old(self).pending() + data@).1,
    {
        let mut buf: Vec<u8> = Vec::new();
        std::mem::swap(&mut buf, &mut self.pending);
        let ghost orig = buf@ + data@;
        let mut k: usize = 0;
        while k < data.len()
            invariant
                k <= data.len(),
                buf@ == old(self).pending() + data@.take(k as int),
                orig == old(self).pending() + data@,
            decreases data.len() - k,
        {
            buf.push(data[k]);
            assert(data@.take(k + 1) =~= data@.take(k as int).push(data@[k as int]));
            k += 1;
        }
        assert(data@.take(data.len() as int) =~= data@);
        let mut events: Vec<CommandTrackingEvent> = Vec::new();
        let start_needle: Vec<u8> = vec![0x1bu8, 0x5du8];
        assert(start_needle@ =~= osc_start_bytes());
        loop
            invariant_except_break
                scan(orig).0 == events_view(events@) + scan(buf@).0,
                scan(orig).1 == scan(buf@).1,
            invariant
                start_needle@ == osc_start_bytes(),
            ensures
                events_view(events@) == scan(orig).0,
                buf@ == scan(orig).1,
            decreases buf@.len(),
        {
            let ghost b0 = buf@;
            let found = find_bytes(buf.as_slice(), start_needle.as_slice());
            match found {
                None => {
                    if buf.len() > 4096 {
                        buf = Vec::new();
                    }
                    assert(first_window(b0, osc_start_bytes()) is None);
                    assert(scan(b0) == (Seq::<EventView>::empty(), buf@));
                    assert(events_view(events@) + Seq::<EventView>::empty() =~= events_view(events@));
                    break;
                },
                Some(start) => {
                    proof {
                        lemma_first_window_from(b0, osc_start_bytes(), 0);
                    }
                    let b = skip_bytes(&buf, start);
                    let body = skip_bytes(&b, 2);
                    match find_osc_end(body.as_slice()) {
                        None => {
                            assert(scan(b0).0 == Seq::<EventView>::empty());
                            buf = if b.len() > 8192 {
                                Vec::new()
                            } else {
                                b
                            };
                            assert(scan(b0).1 == buf@);
                            assert(events_view(events@) + Seq::<EventView>::empty() =~= events_view(events@));
                            break;
                        },
                        Some((end, tl)) => {
                            proof {
                                lemma_osc_end(body@);
                            }
                            assert(end + tl <= body@.len());
                            assert(body@.len() == b@.len() - 2);
                            let bl = b.len();
                            let stop = 2 + end;
                            let consumed = stop + tl;
                            let mut payload_bytes: Vec<u8> = Vec::new();
                            let mut j: usize = 2;
                            while j < stop
                                invariant
                                    stop == 2 + end,
                                    2 <= j <= stop <= b@.len(),
                                    payload_bytes@ == b@.subrange(2, j as int),
                                decreases stop - j,
                            {
                                payload_bytes.push(b[j]);
                                assert(b@.subrange(2, j as int).push(b@[j as int]) =~= b@.subrange(2, j + 1));
                                j += 1;
                            }
                            let payload = lossy_string(payload_bytes.as_slice());
                            let rest = skip_bytes(&b, consumed);
                            assert(rest@ =~= b0.skip(start as int).skip(2 + end + tl));
                            let ev = parse_payload(payload.as_str());
                            let ghost evs_before = events@;
                            match ev {
                                Some(e) => {
                                    events.push(e);
                                    assert(events_view(events@) =~= events_view(evs_before).push(e@));
                                    assert(events_view(evs_before).push(e@) + scan(rest@).0 =~= events_view(evs_before) + (seq![e@] + scan(rest@).0));
                                },
                                None => {},
                            }
                            assert(payload@ == payload_text(b@.subrange(2, 2 + end)));
                            assert(scan(b0).0 == match payload_event(payload_text(b@.subrange(2, 2 + end))) {
                                Some(e) => seq![e] + scan(rest@).0,
                                None => scan(rest@).0,
                            });
                            assert(scan(b0).1 == scan(rest@).1);
                            buf = rest;
                        },
                    }
                },
            }
        }
        self.pending = buf;
        events
    }
}

/// How a tracked command ended (or that it is still running).
#[derive(Clone, Copy, Debug, PartialEq, Eq, Structural)]
pub enum CommandStatus {
    Running,
    Success,
    Error,
    Unknown,
}

/// A command seen through the shell integration.
#[derive(Debug)]
pub struct TrackedCommand {
    pub id: u64,
    pub command: String,
    pub status: CommandStatus,
    pub prompt_row: i32,
    pub command_row: i32,
    pub output_start_row: Option<i32>,
    pub output_end_row: Option<i32>,
    pub cwd: Option<String>,
    pub exit_code: Option<i32>,
    pub started_at: Timestamp,
    pub finished_at: Option<Timestamp>,
    pub duration: Option<Duration>,
}

/// The mathematical content of a `TrackedCommand`.
pub struct CommandView {
    pub id: u64,
    pub command: Seq<char>,
    pub status: CommandStatus,
    pub prompt_row: i32,
    pub command_row: i32,
    pub output_start_row: Option<i32>,
    pub output_end_row: Option<i32>,
    pub cwd: Option<Seq<char>>,
    pub exit_code: Option<i32>,
    pub started_at: Timestamp,
    pub finished_at: Option<Timestamp>,
    pub duration: Option<Duration>,
}

impl View for TrackedCommand {
    type V = CommandView;

    open spec fn view(&self) -> CommandView {
        CommandView {
            id: self.id,
            command: self.command@,
            status: self.status,
            prompt_row: self.prompt_row,
            command_row: self.command_row,
            output_start_row: self.output_start_row,
            output_end_row: self.output_end_row,
            cwd: opt_str_view(self.cwd),
            exit_code: self.exit_code,
            started_at: self.started_at,
            finished_at: self.finished_at,
            duration: self.duration,
        }
    }
}

fn clone_opt_string(o: &Option<String>) -> (r: Option<String>)
    ensures
        opt_str_view(r) == opt_str_view(*o),
{
    match o {
        Some(s) => Some(s.clone()),
        None => None,
    }
}

impl TrackedCommand {
    /// A copy with the same content.
    pub fn duplicate(&self) -> (r: TrackedCommand)
        ensures
            r@ == self@,
    {
        TrackedCommand {
            id: self.id,
            command: self.command.clone(),
            status: self.status,
            prompt_row: self.prompt_row,
            command_row: self.command_row,
            output_start_row: self.output_start_row,
            output_end_row: self.output_end_row,
            cwd: clone_opt_string(&self.cwd),
            exit_code: self.exit_code,
            started_at: self.started_at,
            finished_at: self.finished_at,
            duration: self.duration,
        }
    }
}

/// The most finished commands a tracker keeps.
pub const MAX_TRACKED_COMMANDS: usize = 1000;

/// The mathematical content of a `CommandTracker`.
pub struct TrackerView {
    pub next_id: u64,
    pub current: Option<CommandView>,
    pub commands: Seq<CommandView>,
    pub cwd: Option<Seq<char>>,
    pub prompt_row: Option<i32>,
    pub prompt_active: bool,
}

pub open spec fn commands_view(v: Seq<TrackedCommand>) -> Seq<CommandView> {
    v.map_values(|c: TrackedCommand| c@)
}

/// Status for an exit code: 0 succeeds, any other code fails, none is unknown.
pub open spec fn status_for(exit_code: Option<i32>) -> CommandStatus {
    match exit_code {
        Some(0) => CommandStatus::Success,
        Some(_) => CommandStatus::Error,
        None => CommandStatus::Unknown,
    }
}

/// The last `MAX_TRACKED_COMMANDS` commands of `s`.
pub open spec fn keep_last(s: Seq<CommandView>) -> Seq<CommandView> {
    if s.len() > 1000 {
        s.skip(s.len() - 1000)
    } else {
        s
    }
}

/// Whether a command text is blank (only whitespace).
pub open spec fn blank(command: Seq<char>) -> bool {
    trim(command).len() == 0
}

/// The tracker state after one event observed at `row` and time `now`.
pub open spec fn next_state(t: TrackerView, event: EventView, row: i32, now: Timestamp) -> TrackerView {
    match event {
        EventView::PromptStart { cwd } => TrackerView {
            cwd: if cwd is Some { cwd } else { t.cwd },
            prompt_row: Some(row),
            prompt_active: true,
            ..t
        },
        EventView::CommandStart { command } => if blank(command) {
            t
        } else {
            let prompt_row = match t.prompt_row {
                Some(r) => r,
                None => row,
            };
            TrackerView {
                next_id: (t.next_id + 1) as u64,
                prompt_active: false,
                current: Some(
                    CommandView {
                        id: t.next_id,
                        command,
                        status: CommandStatus::Running,
                        prompt_row,
                        command_row: prompt_row,
                        output_start_row: None,
                        output_end_row: None,
                        cwd: t.cwd,
                        exit_code: None,
                        started_at: now,
                        finished_at: None,
                        duration: None,
                    },
                ),
                ..t
            }
        },
        EventView::CommandExecuted => match t.current {
            Some(c) => TrackerView { current: Some(CommandView { output_start_row: Some(row), ..c }), ..t },
            None => t,
        },
        EventView::CommandFinished { exit_code } => match t.current {
            None => t,
            Some(c) => {
                let done = CommandView {
                    exit_code,
                    status: status_for(exit_code),
                    output_end_row: Some(row),
                    finished_at: Some(now),
                    duration: spec_duration_since(now, c.started_at),
                    ..c
                };
                TrackerView {
                    current: None,
                    commands: keep_last(t.commands.push(done)),
                    prompt_active: false,
                    ..t
                }
            },
        },
    }
}

/// The placeholder shown for an active prompt with no command yet.
pub open spec fn prompt_placeholder(prompt_row: i32, cwd: Option<Seq<char>>) -> CommandView {
    CommandView {
        id: 0,
        command: seq![],
        status: CommandStatus::Unknown,
        prompt_row,
        command_row: prompt_row,
        output_start_row: None,
        output_end_row: None,
        cwd,
        exit_code: None,
        started_at: Timestamp { nanos: 0 },
        finished_at: None,
        duration: None,
    }
}

/// What `commands()` lists: the finished commands, then the running one, or
/// else a placeholder for an active prompt.
pub open spec fn listed(t: TrackerView) -> Seq<CommandView> {
    match t.current {
        Some(c) => t.commands.push(c),
        None => if t.prompt_active && t.prompt_row is Some {
            t.commands.push(prompt_placeholder(t.prompt_row->0, t.cwd))
        } else {
            t.commands
        },
    }
}

/// Folds shell-integration events into tracked commands.
#[derive(Debug)]
pub struct CommandTracker {
    next_id: u64,
    current: Option<TrackedCommand>,
    commands: Vec<TrackedCommand>,
    cwd: Option<String>,
    prompt_row: Option<i32>,
    prompt_active: bool,
}

fn blank_text(s: &String) -> (r: bool)
    ensures
        r == blank(s@),
{
    let c = chars_of(s.as_str());
    let t = trim_chars(&c);
    t.len() == 0
}

impl CommandTracker {
    /// Every id handed out lies below the counter.
    #[verifier::type_invariant]
    spec fn ids_handed_out_below_counter(self) -> bool {
        ids_below(self.state())
    }

    pub closed spec fn state(self) -> TrackerView {
        TrackerView {
            next_id: self.next_id,
            current: match self.current {
                Some(c) => Some(c@),
                None => None,
            },
            commands: commands_view(self.commands@),
            cwd: opt_str_view(self.cwd),
            prompt_row: self.prompt_row,
            prompt_active: self.prompt_active,
        }
    }

    /// An empty tracker; ids start at 1.
    pub fn new() -> (t: Self)
        ensures
            t.state() == (TrackerView {
                next_id: 1,
                current: None,
                commands: seq![],
                cwd: None,
                prompt_row: None,
                prompt_active: false,
            }),
    {
        let t = CommandTracker {
            next_id: 1,
            current: None,
            commands: Vec::new(),
            cwd: None,
            prompt_row: None,
            prompt_active: false,
        };
        assert(commands_view(t.commands@) =~= seq![]);
        t
    }

    /// Applies one event observed at `row` and time `now`.
    pub fn handle_event(&mut self, event: CommandTrackingEvent, row: i32, now: Timestamp)
        requires
            (event@ matches EventView::CommandStart { command } && !blank(command)) ==> old(self).state().next_id
                < u64::MAX,
        ensures
            final(self).state() == next_state(old(self).state(), event@, row, now),
            ids_below(old(self).state()),
    {
        proof {
            use_type_invariant(&*self);
        }
        let ghost t0 = self.state();
        match event {
            CommandTrackingEvent::PromptStart { cwd } => {
                if let Some(cwd) = cwd {
                    self.cwd = Some(cwd);
                }
                self.prompt_row = Some(row);
                self.prompt_active = true;
            },
            CommandTrackingEvent::CommandStart { command } => {
                if blank_text(&command) {
                    return;
                }
                let prompt_row = match self.prompt_row {
                    Some(r) => r,
                    None => row,
                };
                self.prompt_active = false;
                let cmd = TrackedCommand {
                    id: self.next_id,
                    command,
                    status: CommandStatus::Running,
                    prompt_row,
                    command_row: prompt_row,
                    output_start_row: None,
                    output_end_row: None,
                    cwd: clone_opt_string(&self.cwd),
                    exit_code: None,
                    started_at: now,
                    finished_at: None,
                    duration: None,
                };
                self.next_id = self.next_id + 1;
                self.current = Some(cmd);
            },
            CommandTrackingEvent::CommandExecuted => {
                let mut cur: Option<TrackedCommand> = None;
                std::mem::swap(&mut cur, &mut self.current);
                match cur {
                    Some(mut c) => {
                        c.output_start_row = Some(row);
                        self.current = Some(c);
                    },
                    None => {},
                }
            },
            CommandTrackingEvent::CommandFinished { exit_code } => {
                let mut cur: Option<TrackedCommand> = None;
                std::mem::swap(&mut cur, &mut self.current);
                let mut c = match cur {
                    Some(c) => c,
                    None => {
                        return;
                    },
                };
                c.exit_code = exit_code;
                c.status = match exit_code {
                    Some(0) => CommandStatus::Success,
                    Some(_) => CommandStatus::Error,
                    None => CommandStatus::Unknown,
                };
                c.output_end_row = Some(row);
                c.finished_at = Some(now);
                c.duration = now.duration_since(c.started_at);
                let ghost bound = self.next_id;
                let mut cmds: Vec<TrackedCommand> = Vec::new();
                std::mem::swap(&mut cmds, &mut self.commands);
                let ghost cs = commands_view(cmds@);
                assert(cs == t0.commands);
                assert(c.id < bound);
                cmds.push(c);
                let ghost all = commands_view(cmds@);
                assert(all =~= cs.push(c@));
                assert forall|j: int| 0 <= j < all.len() implies #[trigger] all[j].id < bound by {
                    if j < cs.len() {
                        assert(all[j] == cs[j]);
                        assert(t0.commands[j].id < t0.next_id);
                    }
                }
                self.prompt_active = false;
                if cmds.len() > MAX_TRACKED_COMMANDS {
                    let mut kept: Vec<TrackedCommand> = Vec::new();
                    let drop_n = cmds.len() - MAX_TRACKED_COMMANDS;
                    let mut i: usize = 0;
                    let n = cmds.len();
                    while i < n
                        invariant
                            n == cmds@.len(),
                            drop_n == n - 1000,
                            i <= n,
                            all == commands_view(cmds@),
                            forall|j: int| 0 <= j < all.len() ==> #[trigger] all[j].id < bound,
                            commands_view(kept@) == (if i <= drop_n { seq![] } else { all.subrange(drop_n as int, i as int) }),
                        decreases n - i,
                    {
                        if i >= drop_n {
                            let d = cmds[i].duplicate();
                            let ghost before = commands_view(kept@);
                            kept.push(d);
                            assert(commands_view(kept@) =~= before.push(all[i as int]));
                            assert(all.subrange(drop_n as int, i + 1) =~= (if i <= drop_n { seq![] } else { all.subrange(drop_n as int, i as int) }).push(all[i as int]));
                        }
                        i += 1;
                    }
                    assert(all.subrange(drop_n as int, n as int) =~= all.skip(all.len() - 1000));
                    assert forall|j: int| 0 <= j < commands_view(kept@).len() implies #[trigger] commands_view(kept@)[j].id
                        < bound by {
                        assert(commands_view(kept@)[j] == all[drop_n + j]);
                    }
                    self.commands = kept;
                } else {
                    self.commands = cmds;
                }
            },
        }
        assert(self.state() == next_state(t0, event@, row, now));
    }

    /// The tracked commands, then the running one (or a placeholder for an
    /// active prompt).
    pub fn commands(&self) -> (r: Vec<TrackedCommand>)
        ensures
            commands_view(r@) == listed(self.state()),
            ids_below(self.state()),
    {
        proof {
            use_type_invariant(self);
        }
        let mut out: Vec<TrackedCommand> = Vec::new();
        let mut i: usize = 0;
        while i < self.commands.len()
            invariant
                i <= self.commands@.len(),
                commands_view(out@) == commands_view(self.commands@).take(i as int),
            decreases self.commands.len() - i,
        {
            let d = self.commands[i].duplicate();
            let ghost before = commands_view(out@);
            out.push(d);
            assert(commands_view(out@) =~= before.push(self.commands@[i as int]@));
            assert(commands_view(self.commands@).take(i + 1) =~= commands_view(self.commands@).take(i as int).push(
                self.commands@[i as int]@,
            ));
            i += 1;
        }
        assert(commands_view(self.commands@).take(self.commands@.len() as int) =~= commands_view(self.commands@));
        let ghost base = commands_view(out@);
        match &self.current {
            Some(c) => {
                out.push(c.duplicate());
                assert(commands_view(out@) =~= base.push(c@));
            },
            None => {
                if self.prompt_active {
                    match self.prompt_row {
                        Some(prompt_row) => {
                            let p = TrackedCommand {
                                id: 0,
                                command: String::new(),
                                status: CommandStatus::Unknown,
                                prompt_row,
                                command_row: prompt_row,
                                output_start_row: None,
                                output_end_row: None,
                                cwd: clone_opt_string(&self.cwd),
                                exit_code: None,
                                started_at: Timestamp::unix_epoch(),
                                finished_at: None,
                                duration: None,
                            };
                            out.push(p);
                            assert(commands_view(out@) =~= base.push(prompt_placeholder(prompt_row, opt_str_view(self.cwd))));
                        },
                        None => {},
                    }
                }
            },
        }
        out
    }

    /// Forgets all commands and the prompt (the id counter and cwd stay).
    pub fn clear(&mut self)
        ensures
            final(self).state() == (TrackerView {
                current: None,
                commands: seq![],
                prompt_row: None,
                prompt_active: false,
                ..old(self).state()
            }),
            ids_below(old(self).state()),
    {
        proof {
            use_type_invariant(&*self);
        }
        self.current = None;
        let empty: Vec<TrackedCommand> = Vec::new();
        assert(commands_view(empty@) =~= seq![]);
        self.commands = empty;
        self.prompt_row = None;
        self.prompt_active = false;
        assert(commands_view(self.commands@) =~= seq![]);
    }
}

/// Every id the tracker handed out is below its counter, which starts at 1
/// (the placeholder row of a prompt has id 0).
pub open spec fn ids_below(t: TrackerView) -> bool {
    &&& t.next_id >= 1
    &&& forall|i: int| 0 <= i < t.commands.len() ==> #[trigger] t.commands[i].id < t.next_id
    &&& (t.current matches Some(c) ==> c.id < t.next_id)
}

/// A new tracker has all its ids below its counter, every event keeps it so,
/// and the counter never goes down.
pub proof fn law_events_keep_ids_below(t: TrackerView, event: EventView, row: i32, now: Timestamp)
    requires
        ids_below(t),
        (event matches EventView::CommandStart { command } && !blank(command)) ==> t.next_id < u64::MAX,
    ensures
        ids_below(next_state(t, event, row, now)),
        next_state(t, event, row, now).next_id >= t.next_id,
        ids_below(TrackerView { next_id: 1, current: None, commands: seq![], cwd: None, prompt_row: None, prompt_active: false }),
{
    match event {
        EventView::CommandFinished { exit_code } => match t.current {
            Some(c) => {
                let done = CommandView {
                    exit_code,
                    status: status_for(exit_code),
                    output_end_row: Some(row),
                    finished_at: Some(now),
                    duration: spec_duration_since(now, c.started_at),
                    ..c
                };
                let all = t.commands.push(done);
                let kept = keep_last(all);
                assert forall|i: int| 0 <= i < kept.len() implies #[trigger] kept[i].id < t.next_id by {
                    if all.len() > 1000 {
                        assert(kept[i] == all[i + (all.len() - 1000)]);
                    }
                    let j = if all.len() > 1000 { i + (all.len() - 1000) } else { i };
                    if j < t.commands.len() {
                        assert(all[j] == t.commands[j]);
                    }
                }
            },
            None => {},
        },
        _ => {},
    }
}

/// Clearing forgets every command but not the counter: a command started
/// afterwards is the only one listed, and its id is above every id listed
/// before the clear. Every `CommandTracker` meets `ids_below` (a type
/// invariant, which `clear` and `handle_event` state of the tracker they
/// were given), so this holds of every tracker.
pub proof fn law_clear_never_reuses_ids(t: TrackerView, command: Seq<char>, row: i32, now: Timestamp)
    requires
        ids_below(t),
        !blank(command),
        t.next_id < u64::MAX,
    ensures
        ({
            let cleared = TrackerView { current: None, commands: seq![], prompt_row: None, prompt_active: false, ..t };
            let after = next_state(cleared, EventView::CommandStart { command }, row, now);
            &&& listed(cleared).len() == 0
            &&& listed(after).len() == 1
            &&& listed(after)[0].command == command
            &&& forall|i: int| 0 <= i < listed(t).len() ==> #[trigger] listed(t)[i].id < listed(after)[0].id
        }),
{
    let l = listed(t);
    assert forall|i: int| 0 <= i < l.len() implies #[trigger] l[i].id < t.next_id by {
        if i < t.commands.len() {
            assert(l[i] == t.commands[i]);
        }
    }
}

proof fn lemma_first_byte_extend(x: Seq<u8>, y: Seq<u8>, c: u8, i: int)
    requires
        0 <= i,
    ensures
        first_byte_from(x, c, i) matches Some(k) ==> first_byte_from(x + y, c, i) == Some(k),
        first_byte_from(x, c, i) is None ==> (first_byte_from(x + y, c, i) matches Some(k) ==> k >= x.len()),
    decreases x.len() - i,
{
    if i < x.len() {
        assert((x + y)[i] == x[i]);
        lemma_first_byte_extend(x, y, c, i + 1);
    } else {
        lemma_first_byte_from(x + y, c, i);
    }
}

proof fn lemma_first_window_content(h: Seq<u8>, needle: Seq<u8>, i: int)
    requires
        0 <= i,
    ensures
        first_window_from(h, needle, i) matches Some(k) ==> h.subrange(k, k + needle.len()) == needle,
    decreases h.len() + 1 - i,
{
    if i + needle.len() <= h.len() {
        lemma_first_window_content(h, needle, i + 1);
    }
}

proof fn lemma_first_window_extend(x: Seq<u8>, y: Seq<u8>, needle: Seq<u8>, i: int)
    requires
        0 <= i,
    ensures
        first_window_from(x, needle, i) matches Some(k) ==> first_window_from(x + y, needle, i) == Some(k),
        first_window_from(x, needle, i) is None ==> (first_window_from(x + y, needle, i) matches Some(k) ==> k
            + needle.len() > x.len()),
    decreases x.len() + 1 - i,
{
    if i + needle.len() <= x.len() {
        assert((x + y).subrange(i, i + needle.len()) =~= x.subrange(i, i + needle.len()));
        lemma_first_window_extend(x, y, needle, i + 1);
    } else {
        lemma_first_window_from(x + y, needle, i);
    }
}

proof fn lemma_osc_end_extend(x: Seq<u8>, y: Seq<u8>)
    requires
        osc_end(x) is Some,
    ensures
        osc_end(x + y) == osc_end(x),
{
    lemma_first_byte_extend(x, y, 7u8, 0);
    lemma_first_window_extend(x, y, st_bytes(), 0);
    lemma_first_byte_from(x, 7u8, 0);
    lemma_first_byte_from(x + y, 7u8, 0);
    lemma_first_window_from(x, st_bytes(), 0);
    lemma_first_window_from(x + y, st_bytes(), 0);
    lemma_first_window_content(x + y, st_bytes(), 0);
    match first_window(x + y, st_bytes()) {
        Some(t) => {
            assert((x + y).subrange(t, t + 2)[0] == (x + y)[t]);
        },
        None => {},
    }
}

/// Feeding a stream in two pieces gives the same events, and leaves the same
/// bytes pending, as feeding it at once: `a` is what the parser holds after
/// the first piece arrives (its pending bytes, then the piece), `b` the second
/// piece, while at most 4096 bytes are buffered.
pub proof fn law_chunking_independent(a: Seq<u8>, b: Seq<u8>)
    requires
        a.len() + b.len() <= 4096,
    ensures
        scan(a).0 + scan(scan(a).1 + b).0 == scan(a + b).0,
        scan(scan(a).1 + b).1 == scan(a + b).1,
    decreases a.len(),
{
    let ab = a + b;
    lemma_first_window_extend(a, b, osc_start_bytes(), 0);
    match first_window(a, osc_start_bytes()) {
        None => {
            assert(scan(a).0 + scan(a + b).0 =~= scan(a + b).0);
        },
        Some(start) => {
            lemma_first_window_from(a, osc_start_bytes(), 0);
            lemma_first_window_content(a, osc_start_bytes(), 0);
            let bb = a.skip(start);
            assert(ab.skip(start) =~= bb + b);
            assert((bb + b).subrange(0, 2) =~= a.subrange(start, start + 2));
            assert(first_window(bb + b, osc_start_bytes()) == Some(0int));
            assert((bb + b).skip(0) =~= bb + b);
            assert((bb + b).skip(2) =~= bb.skip(2) + b);
            match osc_end(bb.skip(2)) {
                None => {
                    assert(scan(a).0 + scan(bb + b).0 =~= scan(bb + b).0);
                },
                Some((end, tl)) => {
                    lemma_osc_end(bb.skip(2));
                    lemma_osc_end_extend(bb.skip(2), b);
                    let rest = bb.skip(2 + end + tl);
                    assert((bb + b).subrange(2, 2 + end) =~= bb.subrange(2, 2 + end));
                    assert((bb + b).skip(2 + end + tl) =~= rest + b);
                    law_chunking_independent(rest, b);
                    let ev = payload_event(payload_text(bb.subrange(2, 2 + end)));
                    match ev {
                        Some(e) => {
                            assert(seq![e] + scan(rest).0 + scan(scan(rest).1 + b).0 =~= seq![e] + (scan(rest).0
                                + scan(scan(rest).1 + b).0));
                        },
                        None => {},
                    }
                },
            }
        },
    }
}

/// Output begins where it is reported: while a command runs, a
/// `CommandExecuted` event at row `row` records `row` as that command's
/// output start and changes nothing else about it; with no command running
/// the event changes nothing.
pub proof fn law_executed_marks_output_start(t: TrackerView, row: i32, now: Timestamp)
    ensures
        t.current matches Some(c) ==> (next_state(t, EventView::CommandExecuted, row, now).current matches Some(c2)
            && c2.output_start_row == Some(row) && c2.id == c.id && c2.command == c.command && c2.status == c.status
            && c2.prompt_row == c.prompt_row && c2.command_row == c.command_row && c2.output_end_row
            == c.output_end_row && c2.cwd == c.cwd && c2.started_at == c.started_at),
        t.current is None ==> next_state(t, EventView::CommandExecuted, row, now) == t,
        next_state(t, EventView::CommandExecuted, row, now).commands == t.commands,
{
}

/// A command's whole life: started at row `r1` and time `n1`, its output
/// starting at row `r2`, finished at row `r3` and time `n3` with
/// `exit_code`. Afterwards nothing runs, and the last finished command is
/// that command with the next id, its text, its rows (the prompt row, or
/// `r1` when no prompt was seen), both times, the exit code, and the status
/// that code gives: success for 0, error for any other code, unknown for none.
pub proof fn law_command_lifecycle(
    t: TrackerView,
    command: Seq<char>,
    r1: i32,
    r2: i32,
    r3: i32,
    n1: Timestamp,
    n2: Timestamp,
    n3: Timestamp,
    exit_code: Option<i32>,
)
    requires
        !blank(command),
        t.next_id < u64::MAX,
    ensures
        ({
            let t1 = next_state(t, EventView::CommandStart { command }, r1, n1);
            let t2 = next_state(t1, EventView::CommandExecuted, r2, n2);
            let t3 = next_state(t2, EventView::CommandFinished { exit_code }, r3, n3);
            let c = t3.commands.last();
            let prompt = match t.prompt_row {
                Some(p) => p,
                None => r1,
            };
            &&& t3.current is None
            &&& t3.commands.len() >= 1
            &&& c.id == t.next_id
            &&& c.command == command
            &&& c.prompt_row == prompt
            &&& c.command_row == prompt
            &&& c.output_start_row == Some(r2)
            &&& c.output_end_row == Some(r3)
            &&& c.cwd == t.cwd
            &&& c.exit_code == exit_code
            &&& (exit_code == Some(0i32) ==> c.status == CommandStatus::Success)
            &&& (exit_code matches Some(code) && code != 0 ==> c.status == CommandStatus::Error)
            &&& (exit_code is None ==> c.status == CommandStatus::Unknown)
            &&& c.started_at == n1
            &&& c.finished_at == Some(n3)
            &&& t3.next_id == t.next_id + 1
        }),
{
    let t1 = next_state(t, EventView::CommandStart { command }, r1, n1);
    let t2 = next_state(t1, EventView::CommandExecuted, r2, n2);
    let done = t2.current->0;
    let all = t.commands.push(CommandView {
        exit_code,
        status: status_for(exit_code),
        output_end_row: Some(r3),
        finished_at: Some(n3),
        duration: spec_duration_since(n3, done.started_at),
        ..done
    });
    let kept = keep_last(all);
    assert(kept.last() == all.last());
}

/// The other events: a prompt start records its row and (when given) its
/// working directory and touches no command; a blank command start, and a
/// finish with nothing running, change nothing; finishing keeps at most
/// `MAX_TRACKED_COMMANDS` commands, dropping the oldest, with the finished
/// one last.
pub proof fn law_other_events(t: TrackerView, cwd: Option<Seq<char>>, command: Seq<char>, exit_code: Option<i32>, row: i32, now: Timestamp)
    ensures
        ({
            let p = next_state(t, EventView::PromptStart { cwd }, row, now);
            &&& p.prompt_row == Some(row)
            &&& p.prompt_active
            &&& p.cwd == (if cwd is Some { cwd } else { t.cwd })
            &&& p.commands == t.commands
            &&& p.current == t.current
            &&& p.next_id == t.next_id
        }),
        blank(command) ==> next_state(t, EventView::CommandStart { command }, row, now) == t,
        t.current is None ==> next_state(t, EventView::CommandFinished { exit_code }, row, now) == t,
        t.current is Some && t.commands.len() <= 1000 ==> ({
            let f = next_state(t, EventView::CommandFinished { exit_code }, row, now);
            &&& f.commands.len() == (if t.commands.len() == 1000 { 1000 } else { t.commands.len() + 1 })
            &&& f.commands.last().id == t.current->0.id
            &&& forall|i: int|
                0 <= i < f.commands.len() - 1 ==> #[trigger] f.commands[i] == t.commands[i + t.commands.len() + 1
                    - f.commands.len()]
        }),
{
    if t.current is Some && t.commands.len() <= 1000 {
        let f = next_state(t, EventView::CommandFinished { exit_code }, row, now);
        let all = t.commands.push(f.commands.last());
        assert forall|i: int| 0 <= i < f.commands.len() - 1 implies #[trigger] f.commands[i] == t.commands[i
            + t.commands.len() + 1 - f.commands.len()] by {
            if t.commands.len() == 1000 {
                assert(f.commands[i] == all[i + 1]);
            }
        }
    }
}

proof fn lemma_kind_split(k: char, v: Seq<char>)
    requires
        k != ';',
    ensures
        split_kind(seq![k, ';'] + v) == (seq![k], v),
{
    let r = seq![k, ';'] + v;
    assert(first_char_from(r, ';', 1) == Some(1int));
    assert(first_char_from(r, ';', 0) == Some(1int));
    assert(r.take(1) =~= seq![k]);
    assert(r.skip(2) =~= v);
}

/// What the shell integration sends: after `777;vryn;`, `A;<cwd>` starts a
/// prompt (a blank cwd counts as none), `B;<command>` starts the trimmed
/// command, `C` marks output starting, and `D;<code>` finishes with the
/// parsed exit code; a payload without that tag is no event.
pub proof fn law_payload_events(v: Seq<char>, p: Seq<char>)
    ensures
        payload_event(osc_tag() + seq!['A', ';'] + v) == Some(EventView::PromptStart { cwd: spec_non_empty(v) }),
        payload_event(osc_tag() + seq!['B', ';'] + v) == Some(EventView::CommandStart { command: trim(v) }),
        payload_event(osc_tag() + seq!['C']) == Some(EventView::CommandExecuted),
        payload_event(osc_tag() + seq!['D', ';'] + v) == Some(
            EventView::CommandFinished { exit_code: parse_i32(trim(v)) },
        ),
        !is_prefix(osc_tag(), p) ==> payload_event(p) is None,
{
    let t = osc_tag();
    let a = t + seq!['A', ';'] + v;
    assert(a.take(9) =~= t);
    assert(a.skip(9) =~= seq!['A', ';'] + v);
    lemma_kind_split('A', v);
    let b = t + seq!['B', ';'] + v;
    assert(b.take(9) =~= t);
    assert(b.skip(9) =~= seq!['B', ';'] + v);
    lemma_kind_split('B', v);
    let d = t + seq!['D', ';'] + v;
    assert(d.take(9) =~= t);
    assert(d.skip(9) =~= seq!['D', ';'] + v);
    lemma_kind_split('D', v);
    let c = t + seq!['C'];
    assert(c.take(9) =~= t);
    assert(c.skip(9) =~= seq!['C']);
    assert(first_char_from(seq!['C'], ';', 1) is None);
    assert(first_char_from(seq!['C'], ';', 0) is None);
    assert(seq!['B'] != seq!['A']) by {
        assert(seq!['B'][0] != seq!['A'][0]);
    }
    assert(seq!['C'] != seq!['A'] && seq!['C'] != seq!['B']) by {
        assert(seq!['C'][0] != seq!['A'][0]);
        assert(seq!['C'][0] != seq!['B'][0]);
    }
    assert(seq!['D'] != seq!['A'] && seq!['D'] != seq!['B'] && seq!['D'] != seq!['C']) by {
        assert(seq!['D'][0] != seq!['A'][0]);
        assert(seq!['D'][0] != seq!['B'][0]);
        assert(seq!['D'][0] != seq!['C'][0]);
    }
}

} // verus!
