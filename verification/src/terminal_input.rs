//! What keyboard text and dropped paths turn into before they reach a terminal.
use vstd::prelude::*;
use crate::text::{chars_of, push_char};

verus! {

broadcast use vstd::string::group_string_axioms;

/// The byte a terminal expects for backspace (ASCII DEL).
pub const DEL: u8 = 0x7f;

/// The character range that the host uses for arrow and function keys;
/// those keys arrive separately and are dropped from typed text.
pub open spec fn is_function_key_char(c: char) -> bool {
    0xF700 <= (c as u32) && (c as u32) <= 0xF8FF
}

/// Backspace, newline and carriage return need byte-level handling.
pub open spec fn is_control_char(c: char) -> bool {
    c == '\u{8}' || c == '\n' || c == '\r'
}

/// `s` without the function-key characters, in order.
pub open spec fn strip_function_keys(s: Seq<char>) -> Seq<char>
    decreases s.len(),
{
    if s.len() == 0 {
        Seq::empty()
    } else {
        let rest = strip_function_keys(s.drop_last());
        if is_function_key_char(s.last()) {
            rest
        } else {
            rest.push(s.last())
        }
    }
}

/// One write to the terminal: text, or raw bytes.
#[derive(Clone, Debug, PartialEq, Eq)]
pub enum InputChunk {
    Text(String),
    Bytes(Vec<u8>),
}

/// An `InputChunk` as plain values.
pub enum ChunkView {
    Text(Seq<char>),
    Bytes(Seq<u8>),
}

impl View for InputChunk {
    type V = ChunkView;

    open spec fn view(&self) -> ChunkView {
        match self {
            InputChunk::Text(s) => ChunkView::Text(s@),
            InputChunk::Bytes(b) => ChunkView::Bytes(b@),
        }
    }
}

/// The write that stands for one character on the slow path.
pub open spec fn char_chunk(c: char) -> ChunkView {
    if c == '\u{8}' {
        ChunkView::Bytes(seq![DEL])
    } else if c == '\n' || c == '\r' {
        ChunkView::Bytes(seq![13u8])
    } else {
        ChunkView::Text(seq![c])
    }
}

/// The writes for already filtered text `f`: the whole text at once when it
/// holds no control character, else one write per character.
pub open spec fn chunks_for(f: Seq<char>) -> Seq<ChunkView> {
    if f.len() == 0 {
        Seq::empty()
    } else if forall|i: int| 0 <= i < f.len() ==> !is_control_char(#[trigger] f[i]) {
        seq![ChunkView::Text(f)]
    } else {
        f.map_values(|c: char| char_chunk(c))
    }
}

/// What typing `text` does: whether local input takes the resize
/// authority back, and the writes sent, in order.
pub struct InputPlan {
    pub claim_resize: bool,
    pub chunks: Vec<InputChunk>,
}

/// The writes of `p` as plain values.
pub open spec fn plan_chunks(p: InputPlan) -> Seq<ChunkView> {
    p.chunks@.map_values(|c: InputChunk| c@)
}

/// Plans the writes for typed `text`: empty text does nothing; otherwise
/// the resize authority is claimed, function-key characters are dropped,
/// and what is left is sent whole, or character by character with
/// backspace as DEL and both line endings as a carriage return.
pub fn filter_input(text: &str) -> (p: InputPlan)
    ensures
        p.claim_resize == (text@.len() > 0),
        plan_chunks(p) == (if text@.len() == 0 {
            Seq::<ChunkView>::empty()
        } else {
            chunks_for(strip_function_keys(text@))
        }),
{
    let v = chars_of(text);
    if v.len() == 0 {
        let p = InputPlan { claim_resize: false, chunks: Vec::new() };
        assert(plan_chunks(p) =~= Seq::<ChunkView>::empty());
        return p;
    }
    let mut f: Vec<char> = Vec::new();
    let mut has_control = false;
    let mut i: usize = 0;
    while i < v.len()
        invariant
            i <= v@.len(),
            f@ == strip_function_keys(v@.take(i as int)),
            has_control == exists|j: int| 0 <= j < f@.len() && is_control_char(#[trigger] f@[j]),
        decreases v.len() - i,
    {
        let c = v[i];
        assert(v@.take(i + 1).drop_last() =~= v@.take(i as int));
        let code: u32 = c as u32;
        if !(0xF700 <= code && code <= 0xF8FF) {
            let ghost before = f@;
            f.push(c);
            assert(f@.drop_last() =~= before);
            if c == '\u{8}' || c == '\n' || c == '\r' {
                has_control = true;
                assert(is_control_char(f@[f@.len() - 1]));
            } else {
                if has_control {
                    let ghost j = choose|j: int| 0 <= j < before.len() && is_control_char(#[trigger] before[j]);
                    assert(f@[j] == before[j]);
                    assert(is_control_char(f@[j]));
                } else {
                    assert forall|j: int| 0 <= j < f@.len() implies !is_control_char(#[trigger] f@[j]) by {
                        if j < f@.len() - 1 {
                            assert(f@[j] == before[j]);
                        }
                    }
                }
            }
        }
        i += 1;
    }
    assert(v@.take(v@.len() as int) =~= v@);
    let mut chunks: Vec<InputChunk> = Vec::new();
    if f.len() == 0 {
    } else if !has_control {
        let mut s = String::new();
        let mut k: usize = 0;
        while k < f.len()
            invariant
                k <= f@.len(),
                s@ == f@.take(k as int),
            decreases f.len() - k,
        {
            push_char(&mut s, f[k]);
            assert(f@.take(k as int).push(f@[k as int]) =~= f@.take(k + 1));
            k += 1;
        }
        assert(f@.take(f@.len() as int) =~= f@);
        chunks.push(InputChunk::Text(s));
    } else {
        let mut k: usize = 0;
        while k < f.len()
            invariant
                k <= f@.len(),
                chunks@.len() == k,
                forall|m: int| 0 <= m < k ==> (#[trigger] chunks@[m])@ == char_chunk(f@[m]),
            decreases f.len() - k,
        {
            let c = f[k];
            if c == '\u{8}' {
                let b: Vec<u8> = vec![DEL];
                assert(b@ =~= seq![DEL]);
                chunks.push(InputChunk::Bytes(b));
            } else if c == '\n' || c == '\r' {
                let b: Vec<u8> = vec![13u8];
                assert(b@ =~= seq![13u8]);
                chunks.push(InputChunk::Bytes(b));
            } else {
                let mut s = String::new();
                push_char(&mut s, c);
                assert(s@ =~= seq![c]);
                chunks.push(InputChunk::Text(s));
            }
            k += 1;
        }
    }
    let p = InputPlan { claim_resize: true, chunks };
    assert(plan_chunks(p) =~= chunks_for(f@));
    p
}

/// Characters that a shell would read as syntax and that get a backslash.
pub open spec fn needs_shell_escape(c: char) -> bool {
    c == ' ' || c == '(' || c == ')' || c == '[' || c == ']' || c == '{' || c == '}'
        || c == '\'' || c == '"' || c == '`' || c == '$' || c == '&' || c == '|'
        || c == ';' || c == '<' || c == '>' || c == '*' || c == '?' || c == '!'
        || c == '#' || c == '~' || c == '\\'
}

/// `s` with a backslash before every character that needs one.
pub open spec fn shell_escaped(s: Seq<char>) -> Seq<char>
    decreases s.len(),
{
    if s.len() == 0 {
        Seq::empty()
    } else {
        let rest = shell_escaped(s.drop_last());
        if needs_shell_escape(s.last()) {
            rest.push('\\').push(s.last())
        } else {
            rest.push(s.last())
        }
    }
}

/// Escapes a dropped file path so that a shell reads it as one word.
pub fn shell_escape_path(path: &str) -> (r: String)
    ensures
        r@ == shell_escaped(path@),
{
    let v = chars_of(path);
    let mut out = String::new();
    let mut i: usize = 0;
    while i < v.len()
        invariant
            i <= v@.len(),
            out@ == shell_escaped(v@.take(i as int)),
        decreases v.len() - i,
    {
        let c = v[i];
        assert(v@.take(i + 1).drop_last() =~= v@.take(i as int));
        if c == ' ' || c == '(' || c == ')' || c == '[' || c == ']' || c == '{' || c == '}'
            || c == '\'' || c == '"' || c == '`' || c == '$' || c == '&' || c == '|'
            || c == ';' || c == '<' || c == '>' || c == '*' || c == '?' || c == '!'
            || c == '#' || c == '~' || c == '\\' {
            push_char(&mut out, '\\');
        }
        push_char(&mut out, c);
        i += 1;
    }
    assert(v@.take(v@.len() as int) =~= v@);
    out
}

/// What dropping files on a terminal types: each path escaped and followed
/// by a space, one write per path, in order.
pub fn file_drop_inputs(paths: &Vec<String>) -> (r: Vec<String>)
    ensures
        r@.len() == paths@.len(),
        forall|i: int| 0 <= i < r@.len() ==> (#[trigger] r@[i])@ == shell_escaped(paths@[i]@).push(' '),
{
    let mut r: Vec<String> = Vec::new();
    let mut i: usize = 0;
    while i < paths.len()
        invariant
            i <= paths@.len(),
            r@.len() == i,
            forall|j: int| 0 <= j < i ==> (#[trigger] r@[j])@ == shell_escaped(paths@[j]@).push(' '),
        decreases paths.len() - i,
    {
        let mut w = shell_escape_path(paths[i].as_str());
        push_char(&mut w, ' ');
        r.push(w);
        i += 1;
    }
    r
}

/// The escape of one character: a backslash first when it needs one.
pub open spec fn escape_char(c: char) -> Seq<char> {
    if needs_shell_escape(c) {
        seq!['\\', c]
    } else {
        seq![c]
    }
}

/// `shell_escaped`, unfolded from the front.
pub open spec fn escaped_from_front(s: Seq<char>) -> Seq<char>
    decreases s.len(),
{
    if s.len() == 0 {
        Seq::empty()
    } else {
        escape_char(s[0]) + escaped_from_front(s.skip(1))
    }
}

/// What a shell reads from `t`: a backslash makes the next character
/// literal and is dropped.
pub open spec fn shell_unescaped(t: Seq<char>) -> Seq<char>
    decreases t.len(),
{
    if t.len() == 0 {
        Seq::empty()
    } else if t[0] == '\\' && t.len() >= 2 {
        seq![t[1]] + shell_unescaped(t.skip(2))
    } else {
        seq![t[0]] + shell_unescaped(t.skip(1))
    }
}

proof fn lemma_front_push(s: Seq<char>, c: char)
    ensures
        escaped_from_front(s.push(c)) == escaped_from_front(s) + escape_char(c),
    decreases s.len(),
{
    if s.len() == 0 {
        assert(s.push(c).skip(1) =~= Seq::<char>::empty());
        assert(s.push(c)[0] == c);
        assert(escaped_from_front(s.push(c).skip(1)) == Seq::<char>::empty());
        assert(escaped_from_front(s) == Seq::<char>::empty());
        assert(escaped_from_front(s.push(c)) =~= escape_char(c));
    } else {
        assert(s.push(c).skip(1) =~= s.skip(1).push(c));
        lemma_front_push(s.skip(1), c);
        assert(escaped_from_front(s.push(c)) =~= escaped_from_front(s) + escape_char(c));
    }
}

proof fn lemma_escaped_front(s: Seq<char>)
    ensures
        shell_escaped(s) == escaped_from_front(s),
    decreases s.len(),
{
    if s.len() > 0 {
        lemma_escaped_front(s.drop_last());
        lemma_front_push(s.drop_last(), s.last());
        assert(s.drop_last().push(s.last()) =~= s);
        assert(shell_escaped(s) =~= shell_escaped(s.drop_last()) + escape_char(s.last()));
    }
}

proof fn lemma_unescape_front(s: Seq<char>)
    ensures
        shell_unescaped(escaped_from_front(s)) == s,
    decreases s.len(),
{
    if s.len() > 0 {
        let t = escaped_from_front(s);
        let rest = escaped_from_front(s.skip(1));
        lemma_unescape_front(s.skip(1));
        if needs_shell_escape(s[0]) {
            assert(t.skip(2) =~= rest);
            assert(t[0] == '\\' && t[1] == s[0]);
        } else {
            assert(t.skip(1) =~= rest);
            assert(t[0] == s[0]);
        }
        assert(shell_unescaped(t) =~= s);
    }
}

/// Escaping loses nothing: the shell reads exactly the path back.
pub proof fn law_shell_escape_round_trip(path: Seq<char>)
    ensures
        shell_unescaped(shell_escaped(path)) == path,
{
    lemma_escaped_front(path);
    lemma_unescape_front(path);
}

proof fn lemma_strip_function_keys(s: Seq<char>)
    ensures
        forall|i: int| 0 <= i < strip_function_keys(s).len() ==> !is_function_key_char(#[trigger] strip_function_keys(s)[i]),
    decreases s.len(),
{
    if s.len() > 0 {
        lemma_strip_function_keys(s.drop_last());
        let r = strip_function_keys(s.drop_last());
        let t = strip_function_keys(s);
        assert forall|i: int| 0 <= i < t.len() implies !is_function_key_char(#[trigger] t[i]) by {
            if i < r.len() {
                assert(t[i] == r[i]);
            }
        }
    }
}

/// No function-key character ever reaches the terminal: no text write of
/// a plan holds one.
pub proof fn law_no_function_keys_sent(text: Seq<char>, k: int, i: int)
    requires
        0 <= k < chunks_for(strip_function_keys(text)).len(),
        chunks_for(strip_function_keys(text))[k] matches ChunkView::Text(t) && 0 <= i < t.len(),
    ensures
        chunks_for(strip_function_keys(text))[k] matches ChunkView::Text(t) && !is_function_key_char(t[i]),
{
    let f = strip_function_keys(text);
    lemma_strip_function_keys(text);
    if !(forall|j: int| 0 <= j < f.len() ==> !is_control_char(#[trigger] f[j])) {
        assert(chunks_for(f)[k] == char_chunk(f[k]));
        assert(!is_function_key_char(f[k]));
    }
}

} // verus!
