//! Layout split directions and the modes of the diff viewer.
use vstd::prelude::*;
use crate::color::{byte_len, is_boundary, utf8_width};
use crate::text::{chars_of, push_str, string_from_chars, vec_slice};

verus! {

#[derive(Clone, Copy, Debug, PartialEq, Eq, Structural)]
pub enum SplitDirection {
    Horizontal,
    Vertical,
}

/// How the diff viewer lays out a diff.
#[derive(Clone, Copy, Debug, PartialEq, Eq, Structural)]
pub enum DiffViewMode {
    Unified,
    SideBySide,
}

impl Default for DiffViewMode {
    fn default() -> (m: Self)
        ensures
            m == DiffViewMode::Unified,
    {
        DiffViewMode::Unified
    }
}

impl DiffViewMode {
    /// The other layout.
    pub fn toggle(self) -> (r: Self)
        ensures
            r == (match self {
                DiffViewMode::Unified => DiffViewMode::SideBySide,
                DiffViewMode::SideBySide => DiffViewMode::Unified,
            }),
    {
        match self {
            DiffViewMode::Unified => DiffViewMode::SideBySide,
            DiffViewMode::SideBySide => DiffViewMode::Unified,
        }
    }
}

/// What the diff viewer compares.
#[derive(Clone, Debug, PartialEq, Eq)]
pub enum DiffMode {
    WorkingTree,
    Staged,
    /// The diff a commit (hash or ref) introduced.
    Commit(String),
    /// The difference between two branches.
    BranchCompare { base: String, head: String },
}

impl Default for DiffMode {
    fn default() -> (m: Self)
        ensures
            m == DiffMode::WorkingTree,
    {
        DiffMode::WorkingTree
    }
}

/// `h` cut to its first 7 bytes when it is longer.
pub open spec fn short_ref(h: Seq<char>) -> Seq<char> {
    if byte_len(h) > 7 {
        h.take(choose|j: int| 0 <= j <= h.len() && #[trigger] byte_len(h.take(j)) == 7)
    } else {
        h
    }
}

/// The label of a diff mode.
pub open spec fn spec_display_name(m: DiffMode) -> Seq<char> {
    match m {
        DiffMode::WorkingTree => "Unstaged"@,
        DiffMode::Staged => "Staged"@,
        DiffMode::Commit(h) => "Commit "@ + short_ref(h@),
        DiffMode::BranchCompare { base, head } => base@ + "..."@ + head@,
    }
}

/// Whether labelling `m` cuts a commit ref inside a character (it panics).
pub open spec fn label_panics(m: DiffMode) -> bool {
    match m {
        DiffMode::Commit(h) => byte_len(h@) > 7 && !is_boundary(h@, 7),
        _ => false,
    }
}

pub proof fn lemma_byte_len_step(s: Seq<char>, i: int)
    requires
        0 <= i < s.len(),
    ensures
        byte_len(s.take(i + 1)) == byte_len(s.take(i)) + utf8_width(s[i]),
        utf8_width(s[i]) >= 1,
{
    assert(s.take(i + 1).drop_last() =~= s.take(i));
}

/// Byte lengths of prefixes grow strictly.
pub proof fn lemma_byte_len_mono(s: Seq<char>, a: int, b: int)
    requires
        0 <= a < b <= s.len(),
    ensures
        byte_len(s.take(a)) < byte_len(s.take(b)),
    decreases b - a,
{
    lemma_byte_len_step(s, b - 1);
    if a < b - 1 {
        lemma_byte_len_mono(s, a, b - 1);
    }
}

fn char_width(c: char) -> (w: usize)
    ensures
        w == utf8_width(c),
{
    if (c as u32) < 0x80 {
        1
    } else if (c as u32) < 0x800 {
        2
    } else if (c as u32) < 0x10000 {
        3
    } else {
        4
    }
}

/// `h` cut to its first 7 bytes when it is longer.
fn short_ref_of(h: &String) -> (r: String)
    requires
        !(byte_len(h@) > 7 && !is_boundary(h@, 7)),
    ensures
        r@ == short_ref(h@),
{
    let v = chars_of(h.as_str());
    let mut total: usize = 0;
    let mut i: usize = 0;
    while i < v.len() && total < 7
        invariant
            i <= v@.len(),
            v@ == h@,
            total == byte_len(v@.take(i as int)),
            i > 0 ==> byte_len(v@.take(i - 1)) < 7,
        decreases v.len() - i,
    {
        proof {
            lemma_byte_len_step(v@, i as int);
        }
        total = total + char_width(v[i]);
        i += 1;
    }
    if i == v.len() && total <= 7 {
        assert(v@.take(i as int) =~= v@);
        return h.clone();
    }
    proof {
        if i == v.len() {
            assert(v@.take(i as int) =~= v@);
        } else {
            lemma_byte_len_mono(v@, i as int, v@.len() as int);
            assert(v@.take(v@.len() as int) =~= v@);
        }
        assert(byte_len(h@) > 7);
        let j = choose|j: int| 0 <= j <= h@.len() && #[trigger] byte_len(h@.take(j)) == 7;
        if j < i {
            if j < i - 1 {
                lemma_byte_len_mono(v@, j, i - 1);
            }
        } else if j > i {
            lemma_byte_len_mono(v@, i as int, j);
        }
        assert(j == i);
    }
    string_from_chars(&vec_slice(&v, 0, i))
}

impl DiffMode {
    /// The label shown for this mode.
    pub fn display_name(&self) -> (r: String)
        requires
            !label_panics(*self),
        ensures
            r@ == spec_display_name(*self),
    {
        match self {
            DiffMode::WorkingTree => "Unstaged".to_owned(),
            DiffMode::Staged => "Staged".to_owned(),
            DiffMode::Commit(hash) => {
                let mut s = "Commit ".to_owned();
                let short = short_ref_of(hash);
                push_str(&mut s, short.as_str());
                s
            },
            DiffMode::BranchCompare { base, head } => {
                let mut s = base.clone();
                push_str(&mut s, "...");
                push_str(&mut s, head.as_str());
                s
            },
        }
    }

    /// The other of working tree and staged; a commit or branch comparison
    /// goes back to the working tree.
    pub fn toggle(&self) -> (r: Self)
        ensures
            r == (match *self {
                DiffMode::WorkingTree => DiffMode::Staged,
                _ => DiffMode::WorkingTree,
            }),
    {
        match self {
            DiffMode::WorkingTree => DiffMode::Staged,
            DiffMode::Staged => DiffMode::WorkingTree,
            DiffMode::Commit(_) | DiffMode::BranchCompare { .. } => DiffMode::WorkingTree,
        }
    }
}

} // verus!
