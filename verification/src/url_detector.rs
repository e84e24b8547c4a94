//! Links found in terminal content: which link is under the mouse, which
//! link group is hovered, a bounded cache of file-existence answers, and the
//! editor command that opens a file link.
use vstd::prelude::*;
use vstd::string::StrSliceExecFns;
use std::sync::Arc;
use crate::color_map::KeyMap;
use crate::text::{
    all_digits, all_digits_chars, chars_of, dec_string, decimal, is_digit, is_prefix, join_path, last_index_of,
    path_join, push_str, rfind_char, string_from_chars, vec_slice,
};

verus! {

/// What a link points at.
#[derive(Clone, Copy, Debug, PartialEq, Eq, Structural)]
pub enum LinkKind {
    Url,
    FilePath { line: Option<u32>, col: Option<u32> },
}

/// A link shown in the terminal: `len` cells from (`line`, `col`).
#[derive(Clone, Debug)]
pub struct URLMatch {
    pub line: i32,
    pub col: usize,
    pub len: usize,
    pub url: String,
    pub kind: LinkKind,
    /// Links wrapped over several rows share a group and hover together.
    pub link_group: usize,
}

impl URLMatch {
    /// A copy of this match.
    pub fn duplicate(&self) -> (r: URLMatch)
        ensures
            r == *self,
    {
        URLMatch {
            line: self.line,
            col: self.col,
            len: self.len,
            url: self.url.clone(),
            kind: self.kind,
            link_group: self.link_group,
        }
    }
}

/// A link as the terminal's detector reports it, before file links are
/// checked against the disk.
#[derive(Clone, Debug)]
pub struct DetectedLink {
    pub line: i32,
    pub col: usize,
    pub len: usize,
    pub text: String,
    pub is_url: bool,
    pub wrap_group: usize,
    pub file_line: Option<u32>,
    pub file_col: Option<u32>,
}

/// Whether `m` covers cell (`col`, `row`).
pub open spec fn covers(m: URLMatch, col: usize, row: i32) -> bool {
    m.line == row && m.col <= col < m.col + m.len
}

/// Index of the first match from `i` on that covers the cell.
pub open spec fn first_cover(s: Seq<URLMatch>, col: usize, row: i32, i: int) -> Option<int>
    decreases s.len() - i,
{
    if i < 0 || i >= s.len() {
        None
    } else if covers(s[i], col, row) {
        Some(i)
    } else {
        first_cover(s, col, row, i + 1)
    }
}

/// The first match of `s` covering the cell.
pub open spec fn match_at(s: Seq<URLMatch>, col: usize, row: i32) -> Option<URLMatch> {
    match first_cover(s, col, row, 0) {
        Some(i) => Some(s[i]),
        None => None,
    }
}

/// The link group of the first match of `s` covering the cell.
pub open spec fn group_at(s: Seq<URLMatch>, col: usize, row: i32) -> Option<usize> {
    match first_cover(s, col, row, 0) {
        Some(i) => Some(s[i].link_group),
        None => None,
    }
}

/// The match shown for a detected link: URLs always, file paths only when
/// the file exists.
pub open spec fn link_match(l: DetectedLink, exists: bool) -> Option<URLMatch> {
    if l.is_url {
        Some(
            URLMatch {
                line: l.line,
                col: l.col,
                len: l.len,
                url: l.text,
                kind: LinkKind::Url,
                link_group: l.wrap_group,
            },
        )
    } else if exists {
        Some(
            URLMatch {
                line: l.line,
                col: l.col,
                len: l.len,
                url: l.text,
                kind: LinkKind::FilePath { line: l.file_line, col: l.file_col },
                link_group: l.wrap_group,
            },
        )
    } else {
        None
    }
}

/// The matches shown for `links`, in order; `exists[i]` tells whether the
/// file of link `i` exists.
pub open spec fn links_to_matches(links: Seq<DetectedLink>, exists: Seq<bool>) -> Seq<URLMatch>
    decreases links.len(),
{
    if links.len() == 0 {
        seq![]
    } else {
        let n = (links.len() - 1) as int;
        let rest = links_to_matches(links.take(n), exists.take(n));
        match link_match(links[n], exists[n]) {
            Some(m) => rest.push(m),
            None => rest,
        }
    }
}

/// Most file-existence answers kept before the cache starts over.
pub const PATH_CACHE_LIMIT: usize = 200;

/// Shares the match list.
///
/// Wraps `Arc::clone`, which returns another pointer to the same value.
#[verifier::external_body]
fn share_matches(a: &Arc<Vec<URLMatch>>) -> (r: Arc<Vec<URLMatch>>)
    ensures
        r@ == a@,
{
    Arc::clone(a)
}

/// A copy of every match of `v`.
fn duplicate_all(v: &Vec<URLMatch>) -> (r: Vec<URLMatch>)
    ensures
        r@ == v@,
{
    let mut r: Vec<URLMatch> = Vec::new();
    let mut i: usize = 0;
    while i < v.len()
        invariant
            i <= v@.len(),
            r@ == v@.take(i as int),
        decreases v.len() - i,
    {
        r.push(v[i].duplicate());
        assert(r@ =~= v@.take(i + 1));
        i += 1;
    }
    assert(v@.take(v@.len() as int) =~= v@);
    r
}

/// Finds and tracks the links of one terminal.
pub struct UrlDetector {
    matches: Vec<URLMatch>,
    matches_cache: Arc<Vec<URLMatch>>,
    hovered_group: Option<usize>,
    path_exists_cache: KeyMap<bool>,
    last_generation: u64,
}

impl UrlDetector {
    /// The shared copy of the matches is always the current list.
    #[verifier::type_invariant]
    spec fn cache_current(self) -> bool {
        self.matches_cache@ == self.matches@
    }

    /// The links currently shown.
    pub closed spec fn matches_view(self) -> Seq<URLMatch> {
        self.matches@
    }

    /// The hovered link group.
    pub closed spec fn hovered(self) -> Option<usize> {
        self.hovered_group
    }

    /// Cached answers to "does this path exist".
    pub closed spec fn path_cache(self) -> Map<Seq<char>, bool> {
        self.path_exists_cache@
    }

    /// Number of cached answers.
    pub closed spec fn path_cache_size(self) -> nat {
        self.path_exists_cache.size()
    }

    /// Content generation the matches were last computed for.
    pub closed spec fn generation(self) -> u64 {
        self.last_generation
    }

    pub fn new() -> (d: Self)
        ensures
            d.matches_view() == Seq::<URLMatch>::empty(),
            d.hovered() is None,
            d.path_cache() == Map::<Seq<char>, bool>::empty(),
            d.path_cache_size() == 0,
            d.generation() == u64::MAX,
    {
        let cache: KeyMap<bool> = KeyMap::new();
        let d = UrlDetector {
            matches: Vec::new(),
            matches_cache: Arc::new(Vec::new()),
            hovered_group: None,
            path_exists_cache: cache,
            last_generation: u64::MAX,
        };
        assert(d.matches_view() =~= Seq::<URLMatch>::empty());
        d
    }

    /// Records that the terminal content is at generation `content_generation`;
    /// returns whether it changed since the last update (links need detecting).
    pub fn begin_update(&mut self, content_generation: u64) -> (changed: bool)
        ensures
            changed == (content_generation != old(self).generation()),
            final(self).generation() == content_generation,
            final(self).matches_view() == old(self).matches_view(),
            final(self).hovered() == old(self).hovered(),
            final(self).path_cache() == old(self).path_cache(),
            final(self).path_cache_size() == old(self).path_cache_size(),
    {
        proof {
            use_type_invariant(&*self);
        }
        if content_generation == self.last_generation {
            return false;
        }
        self.last_generation = content_generation;
        true
    }

    /// The cached answer to whether the path in link text `text` exists.
    pub fn path_exists_cached(&self, text: &str) -> (r: Option<bool>)
        ensures
            r == (if self.path_cache().contains_key(text@) {
                Some(self.path_cache()[text@])
            } else {
                None
            }),
    {
        match self.path_exists_cache.get(text) {
            Some(e) => Some(*e),
            None => None,
        }
    }

    /// Caches whether the path in `text` exists; a full cache (200 answers)
    /// is emptied first.
    pub fn record_path_exists(&mut self, text: &str, exists: bool)
        ensures
            final(self).path_cache() == (if old(self).path_cache_size() >= PATH_CACHE_LIMIT {
                Map::<Seq<char>, bool>::empty()
            } else {
                old(self).path_cache()
            }).insert(text@, exists),
            final(self).matches_view() == old(self).matches_view(),
            final(self).hovered() == old(self).hovered(),
            final(self).generation() == old(self).generation(),
    {
        proof {
            use_type_invariant(&*self);
        }
        let mut cache: KeyMap<bool> = KeyMap::new();
        std::mem::swap(&mut cache, &mut self.path_exists_cache);
        if cache.len() >= PATH_CACHE_LIMIT {
            cache.clear();
        }
        cache.insert(text.to_owned(), exists);
        self.path_exists_cache = cache;
    }

    /// Replaces the shown links by those of `links`; `exists[i]` tells
    /// whether the file of link `i` exists (ignored for URLs).
    pub fn set_links(&mut self, links: &Vec<DetectedLink>, exists: &Vec<bool>)
        requires
            exists@.len() == links@.len(),
        ensures
            final(self).matches_view() == links_to_matches(links@, exists@),
            final(self).hovered() == old(self).hovered(),
            final(self).path_cache() == old(self).path_cache(),
            final(self).path_cache_size() == old(self).path_cache_size(),
            final(self).generation() == old(self).generation(),
    {
        proof {
            use_type_invariant(&*self);
        }
        let mut out: Vec<URLMatch> = Vec::new();
        let mut i: usize = 0;
        while i < links.len()
            invariant
                i <= links@.len(),
                exists@.len() == links@.len(),
                out@ == links_to_matches(links@.take(i as int), exists@.take(i as int)),
            decreases links.len() - i,
        {
            let l = &links[i];
            let m = if l.is_url {
                Some(
                    URLMatch {
                        line: l.line,
                        col: l.col,
                        len: l.len,
                        url: l.text.clone(),
                        kind: LinkKind::Url,
                        link_group: l.wrap_group,
                    },
                )
            } else if exists[i] {
                Some(
                    URLMatch {
                        line: l.line,
                        col: l.col,
                        len: l.len,
                        url: l.text.clone(),
                        kind: LinkKind::FilePath { line: l.file_line, col: l.file_col },
                        link_group: l.wrap_group,
                    },
                )
            } else {
                None
            };
            proof {
                assert(links@.take(i + 1).take(i as int) =~= links@.take(i as int));
                assert(exists@.take(i + 1).take(i as int) =~= exists@.take(i as int));
            }
            match m {
                Some(m) => out.push(m),
                None => {},
            }
            i += 1;
        }
        assert(links@.take(links@.len() as int) =~= links@);
        assert(exists@.take(exists@.len() as int) =~= exists@);
        let shared = Arc::new(duplicate_all(&out));
        let mut paths: KeyMap<bool> = KeyMap::new();
        std::mem::swap(&mut paths, &mut self.path_exists_cache);
        *self = UrlDetector {
            matches: out,
            matches_cache: shared,
            hovered_group: self.hovered_group,
            path_exists_cache: paths,
            last_generation: self.last_generation,
        };
    }

    /// Index of the first shown link covering cell (`col`, `row`).
    fn cover_index(&self, col: usize, row: i32) -> (r: Option<usize>)
        ensures
            r matches Some(i) ==> i < self.matches_view().len() && first_cover(self.matches_view(), col, row, 0)
                == Some(i as int),
            r is None ==> first_cover(self.matches_view(), col, row, 0) is None,
    {
        let mut i: usize = 0;
        while i < self.matches.len()
            invariant
                i <= self.matches@.len(),
                first_cover(self.matches@, col, row, 0) == first_cover(self.matches@, col, row, i as int),
            decreases self.matches.len() - i,
        {
            let m = &self.matches[i];
            if m.line == row && col >= m.col && col - m.col < m.len {
                return Some(i);
            }
            i += 1;
        }
        None
    }

    /// The link at cell (`col`, `row`), if any.
    pub fn find_at(&self, col: usize, row: i32) -> (r: Option<URLMatch>)
        ensures
            r == match_at(self.matches_view(), col, row),
    {
        match self.cover_index(col, row) {
            Some(i) => Some(self.matches[i].duplicate()),
            None => None,
        }
    }

    /// Sets the hovered group to that of the link under the mouse; returns
    /// whether it changed.
    pub fn update_hover(&mut self, col: usize, row: i32) -> (changed: bool)
        ensures
            final(self).hovered() == group_at(old(self).matches_view(), col, row),
            changed == (group_at(old(self).matches_view(), col, row) != old(self).hovered()),
            final(self).matches_view() == old(self).matches_view(),
            final(self).path_cache() == old(self).path_cache(),
            final(self).path_cache_size() == old(self).path_cache_size(),
            final(self).generation() == old(self).generation(),
    {
        proof {
            use_type_invariant(&*self);
        }
        let new_group = match self.cover_index(col, row) {
            Some(i) => Some(self.matches[i].link_group),
            None => None,
        };
        if new_group != self.hovered_group {
            self.hovered_group = new_group;
            true
        } else {
            false
        }
    }

    /// Clears the hover; returns whether something was hovered.
    pub fn clear_hover(&mut self) -> (changed: bool)
        ensures
            final(self).hovered() is None,
            changed == old(self).hovered() is Some,
            final(self).matches_view() == old(self).matches_view(),
            final(self).path_cache() == old(self).path_cache(),
            final(self).path_cache_size() == old(self).path_cache_size(),
            final(self).generation() == old(self).generation(),
    {
        proof {
            use_type_invariant(&*self);
        }
        if self.hovered_group.is_some() {
            self.hovered_group = None;
            true
        } else {
            false
        }
    }

    /// The hovered link group.
    pub fn hovered_group(&self) -> (r: Option<usize>)
        ensures
            r == self.hovered(),
    {
        self.hovered_group
    }

    /// The shown links, shared for rendering.
    pub fn matches_arc(&self) -> (r: Arc<Vec<URLMatch>>)
        ensures
            r@ == self.matches_view(),
    {
        proof {
            use_type_invariant(self);
        }
        share_matches(&self.matches_cache)
    }
}

/// `path` without a `:line` or `:line:col` suffix (runs of ASCII digits).
pub open spec fn spec_strip_line_col(path: Seq<char>) -> Seq<char> {
    match last_index_of(path, ':') {
        None => path,
        Some(p) => {
            let after = path.skip(p + 1);
            if after.len() > 0 && all_digits(after) {
                let before = path.take(p);
                match last_index_of(before, ':') {
                    Some(q) => {
                        let after2 = before.skip(q + 1);
                        if after2.len() > 0 && all_digits(after2) {
                            before.take(q)
                        } else {
                            before
                        }
                    },
                    None => before,
                }
            } else {
                path
            }
        },
    }
}

proof fn lemma_last_index_bound(s: Seq<char>, c: char)
    ensures
        last_index_of(s, c) matches Some(i) ==> 0 <= i < s.len(),
    decreases s.len(),
{
    if s.len() > 0 && s.last() != c {
        lemma_last_index_bound(s.drop_last(), c);
    }
}

proof fn lemma_last_after(a: Seq<char>, c: char, d: Seq<char>)
    requires
        !d.contains(c),
    ensures
        last_index_of(a.push(c) + d, c) == Some(a.len() as int),
    decreases d.len(),
{
    let s = a.push(c) + d;
    if d.len() == 0 {
        assert(s =~= a.push(c));
    } else {
        assert(d[d.len() - 1] == d.last());
        assert(s.last() == d.last());
        assert(s.drop_last() =~= a.push(c) + d.drop_last());
        assert(!d.drop_last().contains(c)) by {
            if d.drop_last().contains(c) {
                let j = choose|j: int| 0 <= j < d.drop_last().len() && d.drop_last()[j] == c;
                assert(d[j] == c);
            }
        }
        lemma_last_after(a, c, d.drop_last());
    }
}

proof fn lemma_last_none(s: Seq<char>, c: char)
    requires
        !s.contains(c),
    ensures
        last_index_of(s, c) is None,
    decreases s.len(),
{
    if s.len() > 0 {
        assert(s[s.len() - 1] == s.last());
        assert(!s.drop_last().contains(c)) by {
            if s.drop_last().contains(c) {
                let j = choose|j: int| 0 <= j < s.drop_last().len() && s.drop_last()[j] == c;
                assert(s[j] == c);
            }
        }
        lemma_last_none(s.drop_last(), c);
    }
}

proof fn lemma_digits_no_colon(d: Seq<char>)
    requires
        all_digits(d),
    ensures
        !d.contains(':'),
{
    if d.contains(':') {
        let j = choose|j: int| 0 <= j < d.len() && d[j] == ':';
        assert(is_digit(d[j]));
    }
}

/// A `:line` or `:line:col` suffix of digit groups is taken off exactly:
/// with two groups appended any path comes back as it was; a path without
/// a colon comes back unchanged, and so does it with one group appended.
pub proof fn law_strip_location(p: Seq<char>, d1: Seq<char>, d2: Seq<char>)
    requires
        d1.len() > 0,
        all_digits(d1),
        d2.len() > 0,
        all_digits(d2),
    ensures
        spec_strip_line_col(p + seq![':'] + d1 + seq![':'] + d2) == p,
        !p.contains(':') ==> spec_strip_line_col(p + seq![':'] + d1) == p,
        !p.contains(':') ==> spec_strip_line_col(p) == p,
{
    lemma_digits_no_colon(d1);
    lemma_digits_no_colon(d2);
    let b = p.push(':') + d1;
    let path = b.push(':') + d2;
    assert(p + seq![':'] + d1 + seq![':'] + d2 =~= path);
    lemma_last_after(b, ':', d2);
    assert(path.skip(b.len() as int + 1) =~= d2);
    assert(path.take(b.len() as int) =~= b);
    lemma_last_after(p, ':', d1);
    assert(b.skip(p.len() as int + 1) =~= d1);
    assert(b.take(p.len() as int) =~= p);
    if !p.contains(':') {
        assert(p + seq![':'] + d1 =~= b);
        lemma_last_none(p, ':');
    }
}

/// Strips a `:line` or `:line:col` suffix from a path.
pub fn strip_line_col_suffix(path: &str) -> (r: &str)
    ensures
        r@ == spec_strip_line_col(path@),
{
    let v = chars_of(path);
    proof {
        lemma_last_index_bound(v@, ':');
    }
    match rfind_char(&v, ':') {
        None => path,
        Some(p) => {
            let after = crate::text::vec_slice(&v, p + 1, v.len());
            assert(after@ =~= v@.skip(p + 1));
            if after.len() > 0 && all_digits_chars(&after) {
                let before = crate::text::vec_slice(&v, 0, p);
                assert(before@ =~= v@.take(p as int));
                proof {
                    lemma_last_index_bound(before@, ':');
                }
                match rfind_char(&before, ':') {
                    Some(q) => {
                        let after2 = crate::text::vec_slice(&before, q + 1, before.len());
                        assert(after2@ =~= before@.skip(q + 1));
                        if after2.len() > 0 && all_digits_chars(&after2) {
                            assert(v@.subrange(0, q as int) =~= before@.take(q as int));
                            return path.substring_char(0, q);
                        }
                        path.substring_char(0, p)
                    },
                    None => path.substring_char(0, p),
                }
            } else {
                path
            }
        },
    }
}

/// The file a path link points at, for the existence check: the link
/// without its `:line:col` suffix, with a leading `~/` taken from the home
/// directory `home` (when known) and a leading `./` or `../` taken from
/// the terminal's working directory `cwd`; any other path as it is.
pub open spec fn spec_resolve_path(text: Seq<char>, cwd: Seq<char>, home: Option<Seq<char>>) -> Seq<char> {
    let clean = spec_strip_line_col(text);
    if is_prefix(seq!['~', '/'], clean) {
        match home {
            Some(h) => path_join(h, clean.skip(2)),
            None => clean,
        }
    } else if is_prefix(seq!['.', '/'], clean) || is_prefix(seq!['.', '.', '/'], clean) {
        path_join(cwd, clean)
    } else {
        clean
    }
}

/// Resolves path link `text` seen in a terminal working in `cwd`.
pub fn resolve_path(text: &str, cwd: &str, home: Option<&str>) -> (r: String)
    ensures
        r@ == spec_resolve_path(text@, cwd@, match home {
            Some(h) => Some(h@),
            None => None,
        }),
{
    let clean = strip_line_col_suffix(text);
    let v = chars_of(clean);
    let tilde = v.len() >= 2 && v[0] == '~' && v[1] == '/';
    assert(tilde == is_prefix(seq!['~', '/'], v@)) by {
        if v@.len() >= 2 {
            assert(v@.take(2) =~= seq![v@[0], v@[1]]);
        }
    }
    if tilde {
        match home {
            Some(h) => {
                let rest = vec_slice(&v, 2, v.len());
                assert(rest@ =~= v@.skip(2));
                let rest_s = string_from_chars(&rest);
                return join_path(h, rest_s.as_str());
            },
            None => return string_from_chars(&v),
        }
    }
    let dot = v.len() >= 2 && v[0] == '.' && v[1] == '/';
    assert(dot == is_prefix(seq!['.', '/'], v@)) by {
        if v@.len() >= 2 {
            assert(v@.take(2) =~= seq![v@[0], v@[1]]);
        }
    }
    let dotdot = v.len() >= 3 && v[0] == '.' && v[1] == '.' && v[2] == '/';
    assert(dotdot == is_prefix(seq!['.', '.', '/'], v@)) by {
        if v@.len() >= 3 {
            assert(v@.take(3) =~= seq![v@[0], v@[1], v@[2]]);
        }
    }
    if dot || dotdot {
        join_path(cwd, clean)
    } else {
        string_from_chars(&v)
    }
}

/// How a file link is opened.
#[derive(Debug)]
pub enum FileOpen {
    /// With the system's default opener.
    SystemDefault { path: String },
    /// By running `program` with `args`.
    Editor { program: String, args: Vec<String> },
}

/// `path` with `:line` and then `:col` appended (the column only with a line).
pub open spec fn with_location(path: Seq<char>, line: Option<u32>, col: Option<u32>) -> Seq<char> {
    match line {
        Some(l) => {
            let p = path + seq![':'] + dec_string(l as nat);
            match col {
                Some(c) => p + seq![':'] + dec_string(c as nat),
                None => p,
            }
        },
        None => path,
    }
}

/// The path of a file link as it is opened: line/column suffix removed, a
/// leading `~/` replaced by the home directory when one is known.
pub open spec fn opened_path(path: Seq<char>, home: Option<Seq<char>>) -> Seq<char> {
    let clean = spec_strip_line_col(path);
    match home {
        Some(h) => if is_prefix(seq!['~', '/'], clean) {
            h + clean.skip(1)
        } else {
            clean
        },
        None => clean,
    }
}

/// A link starting with `~/` opens under the home directory when it is
/// known, and as written otherwise; its `:line:col` suffix never reaches the
/// opened path.
pub proof fn law_opened_path_home(p: Seq<char>, h: Seq<char>, d1: Seq<char>, d2: Seq<char>)
    requires
        !p.contains(':'),
        d1.len() > 0,
        all_digits(d1),
        d2.len() > 0,
        all_digits(d2),
    ensures
        opened_path(seq!['~', '/'] + p, Some(h)) == h + seq!['/'] + p,
        opened_path(seq!['~', '/'] + p, None) == seq!['~', '/'] + p,
        opened_path(seq!['~', '/'] + p + seq![':'] + d1 + seq![':'] + d2, Some(h)) == h + seq!['/'] + p,
{
    let t = seq!['~', '/'] + p;
    assert(!t.contains(':')) by {
        if t.contains(':') {
            let j = choose|j: int| 0 <= j < t.len() && t[j] == ':';
            if j >= 2 {
                assert(p[j - 2] == ':');
            }
        }
    }
    law_strip_location(t, d1, d2);
    assert(t.take(2) =~= seq!['~', '/']);
    assert(t.skip(1) =~= seq!['/'] + p);
    assert(h + t.skip(1) =~= h + seq!['/'] + p);
}

/// The program and arguments that open `path` in editor `opener`.
pub open spec fn editor_command(path: Seq<char>, line: Option<u32>, col: Option<u32>, opener: Seq<char>) -> (Seq<char>, Seq<Seq<char>>) {
    if opener == "code"@ || opener == "cursor"@ {
        (opener, seq!["--goto"@, with_location(path, line, col)])
    } else if opener == "zed"@ {
        ("zed"@, seq![with_location(path, line, col)])
    } else if opener == "subl"@ || opener == "sublime"@ {
        ("subl"@, seq![with_location(path, line, col)])
    } else if opener == "vim"@ || opener == "nvim"@ {
        match line {
            Some(l) => (opener, seq![seq!['+'] + dec_string(l as nat), path]),
            None => (opener, seq![path]),
        }
    } else {
        (opener, seq![with_location(path, line, col)])
    }
}

/// The VS Code family (`code` and `cursor`) reads a `path:line:col` argument
/// as a location only after `--goto`: both get exactly `--goto` and the
/// located path, and run as the editor asked for. Zed and Sublime take the
/// located path alone; Vim takes `+line` before the bare path.
pub proof fn law_editor_arguments(path: Seq<char>, line: Option<u32>, col: Option<u32>, opener: Seq<char>)
    ensures
        opener == "code"@ ==> editor_command(path, line, col, opener) == ("code"@, seq![
            "--goto"@,
            with_location(path, line, col),
        ]),
        opener == "cursor"@ ==> editor_command(path, line, col, opener) == ("cursor"@, seq![
            "--goto"@,
            with_location(path, line, col),
        ]),
        opener == "zed"@ ==> editor_command(path, line, col, opener) == ("zed"@, seq![with_location(path, line, col)]),
        opener == "sublime"@ ==> editor_command(path, line, col, opener) == ("subl"@, seq![
            with_location(path, line, col),
        ]),
        opener == "nvim"@ && line is Some ==> editor_command(path, line, col, opener) == ("nvim"@, seq![
            seq!['+'] + dec_string(line->0 as nat),
            path,
        ]),
        opener == "vim"@ && line is None ==> editor_command(path, line, col, opener) == ("vim"@, seq![path]),
        !(opener == "code"@ || opener == "cursor"@ || opener == "zed"@ || opener == "subl"@ || opener == "sublime"@
            || opener == "vim"@ || opener == "nvim"@) ==> editor_command(path, line, col, opener) == (opener, seq![
            with_location(path, line, col),
        ]),
        line is Some && col is Some ==> with_location(path, line, col) == path + seq![':'] + dec_string(
            line->0 as nat,
        ) + seq![':'] + dec_string(col->0 as nat),
        line is None ==> with_location(path, line, col) == path,
{
    reveal_strlit("code");
    reveal_strlit("cursor");
    reveal_strlit("zed");
    reveal_strlit("subl");
    reveal_strlit("sublime");
    reveal_strlit("vim");
    reveal_strlit("nvim");
    if opener == "vim"@ {
        assert(opener.len() != "code"@.len() && opener.len() != "cursor"@.len() && opener[0] != "zed"@[0]
            && opener.len() != "subl"@.len() && opener.len() != "sublime"@.len());
    }
    if opener == "nvim"@ {
        assert(opener[0] != "code"@[0]);
        assert(opener[0] != "subl"@[0]);
        assert(opener.len() != "cursor"@.len() && opener.len() != "zed"@.len() && opener.len() != "sublime"@.len());
        match line {
            Some(l) => {
                assert(editor_command(path, line, col, opener) == (opener, seq![seq!['+'] + dec_string(l as nat), path]));
            },
            None => {},
        }
    }
}

pub open spec fn strings_view(v: Seq<String>) -> Seq<Seq<char>> {
    v.map_values(|s: String| s@)
}

fn location(path: &str, line: Option<u32>, col: Option<u32>) -> (r: String)
    ensures
        r@ == with_location(path@, line, col),
{
    let mut loc = path.to_owned();
    match line {
        Some(l) => {
            push_str(&mut loc, ":");
            push_str(&mut loc, decimal(l).as_str());
            match col {
                Some(c) => {
                    push_str(&mut loc, ":");
                    push_str(&mut loc, decimal(c).as_str());
                },
                None => {},
            }
        },
        None => {},
    }
    proof {
        reveal_strlit(":");
    }
    loc
}

/// How to open file link `path` at `file_line`/`file_col` with editor
/// `opener` (empty: the system default). `home` is the user's home
/// directory, if known.
pub fn file_open_command(
    path: &str,
    file_line: Option<u32>,
    file_col: Option<u32>,
    opener: &str,
    home: Option<&str>,
) -> (r: FileOpen)
    ensures
        ({
            let p = opened_path(path@, match home {
                Some(h) => Some(h@),
                None => None,
            });
            if opener@.len() == 0 {
                r matches FileOpen::SystemDefault { path } && path@ == p
            } else {
                let (prog, args) = editor_command(p, file_line, file_col, opener@);
                r matches FileOpen::Editor { program, args: a } && program@ == prog && strings_view(a@) == args
            }
        }),
        (opener@ == "code"@ || opener@ == "cursor"@) ==> (r matches FileOpen::Editor { program, args } && program@
            == opener@ && args@.len() == 2 && args@[0]@ == "--goto"@ && args@[1]@ == with_location(
            opened_path(path@, match home {
                Some(h) => Some(h@),
                None => None,
            }),
            file_line,
            file_col,
        )),
{
    let clean = strip_line_col_suffix(path);
    let cv = chars_of(clean);
    let tilde = cv.len() >= 2 && cv[0] == '~' && cv[1] == '/';
    proof {
        if tilde {
            assert(cv@.take(2) =~= seq!['~', '/']);
        } else if cv@.len() >= 2 {
            assert(cv@.take(2)[0] != '~' || cv@.take(2)[1] != '/');
            assert(cv@.take(2) != seq!['~', '/']);
        }
    }
    let p: String = match home {
        Some(h) => if tilde {
            let mut e = h.to_owned();
            let rest = crate::text::vec_slice(&cv, 1, cv.len());
            crate::text::push_all(&mut e, &rest);
            assert(rest@ =~= clean@.skip(1));
            e
        } else {
            clean.to_owned()
        },
        None => clean.to_owned(),
    };
    if opener.unicode_len() == 0 {
        proof {
            reveal_strlit("code");
            reveal_strlit("cursor");
        }
        return FileOpen::SystemDefault { path: p };
    }
    let o = opener.to_owned();
    proof {
        reveal_strlit("code");
        reveal_strlit("cursor");
        reveal_strlit("zed");
        reveal_strlit("subl");
        reveal_strlit("sublime");
        reveal_strlit("vim");
        reveal_strlit("nvim");
        reveal_strlit("--goto");
    }
    if o == "code".to_owned() || o == "cursor".to_owned() {
        let args = vec!["--goto".to_owned(), location(p.as_str(), file_line, file_col)];
        assert(strings_view(args@) =~= seq!["--goto"@, with_location(p@, file_line, file_col)]);
        FileOpen::Editor { program: o, args }
    } else if o == "zed".to_owned() {
        let args = vec![location(p.as_str(), file_line, file_col)];
        assert(strings_view(args@) =~= seq![with_location(p@, file_line, file_col)]);
        FileOpen::Editor { program: "zed".to_owned(), args }
    } else if o == "subl".to_owned() || o == "sublime".to_owned() {
        let args = vec![location(p.as_str(), file_line, file_col)];
        assert(strings_view(args@) =~= seq![with_location(p@, file_line, file_col)]);
        FileOpen::Editor { program: "subl".to_owned(), args }
    } else if o == "vim".to_owned() || o == "nvim".to_owned() {
        let mut args: Vec<String> = Vec::new();
        match file_line {
            Some(l) => {
                let mut a = "+".to_owned();
                push_str(&mut a, decimal(l).as_str());
                proof {
                    reveal_strlit("+");
                }
                assert(a@ =~= seq!['+'] + dec_string(l as nat));
                args.push(a);
            },
            None => {},
        }
        args.push(p);
        proof {
            match file_line {
                Some(l) => assert(strings_view(args@) =~= seq![seq!['+'] + dec_string(l as nat), p@]),
                None => assert(strings_view(args@) =~= seq![p@]),
            }
        }
        FileOpen::Editor { program: o, args }
    } else {
        let args = vec![location(p.as_str(), file_line, file_col)];
        assert(strings_view(args@) =~= seq![with_location(p@, file_line, file_col)]);
        FileOpen::Editor { program: o, args }
    }
}

} // verus!
