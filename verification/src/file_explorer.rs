//! Git status decoration of the file explorer tree.
use vstd::prelude::*;
use crate::text::{chars_of, is_prefix, vec_starts_with};

verus! {

broadcast use vstd::string::group_string_axioms;

/// The status shown on a directory row, summarising the files below it.
#[derive(Clone, Copy, Debug, PartialEq, Eq, Structural)]
pub enum DirStatus {
    Modified,
    Added,
}

/// The prefix that the relative paths below directory `dir` start with
/// (every path is below the root, whose relative path is empty).
pub open spec fn dir_prefix(dir: Seq<char>) -> Seq<char> {
    if dir.len() == 0 {
        Seq::empty()
    } else {
        dir.push('/')
    }
}

/// Whether `path` lies below directory `dir`.
pub open spec fn is_below(dir: Seq<char>, path: Seq<char>) -> bool {
    dir.len() == 0 || is_prefix(dir_prefix(dir), path)
}

/// The status of directory `dir` given the status of each changed file,
/// as its relative path and whether the file counts as added (added or
/// untracked): modified as soon as one file below it has another status,
/// else added as soon as one file below it is added, else none.
pub open spec fn spec_dir_rollup(files: Seq<(Seq<char>, bool)>, dir: Seq<char>) -> Option<DirStatus> {
    if exists|i: int| 0 <= i < files.len() && is_below(dir, (#[trigger] files[i]).0) && !files[i].1 {
        Some(DirStatus::Modified)
    } else if exists|i: int| 0 <= i < files.len() && is_below(dir, (#[trigger] files[i]).0) && files[i].1 {
        Some(DirStatus::Added)
    } else {
        None
    }
}

/// The changed files as plain values.
pub open spec fn file_views(files: Seq<(String, bool)>) -> Seq<(Seq<char>, bool)> {
    files.map_values(|f: (String, bool)| (f.0@, f.1))
}

/// Rolls the status of the files below `dir_rel` up to the directory row.
pub fn dir_rollup(files: &Vec<(String, bool)>, dir_rel: &str) -> (r: Option<DirStatus>)
    ensures
        r == spec_dir_rollup(file_views(files@), dir_rel@),
{
    let ghost fv = file_views(files@);
    let mut prefix = chars_of(dir_rel);
    let whole = prefix.len() == 0;
    if !whole {
        prefix.push('/');
    }
    assert(whole ==> dir_rel@.len() == 0);
    assert(!whole ==> prefix@ == dir_prefix(dir_rel@));
    let mut has_added = false;
    let mut i: usize = 0;
    while i < files.len()
        invariant
            i <= files@.len(),
            fv == file_views(files@),
            whole == (dir_rel@.len() == 0),
            !whole ==> prefix@ == dir_prefix(dir_rel@),
            forall|j: int| 0 <= j < i ==> !(is_below(dir_rel@, (#[trigger] fv[j]).0) && !fv[j].1),
            has_added == exists|j: int| 0 <= j < i && is_below(dir_rel@, (#[trigger] fv[j]).0) && fv[j].1,
        decreases files.len() - i,
    {
        let below = if whole {
            true
        } else {
            let path = chars_of(files[i].0.as_str());
            vec_starts_with(&path, &prefix)
        };
        assert(fv[i as int] == (files@[i as int].0@, files@[i as int].1));
        assert(below == is_below(dir_rel@, fv[i as int].0));
        if below {
            if !files[i].1 {
                return Some(DirStatus::Modified);
            }
            has_added = true;
        }
        i += 1;
    }
    if has_added {
        Some(DirStatus::Added)
    } else {
        None
    }
}

/// The icon of a file row; every file kind uses the same generic icon.
pub fn icon_for_extension(name: &str) -> (r: &'static str)
    ensures
        r@ == "icons/file.svg"@,
{
    "icons/file.svg"
}

/// The git status of a file row.
#[derive(Clone, Copy, Debug, PartialEq, Eq, Structural)]
pub enum FileStatus {
    Added,
    Untracked,
    Modified,
    Deleted,
    Conflict,
    /// Any other change git reports.
    Other,
}

/// The status a directory row is drawn with: its rolled-up status.
pub open spec fn spec_dir_row_status(d: Option<DirStatus>) -> Option<FileStatus> {
    match d {
        Some(DirStatus::Modified) => Some(FileStatus::Modified),
        Some(DirStatus::Added) => Some(FileStatus::Added),
        None => None,
    }
}

/// The status a directory row is drawn with, from its roll-up.
pub fn dir_row_status(d: Option<DirStatus>) -> (r: Option<FileStatus>)
    ensures
        r == spec_dir_row_status(d),
{
    match d {
        Some(DirStatus::Modified) => Some(FileStatus::Modified),
        Some(DirStatus::Added) => Some(FileStatus::Added),
        None => None,
    }
}

/// The theme color a row part is drawn in.
#[derive(Clone, Copy, Debug, PartialEq, Eq, Structural)]
pub enum ColorRole {
    /// The theme's success color.
    Success,
    /// The theme's error color.
    Error,
    /// The theme's terminal yellow.
    Yellow,
    /// The theme's primary text color.
    TextPrimary,
}

/// How a tree row is decorated: the name's color, the badge letter drawn
/// in that same color (files only), and the dot shown on directories.
#[derive(Clone, Copy, Debug, PartialEq, Eq, Structural)]
pub struct RowDecoration {
    pub name_color: ColorRole,
    pub badge: Option<char>,
    pub dot: Option<ColorRole>,
}

/// The name color for a status: added and untracked in success, deleted
/// and conflicted in error, any other change in yellow, clean in the
/// primary text color.
pub open spec fn status_color(status: Option<FileStatus>) -> ColorRole {
    match status {
        Some(FileStatus::Added) | Some(FileStatus::Untracked) => ColorRole::Success,
        Some(FileStatus::Deleted) | Some(FileStatus::Conflict) => ColorRole::Error,
        Some(_) => ColorRole::Yellow,
        None => ColorRole::TextPrimary,
    }
}

/// The badge letter for a status: `U` added or untracked, `D` deleted,
/// `!` conflict, `M` any other change.
pub open spec fn status_badge(status: FileStatus) -> char {
    match status {
        FileStatus::Added | FileStatus::Untracked => 'U',
        FileStatus::Deleted => 'D',
        FileStatus::Conflict => '!',
        _ => 'M',
    }
}

/// The dot on a directory row: a status other than `Other` shows one, in
/// the status's color.
pub open spec fn status_dot(status: Option<FileStatus>) -> Option<ColorRole> {
    match status {
        Some(FileStatus::Other) | None => None,
        _ => Some(status_color(status)),
    }
}

/// Decorates a row with status `status`: files get a badge, directories a dot.
pub fn row_decoration(status: Option<FileStatus>, is_dir: bool) -> (r: RowDecoration)
    ensures
        r.name_color == status_color(status),
        r.badge == (if is_dir {
            None
        } else {
            match status {
                Some(st) => Some(status_badge(st)),
                None => None,
            }
        }),
        r.dot == (if is_dir {
            status_dot(status)
        } else {
            None
        }),
        !is_dir ==> (r.badge == Some('U') <==> (status == Some(FileStatus::Added) || status == Some(
            FileStatus::Untracked,
        ))),
        !is_dir && status == Some(FileStatus::Modified) ==> r.badge == Some('M'),
{
    let (name_color, letter) = match status {
        Some(FileStatus::Added) | Some(FileStatus::Untracked) => (ColorRole::Success, Some('U')),
        Some(FileStatus::Deleted) => (ColorRole::Error, Some('D')),
        Some(FileStatus::Conflict) => (ColorRole::Error, Some('!')),
        Some(_) => (ColorRole::Yellow, Some('M')),
        None => (ColorRole::TextPrimary, None),
    };
    let badge = if is_dir {
        None
    } else {
        letter
    };
    let dot = if is_dir {
        match status {
            Some(FileStatus::Added) | Some(FileStatus::Untracked) => Some(ColorRole::Success),
            Some(FileStatus::Modified) => Some(ColorRole::Yellow),
            Some(FileStatus::Conflict) | Some(FileStatus::Deleted) => Some(ColorRole::Error),
            _ => None,
        }
    } else {
        None
    };
    RowDecoration { name_color, badge, dot }
}

/// What each status looks like. A file's badge tells its status apart:
/// `U` exactly for added or untracked files, `D` exactly for deleted ones,
/// `!` exactly for conflicts, and `M` for modified files and any other
/// change. New files are green, deleted and conflicted ones red, other
/// changes yellow, clean ones plain; directories carry no badge, and their
/// dot (present for every change but `Other`) has the name's color.
pub proof fn law_status_decoration(st: FileStatus)
    ensures
        (status_badge(st) == 'U') <==> (st == FileStatus::Added || st == FileStatus::Untracked),
        (status_badge(st) == 'D') <==> (st == FileStatus::Deleted),
        (status_badge(st) == '!') <==> (st == FileStatus::Conflict),
        (status_badge(st) == 'M') <==> (st == FileStatus::Modified || st == FileStatus::Other),
        (status_color(Some(st)) == ColorRole::Success) <==> (st == FileStatus::Added || st == FileStatus::Untracked),
        (status_color(Some(st)) == ColorRole::Error) <==> (st == FileStatus::Deleted || st == FileStatus::Conflict),
        (status_color(Some(st)) == ColorRole::Yellow) <==> (st == FileStatus::Modified || st == FileStatus::Other),
        status_color(None) == ColorRole::TextPrimary,
        st != FileStatus::Other ==> status_dot(Some(st)) == Some(status_color(Some(st))),
        status_dot(Some(FileStatus::Other)) is None && status_dot(None) is None,
{
}

} // verus!
