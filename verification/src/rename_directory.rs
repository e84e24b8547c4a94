//! Checking the new name typed for a project's directory before anything on
//! disk is touched.
use vstd::prelude::*;
use crate::shell::{file_name_of, path_file_name};
use crate::text::{chars_of, string_from_chars, trim, trim_chars};

verus! {

broadcast use vstd::string::group_string_axioms;

/// Why a typed directory name is refused.
#[derive(Clone, Copy, Debug, PartialEq, Eq, Structural)]
pub enum RenameError {
    /// Nothing but whitespace was typed.
    Empty,
    /// The name holds `/` or `\`.
    HasSeparator,
    /// The name is the directory's current name.
    SameName,
}

impl RenameError {
    /// The text shown under the input.
    pub fn message(&self) -> (r: &'static str)
        ensures
            r@ == rename_error_text(*self),
    {
        match self {
            RenameError::Empty => "Directory name cannot be empty",
            RenameError::HasSeparator => "Directory name cannot contain path separators",
            RenameError::SameName => "Name is the same as current directory",
        }
    }
}

/// The text shown for error `e`.
pub open spec fn rename_error_text(e: RenameError) -> Seq<char> {
    match e {
        RenameError::Empty => "Directory name cannot be empty"@,
        RenameError::HasSeparator => "Directory name cannot contain path separators"@,
        RenameError::SameName => "Name is the same as current directory"@,
    }
}

/// The current name of the directory at `path`: its last component, or
/// nothing.
pub open spec fn current_dir_name(path: Seq<char>) -> Seq<char> {
    match path_file_name(path) {
        Some(n) => n,
        None => seq![],
    }
}

/// The verdict on typed text `input` for the directory at `path`: the
/// trimmed name, unless it is empty, holds a path separator, or equals the
/// current name (checked in that order).
pub open spec fn spec_check_name(input: Seq<char>, path: Seq<char>) -> Result<Seq<char>, RenameError> {
    let name = trim(input);
    if name.len() == 0 {
        Err(RenameError::Empty)
    } else if name.contains('/') || name.contains('\\') {
        Err(RenameError::HasSeparator)
    } else if name == current_dir_name(path) {
        Err(RenameError::SameName)
    } else {
        Ok(name)
    }
}

/// Checks the name typed for the directory of the project at
/// `project_path`; on success gives the trimmed name to rename it to.
pub fn check_directory_name(input: &str, project_path: &str) -> (r: Result<String, RenameError>)
    ensures
        match (r, spec_check_name(input@, project_path@)) {
            (Ok(n), Ok(m)) => n@ == m,
            (Err(e), Err(f)) => e == f,
            _ => false,
        },
{
    let name = trim_chars(&chars_of(input));
    if name.len() == 0 {
        return Err(RenameError::Empty);
    }
    let mut i: usize = 0;
    while i < name.len()
        invariant
            i <= name@.len(),
            name@ == trim(input@),
            name@.len() > 0,
            forall|j: int| 0 <= j < i ==> name@[j] != '/' && name@[j] != '\\',
        decreases name.len() - i,
    {
        if name[i] == '/' || name[i] == '\\' {
            proof {
                if name@[i as int] == '/' {
                    assert(name@.contains('/'));
                } else {
                    assert(name@.contains('\\'));
                }
            }
            return Err(RenameError::HasSeparator);
        }
        i += 1;
    }
    let current = match file_name_of(project_path) {
        Some(n) => chars_of(n.as_str()),
        None => Vec::new(),
    };
    assert(current@ == current_dir_name(project_path@));
    let mut same = name.len() == current.len();
    let mut k: usize = 0;
    while same && k < name.len()
        invariant
            k <= name@.len(),
            same ==> name@.len() == current@.len(),
            same ==> forall|j: int| 0 <= j < k ==> name@[j] == current@[j],
            !same ==> name@ != current@,
        decreases name.len() - k,
    {
        if name[k] != current[k] {
            same = false;
        }
        k += 1;
    }
    if same {
        assert(name@ =~= current@);
        Err(RenameError::SameName)
    } else {
        Ok(string_from_chars(&name))
    }
}

} // verus!
