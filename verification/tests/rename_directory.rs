use notmux::rename_directory::{check_directory_name, RenameError};

#[test]
fn accepts_a_new_trimmed_name() {
    assert_eq!(check_directory_name("  renamed \n", "/home/u/proj"), Ok("renamed".to_string()));
}

#[test]
fn refuses_empty_names() {
    assert_eq!(check_directory_name("   ", "/home/u/proj"), Err(RenameError::Empty));
    assert_eq!(RenameError::Empty.message(), "Directory name cannot be empty");
}

#[test]
fn refuses_path_separators() {
    assert_eq!(check_directory_name("a/b", "/home/u/proj"), Err(RenameError::HasSeparator));
    assert_eq!(check_directory_name("a\\b", "/home/u/proj"), Err(RenameError::HasSeparator));
    assert_eq!(RenameError::HasSeparator.message(), "Directory name cannot contain path separators");
}

#[test]
fn refuses_the_current_name() {
    assert_eq!(check_directory_name(" proj ", "/home/u/proj"), Err(RenameError::SameName));
    assert_eq!(check_directory_name("proj", "/home/u/proj/"), Err(RenameError::SameName));
    assert_eq!(RenameError::SameName.message(), "Name is the same as current directory");
}

#[test]
fn root_has_no_current_name() {
    assert_eq!(check_directory_name("x", "/"), Ok("x".to_string()));
}
