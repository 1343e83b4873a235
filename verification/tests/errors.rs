use fungus::errors::{
    message, ArchError, ErrorKind, FileError, FuError, GitError, IoError, IterError, OsError, PathError, StringError,
    SysError, UserError,
};
use std::io;

fn path_empty() -> Result<String, FuError> {
    Err(FuError::Path(PathError::empty()))
}

fn parent_not_found() -> Result<String, FuError> {
    Err(FuError::Path(PathError::parent_not_found("foo")))
}

fn path_error_of(r: Result<String, FuError>) -> Option<PathError> {
    match r {
        Err(FuError::Path(e)) => Some(e),
        _ => None,
    }
}

#[test]
fn error_test_new_path_empty() {
    assert!(path_empty().is_err());
}

#[test]
fn test_error_eq() {
    assert_eq!(PathError::empty(), PathError::empty());
    assert_eq!(PathError::parent_not_found("foo"), PathError::parent_not_found("foo"));
    assert_ne!(PathError::parent_not_found("foo"), PathError::parent_not_found("bar"));
}

#[test]
fn path_error_test_new_path_empty() {
    assert!(path_empty().is_err());
    assert_eq!(path_error_of(path_empty()), Some(PathError::Empty));
}

#[test]
fn path_error_test_parent_not_found() {
    assert!(parent_not_found().is_err());
    assert_ne!(path_error_of(parent_not_found()), Some(PathError::parent_not_found("bar")));
    assert_eq!(path_error_of(parent_not_found()), Some(PathError::parent_not_found("foo")));
    assert_eq!(path_error_of(parent_not_found()).unwrap().to_string(), "parent not found for path: foo");
}

#[test]
fn test_other_errors() {
    assert_eq!(PathError::does_not_exist("foo"), PathError::DoesNotExist("foo".to_string()));
    assert_eq!(PathError::DoesNotExist("foo".to_string()).to_string(), "path does not exist: foo");
    assert_eq!(PathError::Empty.to_string(), "path empty");
    assert_eq!(PathError::exists_already("foo"), PathError::ExistsAlready("foo".to_string()));
    assert_eq!(PathError::ExistsAlready("foo".to_string()).to_string(), "path exists already: foo");
    assert_eq!(PathError::extension_not_found("foo"), PathError::ExtensionNotFound("foo".to_string()));
    assert_eq!(PathError::ExtensionNotFound("foo".to_string()).to_string(), "path extension not found: foo");
    assert_eq!(PathError::failed_to_string("foo"), PathError::FailedToString("foo".to_string()));
    assert_eq!(PathError::failed_to_string("foo").to_string(), "failed to convert to string for path: foo");
    assert_eq!(PathError::filename_not_found("foo"), PathError::FileNameNotFound("foo".to_string()));
    assert_eq!(PathError::filename_not_found("foo").to_string(), "filename not found for path: foo");
    assert_eq!(PathError::invalid_expansion("foo"), PathError::InvalidExpansion("foo".to_string()));
    assert_eq!(PathError::invalid_expansion("foo").to_string(), "invalid expansion for path: foo");
    assert_eq!(PathError::is_not_dir("foo"), PathError::IsNotDir("foo".to_string()));
    assert_eq!(PathError::is_not_dir("foo").to_string(), "is not a directory: foo");
    assert_eq!(PathError::is_not_exec("foo"), PathError::IsNotExec("foo".to_string()));
    assert_eq!(PathError::is_not_exec("foo").to_string(), "is not an executable: foo");
    assert_eq!(PathError::is_not_file("foo"), PathError::IsNotFile("foo".to_string()));
    assert_eq!(PathError::is_not_file("foo").to_string(), "is not a file: foo");
    assert_eq!(
        PathError::is_not_file_or_symlink_to_file("foo"),
        PathError::IsNotFileOrSymlinkToFile("foo".to_string())
    );
    assert_eq!(
        PathError::is_not_file_or_symlink_to_file("foo").to_string(),
        "is not a file or a symlink to a file: foo"
    );
    assert_eq!(PathError::multiple_home_symbols("foo"), PathError::MultipleHomeSymbols("foo".to_string()));
    assert_eq!(PathError::multiple_home_symbols("foo").to_string(), "multiple home symbols for path: foo");
}

#[test]
fn path_error_test_backtrace() {
    let err = path_empty().unwrap_err();
    println!("{:?}", err);
}

#[test]
fn test_eq_err() {
    assert_ne!(path_error_of(parent_not_found()), Some(PathError::parent_not_found("bar")));
    assert_eq!(path_error_of(parent_not_found()), Some(PathError::parent_not_found("foo")));
}

fn io_result() -> io::Result<String> {
    Err(io::Error::from(io::ErrorKind::AlreadyExists))
}

fn io_error_from_result() -> Result<String, SysError> {
    let val = io_result().map_err(|e| SysError::from_io(&e))?;
    Ok(val)
}

#[test]
fn test_error_from_io() {
    let err = io_error_from_result().unwrap_err();
    assert_eq!("std::io::Error entity already exists", err.to_string());
}

#[test]
fn test_error_from_env() {
    let err = SysError::EnvNotFound;
    assert_eq!("std::env::VarError environment variable not found", err.to_string());
}

#[test]
fn sys_error_test_backtrace() {
    let err = io_error_from_result().unwrap_err();
    println!("{:?}", err)
}

#[test]
fn it_works() {
    assert_eq!(2 + 2, 4);
}

#[test]
fn arch_error_test_errors() {
    assert_eq!(ArchError::package_not_found("foo"), ArchError::PackageNotFound("foo".to_string()));
    assert_eq!(ArchError::PackageNotFound("foo".to_string()).to_string(), "failed to find package: foo");
    assert_eq!(ArchError::repo_not_found("foo"), ArchError::RepoNotFound("foo".to_string()));
    assert_eq!(ArchError::RepoNotFound("foo".to_string()).to_string(), "failed to find repo: foo");
}

#[test]
fn git_error_test_errors() {
    assert_eq!(GitError::branch_not_found("foo"), GitError::BranchNotFound("foo".to_string()));
    assert_eq!(GitError::BranchNotFound("foo".to_string()).to_string(), "failed to find branch: foo");
    assert_eq!(GitError::FastForwardOnly.to_string(), "only fast-forward supported");
    assert_eq!(GitError::repo_not_found("foo"), GitError::RepoNotFound("foo".to_string()));
    assert_eq!(GitError::RepoNotFound("foo".to_string()).to_string(), "failed to find repo: foo");
}

#[test]
fn user_error_test_errors() {
    assert_eq!(UserError::does_not_exist_by_id(1000), UserError::DoesNotExistById(1000));
    assert_eq!(UserError::DoesNotExistById(1000).to_string(), "user does not exist: 1000");
}

#[test]
fn os_error_test_errors() {
    assert_eq!(OsError::FailedToString.to_string(), "failed to convert os value to string");
    assert_eq!(OsError::KernelReleaseNotFound.to_string(), "kernel release was not found");
    assert_eq!(OsError::KernelVersionNotFound.to_string(), "kernel version was not found");
}

fn item_not_found() -> Result<i32, FuError> {
    Err(FuError::Iter(IterError::item_not_found()))
}

#[test]
fn iter_error_test_backtrace() {
    let err = item_not_found().unwrap_err();
    println!("{:?}", err);
    assert!(matches!(err, FuError::Iter(IterError::ItemNotFound)));
}

#[test]
fn iter_error_test_item_not_found() {
    assert!(matches!(item_not_found().unwrap_err(), FuError::Iter(IterError::ItemNotFound)));
    assert_eq!(IterError::item_not_found().to_string(), "iterator item not found");
}

#[test]
fn iter_error_test_multiple_items_found() {
    assert_eq!(IterError::multiple_items_found().to_string(), "multiple iterator items found");
}

#[test]
fn iter_error_test_mutually_exclusive_indices() {
    assert_eq!(IterError::mutually_exclusive_indices().to_string(), "mutually exclusive indices");
}

#[test]
fn string_error_test_errors() {
    assert_eq!(StringError::FailedToString.to_string(), "failed to convert value to string");
}

#[test]
fn file_error_message() {
    assert_eq!(FileError::FailedToExtractString.to_string(), "failed to extract string from file");
}

#[test]
fn message_joins_prefix_and_subject() {
    assert_eq!(message("a: ", "b"), "a: b");
    assert_eq!(message("", ""), "");
}

#[test]
fn user_error_large_id() {
    assert_eq!(UserError::DoesNotExistById(0).to_string(), "user does not exist: 0");
    assert_eq!(UserError::DoesNotExistById(4294967295).to_string(), "user does not exist: 4294967295");
}

#[test]
fn error_kind_messages() {
    assert_eq!(ErrorKind::Path(PathError::empty()).to_string(), "path empty");
    assert_eq!(ErrorKind::Iter(IterError::item_not_found()).to_string(), "iterator item not found");
    assert_eq!(ErrorKind::Sys(SysError::EnvNotUnicode).to_string(), "std::env::VarError environment variable not valid unicode");
}

#[test]
fn io_error_message_and_kind() {
    let e = io::Error::from(io::ErrorKind::NotFound);
    match SysError::from_io(&e) {
        SysError::Io { kind, desc } => {
            assert_eq!(kind, io::ErrorKind::NotFound);
            assert_eq!(desc, "entity not found");
        }
        _ => panic!("expected an io error"),
    }
    assert_eq!(IoError::from_io(&e).to_string(), "io error");
}

#[allow(deprecated)]
fn short_description(e: &io::Error) -> String {
    std::error::Error::description(e).to_string()
}

#[test]
fn io_error_kind_and_description() {
    for e in [
        io::Error::from(io::ErrorKind::PermissionDenied),
        io::Error::from_raw_os_error(2),
        io::Error::new(io::ErrorKind::Other, "boom"),
    ] {
        match IoError::from_io(&e) {
            IoError::System { kind, desc } => {
                assert_eq!(kind, e.kind());
                assert_eq!(desc, short_description(&e));
            }
        }
    }
    let e = io::Error::from_raw_os_error(2);
    match IoError::from_io(&e) {
        IoError::System { kind, .. } => assert_eq!(kind, io::ErrorKind::NotFound),
    }
}

#[test]
fn regex_error_is_displayed() {
    let e = fungus::pattern::Pattern::new("(").unwrap_err();
    let shown = e.to_string();
    assert!(!shown.is_empty());
    assert_eq!(FuError::Regex(e).to_string(), shown);
}

#[test]
fn git_error_other_messages() {
    assert_eq!(GitError::NoMessageWasFound.to_string(), "no message was found");
    assert_eq!(GitError::UrlNotSet.to_string(), "url not set");
}
