//! The error types of the library and the messages they display.
use vstd::prelude::*;
use vstd::string::*;
use crate::text::decimal;

verus! {

/// `prefix` followed by `subject`.
pub fn message(prefix: &str, subject: &str) -> (r: String)
    ensures
        r@ == prefix@ + subject@,
{
    let mut r = String::from_str(prefix);
    r.append(subject);
    r
}

/// An error indicating that something went wrong with a path operation.
#[derive(Clone, Debug, Eq, Hash, Ord, PartialEq, PartialOrd)]
pub enum PathError {
    /// The path does not exist.
    DoesNotExist(String),
    /// The path is empty.
    Empty,
    /// The path exists already.
    ExistsAlready(String),
    /// The path does not have an extension.
    ExtensionNotFound(String),
    /// The path could not be converted to a string.
    FailedToString(String),
    /// The path does not contain a filename.
    FileNameNotFound(String),
    /// The path failed to expand properly.
    InvalidExpansion(String),
    /// The path is not a directory.
    IsNotDir(String),
    /// The path is not an executable file.
    IsNotExec(String),
    /// The path is not a file.
    IsNotFile(String),
    /// The path is not a file or a symlink to a file.
    IsNotFileOrSymlinkToFile(String),
    /// The path contains more than one home symbol, i.e. tilde.
    MultipleHomeSymbols(String),
    /// The path does not have a parent path.
    ParentNotFound(String),
}

/// The mathematical value of a [`PathError`]: the same variants over character sequences.
pub enum PathErrorV {
    DoesNotExist(Seq<char>),
    Empty,
    ExistsAlready(Seq<char>),
    ExtensionNotFound(Seq<char>),
    FailedToString(Seq<char>),
    FileNameNotFound(Seq<char>),
    InvalidExpansion(Seq<char>),
    IsNotDir(Seq<char>),
    IsNotExec(Seq<char>),
    IsNotFile(Seq<char>),
    IsNotFileOrSymlinkToFile(Seq<char>),
    MultipleHomeSymbols(Seq<char>),
    ParentNotFound(Seq<char>),
}

impl View for PathError {
    type V = PathErrorV;

    open spec fn view(&self) -> PathErrorV {
        match self {
            PathError::DoesNotExist(p) => PathErrorV::DoesNotExist(p@),
            PathError::Empty => PathErrorV::Empty,
            PathError::ExistsAlready(p) => PathErrorV::ExistsAlready(p@),
            PathError::ExtensionNotFound(p) => PathErrorV::ExtensionNotFound(p@),
            PathError::FailedToString(p) => PathErrorV::FailedToString(p@),
            PathError::FileNameNotFound(p) => PathErrorV::FileNameNotFound(p@),
            PathError::InvalidExpansion(p) => PathErrorV::InvalidExpansion(p@),
            PathError::IsNotDir(p) => PathErrorV::IsNotDir(p@),
            PathError::IsNotExec(p) => PathErrorV::IsNotExec(p@),
            PathError::IsNotFile(p) => PathErrorV::IsNotFile(p@),
            PathError::IsNotFileOrSymlinkToFile(p) => PathErrorV::IsNotFileOrSymlinkToFile(p@),
            PathError::MultipleHomeSymbols(p) => PathErrorV::MultipleHomeSymbols(p@),
            PathError::ParentNotFound(p) => PathErrorV::ParentNotFound(p@),
        }
    }
}

/// The message a [`PathError`] displays.
pub open spec fn path_error_message(e: PathErrorV) -> Seq<char> {
    match e {
        PathErrorV::DoesNotExist(p) => "path does not exist: "@ + p,
        PathErrorV::Empty => "path empty"@,
        PathErrorV::ExistsAlready(p) => "path exists already: "@ + p,
        PathErrorV::ExtensionNotFound(p) => "path extension not found: "@ + p,
        PathErrorV::FailedToString(p) => "failed to convert to string for path: "@ + p,
        PathErrorV::FileNameNotFound(p) => "filename not found for path: "@ + p,
        PathErrorV::InvalidExpansion(p) => "invalid expansion for path: "@ + p,
        PathErrorV::IsNotDir(p) => "is not a directory: "@ + p,
        PathErrorV::IsNotExec(p) => "is not an executable: "@ + p,
        PathErrorV::IsNotFile(p) => "is not a file: "@ + p,
        PathErrorV::IsNotFileOrSymlinkToFile(p) => "is not a file or a symlink to a file: "@ + p,
        PathErrorV::MultipleHomeSymbols(p) => "multiple home symbols for path: "@ + p,
        PathErrorV::ParentNotFound(p) => "parent not found for path: "@ + p,
    }
}

impl PathError {
    /// An error indicating that the path does not exist.
    pub fn does_not_exist(path: &str) -> (r: PathError)
        ensures
            r@ == PathErrorV::DoesNotExist(path@),
    {
        PathError::DoesNotExist(String::from_str(path))
    }

    /// An error indicating that the path is empty.
    pub fn empty() -> (r: PathError)
        ensures
            r@ == PathErrorV::Empty,
    {
        PathError::Empty
    }

    /// An error indicating that the path exists already.
    pub fn exists_already(path: &str) -> (r: PathError)
        ensures
            r@ == PathErrorV::ExistsAlready(path@),
    {
        PathError::ExistsAlready(String::from_str(path))
    }

    /// An error indicating that the path extension was not found.
    pub fn extension_not_found(path: &str) -> (r: PathError)
        ensures
            r@ == PathErrorV::ExtensionNotFound(path@),
    {
        PathError::ExtensionNotFound(String::from_str(path))
    }

    /// An error indicating a failure to convert the path to a string.
    pub fn failed_to_string(path: &str) -> (r: PathError)
        ensures
            r@ == PathErrorV::FailedToString(path@),
    {
        PathError::FailedToString(String::from_str(path))
    }

    /// An error indicating that the path does not contain a filename.
    pub fn filename_not_found(path: &str) -> (r: PathError)
        ensures
            r@ == PathErrorV::FileNameNotFound(path@),
    {
        PathError::FileNameNotFound(String::from_str(path))
    }

    /// An error indicating that the path is not a directory.
    pub fn is_not_dir(path: &str) -> (r: PathError)
        ensures
            r@ == PathErrorV::IsNotDir(path@),
    {
        PathError::IsNotDir(String::from_str(path))
    }

    /// An error indicating that the path is not an executable.
    pub fn is_not_exec(path: &str) -> (r: PathError)
        ensures
            r@ == PathErrorV::IsNotExec(path@),
    {
        PathError::IsNotExec(String::from_str(path))
    }

    /// An error indicating that the path is not a file.
    pub fn is_not_file(path: &str) -> (r: PathError)
        ensures
            r@ == PathErrorV::IsNotFile(path@),
    {
        PathError::IsNotFile(String::from_str(path))
    }

    /// An error indicating that the path is not a file or a symlink to a file.
    pub fn is_not_file_or_symlink_to_file(path: &str) -> (r: PathError)
        ensures
            r@ == PathErrorV::IsNotFileOrSymlinkToFile(path@),
    {
        PathError::IsNotFileOrSymlinkToFile(String::from_str(path))
    }

    /// An error indicating that the path failed to expand properly.
    pub fn invalid_expansion(path: &str) -> (r: PathError)
        ensures
            r@ == PathErrorV::InvalidExpansion(path@),
    {
        PathError::InvalidExpansion(String::from_str(path))
    }

    /// An error indicating that the path contains more than one home symbol.
    pub fn multiple_home_symbols(path: &str) -> (r: PathError)
        ensures
            r@ == PathErrorV::MultipleHomeSymbols(path@),
    {
        PathError::MultipleHomeSymbols(String::from_str(path))
    }

    /// An error indicating that the path does not have a parent path.
    pub fn parent_not_found(path: &str) -> (r: PathError)
        ensures
            r@ == PathErrorV::ParentNotFound(path@),
    {
        PathError::ParentNotFound(String::from_str(path))
    }

    /// The message this error displays.
    pub fn to_string(&self) -> (r: String)
        ensures
            r@ == path_error_message(self@),
    {
        match self {
            PathError::DoesNotExist(p) => message("path does not exist: ", p.as_str()),
            PathError::Empty => String::from_str("path empty"),
            PathError::ExistsAlready(p) => message("path exists already: ", p.as_str()),
            PathError::ExtensionNotFound(p) => message("path extension not found: ", p.as_str()),
            PathError::FailedToString(p) => message(
                "failed to convert to string for path: ",
                p.as_str(),
            ),
            PathError::FileNameNotFound(p) => message("filename not found for path: ", p.as_str()),
            PathError::InvalidExpansion(p) => message("invalid expansion for path: ", p.as_str()),
            PathError::IsNotDir(p) => message("is not a directory: ", p.as_str()),
            PathError::IsNotExec(p) => message("is not an executable: ", p.as_str()),
            PathError::IsNotFile(p) => message("is not a file: ", p.as_str()),
            PathError::IsNotFileOrSymlinkToFile(p) => message(
                "is not a file or a symlink to a file: ",
                p.as_str(),
            ),
            PathError::MultipleHomeSymbols(p) => message(
                "multiple home symbols for path: ",
                p.as_str(),
            ),
            PathError::ParentNotFound(p) => message("parent not found for path: ", p.as_str()),
        }
    }
}

/// The message an iterator error displays.
pub open spec fn iter_error_message(e: IterError) -> Seq<char> {
    match e {
        IterError::ItemNotFound => "iterator item not found"@,
        IterError::MultipleItemsFound => "multiple iterator items found"@,
        IterError::MutuallyExclusiveIndicies => "mutually exclusive indices"@,
    }
}

/// An error indicating that something went wrong with an iterator operation.
#[derive(Clone, Copy, Debug, Eq, Hash, Ord, PartialEq, PartialOrd)]
pub enum IterError {
    /// The iterator item was not found.
    ItemNotFound,
    /// Multiple items were found for the iterator.
    MultipleItemsFound,
    /// The indices are mutually exclusive.
    MutuallyExclusiveIndicies,
}

impl IterError {
    /// An error indicating that the iterator item was not found.
    pub fn item_not_found() -> (r: IterError)
        ensures
            r == IterError::ItemNotFound,
    {
        IterError::ItemNotFound
    }

    /// An error indicating that multiple items were found for the iterator.
    pub fn multiple_items_found() -> (r: IterError)
        ensures
            r == IterError::MultipleItemsFound,
    {
        IterError::MultipleItemsFound
    }

    /// An error indicating that the indices are mutually exclusive.
    pub fn mutually_exclusive_indices() -> (r: IterError)
        ensures
            r == IterError::MutuallyExclusiveIndicies,
    {
        IterError::MutuallyExclusiveIndicies
    }

    /// The message this error displays.
    pub fn to_string(&self) -> (r: String)
        ensures
            r@ == iter_error_message(*self),
    {
        match self {
            IterError::ItemNotFound => String::from_str("iterator item not found"),
            IterError::MultipleItemsFound => String::from_str("multiple iterator items found"),
            IterError::MutuallyExclusiveIndicies => String::from_str("mutually exclusive indices"),
        }
    }
}

/// An error indicating that a value could not be converted to a string.
#[derive(Clone, Copy, Debug, Eq, Hash, Ord, PartialEq, PartialOrd)]
pub enum StringError {
    /// The value could not be converted to a string.
    FailedToString,
}

impl StringError {
    /// The message this error displays.
    pub fn to_string(&self) -> (r: String)
        ensures
            r@ == "failed to convert value to string"@,
    {
        String::from_str("failed to convert value to string")
    }
}

/// An error indicating that something went wrong with a file operation.
#[derive(Clone, Copy, Debug, Eq, Hash, Ord, PartialEq, PartialOrd)]
pub enum FileError {
    /// No string could be extracted from the file.
    FailedToExtractString,
}

impl FileError {
    /// The message this error displays.
    pub fn to_string(&self) -> (r: String)
        ensures
            r@ == "failed to extract string from file"@,
    {
        String::from_str("failed to extract string from file")
    }
}

/// The message a user error displays.
pub open spec fn user_error_message(e: UserError) -> Seq<char> {
    match e {
        UserError::DoesNotExistById(uid) => "user does not exist: "@ + decimal(uid as nat),
    }
}

/// An error indicating that something went wrong with a user operation.
#[derive(Clone, Copy, Debug, Eq, Hash, Ord, PartialEq, PartialOrd)]
pub enum UserError {
    /// The user with the given id does not exist.
    DoesNotExistById(u32),
}

impl UserError {
    /// An error indicating that the user does not exist.
    pub fn does_not_exist_by_id(uid: u32) -> (r: UserError)
        ensures
            r == UserError::DoesNotExistById(uid),
    {
        UserError::DoesNotExistById(uid)
    }

    /// The message this error displays.
    pub fn to_string(&self) -> (r: String)
        ensures
            r@ == user_error_message(*self),
    {
        match self {
            UserError::DoesNotExistById(uid) => {
                let mut r = String::from_str("user does not exist: ");
                let d = crate::text::u32_to_string(*uid);
                r.append(d.as_str());
                r
            },
        }
    }
}

/// The message an os error displays.
pub open spec fn os_error_message(e: OsError) -> Seq<char> {
    match e {
        OsError::FailedToString => "failed to convert os value to string"@,
        OsError::KernelReleaseNotFound => "kernel release was not found"@,
        OsError::KernelVersionNotFound => "kernel version was not found"@,
    }
}

/// An error indicating that something went wrong with an os operation.
#[derive(Clone, Copy, Debug, Eq, Hash, Ord, PartialEq, PartialOrd)]
pub enum OsError {
    /// An os value could not be converted to a string.
    FailedToString,
    /// The kernel release was not found.
    KernelReleaseNotFound,
    /// The kernel version was not found.
    KernelVersionNotFound,
}

impl OsError {
    /// The message this error displays.
    pub fn to_string(&self) -> (r: String)
        ensures
            r@ == os_error_message(*self),
    {
        match self {
            OsError::FailedToString => String::from_str("failed to convert os value to string"),
            OsError::KernelReleaseNotFound => String::from_str("kernel release was not found"),
            OsError::KernelVersionNotFound => String::from_str("kernel version was not found"),
        }
    }
}

/// An error indicating that something went wrong with a git operation.
#[derive(Clone, Debug, Eq, Hash, Ord, PartialEq, PartialOrd)]
pub enum GitError {
    /// The given branch was not found.
    BranchNotFound(String),
    /// Only fast forwards are supported.
    FastForwardOnly,
    /// The head commit carries no message.
    NoMessageWasFound,
    /// The given repo was not found.
    RepoNotFound(String),
    /// The repo has no url to work with.
    UrlNotSet,
}

impl GitError {
    /// An error indicating that the given branch was not found.
    pub fn branch_not_found(branch: &str) -> (r: GitError)
        ensures
            r matches GitError::BranchNotFound(b) && b@ == branch@,
    {
        GitError::BranchNotFound(String::from_str(branch))
    }

    /// An error indicating that the given repo was not found.
    pub fn repo_not_found(repo: &str) -> (r: GitError)
        ensures
            r matches GitError::RepoNotFound(x) && x@ == repo@,
    {
        GitError::RepoNotFound(String::from_str(repo))
    }

    /// The message this error displays.
    pub fn to_string(&self) -> (r: String)
        ensures
            r@ == match self {
                GitError::BranchNotFound(b) => "failed to find branch: "@ + b@,
                GitError::FastForwardOnly => "only fast-forward supported"@,
                GitError::NoMessageWasFound => "no message was found"@,
                GitError::RepoNotFound(x) => "failed to find repo: "@ + x@,
                GitError::UrlNotSet => "url not set"@,
            },
    {
        match self {
            GitError::BranchNotFound(b) => message("failed to find branch: ", b.as_str()),
            GitError::FastForwardOnly => String::from_str("only fast-forward supported"),
            GitError::NoMessageWasFound => String::from_str("no message was found"),
            GitError::RepoNotFound(x) => message("failed to find repo: ", x.as_str()),
            GitError::UrlNotSet => String::from_str("url not set"),
        }
    }
}

/// An error indicating that something went wrong with an Arch Linux operation.
#[derive(Clone, Debug, Eq, Hash, Ord, PartialEq, PartialOrd)]
pub enum ArchError {
    /// The given package was not found.
    PackageNotFound(String),
    /// The given repo was not found.
    RepoNotFound(String),
}

impl ArchError {
    /// An error indicating that the given package was not found.
    pub fn package_not_found(pkg: &str) -> (r: ArchError)
        ensures
            r matches ArchError::PackageNotFound(x) && x@ == pkg@,
    {
        ArchError::PackageNotFound(String::from_str(pkg))
    }

    /// An error indicating that the given repo was not found.
    pub fn repo_not_found(repo: &str) -> (r: ArchError)
        ensures
            r matches ArchError::RepoNotFound(x) && x@ == repo@,
    {
        ArchError::RepoNotFound(String::from_str(repo))
    }

    /// The message this error displays.
    pub fn to_string(&self) -> (r: String)
        ensures
            r@ == match self {
                ArchError::PackageNotFound(x) => "failed to find package: "@ + x@,
                ArchError::RepoNotFound(x) => "failed to find repo: "@ + x@,
            },
    {
        match self {
            ArchError::PackageNotFound(x) => message("failed to find package: ", x.as_str()),
            ArchError::RepoNotFound(x) => message("failed to find repo: ", x.as_str()),
        }
    }
}


/// The error `regex::Regex::new` reports for an invalid pattern.
#[verifier::external_type_specification]
#[verifier::external_body]
pub struct ExRegexError(regex::Error);

/// The errors the library reports, gathered in one type.
#[derive(Debug)]
pub enum FuError {
    File(FileError),
    Iter(IterError),
    Os(OsError),
    Path(PathError),
    Regex(regex::Error),
    String(StringError),
    User(UserError),
}


/// The message that `regex::Error` displays for an error: a description of what is wrong
/// with the pattern, a function of the error alone.
pub uninterp spec fn regex_error_text(e: regex::Error) -> Seq<char>;

/// The message a regex error displays (`Display` for `regex::Error`), which the crate
/// derives from the error value alone: `regex_error_text` of the error.
#[verifier::external_body]
fn regex_error_message(e: &regex::Error) -> (r: String)
    ensures
        r@ == regex_error_text(*e),
{
    e.to_string()
}

impl FuError {
    /// The message this error displays: that of the error it holds.
    pub fn to_string(&self) -> (r: String)
        ensures
            match self {
                FuError::File(e) => r@ == "failed to extract string from file"@,
                FuError::Iter(e) => r@ == iter_error_message(*e),
                FuError::Os(e) => r@ == os_error_message(*e),
                FuError::Path(e) => r@ == path_error_message(e@),
                FuError::Regex(e) => r@ == regex_error_text(*e),
                FuError::String(e) => r@ == "failed to convert value to string"@,
                FuError::User(e) => r@ == user_error_message(*e),
            },
    {
        match self {
            FuError::File(e) => e.to_string(),
            FuError::Iter(e) => e.to_string(),
            FuError::Os(e) => e.to_string(),
            FuError::Path(e) => e.to_string(),
            FuError::Regex(e) => regex_error_message(e),
            FuError::String(e) => e.to_string(),
            FuError::User(e) => e.to_string(),
        }
    }
}

/// The kind of an io error.
#[verifier::external_type_specification]
#[verifier::external_body]
pub struct ExIoErrorKind(std::io::ErrorKind);

/// An io error.
#[verifier::external_type_specification]
#[verifier::external_body]
pub struct ExIoError(std::io::Error);

/// The kind of an io error, as `std::io::Error::kind` gives it: a function of the error, on
/// a given target.
pub uninterp spec fn io_kind_of(e: std::io::Error) -> std::io::ErrorKind;

/// The short description of an io error, as the deprecated `description` of
/// `std::error::Error` gives it for `std::io::Error`. What text that is depends on the
/// standard library in use and is not stated; it is a function of the error, on a given
/// target and standard library.
pub uninterp spec fn io_description_of(e: std::io::Error) -> Seq<char>;

/// The kind of an io error (`std::io::Error::kind`): `io_kind_of` the error.
#[verifier::external_body]
fn io_error_kind(e: &std::io::Error) -> (r: std::io::ErrorKind)
    ensures
        r == io_kind_of(*e),
{
    e.kind()
}

/// The short description of an io error (`std::error::Error::description` for
/// `std::io::Error`): `io_description_of` the error.
#[verifier::external_body]
#[allow(deprecated)]
fn io_error_description(e: &std::io::Error) -> (r: String)
    ensures
        r@ == io_description_of(*e),
{
    std::error::Error::description(e).to_string()
}

/// The message an io error displays (`Display` for `std::io::Error`); nothing is stated of
/// it: it depends on how the error was made.
#[verifier::external_body]
fn io_error_message(e: &std::io::Error) -> String {
    e.to_string()
}

/// The message a system error displays.
pub open spec fn sys_error_message(e: SysError) -> Seq<char> {
    match e {
        SysError::EnvNotFound => "std::env::VarError environment variable not found"@,
        SysError::EnvNotUnicode => "std::env::VarError environment variable not valid unicode"@,
        SysError::Glob { kind, desc } => "glob::GlobError "@ + desc@,
        SysError::GlobPattern(desc) => "glob::PatternError "@ + desc@,
        SysError::Io { kind, desc } => "std::io::Error "@ + desc@,
    }
}

/// An error indicating that something went wrong with a system operation.
#[derive(Debug, Eq, Hash, Ord, PartialEq, PartialOrd)]
pub enum SysError {
    /// The environment variable was not found.
    EnvNotFound,
    /// The environment variable did not hold valid unicode.
    EnvNotUnicode,
    /// An error while globbing.
    Glob { kind: std::io::ErrorKind, desc: String },
    /// An invalid glob pattern.
    GlobPattern(String),
    /// An io error.
    Io { kind: std::io::ErrorKind, desc: String },
}

impl SysError {
    /// The system error for an io error: its kind and its message. The message is what the
    /// error displays, which for an error of the operating system follows its locale.
    pub fn from_io(e: &std::io::Error) -> (r: SysError)
        ensures
            r matches SysError::Io { kind, desc } && kind == io_kind_of(*e),
    {
        SysError::Io { kind: io_error_kind(e), desc: io_error_message(e) }
    }

    /// The message this error displays.
    pub fn to_string(&self) -> (r: String)
        ensures
            r@ == sys_error_message(*self),
    {
        match self {
            SysError::EnvNotFound => String::from_str(
                "std::env::VarError environment variable not found",
            ),
            SysError::EnvNotUnicode => String::from_str(
                "std::env::VarError environment variable not valid unicode",
            ),
            SysError::Glob { kind, desc } => message("glob::GlobError ", desc.as_str()),
            SysError::GlobPattern(desc) => message("glob::PatternError ", desc.as_str()),
            SysError::Io { kind, desc } => message("std::io::Error ", desc.as_str()),
        }
    }
}

/// An error indicating that something went wrong with an io operation.
#[derive(Debug, Eq, Hash, Ord, PartialEq, PartialOrd)]
pub enum IoError {
    /// An error coming up from the io package.
    System { kind: std::io::ErrorKind, desc: String },
}

impl IoError {
    /// The error for an io error: its kind and its short description.
    pub fn from_io(e: &std::io::Error) -> (r: IoError)
        ensures
            r matches IoError::System { kind, desc } && kind == io_kind_of(*e) && desc@
                == io_description_of(*e),
    {
        IoError::System { kind: io_error_kind(e), desc: io_error_description(e) }
    }

    /// The message this error displays.
    pub fn to_string(&self) -> (r: String)
        ensures
            r@ == "io error"@,
    {
        String::from_str("io error")
    }
}

/// The specific kind of error that can occur.
#[derive(Debug, Eq, PartialEq)]
pub enum ErrorKind {
    /// An iterator error.
    Iter(IterError),
    /// A path error.
    Path(PathError),
    /// A system error.
    Sys(SysError),
}

impl ErrorKind {
    /// The message this error displays: that of the error it holds.
    pub fn to_string(&self) -> (r: String)
        ensures
            r@ == match self {
                ErrorKind::Iter(e) => iter_error_message(*e),
                ErrorKind::Path(e) => path_error_message(e@),
                ErrorKind::Sys(e) => sys_error_message(*e),
            },
    {
        match self {
            ErrorKind::Iter(e) => e.to_string(),
            ErrorKind::Path(e) => e.to_string(),
            ErrorKind::Sys(e) => e.to_string(),
        }
    }
}

} // verus!
