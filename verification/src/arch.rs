//! Arch Linux package repositories.
use vstd::prelude::*;
use vstd::string::*;
use crate::errors::{ArchError, FileError, FuError};
use crate::file::{extract_string_p, first_group_of};
use crate::pattern::{captures_of, regex_valid};
use crate::text::{contains_seq, str_eq};

verus! {

/// An Arch Linux repository.
#[derive(Clone, Copy, Debug, Eq, Hash, Ord, PartialEq, PartialOrd)]
pub enum Repo {
    /// The packages repository.
    Packages,
    /// The community repository.
    Community,
}

/// The repository named `name`.
pub open spec fn repo_of(name: Seq<char>) -> Option<Repo> {
    if name == "packages"@ {
        Some(Repo::Packages)
    } else if name == "community"@ {
        Some(Repo::Community)
    } else {
        None
    }
}

impl Repo {
    /// The repository named `repo`, an error for an unknown name.
    pub fn from(repo: &str) -> (r: Result<Repo, ArchError>)
        ensures
            match r {
                Ok(x) => repo_of(repo@) == Some(x),
                Err(e) => repo_of(repo@) is None && (e matches ArchError::RepoNotFound(n) && n@
                    == repo@),
            },
    {
        if str_eq(repo, "packages") {
            Ok(Repo::Packages)
        } else if str_eq(repo, "community") {
            Ok(Repo::Community)
        } else {
            Err(ArchError::repo_not_found(repo))
        }
    }
}

/// The git url of the repository named `name`.
pub open spec fn repo_url_of(name: Seq<char>) -> Seq<char> {
    "https://git.archlinux.org/svntogit/"@ + name + ".git"@
}

/// The git url of the repository named `name`.
pub fn repo_url(name: &str) -> (r: String)
    ensures
        r@ == repo_url_of(name@),
{
    let mut r = String::from_str("https://git.archlinux.org/svntogit/");
    r.append(name);
    r.append(".git");
    r
}

/// The branch that holds the sources of package `pkg`.
pub fn package_branch(pkg: &str) -> (r: String)
    ensures
        r@ == "packages/"@ + pkg@,
{
    let mut r = String::from_str("packages/");
    r.append(pkg);
    r
}

/// The repository package `pkg` lives in, given whether its branch exists in the packages
/// repository and in the community repository; the packages repository is tried first.
pub fn repo(pkg: &str, in_packages: bool, in_community: bool) -> (r: Result<Repo, ArchError>)
    ensures
        match r {
            Ok(x) => (in_packages && x == Repo::Packages) || (!in_packages && in_community && x
                == Repo::Community),
            Err(e) => !in_packages && !in_community && (e matches ArchError::PackageNotFound(n)
                && n@ == pkg@),
        },
{
    if in_packages {
        Ok(Repo::Packages)
    } else if in_community {
        Ok(Repo::Community)
    } else {
        Err(ArchError::package_not_found(pkg))
    }
}

/// The kernel version declared by the `pkgver=` line of the linux package's PKGBUILD text:
/// the first capture group of that line's pattern. Whether the pattern compiles and matches
/// is the regex crate's to decide.
pub fn kernel_ver(pkgbuild: &str) -> (r: Result<String, FuError>)
    ensures
        regex_valid("(?m)^pkgver=(\\d+\\.\\d+\\.\\d+).*"@) ==> match r {
            Ok(s) => first_group_of(captures_of("(?m)^pkgver=(\\d+\\.\\d+\\.\\d+).*"@, pkgbuild@)) == Ok::<Seq<char>, FileError>(s@),
            Err(e) => e == FuError::File(FileError::FailedToExtractString)
                && first_group_of(captures_of("(?m)^pkgver=(\\d+\\.\\d+\\.\\d+).*"@, pkgbuild@)) is Err,
        },
        !regex_valid("(?m)^pkgver=(\\d+\\.\\d+\\.\\d+).*"@) ==> r matches Err(FuError::Regex(_)),
        r matches Ok(s) ==> contains_seq(pkgbuild@, s@),
{
    extract_string_p(pkgbuild, "(?m)^pkgver=(\\d+\\.\\d+\\.\\d+).*")
}

} // verus!
