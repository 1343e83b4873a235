//! Git repository options and the values derived from them.
use vstd::prelude::*;
use vstd::string::*;
use crate::errors::{GitError, PathError, PathErrorV};
use crate::path::{abs, abs_of, mash, mash_of};
use crate::text::{trim_end, trim_end_of};

verus! {

/// A git repository: where it lives on disk and on the network, and which branch to use.
#[derive(Debug, Clone)]
pub struct Repo {
    /// Location on disk.
    pub path: String,
    /// Location on the network.
    pub url: Option<String>,
    /// Clone only the given branch.
    pub branch_only: bool,
    /// Specific branch to work with.
    pub branch: Option<String>,
}

/// The value of an optional string.
pub open spec fn opt_view(o: Option<String>) -> Option<Seq<char>> {
    match o {
        Some(s) => Some(s@),
        None => None,
    }
}

/// The value of an optional string slice.
pub open spec fn opt_str_view(o: Option<&str>) -> Option<Seq<char>> {
    match o {
        Some(s) => Some(s@),
        None => None,
    }
}

/// The branch cloned when only a branch is cloned and none was set.
pub open spec fn default_branch() -> Seq<char> {
    "master"@
}

impl Repo {
    /// A repo at `path`, made absolute with `cwd` and `home`, with nothing else set.
    pub fn new(path: &str, cwd: &str, home: &str) -> (r: Result<Repo, PathError>)
        ensures
            match r {
                Ok(repo) => abs_of(path@, cwd@, home@) == Ok::<Seq<char>, PathErrorV>(repo.path@)
                    && repo.url is None && !repo.branch_only && repo.branch is None,
                Err(e) => abs_of(path@, cwd@, home@) == Err::<Seq<char>, PathErrorV>(e@),
            },
    {
        match abs(path, cwd, home) {
            Ok(p) => Ok(Repo { path: p, url: None, branch_only: false, branch: None }),
            Err(e) => Err(e),
        }
    }

    /// The branch set for this repo.
    pub fn branch_val(&self) -> (r: Option<&str>)
        ensures
            opt_str_view(r) == opt_view(self.branch),
    {
        match &self.branch {
            Some(b) => Some(b.as_str()),
            None => None,
        }
    }

    /// Whether only the branch is cloned.
    pub fn branch_only_val(&self) -> (r: bool)
        ensures
            r == self.branch_only,
    {
        self.branch_only
    }

    /// The location on disk.
    pub fn path_val(&self) -> (r: &str)
        ensures
            r@ == self.path@,
    {
        self.path.as_str()
    }

    /// The location on the network.
    pub fn url_val(&self) -> (r: Option<&str>)
        ensures
            opt_str_view(r) == opt_view(self.url),
    {
        match &self.url {
            Some(u) => Some(u.as_str()),
            None => None,
        }
    }

    /// The repo with `branch` set as its branch.
    pub fn branch(self, branch: &str) -> (r: Repo)
        ensures
            opt_view(r.branch) == Some(branch@),
            r.path == self.path,
            r.url == self.url,
            r.branch_only == self.branch_only,
    {
        Repo { branch: Some(String::from_str(branch)), ..self }
    }

    /// The repo set to clone only its branch, or not.
    pub fn branch_only(self, yes: bool) -> (r: Repo)
        ensures
            r == (Repo { branch_only: yes, ..self }),
    {
        Repo { branch_only: yes, ..self }
    }

    /// The repo with `url` set as its location on the network.
    pub fn url(self, url: &str) -> (r: Repo)
        ensures
            opt_view(r.url) == Some(url@),
            r.path == self.path,
            r.branch == self.branch,
            r.branch_only == self.branch_only,
    {
        Repo { url: Some(String::from_str(url)), ..self }
    }

    /// The url to clone from, an error when none is set.
    pub fn clone_url(&self) -> (r: Result<String, GitError>)
        ensures
            match r {
                Ok(u) => opt_view(self.url) == Some(u@),
                Err(e) => self.url is None && e == GitError::UrlNotSet,
            },
    {
        match &self.url {
            Some(u) => Ok(u.clone()),
            None => Err(GitError::UrlNotSet),
        }
    }

    /// The single branch a clone fetches: the set branch, else `master`, when only the
    /// branch is cloned; `None` when the whole repo is cloned.
    pub fn clone_branch(&self) -> (r: Option<String>)
        ensures
            opt_view(r) == if self.branch_only {
                Some(
                    match self.branch {
                        Some(b) => b@,
                        None => default_branch(),
                    },
                )
            } else {
                None
            },
    {
        if self.branch_only {
            match &self.branch {
                Some(b) => Some(b.clone()),
                None => Some(String::from_str("master")),
            }
        } else {
            None
        }
    }
}

/// The refspec that fetches only `branch` into the origin's remote branch of that name.
pub open spec fn refspec_of(branch: Seq<char>) -> Seq<char> {
    "+refs/heads/"@ + branch + ":refs/remotes/origin/"@ + branch
}

/// The refspec that fetches only `branch`: `+refs/heads/<branch>:refs/remotes/origin/<branch>`.
pub fn refspec(branch: &str) -> (r: String)
    ensures
        r@ == refspec_of(branch@),
{
    let mut r = String::from_str("+refs/heads/");
    r.append(branch);
    r.append(":refs/remotes/origin/");
    r.append(branch);
    r
}

/// The head commit message of a repo without its trailing whitespace, an error when the
/// commit carries no message.
pub fn last_msg(message: Option<&str>) -> (r: Result<String, GitError>)
    ensures
        match message {
            Some(m) => r matches Ok(s) && s@ == trim_end_of(m@),
            None => r == Err::<String, GitError>(GitError::NoMessageWasFound),
        },
{
    match message {
        Some(m) => Ok(trim_end(m)),
        None => Err(GitError::NoMessageWasFound),
    }
}

/// The `.git` directory whose presence makes `path` a repository.
pub fn git_dir(path: &str) -> (r: String)
    ensures
        r@ == mash_of(path@, ".git"@),
{
    mash(path, ".git")
}

/// What `update` does next.
#[derive(Clone, Copy, Debug, PartialEq, Eq)]
pub enum UpdateAction {
    /// Clone the repository into the path.
    Clone,
    /// Fetch the update branch from `origin` and analyse how it merges.
    Fetch,
    /// Nothing: the local branch is up to date.
    Done,
    /// Move the local update branch to the fetched commit and check it out.
    FastForward,
}

/// What `update` has learned.
#[derive(Clone, Copy, Debug, PartialEq, Eq)]
pub enum UpdateEvent {
    /// It starts, knowing whether the path is already a repository.
    Started { is_repo: bool },
    /// The merge analysis of the fetched commit came back.
    Analysed { up_to_date: bool, fast_forward: bool },
}

/// The next step of `update`: a path that is not a repository is cloned and an existing one
/// fetched; after the fetch, an up to date branch is left alone and one that can be fast
/// forwarded is; any other merge is refused, as only fast forwards are supported.
pub fn update_next(event: UpdateEvent) -> (r: Result<UpdateAction, GitError>)
    ensures
        match event {
            UpdateEvent::Started { is_repo } => r == Ok::<UpdateAction, GitError>(
                if is_repo { UpdateAction::Fetch } else { UpdateAction::Clone },
            ),
            UpdateEvent::Analysed { up_to_date, fast_forward } => if up_to_date {
                r == Ok::<UpdateAction, GitError>(UpdateAction::Done)
            } else if fast_forward {
                r == Ok::<UpdateAction, GitError>(UpdateAction::FastForward)
            } else {
                r == Err::<UpdateAction, GitError>(GitError::FastForwardOnly)
            },
        },
{
    match event {
        UpdateEvent::Started { is_repo } => if is_repo {
            Ok(UpdateAction::Fetch)
        } else {
            Ok(UpdateAction::Clone)
        },
        UpdateEvent::Analysed { up_to_date, fast_forward } => if up_to_date {
            Ok(UpdateAction::Done)
        } else if fast_forward {
            Ok(UpdateAction::FastForward)
        } else {
            Err(GitError::FastForwardOnly)
        },
    }
}

/// A progress bar fed by a transfer or checkout callback: its length is set from the first
/// report of the total, and every report moves it to the current count.
#[derive(Clone, Copy, Debug, PartialEq, Eq)]
pub struct BarState {
    /// Whether the length of the bar was set.
    pub length_set: bool,
}

/// What a progress report does to its bar.
#[derive(Clone, Copy, Debug, PartialEq, Eq)]
pub struct BarUpdate {
    /// The length to give the bar, if it is to be set now.
    pub length: Option<u64>,
    /// The position to move the bar to.
    pub position: u64,
}

impl BarState {
    /// A bar whose length was not set yet.
    pub fn new() -> (r: BarState)
        ensures
            !r.length_set,
    {
        BarState { length_set: false }
    }

    /// Takes the report of `cur` out of `total` items.
    pub fn report(&mut self, total: u64, cur: u64) -> (r: BarUpdate)
        ensures
            r.length == if old(self).length_set { None } else { Some(total) },
            r.position == cur,
            final(self).length_set,
    {
        let length = if self.length_set { None } else { Some(total) };
        self.length_set = true;
        BarUpdate { length, position: cur }
    }
}

} // verus!
