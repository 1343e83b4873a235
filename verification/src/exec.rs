//! The running executable and executable lookup.
use vstd::prelude::*;
use crate::errors::{PathError, PathErrorV};
use crate::path::{abs, abs_of, base, dir, file_name_of, has, has_parent, mash, mash_of, trim_last_of};
use crate::text::{chars_of, contains_seq, split_by, split_chars, string_of};

verus! {

/// The directory of the running executable, whose path is `exe`.
pub fn dir_of(exe: &str) -> (r: Result<String, PathError>)
    ensures
        match r {
            Ok(d) => has_parent(exe@) && d@ == trim_last_of(exe@),
            Err(e) => !has_parent(exe@) && e@ == PathErrorV::ParentNotFound(exe@),
        },
{
    dir(exe)
}

/// The name of the running executable, whose path is `exe`.
pub fn name(exe: &str) -> (r: Result<String, PathError>)
    ensures
        match r {
            Ok(b) => file_name_of(exe@) == Some(b@),
            Err(e) => file_name_of(exe@) is None && e@ == PathErrorV::FileNameNotFound(exe@),
        },
{
    base(exe)
}

/// The paths at which `lookup` looks for the executable `target`: the absolute form of a
/// target that contains a `/`, else the target's name mashed onto each directory of
/// `path_dirs`, the directories of `PATH`, in order.
pub fn lookup_candidates(target: &str, path_dirs: &Vec<String>, cwd: &str, home: &str) -> (r: Result<
    Vec<String>,
    PathError,
>)
    ensures
        contains_seq(target@, seq!['/']) ==> match r {
            Ok(v) => v@.len() == 1 && abs_of(target@, cwd@, home@) == Ok::<Seq<char>, PathErrorV>(v@[0]@),
            Err(e) => abs_of(target@, cwd@, home@) == Err::<Seq<char>, PathErrorV>(e@),
        },
        !contains_seq(target@, seq!['/']) ==> (r matches Ok(v) && v@.len() == path_dirs@.len()
            && forall|k: int| 0 <= k < v@.len() ==> #[trigger] v@[k]@ == mash_of(path_dirs@[k]@, target@)),
{
    let slash = has(target, "/");
    proof {
        reveal_strlit("/");
        assert("/"@ =~= seq!['/']);
    }
    if slash {
        match abs(target, cwd, home) {
            Ok(p) => {
                let mut v = Vec::new();
                v.push(p);
                Ok(v)
            },
            Err(e) => Err(e),
        }
    } else {
        let mut v: Vec<String> = Vec::new();
        let mut i: usize = 0;
        while i < path_dirs.len()
            invariant
                i <= path_dirs@.len(),
                v@.len() == i,
                forall|k: int| 0 <= k < i ==> #[trigger] v@[k]@ == mash_of(path_dirs@[k]@, target@),
            decreases path_dirs.len() - i,
        {
            v.push(mash(path_dirs[i].as_str(), target));
            i = i + 1;
        }
        Ok(v)
    }
}

/// A directory named by a piece of a `PATH` value: an empty piece stands for the current
/// directory.
pub open spec fn path_dir_of(piece: Seq<char>, cwd: Seq<char>) -> Seq<char> {
    if piece.len() == 0 { cwd } else { piece }
}

/// The directories of a `PATH` value: its pieces between the `:` separators, an empty piece
/// standing for the current directory `cwd`. `None` when an empty piece needs the current
/// directory and it is not known.
pub fn parse_paths(value: &str, cwd: Option<&str>) -> (r: Option<Vec<String>>)
    ensures
        match r {
            Some(v) => v@.len() == split_by(value@, ':').len() && forall|k: int|
                0 <= k < v@.len() ==> #[trigger] v@[k]@ == path_dir_of(
                    split_by(value@, ':')[k],
                    cwd->Some_0@,
                ) && (split_by(value@, ':')[k].len() == 0 ==> cwd is Some),
            None => cwd is None && exists|k: int|
                0 <= k < split_by(value@, ':').len() && #[trigger] split_by(value@, ':')[k].len()
                    == 0,
        },
{
    let cs = chars_of(value);
    let pieces = split_chars(cs.as_slice(), ':');
    let mut out: Vec<String> = Vec::new();
    let mut i: usize = 0;
    while i < pieces.len()
        invariant
            pieces@.len() == split_by(cs@, ':').len(),
            forall|k: int| 0 <= k < pieces@.len() ==> #[trigger] pieces@[k]@ == split_by(cs@, ':')[k],
            cs@ == value@,
            i <= pieces@.len(),
            out@.len() == i,
            forall|k: int| 0 <= k < i ==> #[trigger] out@[k]@ == path_dir_of(
                split_by(value@, ':')[k],
                cwd->Some_0@,
            ),
            forall|k: int| 0 <= k < i ==> (#[trigger] split_by(value@, ':')[k]).len() == 0 ==> cwd is Some,
        decreases pieces.len() - i,
    {
        let ghost before = out@;
        let ghost piece = split_by(value@, ':')[i as int];
        assert(pieces@[i as int]@ == piece);
        if pieces[i].len() == 0 {
            match cwd {
                Some(c) => {
                    out.push(String::from_str(c));
                    assert(out@[i as int]@ == path_dir_of(piece, cwd->Some_0@));
                },
                None => {
                    assert(split_by(value@, ':')[i as int].len() == 0);
                    return None;
                },
            }
        } else {
            out.push(string_of(pieces[i].as_slice()));
            assert(out@[i as int]@ == path_dir_of(piece, cwd->Some_0@));
        }
        assert forall|k: int| 0 <= k < i + 1 implies #[trigger] out@[k]@ == path_dir_of(
            split_by(value@, ':')[k],
            cwd->Some_0@,
        ) by {
            if k < i {
                assert(out@[k] == before[k]);
            }
        }
        i = i + 1;
    }
    Some(out)
}

/// What the file system reports of a path: whether it exists, whether it is a directory,
/// and its permission bits.
#[derive(Clone, Copy, Debug, PartialEq, Eq)]
pub struct Entry {
    pub exists: bool,
    pub is_dir: bool,
    pub mode: u32,
}

/// Whether permission bits let the file be executed: any of its execute bits is set.
pub open spec fn exec_mode(mode: u32) -> bool {
    mode & 0o111u32 != 0
}

/// Whether permission bits let the file be executed.
pub fn is_exec_mode(mode: u32) -> (r: bool)
    ensures
        r == exec_mode(mode),
{
    mode & 0o111 != 0
}

/// Whether the entry is an executable file.
pub open spec fn runnable(e: Entry) -> bool {
    e.exists && !e.is_dir && exec_mode(e.mode)
}

/// The executable that `lookup` settles on, given the paths of `lookup_candidates` and what
/// the file system reports of each. For a target with a `/` its single path must exist and
/// be an executable file; for a name, the first candidate that is an executable file wins.
pub fn lookup_choose(target: &str, candidates: &Vec<String>, entries: &Vec<Entry>) -> (r: Result<
    String,
    PathError,
>)
    requires
        candidates@.len() == entries@.len(),
        contains_seq(target@, seq!['/']) ==> candidates@.len() == 1,
    ensures
        contains_seq(target@, seq!['/']) ==> match r {
            Ok(x) => runnable(entries@[0]) && x@ == candidates@[0]@,
            Err(e) => if !entries@[0].exists {
                e@ == PathErrorV::DoesNotExist(candidates@[0]@)
            } else {
                !runnable(entries@[0]) && e@ == PathErrorV::IsNotExec(candidates@[0]@)
            },
        },
        !contains_seq(target@, seq!['/']) ==> match r {
            Ok(x) => exists|k: int|
                0 <= k < entries@.len() && runnable(#[trigger] entries@[k]) && x@ == candidates@[k]@
                    && forall|j: int| 0 <= j < k ==> !runnable(#[trigger] entries@[j]),
            Err(e) => (forall|k: int| 0 <= k < entries@.len() ==> !runnable(#[trigger] entries@[k]))
                && e@ == PathErrorV::DoesNotExist(target@),
        },
{
    let slash = has(target, "/");
    proof {
        reveal_strlit("/");
        assert("/"@ =~= seq!['/']);
    }
    if slash {
        let e = entries[0];
        if !e.exists {
            Err(PathError::does_not_exist(candidates[0].as_str()))
        } else if e.is_dir || !is_exec_mode(e.mode) {
            Err(PathError::is_not_exec(candidates[0].as_str()))
        } else {
            Ok(candidates[0].clone())
        }
    } else {
        let mut i: usize = 0;
        while i < entries.len()
            invariant
                candidates@.len() == entries@.len(),
                !contains_seq(target@, seq!['/']),
                i <= entries@.len(),
                forall|j: int| 0 <= j < i ==> !runnable(#[trigger] entries@[j]),
            decreases entries.len() - i,
        {
            let e = entries[i];
            if e.exists && !e.is_dir && is_exec_mode(e.mode) {
                assert(runnable(entries@[i as int]));
                return Ok(candidates[i].clone());
            }
            i = i + 1;
        }
        Err(PathError::does_not_exist(target))
    }
}

} // verus!
