//! File permission options, copy options and the computations on file contents.
use vstd::prelude::*;
use vstd::string::*;
use crate::errors::{FileError, FuError, PathError, PathErrorV};
use crate::path::{abs, abs_of, base, dir, file_name_of, has_parent, mash, mash_of, path_eq, components_of, trim_last_of, trim_prefix, trim_prefix_of};
use crate::text::contains_seq;
use crate::pattern::{Pattern, capture_groups, captures_of, captures_view, groups_view, regex_valid};
use blake2::Digest;

verus! {

/// Whether the new mode revokes, as compared to the old one, read or execute permission of
/// the owner, the group or others: the bits that directories need to be entered.
pub open spec fn revoking(old: u32, new: u32) -> bool {
    (old & 0o0500u32) > (new & 0o0500u32) || (old & 0o0050u32) > (new & 0o0050u32) || (old
        & 0o0005u32) > (new & 0o0005u32)
}

/// Whether the new mode is revoking permissions as compared to the old mode, as pertains to
/// directory read/execute permissions.
pub fn revoking_mode(old: u32, new: u32) -> (r: bool)
    ensures
        r == revoking(old, new),
{
    old & 0o0500 > new & 0o0500 || old & 0o0050 > new & 0o0050 || old & 0o0005 > new & 0o0005
}

/// Options for changing file permissions.
#[derive(Debug, Clone)]
pub struct Chmod {
    /// The mode to set.
    pub mode: u32,
    /// The path to change.
    pub path: String,
    /// Change only directories.
    pub dirs: bool,
    /// Change only files.
    pub files: bool,
    /// Change recursively.
    pub recursive: bool,
}

impl Chmod {
    /// Target all files and directories. This is the default.
    pub fn all(&mut self) -> (r: &mut Self)
        ensures
            *r == (Chmod { dirs: false, files: false, ..*old(self) }),
            *final(self) == *final(r),
    {
        self.dirs = false;
        self.files = false;
        self
    }

    /// Target only directories.
    pub fn dirs(&mut self) -> (r: &mut Self)
        ensures
            *r == (Chmod { dirs: true, files: false, ..*old(self) }),
            *final(self) == *final(r),
    {
        self.dirs = true;
        self.files = false;
        self
    }

    /// Target only files.
    pub fn files(&mut self) -> (r: &mut Self)
        ensures
            *r == (Chmod { dirs: false, files: true, ..*old(self) }),
            *final(self) == *final(r),
    {
        self.dirs = false;
        self.files = true;
        self
    }

    /// Set the mode.
    pub fn mode(&mut self, mode: u32) -> (r: &mut Self)
        ensures
            *r == (Chmod { mode: mode, ..*old(self) }),
            *final(self) == *final(r),
    {
        self.mode = mode;
        self
    }

    /// Add read permission for all.
    pub fn add_r(&mut self) -> (r: &mut Self)
        ensures
            *r == (Chmod { mode: old(self).mode | 0o0444u32, ..*old(self) }),
            *final(self) == *final(r),
    {
        self.mode = self.mode | 0o0444;
        self
    }

    /// Add write permission for all.
    pub fn add_w(&mut self) -> (r: &mut Self)
        ensures
            *r == (Chmod { mode: old(self).mode | 0o0222u32, ..*old(self) }),
            *final(self) == *final(r),
    {
        self.mode = self.mode | 0o0222;
        self
    }

    /// Add execute permission for all.
    pub fn add_x(&mut self) -> (r: &mut Self)
        ensures
            *r == (Chmod { mode: old(self).mode | 0o0111u32, ..*old(self) }),
            *final(self) == *final(r),
    {
        self.mode = self.mode | 0o0111;
        self
    }

    /// Make read only: remove write and execute permission for all.
    pub fn readonly(&mut self) -> (r: &mut Self)
        ensures
            *r == (Chmod { mode: (old(self).mode & 0o7555u32) & 0o7666u32, ..*old(self) }),
            *final(self) == *final(r),
    {
        self.mode = (self.mode & 0o7555) & 0o7666;
        self
    }

    /// Drop group and other permissions.
    pub fn secure(&mut self) -> (r: &mut Self)
        ensures
            *r == (Chmod { mode: old(self).mode & 0o7700u32, ..*old(self) }),
            *final(self) == *final(r),
    {
        self.mode = self.mode & 0o7700;
        self
    }

    /// Remove read permission for all.
    pub fn sub_r(&mut self) -> (r: &mut Self)
        ensures
            *r == (Chmod { mode: old(self).mode & 0o7333u32, ..*old(self) }),
            *final(self) == *final(r),
    {
        self.mode = self.mode & 0o7333;
        self
    }

    /// Remove write permission for all.
    pub fn sub_w(&mut self) -> (r: &mut Self)
        ensures
            *r == (Chmod { mode: old(self).mode & 0o7555u32, ..*old(self) }),
            *final(self) == *final(r),
    {
        self.mode = self.mode & 0o7555;
        self
    }

    /// Remove execute permission for all.
    pub fn sub_x(&mut self) -> (r: &mut Self)
        ensures
            *r == (Chmod { mode: old(self).mode & 0o7666u32, ..*old(self) }),
            *final(self) == *final(r),
    {
        self.mode = self.mode & 0o7666;
        self
    }

    /// Set the path to change.
    pub fn path(&mut self, path: &str) -> (r: &mut Self)
        ensures
            r.path@ == path@,
            r.mode == old(self).mode,
            r.dirs == old(self).dirs,
            r.files == old(self).files,
            r.recursive == old(self).recursive,
            *final(self) == *final(r),
    {
        self.path = String::from_str(path);
        self
    }

    /// Set whether to recurse into directories. This is the default.
    pub fn recurse(&mut self, yes: bool) -> (r: &mut Self)
        ensures
            *r == (Chmod { recursive: yes, ..*old(self) }),
            *final(self) == *final(r),
    {
        self.recursive = yes;
        self
    }
}


impl Chmod {
    /// Whether the options target an entry that is a directory (`is_dir`) or not: all
    /// entries when neither only directories nor only files are asked for.
    pub open spec fn targets_spec(&self, is_dir: bool) -> bool {
        (!self.dirs && !self.files) || (self.dirs && is_dir) || (self.files && !is_dir)
    }

    /// Whether the options target the entry.
    pub fn targets(&self, is_dir: bool) -> (r: bool)
        ensures
            r == self.targets_spec(is_dir),
    {
        (!self.dirs && !self.files) || (self.dirs && is_dir) || (self.files && !is_dir)
    }

    /// Whether the change can go ahead on the `n_sources` entries its path matches: a path
    /// that matches nothing is an error naming the path.
    pub fn matched(&self, n_sources: usize) -> (r: Result<(), PathError>)
        ensures
            n_sources == 0 ==> (r matches Err(e) && e@ == PathErrorV::DoesNotExist(self.path@)),
            n_sources > 0 ==> r is Ok,
    {
        if n_sources == 0 {
            Err(PathError::does_not_exist(self.path.as_str()))
        } else {
            Ok(())
        }
    }

    /// Whether the kind and current mode of an entry must be read before deciding: only
    /// when directories or files are singled out or the change is recursive. Otherwise the
    /// entry is taken as a non directory of mode 0.
    pub fn needs_stat(&self) -> (r: bool)
        ensures
            r == (self.dirs || self.files || self.recursive),
    {
        self.dirs || self.files || self.recursive
    }

    /// Whether the mode is set on an entry before its contents are visited: always for a
    /// targeted entry, except for a directory visited recursively whose permissions the new
    /// mode revokes, which is set afterwards so that it can still be entered.
    pub open spec fn sets_before_spec(&self, is_dir: bool, old_mode: u32) -> bool {
        self.targets_spec(is_dir) && (!self.recursive || !is_dir || !revoking(old_mode, self.mode))
    }

    /// Whether the mode is set on an entry after its contents were visited.
    pub open spec fn sets_after_spec(&self, is_dir: bool, old_mode: u32) -> bool {
        self.targets_spec(is_dir) && self.recursive && is_dir && revoking(old_mode, self.mode)
    }

    /// Whether the mode is set on an entry before its contents are visited.
    pub fn sets_before(&self, is_dir: bool, old_mode: u32) -> (r: bool)
        ensures
            r == self.sets_before_spec(is_dir, old_mode),
    {
        self.targets(is_dir) && (!self.recursive || !is_dir || (self.recursive
            && !revoking_mode(old_mode, self.mode)))
    }

    /// Whether the contents of the entry are visited.
    pub fn visits_contents(&self, is_dir: bool) -> (r: bool)
        ensures
            r == (self.recursive && is_dir),
    {
        self.recursive && is_dir
    }

    /// Whether the mode is set on an entry after its contents were visited.
    pub fn sets_after(&self, is_dir: bool, old_mode: u32) -> (r: bool)
        ensures
            r == self.sets_after_spec(is_dir, old_mode),
    {
        self.targets(is_dir) && self.recursive && is_dir && revoking_mode(old_mode, self.mode)
    }
}

/// Which entries a change targets: with only directories asked for, exactly the
/// directories; with only files, exactly the entries that are not directories; with neither
/// (or both), every entry.
pub proof fn law_chmod_targets(c: Chmod, is_dir: bool)
    ensures
        c.dirs && !c.files ==> (c.targets_spec(is_dir) <==> is_dir),
        c.files && !c.dirs ==> (c.targets_spec(is_dir) <==> !is_dir),
        !c.dirs && !c.files ==> c.targets_spec(is_dir),
        c.dirs && c.files ==> c.targets_spec(is_dir),
        c.targets_spec(true) || c.targets_spec(false),
{
}

/// A targeted entry has the mode set exactly once, either before or after its contents are
/// visited, and an entry that is not targeted never has it set. When the mode is set on a
/// directory before its contents are visited, the new mode still lets it be entered.
pub proof fn law_chmod_sets_once(c: Chmod, is_dir: bool, old_mode: u32)
    ensures
        c.targets_spec(is_dir) ==> c.sets_before_spec(is_dir, old_mode) != c.sets_after_spec(
            is_dir,
            old_mode,
        ),
        !c.targets_spec(is_dir) ==> !c.sets_before_spec(is_dir, old_mode) && !c.sets_after_spec(
            is_dir,
            old_mode,
        ),
        c.recursive && is_dir && c.sets_before_spec(is_dir, old_mode) ==> !revoking(
            old_mode,
            c.mode,
        ),
{
}

/// A new mode that keeps every permission bit of the old one revokes nothing; in
/// particular a mode never revokes anything from itself.
pub proof fn law_keeping_bits_revokes_nothing(old: u32, new: u32)
    requires
        old & !new == 0,
    ensures
        !revoking(old, new),
{
    assert(old & !new == 0 ==> (old & 0o0500u32) <= (new & 0o0500u32) && (old & 0o0050u32) <= (
    new & 0o0050u32) && (old & 0o0005u32) <= (new & 0o0005u32)) by (bit_vector);
}

/// The mode `chmod_p` starts with: the current mode of the path when it could be read,
/// else 0o644.
pub open spec fn initial_mode(current: Option<u32>) -> u32 {
    match current {
        Some(m) => m,
        None => 0o644u32,
    }
}

/// Chmod options for `path`, made absolute with `cwd` and `home`, whose current mode is
/// `current_mode` when it could be read. All entries are targeted, recursively.
pub fn chmod_p(path: &str, cwd: &str, home: &str, current_mode: Option<u32>) -> (r: Result<
    Chmod,
    PathError,
>)
    ensures
        match r {
            Ok(c) => abs_of(path@, cwd@, home@) == Ok::<Seq<char>, PathErrorV>(c.path@) && c.mode
                == initial_mode(current_mode) && !c.dirs && !c.files && c.recursive,
            Err(e) => abs_of(path@, cwd@, home@) == Err::<Seq<char>, PathErrorV>(e@),
        },
{
    let p = match abs(path, cwd, home) {
        Ok(v) => v,
        Err(e) => return Err(e),
    };
    let mode = match current_mode {
        Some(m) => m,
        None => 0o644,
    };
    Ok(Chmod { path: p, mode, dirs: false, files: false, recursive: true })
}

/// Options for copying a single file.
#[derive(Debug)]
pub struct Copyfile {
    /// The source file.
    pub src: String,
    /// The destination path.
    pub dst: String,
    /// The mode to give the copy, if set.
    pub mode: Option<u32>,
    /// Follow links when copying.
    pub follow_links: bool,
}

impl Copyfile {
    /// Set whether links are followed. Disabled by default.
    pub fn follow(&mut self, yes: bool) -> (r: &mut Self)
        ensures
            r.follow_links == yes,
            r.src == old(self).src,
            r.dst == old(self).dst,
            r.mode == old(self).mode,
            *final(self) == *final(r),
    {
        self.follow_links = yes;
        self
    }

    /// Set the mode to give the copy. Unset by default.
    pub fn mode(&mut self, mode: u32) -> (r: &mut Self)
        ensures
            r.mode == Some(mode),
            r.src == old(self).src,
            r.dst == old(self).dst,
            r.follow_links == old(self).follow_links,
            *final(self) == *final(r),
    {
        self.mode = Some(mode);
        self
    }
}

/// Copy options from `src` to `dst`, both made absolute with `cwd` and `home`; links are not
/// followed and no mode is set.
pub fn copyfile_p(src: &str, dst: &str, cwd: &str, home: &str) -> (r: Result<Copyfile, PathError>)
    ensures
        match r {
            Ok(c) => abs_of(src@, cwd@, home@) == Ok::<Seq<char>, PathErrorV>(c.src@) && abs_of(
                dst@,
                cwd@,
                home@,
            ) == Ok::<Seq<char>, PathErrorV>(c.dst@) && c.mode is None && !c.follow_links,
            Err(e) => abs_of(src@, cwd@, home@) == Err::<Seq<char>, PathErrorV>(e@) || (abs_of(
                src@,
                cwd@,
                home@,
            ) is Ok && abs_of(dst@, cwd@, home@) == Err::<Seq<char>, PathErrorV>(e@)),
        },
{
    let s = match abs(src, cwd, home) {
        Ok(v) => v,
        Err(e) => return Err(e),
    };
    let d = match abs(dst, cwd, home) {
        Ok(v) => v,
        Err(e) => return Err(e),
    };
    Ok(Copyfile { src: s, dst: d, mode: None, follow_links: false })
}

/// The parent of a path, as `dir` gives it.
pub open spec fn parent_of(p: Seq<char>) -> Result<Seq<char>, PathErrorV> {
    if has_parent(p) {
        Ok(trim_last_of(p))
    } else {
        Err(PathErrorV::ParentNotFound(p))
    }
}

/// The file name of a path, as `base` gives it.
pub open spec fn name_of(p: Seq<char>) -> Result<Seq<char>, PathErrorV> {
    match file_name_of(p) {
        Some(n) => Ok(n),
        None => Err(PathErrorV::FileNameNotFound(p)),
    }
}

/// Whether a copy of many sources, or into an existing directory, puts each source inside
/// the destination; otherwise the single source is cloned as the destination. No source is
/// an error.
pub fn copy_clones(src: &str, n_sources: usize, dst_is_dir: bool) -> (r: Result<bool, PathError>)
    ensures
        n_sources == 0 ==> (r matches Err(e) && e@ == PathErrorV::DoesNotExist(src@)),
        n_sources > 0 ==> r == Ok::<bool, PathError>(!dst_is_dir && n_sources == 1),
{
    if n_sources == 0 {
        Err(PathError::does_not_exist(src))
    } else {
        Ok(!(dst_is_dir || n_sources > 1))
    }
}

/// Where an entry met while walking the source `root` of a copy goes under the destination
/// `dst`: its path past the root when the source is cloned as the destination, its path
/// past the root's parent when sources are copied into the destination.
pub open spec fn copy_dest_of(dst: Seq<char>, entry: Seq<char>, root: Seq<char>, clone: bool) -> Result<
    Seq<char>,
    PathErrorV,
> {
    if clone {
        Ok(mash_of(dst, trim_prefix_of(entry, root)))
    } else {
        match parent_of(root) {
            Ok(d) => Ok(mash_of(dst, trim_prefix_of(entry, d))),
            Err(e) => Err(e),
        }
    }
}

/// Where an entry met while walking the source `root` of a copy goes under `dst`.
pub fn copy_dest(dst: &str, entry: &str, root: &str, clone: bool) -> (r: Result<String, PathError>)
    ensures
        match r {
            Ok(v) => copy_dest_of(dst@, entry@, root@, clone) == Ok::<Seq<char>, PathErrorV>(v@),
            Err(e) => copy_dest_of(dst@, entry@, root@, clone) == Err::<Seq<char>, PathErrorV>(e@),
        },
{
    if clone {
        let rel = trim_prefix(entry, root);
        Ok(mash(dst, rel.as_str()))
    } else {
        match dir(root) {
            Ok(d) => {
                let rel = trim_prefix(entry, d.as_str());
                Ok(mash(dst, rel.as_str()))
            },
            Err(e) => Err(e),
        }
    }
}

/// Where `move_p` moves a source matched by the pattern `src`: into an existing directory
/// `dst` under the name of `src`, else to `dst` itself.
pub fn move_dest(src: &str, dst: &str, dst_is_dir: bool) -> (r: Result<String, PathError>)
    ensures
        match r {
            Ok(v) => copy_file_dst_of(src@, dst@, dst_is_dir, dst_is_dir) == Ok::<Seq<char>, PathErrorV>(v@),
            Err(e) => copy_file_dst_of(src@, dst@, dst_is_dir, dst_is_dir) == Err::<Seq<char>, PathErrorV>(e@),
        },
{
    if dst_is_dir {
        match base(src) {
            Ok(n) => Ok(mash(dst, n.as_str())),
            Err(e) => Err(e),
        }
    } else {
        Ok(String::from_str(dst))
    }
}

/// What the file system reports of the source of a file copy.
#[derive(Clone, Copy, Debug, PartialEq, Eq)]
pub struct SourceKind {
    /// The source exists.
    pub exists: bool,
    /// The source is a directory.
    pub is_dir: bool,
    /// The source is a link to a directory.
    pub is_symlink_dir: bool,
}

/// Where and how a single file is copied.
#[derive(Debug)]
pub struct CopyTarget {
    /// The path the copy is written to.
    pub dst: String,
    /// The directory to create for the copy and the directory whose mode it takes.
    pub make_dir: Option<(String, String)>,
    /// Source and destination are the same path: nothing is copied.
    pub same: bool,
}

/// The path a file copy writes to: into an existing directory under the source's name,
/// else the destination itself.
pub open spec fn copy_file_dst_of(src: Seq<char>, dst: Seq<char>, dst_exists: bool, dst_is_dir: bool) -> Result<
    Seq<char>,
    PathErrorV,
> {
    if dst_exists && dst_is_dir {
        match name_of(src) {
            Ok(n) => Ok(mash_of(dst, n)),
            Err(e) => Err(e),
        }
    } else {
        Ok(dst)
    }
}

impl Copyfile {
    /// Plans the copy, given what the file system reports of the source and of the
    /// destination: the source must exist and be neither a directory nor a link to one; an
    /// existing directory destination receives the file under the source's name; a new
    /// destination needs its parent directory, made with the mode of the source's parent
    /// when the two parents differ.
    pub fn target(&self, src: SourceKind, dst_exists: bool, dst_is_dir: bool) -> (r: Result<
        CopyTarget,
        PathError,
    >)
        ensures
            !src.exists ==> (r matches Err(e) && e@ == PathErrorV::DoesNotExist(self.src@)),
            src.exists && (src.is_dir || src.is_symlink_dir) ==> (r matches Err(e) && e@
                == PathErrorV::IsNotFileOrSymlinkToFile(self.src@)),
            src.exists && !src.is_dir && !src.is_symlink_dir ==> match copy_file_dst_of(
                self.src@,
                self.dst@,
                dst_exists,
                dst_is_dir,
            ) {
                Err(e) => r matches Err(x) && x@ == e,
                Ok(d) => if dst_exists {
                    r matches Ok(t) && t.dst@ == d && t.make_dir is None && t.same == (
                    components_of(self.src@) == components_of(d))
                } else {
                    match (parent_of(self.src@), parent_of(d)) {
                        (Err(e), _) => r matches Err(x) && x@ == e,
                        (Ok(_), Err(e)) => r matches Err(x) && x@ == e,
                        (Ok(sd), Ok(dd)) => r matches Ok(t) && t.dst@ == d && t.same == (
                        components_of(self.src@) == components_of(d)) && if components_of(sd)
                            == components_of(dd) {
                            t.make_dir is None
                        } else {
                            t.make_dir matches Some(m) && m.0@ == dd && m.1@ == sd
                        },
                    }
                },
            },
    {
        if !src.exists {
            return Err(PathError::does_not_exist(self.src.as_str()));
        }
        if src.is_dir || src.is_symlink_dir {
            return Err(PathError::is_not_file_or_symlink_to_file(self.src.as_str()));
        }
        let dst = if dst_exists && dst_is_dir {
            match base(self.src.as_str()) {
                Ok(n) => mash(self.dst.as_str(), n.as_str()),
                Err(e) => return Err(e),
            }
        } else {
            self.dst.clone()
        };
        let mut make_dir: Option<(String, String)> = None;
        if !dst_exists {
            let srcdir = match dir(self.src.as_str()) {
                Ok(v) => v,
                Err(e) => return Err(e),
            };
            let dstdir = match dir(dst.as_str()) {
                Ok(v) => v,
                Err(e) => return Err(e),
            };
            if !path_eq(srcdir.as_str(), dstdir.as_str()) {
                make_dir = Some((dstdir, srcdir));
            }
        }
        let same = path_eq(self.src.as_str(), dst.as_str());
        Ok(CopyTarget { dst, make_dir, same })
    }
}

/// The strings joined, a `sep` between each two.
pub open spec fn join_with(items: Seq<Seq<char>>, sep: Seq<char>) -> Seq<char>
    decreases items.len(),
{
    if items.len() == 0 {
        Seq::empty()
    } else if items.len() == 1 {
        items[0]
    } else {
        join_with(items.drop_last(), sep) + sep + items.last()
    }
}

/// The values of a list of strings.
pub open spec fn strings_view(v: Seq<String>) -> Seq<Seq<char>> {
    v.map_values(|s: String| s@)
}

/// The text that `writelines` writes: the lines joined by newlines.
pub fn join_lines(lines: &[String]) -> (r: String)
    ensures
        r@ == join_with(strings_view(lines@), seq!['\n']),
{
    let mut r = String::new();
    let mut i: usize = 0;
    while i < lines.len()
        invariant
            i <= lines@.len(),
            r@ == join_with(strings_view(lines@.subrange(0, i as int)), seq!['\n']),
        decreases lines.len() - i,
    {
        proof {
            let sv = strings_view(lines@.subrange(0, i + 1));
            assert(sv.drop_last() =~= strings_view(lines@.subrange(0, i as int)));
            assert(sv.last() == lines@[i as int]@);
        }
        if i > 0 {
            crate::text::push_char(&mut r, '\n');
        } else {
            proof {
                assert(strings_view(lines@.subrange(0, 1)) =~= seq![lines@[0]@]);
            }
        }
        r.append(lines[i].as_str());
        i = i + 1;
    }
    assert(lines@.subrange(0, lines@.len() as int) =~= lines@);
    r
}

/// What the first capture group of a match gives: its text, or an error when there was no
/// match or the group took no part in it.
pub open spec fn first_group_of(c: Option<Seq<Option<Seq<char>>>>) -> Result<Seq<char>, FileError> {
    match c {
        Some(g) => if g.len() > 1 && g[1] is Some {
            Ok(g[1]->Some_0)
        } else {
            Err(FileError::FailedToExtractString)
        },
        None => Err(FileError::FailedToExtractString),
    }
}

/// The text of the first capture group, or an error when there was no match or the group
/// took no part in it.
pub fn first_group(groups: Option<Vec<Option<String>>>) -> (r: Result<String, FileError>)
    ensures
        match r {
            Ok(s) => first_group_of(captures_view(groups)) == Ok::<Seq<char>, FileError>(s@),
            Err(e) => first_group_of(captures_view(groups)) == Err::<Seq<char>, FileError>(e),
        },
{
    match groups {
        Some(mut g) => {
            let ghost gv = g@;
            if g.len() > 1 {
                proof {
                    assert(groups_view(gv)[1] == (match gv[1] {
                        Some(s) => Some(s@),
                        None => None::<Seq<char>>,
                    }));
                }
                match g.remove(1) {
                    Some(s) => Ok(s),
                    None => Err(FileError::FailedToExtractString),
                }
            } else {
                Err(FileError::FailedToExtractString)
            }
        },
        None => Err(FileError::FailedToExtractString),
    }
}

/// The texts of the capture groups after the whole match that took part in it, in order.
pub open spec fn present_groups(g: Seq<Option<Seq<char>>>) -> Seq<Seq<char>>
    decreases g.len(),
{
    if g.len() <= 1 {
        Seq::empty()
    } else {
        present_groups(g.drop_last()) + match g.last() {
            Some(s) => seq![s],
            None => Seq::empty(),
        }
    }
}

/// What the capture groups after the whole match give: the texts of those that took part in
/// it, or an error when there was no match or none of them took part.
pub open spec fn present_of(c: Option<Seq<Option<Seq<char>>>>) -> Result<Seq<Seq<char>>, FileError> {
    match c {
        Some(g) => if present_groups(g).len() > 0 {
            Ok(present_groups(g))
        } else {
            Err(FileError::FailedToExtractString)
        },
        None => Err(FileError::FailedToExtractString),
    }
}

proof fn lemma_present_groups(g: Seq<Option<Seq<char>>>, text: Seq<char>)
    requires
        forall|k: int| 0 <= k < g.len() ==> (#[trigger] g[k] matches Some(m) ==> contains_seq(text, m)),
    ensures
        forall|m: int| 0 <= m < present_groups(g).len() ==> contains_seq(text, #[trigger] present_groups(g)[m]),
    decreases g.len(),
{
    if g.len() > 1 {
        lemma_present_groups(g.drop_last(), text);
        assert forall|m: int| 0 <= m < present_groups(g).len() implies contains_seq(text, #[trigger] present_groups(g)[m]) by {
            if m < present_groups(g.drop_last()).len() {
                assert(present_groups(g)[m] == present_groups(g.drop_last())[m]);
            } else {
                assert(g[g.len() - 1] == g.last());
            }
        }
    }
}

fn collect_present(g: Vec<Option<String>>) -> (out: Vec<String>)
    ensures
        strings_view(out@) == present_groups(groups_view(g@)),
{
    let mut out: Vec<String> = Vec::new();
    let ghost gv = g@;
    let ghost vv = groups_view(gv);
    let mut g = g;
    let n = g.len();
    if n == 0 {
        assert(strings_view(out@) =~= Seq::<Seq<char>>::empty());
        return out;
    }
    let mut i: usize = 1;
    proof {
        assert(strings_view(out@) =~= Seq::<Seq<char>>::empty());
        assert(g@ =~= seq![gv[0]] + gv.subrange(1, n as int));
        assert(present_groups(vv.subrange(0, 1)) =~= Seq::<Seq<char>>::empty());
    }
    while i < n
        invariant
            n == gv.len(),
            vv == groups_view(gv),
            1 <= i <= n,
            g@ == seq![gv[0]] + gv.subrange(i as int, n as int),
            strings_view(out@) == present_groups(vv.subrange(0, i as int)),
        decreases n - i,
    {
        proof {
            let sub = vv.subrange(0, i + 1);
            assert(sub.drop_last() =~= vv.subrange(0, i as int));
            assert(sub.last() == vv[i as int]);
        }
        let item = g.remove(1);
        proof {
            assert(item == gv[i as int]);
            assert(g@ =~= seq![gv[0]] + gv.subrange(i + 1, n as int));
        }
        let ghost before = strings_view(out@);
        match item {
            Some(s) => {
                out.push(s);
                assert(strings_view(out@) =~= before + seq![gv[i as int]->Some_0@]);
            },
            None => {
                assert(strings_view(out@) =~= before + Seq::<Seq<char>>::empty());
            },
        }
        i = i + 1;
    }
    proof {
        assert(vv.subrange(0, n as int) =~= vv);
    }
    out
}

/// The texts of the capture groups after the whole match that took part in it, or an error
/// when there was no match or none of them took part.
pub fn present(groups: Option<Vec<Option<String>>>) -> (r: Result<Vec<String>, FileError>)
    ensures
        match r {
            Ok(v) => present_of(captures_view(groups)) == Ok::<Seq<Seq<char>>, FileError>(strings_view(v@)),
            Err(e) => present_of(captures_view(groups)) == Err::<Seq<Seq<char>>, FileError>(e),
        },
{
    match groups {
        Some(g) => {
            let out = collect_present(g);
            if out.len() == 0 {
                Err(FileError::FailedToExtractString)
            } else {
                Ok(out)
            }
        },
        None => Err(FileError::FailedToExtractString),
    }
}

/// The first capture group of `rx` in the file contents `data`, which is a piece of `data`.
pub fn extract_string(data: &str, rx: &Pattern) -> (r: Result<String, FileError>)
    ensures
        match r {
            Ok(s) => first_group_of(captures_of(rx@, data@)) == Ok::<Seq<char>, FileError>(s@),
            Err(e) => first_group_of(captures_of(rx@, data@)) == Err::<Seq<char>, FileError>(e),
        },
        r matches Ok(s) ==> contains_seq(data@, s@),
{
    first_group(capture_groups(rx, data))
}

/// The capture groups of `rx` that take part in its match, after the whole match, in the
/// file contents `data`; each is a piece of `data`.
pub fn extract_strings(data: &str, rx: &Pattern) -> (r: Result<Vec<String>, FileError>)
    ensures
        match r {
            Ok(v) => present_of(captures_of(rx@, data@)) == Ok::<Seq<Seq<char>>, FileError>(strings_view(v@)),
            Err(e) => present_of(captures_of(rx@, data@)) == Err::<Seq<Seq<char>>, FileError>(e),
        },
        r matches Ok(v) ==> forall|k: int| 0 <= k < v@.len() ==> contains_seq(data@, #[trigger] v@[k]@),
{
    let groups = capture_groups(rx, data);
    let ghost gs = captures_view(groups);
    proof {
        if gs is Some {
            lemma_present_groups(gs->Some_0, data@);
        }
    }
    let r = present(groups);
    proof {
        if r is Ok {
            let v = r->Ok_0;
            assert forall|k: int| 0 <= k < v@.len() implies contains_seq(data@, #[trigger] v@[k]@) by {
                assert(strings_view(v@)[k] == v@[k]@);
                assert(strings_view(v@) == present_groups(gs->Some_0));
            }
        }
    }
    r
}

/// The first capture group of the pattern `rx` in the file contents `data`; an invalid
/// pattern is reported as such.
pub fn extract_string_p(data: &str, rx: &str) -> (r: Result<String, FuError>)
    ensures
        regex_valid(rx@) ==> match r {
            Ok(s) => first_group_of(captures_of(rx@, data@)) == Ok::<Seq<char>, FileError>(s@),
            Err(e) => e == FuError::File(FileError::FailedToExtractString)
                && first_group_of(captures_of(rx@, data@)) is Err,
        },
        !regex_valid(rx@) ==> r matches Err(FuError::Regex(_)),
        r matches Ok(s) ==> contains_seq(data@, s@),
{
    match Pattern::new(rx) {
        Ok(p) => match extract_string(data, &p) {
            Ok(s) => Ok(s),
            Err(e) => Err(FuError::File(e)),
        },
        Err(e) => Err(FuError::Regex(e)),
    }
}

/// The capture groups of the pattern `rx` that take part in its match, after the whole
/// match, in the file contents `data`; an invalid pattern is reported as such.
pub fn extract_strings_p(data: &str, rx: &str) -> (r: Result<Vec<String>, FuError>)
    ensures
        regex_valid(rx@) ==> match r {
            Ok(v) => present_of(captures_of(rx@, data@)) == Ok::<Seq<Seq<char>>, FileError>(strings_view(v@)),
            Err(e) => e == FuError::File(FileError::FailedToExtractString)
                && present_of(captures_of(rx@, data@)) is Err,
        },
        !regex_valid(rx@) ==> r matches Err(FuError::Regex(_)),
        r matches Ok(v) ==> forall|k: int| 0 <= k < v@.len() ==> contains_seq(data@, #[trigger] v@[k]@),
{
    match Pattern::new(rx) {
        Ok(p) => match extract_strings(data, &p) {
            Ok(s) => Ok(s),
            Err(e) => Err(FuError::File(e)),
        },
        Err(e) => Err(FuError::Regex(e)),
    }
}

/// The BLAKE2b-512 digest of `data`.
pub uninterp spec fn blake2b_512(data: Seq<u8>) -> Seq<u8>;

/// Computes the BLAKE2b digest with 64 byte output of `data` (`blake2::Blake2b512::digest`);
/// the digest is a function of the data alone and is 64 bytes long.
#[verifier::external_body]
fn blake2b_digest(data: &[u8]) -> (r: Vec<u8>)
    ensures
        r@ == blake2b_512(data@),
        r@.len() == 64,
{
    blake2::Blake2b512::digest(data).to_vec()
}

/// The digest of the file contents `data`.
pub fn digest(data: &[u8]) -> (r: Vec<u8>)
    ensures
        r@ == blake2b_512(data@),
        r@.len() == 64,
{
    blake2b_digest(data)
}

} // verus!
