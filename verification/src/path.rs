//! Lexical path handling on Unix style paths held as strings.
//!
//! A path is split into components exactly as `std::path::Path::components` does on Unix:
//! a leading `/` is the root, a leading `.` segment of a relative path is the current
//! directory, empty and `.` segments elsewhere are dropped, `..` is the parent directory and
//! every other segment is a normal component. Two paths are equal when their components are.
use vstd::prelude::*;
use crate::text::{count, count_char, chars_of, string_of, extend_chars, starts_with, ends_with, contains, slice_chars, is_prefix_of, is_suffix_of, contains_seq, occurs_at};
use crate::errors::{PathError, PathErrorV, IterError};

verus! {

/// One component of a path.
#[derive(Clone, Debug, PartialEq, Eq)]
pub enum Component {
    /// The leading `/` of an absolute path.
    RootDir,
    /// A leading `.` of a relative path.
    CurDir,
    /// A `..` segment.
    ParentDir,
    /// Any other non empty segment.
    Normal(String),
}

/// The mathematical value of a [`Component`].
pub enum Comp {
    Root,
    Cur,
    Parent,
    Normal(Seq<char>),
}

impl View for Component {
    type V = Comp;

    open spec fn view(&self) -> Comp {
        match self {
            Component::RootDir => Comp::Root,
            Component::CurDir => Comp::Cur,
            Component::ParentDir => Comp::Parent,
            Component::Normal(s) => Comp::Normal(s@),
        }
    }
}

/// The values of a list of components.
pub open spec fn comps_view(v: Seq<Component>) -> Seq<Comp> {
    v.map_values(|c: Component| c@)
}

/// The text of the current directory.
pub open spec fn dot() -> Seq<char> {
    seq!['.']
}

/// The text of the parent directory.
pub open spec fn dotdot() -> Seq<char> {
    seq!['.', '.']
}

/// `p` split at every `/`, keeping empty segments: there is always one segment more
/// than there are separators.
pub open spec fn split(p: Seq<char>) -> Seq<Seq<char>>
    decreases p.len(),
{
    if p.len() == 0 {
        seq![Seq::empty()]
    } else {
        let prev = split(p.drop_last());
        if p.last() == '/' {
            prev.push(Seq::empty())
        } else {
            prev.update(prev.len() - 1, prev.last().push(p.last()))
        }
    }
}

/// The component a segment stands for, if any: empty and `.` segments stand for none.
pub open spec fn seg_comp(seg: Seq<char>) -> Option<Comp> {
    if seg.len() == 0 || seg == dot() {
        None
    } else if seg == dotdot() {
        Some(Comp::Parent)
    } else {
        Some(Comp::Normal(seg))
    }
}

/// The components that a list of segments stands for, in order.
pub open spec fn body(ss: Seq<Seq<char>>) -> Seq<Comp>
    decreases ss.len(),
{
    if ss.len() == 0 {
        Seq::empty()
    } else {
        body(ss.drop_last()) + match seg_comp(ss.last()) {
            Some(c) => seq![c],
            None => Seq::empty(),
        }
    }
}

/// Whether `p` begins with the root `/`.
pub open spec fn rooted(p: Seq<char>) -> bool {
    p.len() > 0 && p[0] == '/'
}

/// The root or current directory component that precedes the segments of `p`.
pub open spec fn lead(p: Seq<char>) -> Seq<Comp> {
    if rooted(p) {
        seq![Comp::Root]
    } else if split(p)[0] == dot() {
        seq![Comp::Cur]
    } else {
        Seq::empty()
    }
}

/// The components of `p`, as `Path::components` yields them on Unix.
pub open spec fn components_of(p: Seq<char>) -> Seq<Comp> {
    lead(p) + body(split(p))
}

/// Splitting always yields at least one segment.
pub proof fn lemma_split_len(p: Seq<char>)
    ensures
        split(p).len() >= 1,
    decreases p.len(),
{
    if p.len() > 0 {
        lemma_split_len(p.drop_last());
    }
}

pub(crate) proof fn lemma_split_push(p: Seq<char>, c: char)
    ensures
        split(p.push(c)) == (if c == '/' {
            split(p).push(Seq::empty())
        } else {
            split(p).update(split(p).len() - 1, split(p).last().push(c))
        }),
        split(p.push(c)).len() >= 1,
        split(p).len() >= 1,
{
    assert(p.push(c).drop_last() =~= p);
    lemma_split_len(p);
    lemma_split_len(p.push(c));
}

pub(crate) proof fn lemma_body_push(ss: Seq<Seq<char>>, s: Seq<char>)
    ensures
        body(ss.push(s)) == body(ss) + match seg_comp(s) {
            Some(c) => seq![c],
            None => Seq::<Comp>::empty(),
        },
{
    assert(ss.push(s).drop_last() =~= ss);
}

/// Whether the characters are exactly `.`.
fn is_dot(seg: &Vec<char>) -> (r: bool)
    ensures
        r == (seg@ == dot()),
{
    if seg.len() == 1 && seg[0] == '.' {
        assert(seg@ =~= dot());
        true
    } else {
        false
    }
}

/// Whether the characters are exactly `..`.
fn is_dotdot(seg: &Vec<char>) -> (r: bool)
    ensures
        r == (seg@ == dotdot()),
{
    if seg.len() == 2 && seg[0] == '.' && seg[1] == '.' {
        assert(seg@ =~= dotdot());
        true
    } else {
        false
    }
}

/// The component a segment stands for, if any.
fn seg_component(seg: &Vec<char>) -> (r: Option<Component>)
    ensures
        match r {
            Some(c) => seg_comp(seg@) == Some(c@),
            None => seg_comp(seg@) is None,
        },
{
    if seg.len() == 0 || is_dot(seg) {
        None
    } else if is_dotdot(seg) {
        Some(Component::ParentDir)
    } else {
        Some(Component::Normal(string_of(seg.as_slice())))
    }
}

/// Appends the component of a completed segment to `out`.
fn push_segment(out: &mut Vec<Component>, seg: &Vec<char>)
    ensures
        comps_view(final(out)@) == comps_view(old(out)@) + match seg_comp(seg@) {
            Some(c) => seq![c],
            None => Seq::<Comp>::empty(),
        },
{
    let ghost o = comps_view(out@);
    match seg_component(seg) {
        Some(c) => {
            out.push(c);
            assert(comps_view(out@) =~= o + seq![c@]);
        },
        None => {
            assert(comps_view(out@) =~= o + Seq::<Comp>::empty());
        },
    }
}

/// The components of `p`, as `Path::components` yields them on Unix.
pub fn components(p: &str) -> (r: Vec<Component>)
    ensures
        comps_view(r@) == components_of(p@),
{
    let cs = chars_of(p);
    let n = cs.len();
    let root = n > 0 && cs[0] == '/';
    let mut out: Vec<Component> = Vec::new();
    if root {
        out.push(Component::RootDir);
    }
    let mut seg: Vec<char> = Vec::new();
    let mut first = true;
    let mut i: usize = 0;
    proof {
        assert(cs@.subrange(0, 0) =~= Seq::<char>::empty());
        assert(comps_view(out@) =~= (if root { seq![Comp::Root] } else { Seq::<Comp>::empty() }));
        assert(split(Seq::<char>::empty()).drop_last() =~= Seq::<Seq<char>>::empty());
    }
    while i < n
        invariant
            n == cs@.len(),
            cs@ == p@,
            i <= n,
            root == rooted(p@),
            split(cs@.subrange(0, i as int)).len() >= 1,
            split(cs@.subrange(0, i as int)).last() == seg@,
            first == (split(cs@.subrange(0, i as int)).len() == 1),
            comps_view(out@) == (if root {
                seq![Comp::Root]
            } else if !first && split(cs@.subrange(0, i as int))[0] == dot() {
                seq![Comp::Cur]
            } else {
                Seq::<Comp>::empty()
            }) + body(split(cs@.subrange(0, i as int)).drop_last()),
        decreases n - i,
    {
        let ghost pre = cs@.subrange(0, i as int);
        let c = cs[i];
        proof {
            assert(cs@.subrange(0, i + 1) =~= pre.push(c));
            lemma_split_push(pre, c);
        }
        if c == '/' {
            let ghost o = comps_view(out@);
            proof {
                assert(split(pre.push(c)).drop_last() =~= split(pre));
                assert(split(pre) =~= split(pre).drop_last().push(seg@));
                lemma_body_push(split(pre).drop_last(), seg@);
            }
            if first && !root && is_dot(&seg) {
                out.push(Component::CurDir);
                proof {
                    assert(split(pre).drop_last() =~= Seq::<Seq<char>>::empty());
                    assert(split(pre.push(c))[0] == split(pre)[0]);
                    assert(split(pre)[0] == seg@);
                    assert(comps_view(out@) =~= o.push(Comp::Cur));
                    assert(body(Seq::<Seq<char>>::empty()) =~= Seq::<Comp>::empty());
                    assert(comps_view(out@) =~= seq![Comp::Cur] + body(split(pre.push(c)).drop_last()));
                }
            } else {
                push_segment(&mut out, &seg);
                proof {
                    if !root && first {
                        assert(split(pre)[0] == seg@);
                        assert(split(pre.push(c))[0] == split(pre)[0]);
                        assert(split(pre).drop_last() =~= Seq::<Seq<char>>::empty());
                    }
                    if !first {
                        assert(split(pre.push(c))[0] == split(pre)[0]);
                    }
                }
            }
            seg = Vec::new();
            first = false;
            proof {
                assert(seg@ =~= Seq::<char>::empty());
            }
        } else {
            seg.push(c);
            proof {
                assert(split(pre.push(c)).drop_last() =~= split(pre).drop_last());
                if !first {
                    assert(split(pre.push(c))[0] == split(pre)[0]);
                }
            }
        }
        i = i + 1;
    }
    proof {
        assert(cs@.subrange(0, n as int) =~= p@);
        assert(split(p@) =~= split(p@).drop_last().push(seg@));
        lemma_body_push(split(p@).drop_last(), seg@);
    }
    let ghost o = comps_view(out@);
    if first && !root && is_dot(&seg) {
        out.push(Component::CurDir);
        proof {
            assert(split(p@).drop_last() =~= Seq::<Seq<char>>::empty());
            assert(split(p@)[0] == seg@);
            assert(body(Seq::<Seq<char>>::empty()) =~= Seq::<Comp>::empty());
            assert(comps_view(out@) =~= o.push(Comp::Cur));
            assert(comps_view(out@) =~= components_of(p@));
        }
    } else {
        push_segment(&mut out, &seg);
        proof {
            if first && !root {
                assert(split(p@)[0] == seg@);
                assert(split(p@).drop_last() =~= Seq::<Seq<char>>::empty());
            }
            assert(comps_view(out@) =~= components_of(p@));
        }
    }
    out
}


/// The text of a single component.
pub open spec fn comp_text(c: Comp) -> Seq<char> {
    match c {
        Comp::Root => seq!['/'],
        Comp::Cur => dot(),
        Comp::Parent => dotdot(),
        Comp::Normal(s) => s,
    }
}

/// `base` extended by `p` as `PathBuf::push` does on Unix: an absolute `p` replaces `base`,
/// otherwise a `/` separates the two unless `base` is empty or already ends with one.
pub open spec fn join_path(base: Seq<char>, p: Seq<char>) -> Seq<char> {
    if rooted(p) {
        p
    } else if base.len() > 0 && base.last() != '/' {
        base + seq!['/'] + p
    } else {
        base + p
    }
}

/// The path built by pushing the components one after the other onto an empty path.
pub open spec fn render(cs: Seq<Comp>) -> Seq<char>
    decreases cs.len(),
{
    if cs.len() == 0 {
        Seq::empty()
    } else {
        join_path(render(cs.drop_last()), comp_text(cs.last()))
    }
}

/// `cs` without its first element, if it has one.
pub open spec fn drop_front(cs: Seq<Comp>) -> Seq<Comp> {
    if cs.len() == 0 { cs } else { cs.drop_first() }
}

/// `cs` without its last element, if it has one.
pub open spec fn drop_back(cs: Seq<Comp>) -> Seq<Comp> {
    if cs.len() == 0 { cs } else { cs.drop_last() }
}

/// The path without its first component.
pub open spec fn trim_first_of(p: Seq<char>) -> Seq<char> {
    render(drop_front(components_of(p)))
}

/// The path without its last component.
pub open spec fn trim_last_of(p: Seq<char>) -> Seq<char> {
    render(drop_back(components_of(p)))
}

/// Whether the path has a parent: it has a last component and that is not the root.
pub open spec fn has_parent(p: Seq<char>) -> bool {
    components_of(p).len() > 0 && components_of(p).last() != Comp::Root
}

/// The file name of the path: its last component when that is a normal one.
pub open spec fn file_name_of(p: Seq<char>) -> Option<Seq<char>> {
    if components_of(p).len() > 0 {
        match components_of(p).last() {
            Comp::Normal(s) => Some(s),
            _ => None,
        }
    } else {
        None
    }
}

fn comp_chars(c: &Component) -> (r: Vec<char>)
    ensures
        r@ == comp_text(c@),
{
    match c {
        Component::RootDir => {
            let mut v = Vec::new();
            v.push('/');
            assert(v@ =~= seq!['/']);
            v
        },
        Component::CurDir => {
            let mut v = Vec::new();
            v.push('.');
            assert(v@ =~= dot());
            v
        },
        Component::ParentDir => {
            let mut v = Vec::new();
            v.push('.');
            v.push('.');
            assert(v@ =~= dotdot());
            v
        },
        Component::Normal(s) => chars_of(s.as_str()),
    }
}

/// Extends `buf` by `p` as `PathBuf::push` does.
fn push_path(buf: &mut Vec<char>, p: &[char])
    ensures
        final(buf)@ == join_path(old(buf)@, p@),
{
    if p.len() > 0 && p[0] == '/' {
        buf.clear();
        extend_chars(buf, p);
        assert(buf@ =~= p@);
    } else {
        if buf.len() > 0 && buf[buf.len() - 1] != '/' {
            buf.push('/');
        }
        extend_chars(buf, p);
    }
}

/// The path built from the given components, as collecting them into a `PathBuf` does.
fn render_chars(cs: &[Component]) -> (r: Vec<char>)
    ensures
        r@ == render(comps_view(cs@)),
{
    let mut r: Vec<char> = Vec::new();
    let mut i: usize = 0;
    proof {
        assert(comps_view(cs@.subrange(0, 0)) =~= Seq::<Comp>::empty());
    }
    while i < cs.len()
        invariant
            i <= cs@.len(),
            r@ == render(comps_view(cs@.subrange(0, i as int))),
        decreases cs.len() - i,
    {
        let t = comp_chars(&cs[i]);
        push_path(&mut r, t.as_slice());
        proof {
            let s1 = comps_view(cs@.subrange(0, i + 1));
            assert(s1.drop_last() =~= comps_view(cs@.subrange(0, i as int)));
            assert(s1.last() == cs@[i as int]@);
        }
        i = i + 1;
    }
    assert(cs@.subrange(0, cs@.len() as int) =~= cs@);
    r
}

/// The path built from the given components, as collecting them into a `PathBuf` does.
pub fn from_components(cs: &[Component]) -> (r: String)
    ensures
        r@ == render(comps_view(cs@)),
{
    let v = render_chars(cs);
    string_of(v.as_slice())
}

/// `base` extended by `path`, as `Path::join` does: an absolute `path` replaces `base`,
/// otherwise the two are joined by a separator.
pub fn join(base: &str, path: &str) -> (r: String)
    ensures
        r@ == join_path(base@, path@),
{
    let mut b = chars_of(base);
    let p = chars_of(path);
    push_path(&mut b, p.as_slice());
    string_of(b.as_slice())
}

/// `base` without a leading `/`.
pub open spec fn unrooted(base: Seq<char>) -> Seq<char> {
    if rooted(base) { base.subrange(1, base.len() as int) } else { base }
}

/// `dir` joined with `base` taken as relative, built back from its components.
pub open spec fn mash_of(dir: Seq<char>, base: Seq<char>) -> Seq<char> {
    render(components_of(join_path(dir, unrooted(base))))
}

/// `dir` joined with `base`, a leading `/` of `base` dropped so that it stays inside `dir`,
/// and normalised through its components.
pub fn mash(dir: &str, base: &str) -> (r: String)
    ensures
        r@ == mash_of(dir@, base@),
{
    let b = chars_of(base);
    let rel = if b.len() > 0 && b[0] == '/' {
        slice_chars(b.as_slice(), 1, b.len())
    } else {
        b
    };
    let mut j = chars_of(dir);
    push_path(&mut j, rel.as_slice());
    let js = string_of(j.as_slice());
    let cs = components(js.as_str());
    from_components(cs.as_slice())
}

/// Whether two components are the same.
pub fn same_component(a: &Component, b: &Component) -> (r: bool)
    ensures
        r == (a@ == b@),
{
    match (a, b) {
        (Component::RootDir, Component::RootDir) => true,
        (Component::CurDir, Component::CurDir) => true,
        (Component::ParentDir, Component::ParentDir) => true,
        (Component::Normal(x), Component::Normal(y)) => x.eq(y),
        _ => false,
    }
}

/// Whether two lists of components are the same.
fn same_components(a: &[Component], b: &[Component]) -> (r: bool)
    ensures
        r == (comps_view(a@) == comps_view(b@)),
{
    if a.len() != b.len() {
        assert(comps_view(a@).len() != comps_view(b@).len());
        return false;
    }
    let mut i: usize = 0;
    while i < a.len()
        invariant
            a@.len() == b@.len(),
            i <= a@.len(),
            forall|j: int| 0 <= j < i ==> a@[j]@ == b@[j]@,
        decreases a.len() - i,
    {
        if !same_component(&a[i], &b[i]) {
            assert(comps_view(a@)[i as int] != comps_view(b@)[i as int]);
            return false;
        }
        i = i + 1;
    }
    assert(comps_view(a@) =~= comps_view(b@));
    true
}

/// Whether two paths are equal, as `Path` compares them: by their components.
pub fn path_eq(a: &str, b: &str) -> (r: bool)
    ensures
        r == (components_of(a@) == components_of(b@)),
{
    let x = components(a);
    let y = components(b);
    same_components(x.as_slice(), y.as_slice())
}

/// Whether the path is absolute, i.e. begins with the root.
pub fn is_absolute(p: &str) -> (r: bool)
    ensures
        r == rooted(p@),
{
    if p.unicode_len() > 0 {
        p.get_char(0) == '/'
    } else {
        false
    }
}

/// The first component of the path.
pub fn first(p: &str) -> (r: Result<Component, IterError>)
    ensures
        match r {
            Ok(c) => components_of(p@).len() > 0 && c@ == components_of(p@)[0],
            Err(e) => components_of(p@).len() == 0 && e == IterError::ItemNotFound,
        },
{
    let mut cs = components(p);
    if cs.len() == 0 {
        Err(IterError::item_not_found())
    } else {
        let c = cs.remove(0);
        Ok(c)
    }
}

/// The last component of the path.
pub fn last(p: &str) -> (r: Result<Component, IterError>)
    ensures
        match r {
            Ok(c) => components_of(p@).len() > 0 && c@ == components_of(p@).last(),
            Err(e) => components_of(p@).len() == 0 && e == IterError::ItemNotFound,
        },
{
    let mut cs = components(p);
    match cs.pop() {
        Some(c) => Ok(c),
        None => Err(IterError::item_not_found()),
    }
}

/// The path with its first component trimmed off.
pub fn trim_first(p: &str) -> (r: String)
    ensures
        r@ == trim_first_of(p@),
{
    let mut cs = components(p);
    if cs.len() > 0 {
        let ghost before = comps_view(cs@);
        let _ = cs.remove(0);
        assert(comps_view(cs@) =~= before.drop_first());
    }
    from_components(cs.as_slice())
}

fn trim_last_chars(p: &str) -> (r: Vec<char>)
    ensures
        r@ == trim_last_of(p@),
{
    let mut cs = components(p);
    if cs.len() > 0 {
        let ghost before = comps_view(cs@);
        let _ = cs.pop();
        assert(comps_view(cs@) =~= before.drop_last());
    }
    render_chars(cs.as_slice())
}

/// The path with its last component trimmed off.
pub fn trim_last(p: &str) -> (r: String)
    ensures
        r@ == trim_last_of(p@),
{
    let v = trim_last_chars(p);
    string_of(v.as_slice())
}

/// The path without its final component: an error when it has no parent, that is when it
/// is empty or only the root.
pub fn dir(p: &str) -> (r: Result<String, PathError>)
    ensures
        match r {
            Ok(d) => has_parent(p@) && d@ == trim_last_of(p@),
            Err(e) => !has_parent(p@) && e@ == PathErrorV::ParentNotFound(p@),
        },
{
    let mut cs = components(p);
    let n = cs.len();
    if n == 0 {
        return Err(PathError::parent_not_found(p));
    }
    if matches!(cs[n - 1], Component::RootDir) {
        return Err(PathError::parent_not_found(p));
    }
    let ghost before = comps_view(cs@);
    let _ = cs.pop();
    assert(comps_view(cs@) =~= before.drop_last());
    Ok(from_components(cs.as_slice()))
}

/// The final component of the path when it is a normal one.
pub fn base(p: &str) -> (r: Result<String, PathError>)
    ensures
        match r {
            Ok(b) => file_name_of(p@) == Some(b@),
            Err(e) => file_name_of(p@) is None && e@ == PathErrorV::FileNameNotFound(p@),
        },
{
    let mut cs = components(p);
    match cs.pop() {
        Some(Component::Normal(s)) => Ok(s),
        _ => Err(PathError::filename_not_found(p)),
    }
}

/// Whether the path is the empty string.
pub fn empty(p: &str) -> (r: bool)
    ensures
        r == (p@.len() == 0),
{
    p.unicode_len() == 0
}

/// Whether the path, as a string, contains `value`.
pub fn has(p: &str, value: &str) -> (r: bool)
    ensures
        r == contains_seq(p@, value@),
{
    let s = chars_of(p);
    let v = chars_of(value);
    contains(s.as_slice(), v.as_slice())
}

/// Whether the path, as a string, begins with `value`.
pub fn has_prefix(p: &str, value: &str) -> (r: bool)
    ensures
        r == is_prefix_of(value@, p@),
{
    let s = chars_of(p);
    let v = chars_of(value);
    starts_with(s.as_slice(), v.as_slice())
}

/// Whether the path, as a string, ends with `value`.
pub fn has_suffix(p: &str, value: &str) -> (r: bool)
    ensures
        r == is_suffix_of(value@, p@),
{
    let s = chars_of(p);
    let v = chars_of(value);
    ends_with(s.as_slice(), v.as_slice())
}

/// The path as a string; a `&str` always converts.
pub fn to_string(p: &str) -> (r: Result<String, PathError>)
    ensures
        r matches Ok(s) && s@ == p@,
{
    Ok(String::from_str(p))
}

/// The path with `prefix` trimmed off its front when it begins with it, else the path.
pub open spec fn trim_prefix_of(p: Seq<char>, prefix: Seq<char>) -> Seq<char> {
    if is_prefix_of(prefix, p) {
        p.subrange(prefix.len() as int, p.len() as int)
    } else {
        p
    }
}

/// The path with `prefix` trimmed off its front when it begins with it, else the path.
pub fn trim_prefix(p: &str, prefix: &str) -> (r: String)
    ensures
        r@ == trim_prefix_of(p@, prefix@),
{
    let s = chars_of(p);
    let x = chars_of(prefix);
    if starts_with(s.as_slice(), x.as_slice()) {
        let t = slice_chars(s.as_slice(), x.len(), s.len());
        string_of(t.as_slice())
    } else {
        String::from_str(p)
    }
}

/// The path with `suffix` trimmed off its end when it ends with it, else the path.
pub fn trim_suffix(p: &str, suffix: &str) -> (r: String)
    ensures
        r@ == if is_suffix_of(suffix@, p@) {
            p@.subrange(0, p@.len() - suffix@.len())
        } else {
            p@
        },
{
    let s = chars_of(p);
    let x = chars_of(suffix);
    if ends_with(s.as_slice(), x.as_slice()) {
        let t = slice_chars(s.as_slice(), 0, s.len() - x.len());
        string_of(t.as_slice())
    } else {
        String::from_str(p)
    }
}


/// A copy of a component.
pub fn copy_component(c: &Component) -> (r: Component)
    ensures
        r@ == c@,
{
    match c {
        Component::RootDir => Component::RootDir,
        Component::CurDir => Component::CurDir,
        Component::ParentDir => Component::ParentDir,
        Component::Normal(s) => Component::Normal(s.clone()),
    }
}

/// The index of the last `c` in `s`, or -1 when there is none.
pub open spec fn last_index_of(s: Seq<char>, c: char) -> int
    decreases s.len(),
{
    if s.len() == 0 {
        -1
    } else if s.last() == c {
        s.len() - 1
    } else {
        last_index_of(s.drop_last(), c)
    }
}

/// The stem of a file name, as `Path::file_stem` takes it: the name up to its last `.`,
/// unless the name has no `.` or its only leading one.
pub open spec fn stem_of(name: Seq<char>) -> Seq<char> {
    let i = last_index_of(name, '.');
    if name == dotdot() || i <= 0 {
        name
    } else {
        name.subrange(0, i)
    }
}

/// The path with the extension of its file name removed; a path without a file name is kept.
pub open spec fn trim_ext_of(p: Seq<char>) -> Seq<char> {
    match file_name_of(p) {
        Some(n) => join_path(trim_last_of(p), stem_of(n)),
        None => p,
    }
}

pub(crate) proof fn lemma_last_index_bounds(s: Seq<char>, c: char)
    ensures
        -1 <= last_index_of(s, c) < s.len(),
        last_index_of(s, c) >= 0 ==> s[last_index_of(s, c)] == c,
    decreases s.len(),
{
    if s.len() > 0 && s.last() != c {
        lemma_last_index_bounds(s.drop_last(), c);
    }
}

fn last_index(s: &[char], c: char) -> (r: Option<usize>)
    ensures
        match r {
            Some(i) => i as int == last_index_of(s@, c),
            None => last_index_of(s@, c) == -1,
        },
{
    let mut i = s.len();
    assert(s@.subrange(0, s@.len() as int) =~= s@);
    while i > 0
        invariant
            i <= s@.len(),
            last_index_of(s@, c) == last_index_of(s@.subrange(0, i as int), c),
        decreases i,
    {
        proof {
            assert(s@.subrange(0, i as int).drop_last() =~= s@.subrange(0, i - 1));
        }
        if s[i - 1] == c {
            return Some(i - 1);
        }
        i = i - 1;
    }
    None
}

/// The path with the extension trimmed off its file name.
pub fn trim_ext(p: &str) -> (r: String)
    ensures
        r@ == trim_ext_of(p@),
{
    match base(p) {
        Ok(name) => {
            let n = chars_of(name.as_str());
            let mut stem = n.clone();
            let is_dd = is_dotdot(&n);
            match last_index(n.as_slice(), '.') {
                Some(i) => {
                    proof {
                        lemma_last_index_bounds(n@, '.');
                    }
                    if !is_dd && i > 0 {
                        stem = slice_chars(n.as_slice(), 0, i);
                    }
                },
                None => {},
            }
            let mut b = trim_last_chars(p);
            push_path(&mut b, stem.as_slice());
            string_of(b.as_slice())
        },
        Err(_) => String::from_str(p),
    }
}

/// The extension of the path's file name, as `Path::extension` takes it: what follows the
/// name's last `.`, unless the name has no `.`, only a leading one, or is `..`.
pub open spec fn ext_of(p: Seq<char>) -> Option<Seq<char>> {
    match file_name_of(p) {
        Some(n) => {
            let i = last_index_of(n, '.');
            if n == dotdot() || i <= 0 {
                None
            } else {
                Some(n.subrange(i + 1, n.len() as int))
            }
        },
        None => None,
    }
}

/// The extension of the path's file name; an error when it has none.
pub fn ext(p: &str) -> (r: Result<String, PathError>)
    ensures
        match r {
            Ok(e) => ext_of(p@) == Some(e@),
            Err(e) => ext_of(p@) is None && e@ == PathErrorV::ExtensionNotFound(p@),
        },
{
    match base(p) {
        Ok(name) => {
            let n = chars_of(name.as_str());
            let is_dd = is_dotdot(&n);
            match last_index(n.as_slice(), '.') {
                Some(i) => {
                    proof {
                        lemma_last_index_bounds(n@, '.');
                    }
                    if !is_dd && i > 0 {
                        let e = slice_chars(n.as_slice(), i + 1, n.len());
                        Ok(string_of(e.as_slice()))
                    } else {
                        Err(PathError::extension_not_found(p))
                    }
                },
                None => Err(PathError::extension_not_found(p)),
            }
        },
        Err(_) => Err(PathError::extension_not_found(p)),
    }
}

/// The file name of the path without its extension.
pub fn name(p: &str) -> (r: Result<String, PathError>)
    ensures
        match r {
            Ok(n) => file_name_of(trim_ext_of(p@)) == Some(n@),
            Err(e) => file_name_of(trim_ext_of(p@)) is None && e@ == PathErrorV::FileNameNotFound(
                trim_ext_of(p@),
            ),
        },
{
    let t = trim_ext(p);
    base(t.as_str())
}

/// The path with `val` appended to its text.
pub fn concat(p: &str, val: &str) -> (r: String)
    ensures
        r@ == p@ + val@,
{
    let mut v = chars_of(p);
    let w = chars_of(val);
    extend_chars(&mut v, w.as_slice());
    string_of(v.as_slice())
}

/// The two character separator that follows a protocol name.
pub open spec fn slashes() -> Seq<char> {
    seq!['/', '/']
}

/// The index of the first occurrence of `x` in `s`.
pub open spec fn first_index(s: Seq<char>, x: Seq<char>) -> int {
    choose|i: int| occurs_at(s, x, i) && forall|j: int| 0 <= j < i ==> !occurs_at(s, x, j)
}

/// `s` is `lower` ignoring ASCII case, where `upper` is `lower` in ASCII upper case.
pub open spec fn same_ignoring_case(s: Seq<char>, lower: Seq<char>, upper: Seq<char>) -> bool {
    s.len() == lower.len() && forall|i: int| 0 <= i < s.len() ==> s[i] == lower[i] || s[i] == upper[i]
}

/// Whether `s` is one of the protocol prefixes `file://`, `ftp://`, `http://` or `https://`,
/// ignoring ASCII case. A string lowercases to one of these exactly when this holds: no
/// character outside ASCII lowercases to a character of them.
pub open spec fn is_protocol(s: Seq<char>) -> bool {
    ||| same_ignoring_case(s, seq!['f', 'i', 'l', 'e', ':', '/', '/'], seq!['F', 'I', 'L', 'E', ':', '/', '/'])
    ||| same_ignoring_case(s, seq!['f', 't', 'p', ':', '/', '/'], seq!['F', 'T', 'P', ':', '/', '/'])
    ||| same_ignoring_case(s, seq!['h', 't', 't', 'p', ':', '/', '/'], seq!['H', 'T', 'T', 'P', ':', '/', '/'])
    ||| same_ignoring_case(s, seq!['h', 't', 't', 'p', 's', ':', '/', '/'], seq!['H', 'T', 'T', 'P', 'S', ':', '/', '/'])
}

/// The path with a well known protocol prefix removed: when the text up to and including its
/// first `//` is such a prefix, what follows it; otherwise the path.
pub open spec fn trim_protocol_of(p: Seq<char>) -> Seq<char> {
    if contains_seq(p, slashes()) && is_protocol(p.subrange(0, first_index(p, slashes()) + 2)) {
        p.subrange(first_index(p, slashes()) + 2, p.len() as int)
    } else {
        p
    }
}

pub(crate) fn same_ignoring_case_exec(s: &[char], lower: &[char], upper: &[char]) -> (r: bool)
    requires
        lower@.len() == upper@.len(),
    ensures
        r == same_ignoring_case(s@, lower@, upper@),
{
    if s.len() != lower.len() {
        return false;
    }
    let mut i: usize = 0;
    while i < s.len()
        invariant
            s@.len() == lower@.len() == upper@.len(),
            i <= s@.len(),
            forall|j: int| 0 <= j < i ==> s@[j] == lower@[j] || s@[j] == upper@[j],
        decreases s.len() - i,
    {
        if s[i] != lower[i] && s[i] != upper[i] {
            return false;
        }
        i = i + 1;
    }
    true
}

fn chars2(v: &mut Vec<char>, a: char, b: char)
    ensures
        final(v)@ == old(v)@ + seq![a, b],
{
    v.push(a);
    v.push(b);
    assert(v@ =~= old(v)@ + seq![a, b]);
}

fn is_protocol_exec(s: &[char]) -> (r: bool)
    ensures
        r == is_protocol(s@),
{
    let mut l1: Vec<char> = Vec::new();
    chars2(&mut l1, 'f', 'i');
    chars2(&mut l1, 'l', 'e');
    chars2(&mut l1, ':', '/');
    l1.push('/');
    let mut u1: Vec<char> = Vec::new();
    chars2(&mut u1, 'F', 'I');
    chars2(&mut u1, 'L', 'E');
    chars2(&mut u1, ':', '/');
    u1.push('/');
    let mut l2: Vec<char> = Vec::new();
    chars2(&mut l2, 'f', 't');
    chars2(&mut l2, 'p', ':');
    chars2(&mut l2, '/', '/');
    let mut u2: Vec<char> = Vec::new();
    chars2(&mut u2, 'F', 'T');
    chars2(&mut u2, 'P', ':');
    chars2(&mut u2, '/', '/');
    let mut l3: Vec<char> = Vec::new();
    chars2(&mut l3, 'h', 't');
    chars2(&mut l3, 't', 'p');
    chars2(&mut l3, ':', '/');
    l3.push('/');
    let mut u3: Vec<char> = Vec::new();
    chars2(&mut u3, 'H', 'T');
    chars2(&mut u3, 'T', 'P');
    chars2(&mut u3, ':', '/');
    u3.push('/');
    let mut l4: Vec<char> = Vec::new();
    chars2(&mut l4, 'h', 't');
    chars2(&mut l4, 't', 'p');
    chars2(&mut l4, 's', ':');
    chars2(&mut l4, '/', '/');
    let mut u4: Vec<char> = Vec::new();
    chars2(&mut u4, 'H', 'T');
    chars2(&mut u4, 'T', 'P');
    chars2(&mut u4, 'S', ':');
    chars2(&mut u4, '/', '/');
    assert(l1@ =~= seq!['f', 'i', 'l', 'e', ':', '/', '/']);
    assert(u1@ =~= seq!['F', 'I', 'L', 'E', ':', '/', '/']);
    assert(l2@ =~= seq!['f', 't', 'p', ':', '/', '/']);
    assert(u2@ =~= seq!['F', 'T', 'P', ':', '/', '/']);
    assert(l3@ =~= seq!['h', 't', 't', 'p', ':', '/', '/']);
    assert(u3@ =~= seq!['H', 'T', 'T', 'P', ':', '/', '/']);
    assert(l4@ =~= seq!['h', 't', 't', 'p', 's', ':', '/', '/']);
    assert(u4@ =~= seq!['H', 'T', 'T', 'P', 'S', ':', '/', '/']);
    same_ignoring_case_exec(s, l1.as_slice(), u1.as_slice())
        || same_ignoring_case_exec(s, l2.as_slice(), u2.as_slice())
        || same_ignoring_case_exec(s, l3.as_slice(), u3.as_slice())
        || same_ignoring_case_exec(s, l4.as_slice(), u4.as_slice())
}

fn trim_protocol_chars(s: &Vec<char>) -> (r: Vec<char>)
    ensures
        r@ == trim_protocol_of(s@),
{
    let mut sl: Vec<char> = Vec::new();
    chars2(&mut sl, '/', '/');
    assert(sl@ =~= slashes());
    match crate::text::find(s.as_slice(), sl.as_slice()) {
        Some(i) => {
            proof {
                let fi = first_index(s@, slashes());
                assert(occurs_at(s@, slashes(), i as int));
                assert(contains_seq(s@, slashes()));
                assert(occurs_at(s@, slashes(), fi) && forall|j: int| 0 <= j < fi ==> !occurs_at(s@, slashes(), j));
                if fi < i {
                } else if i < fi {
                }
                assert(fi == i);
                assert(i + 2 <= s@.len());
                assert(s@.len() == s.len());
            }
            let prefix = slice_chars(s.as_slice(), 0, i + 2);
            if is_protocol_exec(prefix.as_slice()) {
                slice_chars(s.as_slice(), i + 2, s.len())
            } else {
                s.clone()
            }
        },
        None => s.clone(),
    }
}

/// The path with a well known protocol prefix (`file://`, `ftp://`, `http://`, `https://`,
/// in any case) removed.
pub fn trim_protocol(p: &str) -> (r: String)
    ensures
        r@ == trim_protocol_of(p@),
{
    let s = chars_of(p);
    let t = trim_protocol_chars(&s);
    string_of(t.as_slice())
}


/// One step of lexical cleaning: `c` is the next component and `out` holds the cleaned
/// components so far. A leading `.` is dropped; a `..` removes a preceding normal component,
/// is dropped after the root, and is kept when nothing precedes it or a `..` does.
pub open spec fn clean_step(out: Seq<Comp>, c: Comp) -> Seq<Comp> {
    if c == Comp::Cur && out.len() == 0 {
        out
    } else if c == Comp::Parent && out.len() > 0 && out.last() != Comp::Parent {
        if out.last() is Normal {
            out.drop_last()
        } else {
            out
        }
    } else {
        out.push(c)
    }
}

/// The cleaned components of `cs`, taken from the first to the last.
pub open spec fn clean_comps(cs: Seq<Comp>) -> Seq<Comp>
    decreases cs.len(),
{
    if cs.len() == 0 {
        Seq::empty()
    } else {
        clean_step(clean_comps(cs.drop_last()), cs.last())
    }
}

/// The shortest lexically equivalent path: repeated separators, `.` elements and inner `..`
/// elements are removed, a `..` right after the root is dropped, and an empty result is `.`.
pub open spec fn clean_of(p: Seq<char>) -> Seq<char> {
    if clean_comps(components_of(p)).len() == 0 {
        dot()
    } else {
        render(clean_comps(components_of(p)))
    }
}

fn clean_chars(p: &str) -> (r: Vec<char>)
    ensures
        r@ == clean_of(p@),
{
    let cs = components(p);
    let mut out: Vec<Component> = Vec::new();
    let mut i: usize = 0;
    proof {
        assert(comps_view(cs@).subrange(0, 0) =~= Seq::<Comp>::empty());
        assert(comps_view(out@) =~= Seq::<Comp>::empty());
    }
    while i < cs.len()
        invariant
            i <= cs@.len(),
            comps_view(out@) == clean_comps(comps_view(cs@).subrange(0, i as int)),
        decreases cs.len() - i,
    {
        let ghost o = comps_view(out@);
        let ghost c = cs@[i as int]@;
        proof {
            let sub = comps_view(cs@).subrange(0, i + 1);
            assert(sub.drop_last() =~= comps_view(cs@).subrange(0, i as int));
            assert(sub.last() == c);
        }
        let n = out.len();
        let is_cur = matches!(cs[i], Component::CurDir);
        let is_parent = matches!(cs[i], Component::ParentDir);
        if is_cur && n == 0 {
        } else if is_parent && n > 0 && !matches!(out[n - 1], Component::ParentDir) {
            if matches!(out[n - 1], Component::Normal(_)) {
                let _ = out.pop();
                assert(comps_view(out@) =~= o.drop_last());
            }
        } else {
            out.push(copy_component(&cs[i]));
            assert(comps_view(out@) =~= o.push(c));
        }
        i = i + 1;
    }
    assert(comps_view(cs@).subrange(0, cs@.len() as int) =~= comps_view(cs@));
    if out.len() == 0 {
        let mut d = Vec::new();
        d.push('.');
        assert(d@ =~= dot());
        d
    } else {
        render_chars(out.as_slice())
    }
}

/// The shortest path equivalent to `p` by purely lexical processing.
pub fn clean(p: &str) -> (r: String)
    ensures
        r@ == clean_of(p@),
{
    let v = clean_chars(p);
    string_of(v.as_slice())
}

/// `p` with a leading home symbol replaced by `home`. More than one `~` is an error, as is
/// a single one anywhere but as the whole path or at the start of `~/`.
pub open spec fn expand_of(p: Seq<char>, home: Seq<char>) -> Result<Seq<char>, PathErrorV> {
    let n = count_char(p, '~');
    if n > 1 {
        Err(PathErrorV::MultipleHomeSymbols(p))
    } else if n == 1 && !is_prefix_of(seq!['~', '/'], p) && p != seq!['~'] {
        Err(PathErrorV::InvalidExpansion(p))
    } else if n == 1 && p == seq!['~'] {
        Ok(home)
    } else if n == 1 {
        Ok(join_path(home, p.subrange(2, p.len() as int)))
    } else {
        Ok(p)
    }
}

fn expand_chars(p: &str, s: &Vec<char>, home: &str) -> (r: Result<Vec<char>, PathError>)
    requires
        s@ == p@,
    ensures
        match r {
            Ok(v) => expand_of(p@, home@) == Ok::<Seq<char>, PathErrorV>(v@),
            Err(e) => expand_of(p@, home@) == Err::<Seq<char>, PathErrorV>(e@),
        },
{
    let n = count(s.as_slice(), '~');
    if n > 1 {
        return Err(PathError::multiple_home_symbols(p));
    }
    if n == 0 {
        return Ok(s.clone());
    }
    let mut tilde_slash: Vec<char> = Vec::new();
    chars2(&mut tilde_slash, '~', '/');
    assert(tilde_slash@ =~= seq!['~', '/']);
    let is_tilde = s.len() == 1 && s[0] == '~';
    assert(is_tilde == (s@ == seq!['~'])) by {
        if s@ == seq!['~'] {
            assert(s@[0] == '~');
        }
        if is_tilde {
            assert(s@ =~= seq!['~']);
        }
    }
    let pre = starts_with(s.as_slice(), tilde_slash.as_slice());
    if !pre && !is_tilde {
        return Err(PathError::invalid_expansion(p));
    }
    let mut h = chars_of(home);
    if is_tilde {
        Ok(h)
    } else {
        let rest = slice_chars(s.as_slice(), 2, s.len());
        push_path(&mut h, rest.as_slice());
        Ok(h)
    }
}

/// The path with its home symbol expanded to `home`, the user's home directory.
pub fn expand(p: &str, home: &str) -> (r: Result<String, PathError>)
    ensures
        match r {
            Ok(v) => expand_of(p@, home@) == Ok::<Seq<char>, PathErrorV>(v@),
            Err(e) => expand_of(p@, home@) == Err::<Seq<char>, PathErrorV>(e@),
        },
{
    let s = chars_of(p);
    match expand_chars(p, &s, home) {
        Ok(v) => Ok(string_of(v.as_slice())),
        Err(e) => Err(e),
    }
}


/// The absolute clean form of `p`, given the current directory `cwd` and the home directory
/// `home`: the home symbol is expanded, a protocol prefix trimmed and the result cleaned; a
/// relative result is joined to `cwd`, or to its parent when it starts with `..`.
pub open spec fn abs_of(p: Seq<char>, cwd: Seq<char>, home: Seq<char>) -> Result<
    Seq<char>,
    PathErrorV,
> {
    if p.len() == 0 {
        Err(PathErrorV::Empty)
    } else {
        match expand_of(p, home) {
            Err(e) => Err(e),
            Ok(x) => {
                let c = clean_of(trim_protocol_of(x));
                if rooted(c) {
                    Ok(c)
                } else if components_of(c).len() > 0 && components_of(c)[0] == Comp::Parent {
                    if has_parent(cwd) {
                        Ok(join_path(trim_last_of(cwd), trim_first_of(c)))
                    } else {
                        Err(PathErrorV::ParentNotFound(cwd))
                    }
                } else {
                    Ok(join_path(cwd, c))
                }
            },
        }
    }
}

/// The path in an absolute clean form, given the current directory `cwd` and the home
/// directory `home`.
pub fn abs(p: &str, cwd: &str, home: &str) -> (r: Result<String, PathError>)
    ensures
        match r {
            Ok(v) => abs_of(p@, cwd@, home@) == Ok::<Seq<char>, PathErrorV>(v@),
            Err(e) => abs_of(p@, cwd@, home@) == Err::<Seq<char>, PathErrorV>(e@),
        },
{
    if p.unicode_len() == 0 {
        return Err(PathError::empty());
    }
    let s = chars_of(p);
    let e = match expand_chars(p, &s, home) {
        Ok(v) => v,
        Err(err) => return Err(err),
    };
    let t = trim_protocol_chars(&e);
    let ts = string_of(t.as_slice());
    let c = clean_chars(ts.as_str());
    let cstr = string_of(c.as_slice());
    if c.len() > 0 && c[0] == '/' {
        return Ok(cstr);
    }
    let cs = components(cstr.as_str());
    if cs.len() > 0 && matches!(cs[0], Component::ParentDir) {
        match dir(cwd) {
            Ok(d) => {
                let rest = trim_first(cstr.as_str());
                Ok(join(d.as_str(), rest.as_str()))
            },
            Err(err) => Err(err),
        }
    } else {
        Ok(join(cwd, cstr.as_str()))
    }
}

/// Walks the components of a relative path against `path`, the directory of the base: each
/// `..` moves `path` up one level, and the first normal component, joined with all that
/// follows it, gives the cleaned result. `None` when no normal component is met.
#[verifier::opaque]
pub open spec fn abs_from_walk(path: Seq<char>, cs: Seq<Comp>) -> Option<Seq<char>>
    decreases cs.len(),
{
    if cs.len() == 0 {
        None
    } else {
        match cs[0] {
            Comp::Parent => abs_from_walk(trim_last_of(path), cs.drop_first()),
            Comp::Normal(x) => Some(
                clean_of(join_path(join_path(path, x), render(cs.drop_first()))),
            ),
            _ => abs_from_walk(path, cs.drop_first()),
        }
    }
}

pub(crate) proof fn lemma_abs_from_walk(path: Seq<char>, cs: Seq<Comp>)
    ensures
        abs_from_walk(path, cs) == if cs.len() == 0 {
            None
        } else {
            match cs[0] {
                Comp::Parent => abs_from_walk(trim_last_of(path), cs.drop_first()),
                Comp::Normal(x) => Some(
                    clean_of(join_path(join_path(path, x), render(cs.drop_first()))),
                ),
                _ => abs_from_walk(path, cs.drop_first()),
            }
        },
{
    reveal_with_fuel(abs_from_walk, 1);
}

/// The absolute path of `p` taken relative to the absolute form of `base`, whose last
/// element is a file name. An absolute `p`, or one equal to the base, is kept.
pub open spec fn abs_from_of(p: Seq<char>, base: Seq<char>, cwd: Seq<char>, home: Seq<char>) -> Result<
    Seq<char>,
    PathErrorV,
> {
    match abs_of(base, cwd, home) {
        Err(e) => Err(e),
        Ok(b) => if !rooted(p) && components_of(p) != components_of(b) {
            match abs_from_walk(trim_last_of(b), components_of(p)) {
                Some(r) => Ok(r),
                None => Err(PathErrorV::Empty),
            }
        } else {
            Ok(p)
        },
    }
}

fn join_clean(path: Vec<char>, x: &str, tail: &[Component]) -> (r: String)
    ensures
        r@ == clean_of(join_path(join_path(path@, x@), render(comps_view(tail@)))),
{
    let mut path = path;
    let xs = chars_of(x);
    push_path(&mut path, xs.as_slice());
    let t = render_chars(tail);
    push_path(&mut path, t.as_slice());
    let joined = string_of(path.as_slice());
    clean(joined.as_str())
}

/// The absolute path of `p` relative to `base`, the path of a file, given the current
/// directory `cwd` and the home directory `home`.
pub fn abs_from(p: &str, base: &str, cwd: &str, home: &str) -> (r: Result<String, PathError>)
    ensures
        match r {
            Ok(v) => abs_from_of(p@, base@, cwd@, home@) == Ok::<Seq<char>, PathErrorV>(v@),
            Err(e) => abs_from_of(p@, base@, cwd@, home@) == Err::<Seq<char>, PathErrorV>(e@),
        },
{
    let b = match abs(base, cwd, home) {
        Ok(v) => v,
        Err(e) => return Err(e),
    };
    if is_absolute(p) || path_eq(p, b.as_str()) {
        return Ok(String::from_str(p));
    }
    let cs = components(p);
    let mut path = trim_last_chars(b.as_str());
    let mut i: usize = 0;
    proof {
        assert(comps_view(cs@).subrange(0, 0 as int) == comps_view(cs@).subrange(0, 0));
        assert(comps_view(cs@).subrange(0, comps_view(cs@).len() as int) =~= comps_view(cs@));
    }
    while i < cs.len()
        invariant
            i <= cs@.len(),
            abs_of(base@, cwd@, home@) == Ok::<Seq<char>, PathErrorV>(b@),
            !rooted(p@),
            components_of(p@) != components_of(b@),
            comps_view(cs@) == components_of(p@),
            abs_from_walk(trim_last_of(b@), comps_view(cs@)) == abs_from_walk(
                path@,
                comps_view(cs@).subrange(i as int, cs@.len() as int),
            ),
        decreases cs.len() - i,
    {
        let ghost rest = comps_view(cs@).subrange(i as int, cs@.len() as int);
        proof {
            assert(rest.drop_first() =~= comps_view(cs@).subrange(i + 1, cs@.len() as int));
            assert(rest[0] == cs@[i as int]@);
            lemma_abs_from_walk(path@, rest);
        }
        match &cs[i] {
            Component::ParentDir => {
                let ps = string_of(path.as_slice());
                path = trim_last_chars(ps.as_str());
            },
            Component::Normal(x) => {
                let tail = vstd::slice::slice_subrange(cs.as_slice(), i + 1, cs.len());
                proof {
                    assert(comps_view(tail@) =~= rest.drop_first());
                }
                return Ok(join_clean(path, x.as_str(), tail));
            },
            _ => {},
        }
        i = i + 1;
    }
    proof {
        reveal_with_fuel(abs_from_walk, 1);
        assert(comps_view(cs@).subrange(i as int, cs@.len() as int).len() == 0);
    }
    Err(PathError::empty())
}


/// `n` parent directory components.
pub open spec fn parents(n: nat) -> Seq<Comp> {
    Seq::new(n, |k: int| Comp::Parent)
}

/// Walks the components `xs` of a path alongside the components `ys` of a base, collecting
/// in `acc` the components of the path relative to the base. The common leading components
/// are skipped; a `.` in the base keeps the path component; a `..` in the base gives up
/// (`None`); any other difference climbs out of what remains of the base.
#[verifier::opaque]
pub open spec fn rel_walk(xs: Seq<Comp>, ys: Seq<Comp>, acc: Seq<Comp>) -> Option<Seq<Comp>>
    decreases xs.len() + ys.len(),
{
    if xs.len() == 0 && ys.len() == 0 {
        Some(acc)
    } else if ys.len() == 0 {
        Some(acc + xs)
    } else if xs.len() == 0 {
        rel_walk(xs, ys.drop_first(), acc.push(Comp::Parent))
    } else if acc.len() == 0 && xs[0] == ys[0] {
        rel_walk(xs.drop_first(), ys.drop_first(), acc)
    } else if ys[0] == Comp::Cur {
        rel_walk(xs.drop_first(), ys.drop_first(), acc.push(xs[0]))
    } else if ys[0] == Comp::Parent {
        None
    } else {
        Some(acc + parents((ys.len() - 1) as nat) + xs)
    }
}

pub(crate) proof fn lemma_rel_walk(xs: Seq<Comp>, ys: Seq<Comp>, acc: Seq<Comp>)
    ensures
        rel_walk(xs, ys, acc) == if xs.len() == 0 && ys.len() == 0 {
            Some(acc)
        } else if ys.len() == 0 {
            Some(acc + xs)
        } else if xs.len() == 0 {
            rel_walk(xs, ys.drop_first(), acc.push(Comp::Parent))
        } else if acc.len() == 0 && xs[0] == ys[0] {
            rel_walk(xs.drop_first(), ys.drop_first(), acc)
        } else if ys[0] == Comp::Cur {
            rel_walk(xs.drop_first(), ys.drop_first(), acc.push(xs[0]))
        } else if ys[0] == Comp::Parent {
            None
        } else {
            Some(acc + parents((ys.len() - 1) as nat) + xs)
        },
{
    reveal_with_fuel(rel_walk, 1);
}

/// `p` relative to `base`, both first made absolute with `cwd` and `home`. Equal paths, and
/// a base that climbs with `..` where the two differ, give the absolute form of `p`.
pub open spec fn relative_from_of(p: Seq<char>, base: Seq<char>, cwd: Seq<char>, home: Seq<char>) -> Result<
    Seq<char>,
    PathErrorV,
> {
    match abs_of(p, cwd, home) {
        Err(e) => Err(e),
        Ok(x) => match abs_of(base, cwd, home) {
            Err(e) => Err(e),
            Ok(y) => if components_of(x) != components_of(y) {
                match rel_walk(components_of(x), components_of(y), Seq::empty()) {
                    Some(cs) => Ok(render(cs)),
                    None => Ok(x),
                }
            } else {
                Ok(x)
            },
        },
    }
}

/// Appends copies of `xs[from..]` to `acc`.
fn extend_components(acc: &mut Vec<Component>, xs: &[Component], from: usize)
    requires
        from <= xs@.len(),
    ensures
        comps_view(final(acc)@) == comps_view(old(acc)@) + comps_view(xs@).subrange(
            from as int,
            xs@.len() as int,
        ),
{
    let ghost a0 = comps_view(acc@);
    let mut k = from;
    while k < xs.len()
        invariant
            from <= k <= xs@.len(),
            comps_view(acc@) == a0 + comps_view(xs@).subrange(from as int, k as int),
        decreases xs.len() - k,
    {
        let ghost before = comps_view(acc@);
        acc.push(copy_component(&xs[k]));
        proof {
            assert(comps_view(acc@) =~= before.push(xs@[k as int]@));
            assert(comps_view(xs@).subrange(from as int, k + 1) =~= comps_view(xs@).subrange(
                from as int,
                k as int,
            ).push(xs@[k as int]@));
            assert(comps_view(acc@) =~= a0 + comps_view(xs@).subrange(from as int, k + 1));
        }
        k = k + 1;
    }
}

fn rel_components(xs: &[Component], ys: &[Component]) -> (r: Option<Vec<Component>>)
    ensures
        match r {
            Some(v) => rel_walk(comps_view(xs@), comps_view(ys@), Seq::empty()) == Some(
                comps_view(v@),
            ),
            None => rel_walk(comps_view(xs@), comps_view(ys@), Seq::empty()) is None,
        },
{
    let ghost xv = comps_view(xs@);
    let ghost yv = comps_view(ys@);
    let mut acc: Vec<Component> = Vec::new();
    let mut i: usize = 0;
    let mut j: usize = 0;
    proof {
        assert(xv.subrange(0, xv.len() as int) =~= xv);
        assert(yv.subrange(0, yv.len() as int) =~= yv);
        assert(comps_view(acc@) =~= Seq::<Comp>::empty());
    }
    while i < xs.len() || j < ys.len()
        invariant
            xv == comps_view(xs@),
            yv == comps_view(ys@),
            i <= xs@.len(),
            j <= ys@.len(),
            rel_walk(xv, yv, Seq::empty()) == rel_walk(
                xv.subrange(i as int, xv.len() as int),
                yv.subrange(j as int, yv.len() as int),
                comps_view(acc@),
            ),
        decreases xs.len() + ys.len() - i - j,
    {
        let ghost xr = xv.subrange(i as int, xv.len() as int);
        let ghost yr = yv.subrange(j as int, yv.len() as int);
        let ghost a = comps_view(acc@);
        proof {
            lemma_rel_walk(xr, yr, a);
            if i < xs.len() {
                assert(xr.drop_first() =~= xv.subrange(i + 1, xv.len() as int));
                assert(xr[0] == xs@[i as int]@);
            }
            if j < ys.len() {
                assert(yr.drop_first() =~= yv.subrange(j + 1, yv.len() as int));
                assert(yr[0] == ys@[j as int]@);
            }
        }
        if j == ys.len() {
            extend_components(&mut acc, xs, i);
            proof {
                lemma_rel_walk(xv.subrange(xs@.len() as int, xv.len() as int), yr, comps_view(acc@));
                assert(xv.subrange(xs@.len() as int, xv.len() as int) =~= Seq::<Comp>::empty());
            }
            i = xs.len();
        } else if i == xs.len() {
            acc.push(Component::ParentDir);
            proof {
                assert(comps_view(acc@) =~= a.push(Comp::Parent));
            }
            j = j + 1;
        } else if acc.len() == 0 && same_component(&xs[i], &ys[j]) {
            i = i + 1;
            j = j + 1;
        } else if matches!(ys[j], Component::CurDir) {
            acc.push(copy_component(&xs[i]));
            proof {
                assert(comps_view(acc@) =~= a.push(xr[0]));
            }
            i = i + 1;
            j = j + 1;
        } else if matches!(ys[j], Component::ParentDir) {
            return None;
        } else {
            let mut k = j + 1;
            while k < ys.len()
                invariant
                    j + 1 <= k <= ys@.len(),
                    comps_view(acc@) == a + parents((k - j - 1) as nat),
                decreases ys.len() - k,
            {
                let ghost before = comps_view(acc@);
                acc.push(Component::ParentDir);
                proof {
                    assert(comps_view(acc@) =~= before.push(Comp::Parent));
                    assert(parents((k + 1 - j - 1) as nat) =~= parents((k - j - 1) as nat).push(
                        Comp::Parent,
                    ));
                    assert(comps_view(acc@) =~= a + parents((k + 1 - j - 1) as nat));
                }
                k = k + 1;
            }
            extend_components(&mut acc, xs, i);
            proof {
                assert(comps_view(acc@) =~= a + parents((yr.len() - 1) as nat) + xr);
            }
            return Some(acc);
        }
    }
    proof {
        let xr = xv.subrange(i as int, xv.len() as int);
        let yr = yv.subrange(j as int, yv.len() as int);
        assert(xr.len() == 0 && yr.len() == 0);
        lemma_rel_walk(xr, yr, comps_view(acc@));
    }
    Some(acc)
}

/// The path `p` relative to `base`, both first made absolute with the current directory
/// `cwd` and the home directory `home`.
#[verifier::rlimit(30)]
pub fn relative_from(p: &str, base: &str, cwd: &str, home: &str) -> (r: Result<String, PathError>)
    ensures
        match r {
            Ok(v) => relative_from_of(p@, base@, cwd@, home@) == Ok::<Seq<char>, PathErrorV>(v@),
            Err(e) => relative_from_of(p@, base@, cwd@, home@) == Err::<Seq<char>, PathErrorV>(
                e@,
            ),
        },
{
    let x = match abs(p, cwd, home) {
        Ok(v) => v,
        Err(e) => return Err(e),
    };
    let y = match abs(base, cwd, home) {
        Ok(v) => v,
        Err(e) => return Err(e),
    };
    let xs = components(x.as_str());
    let ys = components(y.as_str());
    if same_components(xs.as_slice(), ys.as_slice()) {
        return Ok(x);
    }
    match rel_components(xs.as_slice(), ys.as_slice()) {
        Some(cs) => Ok(from_components(cs.as_slice())),
        None => Ok(x),
    }
}

/// Whether `out` already holds a path equal to `p`, as paths compare: by their components.
pub open spec fn seen(out: Seq<Seq<char>>, p: Seq<char>) -> bool {
    exists|k: int| 0 <= k < out.len() && components_of(#[trigger] out[k]) == components_of(p)
}

/// The paths met in a walk, in order, that are to be kept (`keep`) and are not equal to one
/// kept before them.
pub open spec fn distinct_of(ps: Seq<Seq<char>>, keep: Seq<bool>) -> Seq<Seq<char>>
    decreases ps.len(),
{
    if ps.len() == 0 {
        Seq::empty()
    } else {
        let prev = distinct_of(ps.drop_last(), keep);
        if keep[ps.len() - 1] && !seen(prev, ps.last()) {
            prev.push(ps.last())
        } else {
            prev
        }
    }
}

/// The paths met in a walk that are kept, each only the first time it is met.
pub fn distinct_paths(paths: &Vec<String>, keep: &Vec<bool>) -> (r: Vec<String>)
    requires
        paths@.len() == keep@.len(),
    ensures
        r@.map_values(|s: String| s@) == distinct_of(paths@.map_values(|s: String| s@), keep@),
{
    let ghost ps = paths@.map_values(|s: String| s@);
    let mut out: Vec<String> = Vec::new();
    let mut i: usize = 0;
    assert(ps.subrange(0, 0) =~= Seq::<Seq<char>>::empty());
    assert(out@.map_values(|s: String| s@) =~= Seq::<Seq<char>>::empty());
    while i < paths.len()
        invariant
            paths@.len() == keep@.len(),
            ps == paths@.map_values(|s: String| s@),
            i <= paths@.len(),
            out@.map_values(|s: String| s@) == distinct_of(ps.subrange(0, i as int), keep@),
        decreases paths.len() - i,
    {
        let ghost ov = out@.map_values(|s: String| s@);
        let ghost sub = ps.subrange(0, i + 1);
        proof {
            assert(sub.drop_last() =~= ps.subrange(0, i as int));
            assert(sub.last() == paths@[i as int]@);
        }
        if keep[i] {
            let mut found = false;
            let mut j: usize = 0;
            while j < out.len()
                invariant
                    j <= out@.len(),
                    ov == out@.map_values(|s: String| s@),
                    i < paths@.len(),
                    found == exists|k: int| 0 <= k < j && components_of(#[trigger] ov[k])
                        == components_of(paths@[i as int]@),
                decreases out.len() - j,
            {
                let same = path_eq(out[j].as_str(), paths[i].as_str());
                proof {
                    assert(ov[j as int] == out@[j as int]@);
                }
                if same {
                    found = true;
                }
                j = j + 1;
            }
            proof {
                assert(found == seen(ov, sub.last()));
            }
            if !found {
                out.push(paths[i].clone());
                proof {
                    assert(out@.map_values(|s: String| s@) =~= ov.push(paths@[i as int]@));
                }
            }
        }
        i = i + 1;
    }
    assert(ps.subrange(0, paths@.len() as int) =~= ps);
    out
}

} // verus!
