//! The order of paths, as `std::path::Path` orders them, and sorting lists of paths by it.
//!
//! Paths are ordered by their components, compared one after the other, a path that is a
//! proper prefix of another coming first. Components are ordered as `std::path::Component`
//! is: the root, then the current directory, then the parent, then normal components, which
//! compare by their text. Text compares character by character; for UTF-8 text this is the
//! order of its bytes.
use vstd::prelude::*;
use crate::path::{Comp, Component, components, components_of, comps_view};

verus! {

/// The place of a component's kind in the order.
pub open spec fn comp_rank(c: Comp) -> int {
    match c {
        Comp::Root => 0,
        Comp::Cur => 1,
        Comp::Parent => 2,
        Comp::Normal(_) => 3,
    }
}

/// Whether text `a` comes before text `b`: at the first character where they differ, or
/// by being a proper prefix of `b`.
pub open spec fn chars_before(a: Seq<char>, b: Seq<char>) -> bool
    decreases a.len(),
{
    if b.len() == 0 {
        false
    } else if a.len() == 0 {
        true
    } else if a[0] != b[0] {
        (a[0] as u32) < (b[0] as u32)
    } else {
        chars_before(a.drop_first(), b.drop_first())
    }
}

/// Whether component `x` comes before component `y`.
pub open spec fn comp_before(x: Comp, y: Comp) -> bool {
    if comp_rank(x) != comp_rank(y) {
        comp_rank(x) < comp_rank(y)
    } else {
        match (x, y) {
            (Comp::Normal(s), Comp::Normal(t)) => chars_before(s, t),
            _ => false,
        }
    }
}

/// Whether the components `a` come before the components `b`.
pub open spec fn comps_before(a: Seq<Comp>, b: Seq<Comp>) -> bool
    decreases a.len(),
{
    if b.len() == 0 {
        false
    } else if a.len() == 0 {
        true
    } else if a[0] != b[0] {
        comp_before(a[0], b[0])
    } else {
        comps_before(a.drop_first(), b.drop_first())
    }
}

/// Whether path `a` comes before path `b`.
pub open spec fn path_before(a: Seq<char>, b: Seq<char>) -> bool {
    comps_before(components_of(a), components_of(b))
}

proof fn lemma_chars_before_asym(a: Seq<char>, b: Seq<char>)
    ensures
        !(chars_before(a, b) && chars_before(b, a)),
    decreases a.len(),
{
    if a.len() > 0 && b.len() > 0 && a[0] == b[0] {
        lemma_chars_before_asym(a.drop_first(), b.drop_first());
    }
}

proof fn lemma_chars_before_trans(a: Seq<char>, b: Seq<char>, c: Seq<char>)
    requires
        chars_before(a, b),
        chars_before(b, c),
    ensures
        chars_before(a, c),
    decreases a.len(),
{
    if a.len() > 0 && a[0] == b[0] && b[0] == c[0] {
        lemma_chars_before_trans(a.drop_first(), b.drop_first(), c.drop_first());
    }
}

proof fn lemma_comp_before_asym(x: Comp, y: Comp)
    ensures
        !(comp_before(x, y) && comp_before(y, x)),
{
    match (x, y) {
        (Comp::Normal(s), Comp::Normal(t)) => lemma_chars_before_asym(s, t),
        _ => {},
    }
}

proof fn lemma_comp_before_trans(x: Comp, y: Comp, z: Comp)
    requires
        comp_before(x, y),
        comp_before(y, z),
    ensures
        comp_before(x, z),
{
    match (x, y, z) {
        (Comp::Normal(s), Comp::Normal(t), Comp::Normal(u)) => lemma_chars_before_trans(s, t, u),
        _ => {},
    }
}

proof fn lemma_comps_before_asym(a: Seq<Comp>, b: Seq<Comp>)
    ensures
        !(comps_before(a, b) && comps_before(b, a)),
    decreases a.len(),
{
    if a.len() > 0 && b.len() > 0 {
        if a[0] == b[0] {
            lemma_comps_before_asym(a.drop_first(), b.drop_first());
        } else {
            lemma_comp_before_asym(a[0], b[0]);
        }
    }
}

proof fn lemma_comps_before_trans(a: Seq<Comp>, b: Seq<Comp>, c: Seq<Comp>)
    requires
        comps_before(a, b),
        comps_before(b, c),
    ensures
        comps_before(a, c),
    decreases a.len(),
{
    if a.len() > 0 {
        if a[0] == b[0] && b[0] == c[0] {
            lemma_comps_before_trans(a.drop_first(), b.drop_first(), c.drop_first());
        } else if a[0] != b[0] && b[0] != c[0] {
            lemma_comp_before_trans(a[0], b[0], c[0]);
            if a[0] == c[0] {
                lemma_comp_before_asym(a[0], b[0]);
            }
        }
    }
}

/// No path comes before itself.
pub proof fn law_path_before_irreflexive(a: Seq<char>)
    ensures
        !path_before(a, a),
{
    lemma_comps_before_asym(components_of(a), components_of(a));
}

/// The order of paths is transitive and asymmetric.
pub proof fn law_path_before_order(a: Seq<char>, b: Seq<char>, c: Seq<char>)
    ensures
        path_before(a, b) && path_before(b, c) ==> path_before(a, c),
        !(path_before(a, b) && path_before(b, a)),
{
    if path_before(a, b) && path_before(b, c) {
        lemma_comps_before_trans(components_of(a), components_of(b), components_of(c));
    }
    lemma_comps_before_asym(components_of(a), components_of(b));
}

fn chars_before_exec(a: &Vec<char>, b: &Vec<char>) -> (r: bool)
    ensures
        r == chars_before(a@, b@),
{
    let mut i: usize = 0;
    assert(a@.skip(0) =~= a@);
    assert(b@.skip(0) =~= b@);
    while i < a.len() && i < b.len() && a[i] == b[i]
        invariant
            i <= a@.len(),
            i <= b@.len(),
            chars_before(a@, b@) == chars_before(a@.skip(i as int), b@.skip(i as int)),
        decreases a.len() - i,
    {
        proof {
            assert(a@.skip(i as int).drop_first() =~= a@.skip(i + 1));
            assert(b@.skip(i as int).drop_first() =~= b@.skip(i + 1));
        }
        i = i + 1;
    }
    if i == b.len() {
        false
    } else if i == a.len() {
        true
    } else {
        (a[i] as u32) < (b[i] as u32)
    }
}

fn rank(c: &Component) -> (r: u8)
    ensures
        r as int == comp_rank(c@),
{
    match c {
        Component::RootDir => 0,
        Component::CurDir => 1,
        Component::ParentDir => 2,
        Component::Normal(_) => 3,
    }
}

fn comp_before_exec(x: &Component, y: &Component) -> (r: bool)
    ensures
        r == comp_before(x@, y@),
{
    let rx = rank(x);
    let ry = rank(y);
    if rx != ry {
        rx < ry
    } else {
        match (x, y) {
            (Component::Normal(s), Component::Normal(t)) => {
                let a = crate::text::chars_of(s.as_str());
                let b = crate::text::chars_of(t.as_str());
                chars_before_exec(&a, &b)
            },
            _ => false,
        }
    }
}

/// Whether path `a` comes before path `b`, as `Path` orders them.
pub fn path_before_exec(a: &str, b: &str) -> (r: bool)
    ensures
        r == path_before(a@, b@),
{
    let xs = components(a);
    let ys = components(b);
    let ghost xv = comps_view(xs@);
    let ghost yv = comps_view(ys@);
    let mut i: usize = 0;
    assert(xv.skip(0) =~= xv);
    assert(yv.skip(0) =~= yv);
    while i < xs.len() && i < ys.len() && crate::path::same_component(&xs[i], &ys[i])
        invariant
            xv == comps_view(xs@),
            yv == comps_view(ys@),
            i <= xs@.len(),
            i <= ys@.len(),
            comps_before(xv, yv) == comps_before(xv.skip(i as int), yv.skip(i as int)),
        decreases xs.len() - i,
    {
        proof {
            assert(xv.skip(i as int).drop_first() =~= xv.skip(i + 1));
            assert(yv.skip(i as int).drop_first() =~= yv.skip(i + 1));
            assert(xv.skip(i as int)[0] == xv[i as int]);
            assert(yv.skip(i as int)[0] == yv[i as int]);
        }
        i = i + 1;
    }
    proof {
        if i < xs.len() && i < ys.len() {
            assert(xv.skip(i as int)[0] == xs@[i as int]@);
            assert(yv.skip(i as int)[0] == ys@[i as int]@);
        }
    }
    if i == ys.len() {
        false
    } else if i == xs.len() {
        true
    } else {
        comp_before_exec(&xs[i], &ys[i])
    }
}

/// The values of a list of strings.
pub open spec fn texts(v: Seq<String>) -> Seq<Seq<char>> {
    v.map_values(|s: String| s@)
}

proof fn lemma_texts_push(v: Seq<String>, s: String)
    ensures
        texts(v.push(s)) == texts(v).push(s@),
{
    assert(texts(v.push(s)) =~= texts(v).push(s@));
}

proof fn lemma_texts_remove(v: Seq<String>, k: int)
    requires
        0 <= k < v.len(),
    ensures
        texts(v.remove(k)) == texts(v).remove(k),
{
    assert(texts(v.remove(k)) =~= texts(v).remove(k));
}

/// The paths sorted as `Path` orders them: the same paths, none placed after one that
/// comes after it.
pub fn sort_paths(paths: Vec<String>) -> (r: Vec<String>)
    ensures
        texts(r@).to_multiset() == texts(paths@).to_multiset(),
        forall|i: int, j: int| 0 <= i < j < r@.len() ==> !path_before(#[trigger] r@[j]@, #[trigger] r@[i]@),
{
    broadcast use vstd::seq_lib::group_to_multiset_ensures;

    let ghost input = texts(paths@);
    let mut rem = paths;
    let mut out: Vec<String> = Vec::new();
    proof {
        assert(texts(out@) =~= Seq::<Seq<char>>::empty());
        assert(texts(out@).to_multiset() =~= vstd::multiset::Multiset::<Seq<char>>::empty());
        assert(texts(out@).to_multiset().add(texts(rem@).to_multiset()) =~= input.to_multiset());
    }
    while rem.len() > 0
        invariant
            texts(out@).to_multiset().add(texts(rem@).to_multiset()) == input.to_multiset(),
            forall|i: int, j: int| 0 <= i < j < out@.len() ==> !path_before(#[trigger] out@[j]@, #[trigger] out@[i]@),
            forall|i: int, x: int|
                0 <= i < out@.len() && 0 <= x < rem@.len() ==> !path_before(#[trigger] rem@[x]@, #[trigger] out@[i]@),
        decreases rem.len(),
    {
        let mut k: usize = 0;
        let mut j: usize = 1;
        proof {
            law_path_before_irreflexive(rem@[0]@);
        }
        while j < rem.len()
            invariant
                rem@.len() > 0,
                k < j <= rem@.len(),
                forall|x: int| 0 <= x < j ==> !path_before(#[trigger] rem@[x]@, rem@[k as int]@),
            decreases rem.len() - j,
        {
            if path_before_exec(rem[j].as_str(), rem[k].as_str()) {
                proof {
                    assert forall|x: int| 0 <= x < j + 1 implies !path_before(
                        #[trigger] rem@[x]@,
                        rem@[j as int]@,
                    ) by {
                        law_path_before_order(rem@[x]@, rem@[j as int]@, rem@[k as int]@);
                        law_path_before_irreflexive(rem@[j as int]@);
                    }
                }
                k = j;
            }
            j = j + 1;
        }
        let ghost before_rem = rem@;
        let ghost before_out = out@;
        let s = rem.remove(k);
        proof {
            lemma_texts_remove(before_rem, k as int);
            lemma_texts_push(before_out, s);
            assert(rem@ == before_rem.remove(k as int));
        }
        out.push(s);
        proof {
            assert(out@ == before_out.push(s));
            let m_out = texts(before_out).to_multiset();
            let m_rem = texts(before_rem).to_multiset();
            texts(before_rem).to_multiset_ensures();
            texts(before_out).to_multiset_ensures();
            assert(texts(before_rem)[k as int] == s@);
            assert(texts(before_rem).contains(s@));
            assert(m_rem.count(s@) > 0);
            assert(texts(out@).to_multiset() == m_out.insert(s@));
            assert(texts(rem@).to_multiset() == m_rem.remove(s@));
            assert(m_out.insert(s@).add(m_rem.remove(s@)) =~= m_out.add(m_rem));
            assert forall|i: int, j2: int| 0 <= i < j2 < out@.len() implies !path_before(
                #[trigger] out@[j2]@,
                #[trigger] out@[i]@,
            ) by {
                if j2 == out@.len() - 1 {
                    assert(out@[j2] == s);
                    assert(before_rem[k as int] == s);
                    assert(out@[i] == before_out[i]);
                } else {
                    assert(out@[i] == before_out[i] && out@[j2] == before_out[j2]);
                }
            }
            assert forall|i: int, x: int| 0 <= i < out@.len() && 0 <= x < rem@.len() implies !path_before(
                #[trigger] rem@[x]@,
                #[trigger] out@[i]@,
            ) by {
                let y = if x < k { x } else { x + 1 };
                assert(rem@[x] == before_rem[y]);
                if i == out@.len() - 1 {
                    assert(out@[i] == s);
                } else {
                    assert(out@[i] == before_out[i]);
                }
            }
        }
    }
    proof {
        assert(texts(rem@) =~= Seq::<Seq<char>>::empty());
        assert(texts(rem@).to_multiset() =~= vstd::multiset::Multiset::<Seq<char>>::empty());
        assert(texts(out@).to_multiset().add(vstd::multiset::Multiset::<Seq<char>>::empty()) =~= texts(out@).to_multiset());
    }
    out
}

} // verus!
