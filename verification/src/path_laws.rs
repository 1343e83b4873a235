//! Laws of lexical path handling: how splitting a path into components, building a path
//! from components, cleaning and trimming relate to one another.
use vstd::prelude::*;
use crate::path::{
    Comp, components_of, render, split, seg_comp, body, lead, rooted, dot, dotdot, comp_text,
    join_path, lemma_split_len, lemma_split_push, lemma_body_push, clean_step, clean_comps,
    clean_of, drop_back, drop_front, trim_last_of, trim_first_of, has_parent, abs_of,
    expand_of, trim_protocol_of, mash_of, unrooted, seen, distinct_of, trim_prefix_of,
    abs_from_of, abs_from_walk, relative_from_of, rel_walk, parents, first_index, slashes,
    is_protocol, lemma_abs_from_walk, lemma_rel_walk, ext_of, trim_ext_of, file_name_of,
    last_index_of, lemma_last_index_bounds,
};
use crate::text::{is_prefix_of, occurs_at, contains_seq, count_char};
use crate::errors::PathErrorV;

verus! {

/// Whether no character of `s` is a `/`.
pub open spec fn slash_free(s: Seq<char>) -> bool {
    forall|i: int| 0 <= i < s.len() ==> s[i] != '/'
}

/// Whether `s` can name a normal component: it is not empty, holds no `/`, and is neither
/// `.` nor `..`.
pub open spec fn normal_name(s: Seq<char>) -> bool {
    s.len() > 0 && slash_free(s) && s != dot() && s != dotdot()
}

/// Whether `c` may stand at index `i` of the components of a path: the root and the
/// current directory only first, a parent anywhere, a normal component with a valid name.
pub open spec fn comp_ok(c: Comp, i: int) -> bool {
    match c {
        Comp::Root => i == 0,
        Comp::Cur => i == 0,
        Comp::Parent => true,
        Comp::Normal(s) => normal_name(s),
    }
}

/// Whether the components are such as a path splits into.
pub open spec fn well_formed(cs: Seq<Comp>) -> bool {
    forall|i: int| 0 <= i < cs.len() ==> #[trigger] comp_ok(cs[i], i)
}

/// Whether the components are those of a clean path: well formed, with no current
/// directory and with every parent before every other component.
pub open spec fn clean_form(cs: Seq<Comp>) -> bool {
    &&& well_formed(cs)
    &&& forall|i: int| 0 <= i < cs.len() ==> #[trigger] cs[i] != Comp::Cur
    &&& forall|i: int, j: int|
        #![trigger cs[i], cs[j]]
        0 <= i < j < cs.len() && cs[j] == Comp::Parent ==> cs[i] == Comp::Parent
}

/// The component a segment stands for, as a list of none or one.
pub open spec fn opt_comp(o: Option<Comp>) -> Seq<Comp> {
    match o {
        Some(c) => seq![c],
        None => Seq::empty(),
    }
}

proof fn lemma_split_append_free(a: Seq<char>, b: Seq<char>)
    requires
        slash_free(b),
    ensures
        split(a).len() >= 1,
        split(a + b) == split(a).update(split(a).len() - 1, split(a).last() + b),
    decreases b.len(),
{
    lemma_split_len(a);
    let s = split(a);
    let n = s.len();
    if b.len() == 0 {
        assert(a + b =~= a);
        assert(s.last() + b =~= s.last());
        assert(s.update(n - 1, s.last() + b) =~= s);
    } else {
        let b0 = b.drop_last();
        let c = b.last();
        assert(slash_free(b0)) by {
            assert forall|i: int| 0 <= i < b0.len() implies b0[i] != '/' by {
                assert(b0[i] == b[i]);
            }
        }
        assert(c != '/') by {
            assert(b[b.len() - 1] != '/');
        }
        lemma_split_append_free(a, b0);
        assert((a + b0).push(c) =~= a + b);
        lemma_split_push(a + b0, c);
        assert((s.last() + b0).push(c) =~= s.last() + b);
        assert(s.update(n - 1, s.last() + b0).update(n - 1, (s.last() + b0).push(c)) =~= s.update(
            n - 1,
            s.last() + b,
        ));
    }
}

proof fn lemma_split_free(b: Seq<char>)
    requires
        slash_free(b),
    ensures
        split(b) == seq![b],
{
    let e = Seq::<char>::empty();
    lemma_split_append_free(e, b);
    assert(e + b =~= b);
    assert(split(e) == seq![e]);
    assert(e + b =~= b);
    assert(seq![e].update(0, e + b) =~= seq![b]);
}

proof fn lemma_components_empty()
    ensures
        components_of(Seq::empty()) == Seq::<Comp>::empty(),
{
    let e = Seq::<char>::empty();
    assert(split(e) == seq![e]);
    assert(seq![e] =~= Seq::<Seq<char>>::empty().push(e));
    lemma_body_push(Seq::<Seq<char>>::empty(), e);
    assert(e != dot());
    assert(components_of(e) =~= Seq::<Comp>::empty());
}

proof fn lemma_components_root()
    ensures
        components_of(seq!['/']) == seq![Comp::Root],
{
    let e = Seq::<char>::empty();
    assert(e.push('/') =~= seq!['/']);
    lemma_split_push(e, '/');
    assert(split(e) == seq![e]);
    assert(seq![e] =~= Seq::<Seq<char>>::empty().push(e));
    lemma_body_push(Seq::<Seq<char>>::empty(), e);
    assert(seq![e].push(e) == split(seq!['/']));
    lemma_body_push(seq![e], e);
    assert(rooted(seq!['/']));
    assert(components_of(seq!['/']) =~= seq![Comp::Root]);
}

proof fn lemma_components_free(b: Seq<char>)
    requires
        b.len() > 0,
        slash_free(b),
    ensures
        components_of(b) == (if b == dot() {
            seq![Comp::Cur]
        } else {
            opt_comp(seg_comp(b))
        }),
{
    lemma_split_free(b);
    assert(seq![b] =~= Seq::<Seq<char>>::empty().push(b));
    lemma_body_push(Seq::<Seq<char>>::empty(), b);
    assert(b[0] != '/');
    if b == dot() {
        assert(components_of(b) =~= seq![Comp::Cur]);
    } else {
        assert(components_of(b) =~= opt_comp(seg_comp(b)));
    }
}

/// Joining a name with no `/` to a non empty path adds the name's component, if any, to the
/// components of the path.
pub proof fn lemma_components_join(a: Seq<char>, b: Seq<char>)
    requires
        a.len() > 0,
        b.len() > 0,
        slash_free(b),
    ensures
        components_of(join_path(a, b)) == components_of(a) + opt_comp(seg_comp(b)),
{
    lemma_split_len(a);
    assert(b[0] != '/');
    let p = join_path(a, b);
    let s = split(a);
    if a.last() != '/' {
        let a1 = a.push('/');
        assert(p =~= a1 + b);
        lemma_split_push(a, '/');
        lemma_split_append_free(a1, b);
        assert(s.push(Seq::<char>::empty()).update(s.len() as int, Seq::<char>::empty() + b)
            =~= s.push(b));
        assert(split(p) =~= s.push(b));
        lemma_body_push(s, b);
        assert(split(p)[0] == s[0]);
    } else {
        let a0 = a.drop_last();
        assert(a0.push('/') =~= a);
        lemma_split_push(a0, '/');
        lemma_split_len(a0);
        lemma_split_append_free(a, b);
        assert(p =~= a + b);
        let s0 = split(a0);
        assert(s =~= s0.push(Seq::<char>::empty()));
        assert(s0.push(Seq::<char>::empty()).update(s0.len() as int, Seq::<char>::empty() + b)
            =~= s0.push(b));
        assert(split(p) =~= s0.push(b));
        lemma_body_push(s0, b);
        lemma_body_push(s0, Seq::<char>::empty());
        assert(split(p)[0] == s[0]);
    }
    assert(p[0] == a[0]);
    assert(lead(p) == lead(a));
    assert(components_of(p) =~= components_of(a) + opt_comp(seg_comp(b)));
}

proof fn lemma_well_formed_prefix(cs: Seq<Comp>, n: int)
    requires
        well_formed(cs),
        0 <= n <= cs.len(),
    ensures
        well_formed(cs.subrange(0, n)),
{
    assert forall|i: int| 0 <= i < n implies #[trigger] comp_ok(cs.subrange(0, n)[i], i) by {
        assert(cs.subrange(0, n)[i] == cs[i]);
        assert(comp_ok(cs[i], i));
    }
}

proof fn lemma_well_formed_tail(cs: Seq<Comp>)
    requires
        well_formed(cs),
        cs.len() > 0,
    ensures
        well_formed(cs.drop_first()),
        forall|i: int| 0 <= i < cs.drop_first().len() ==> #[trigger] cs.drop_first()[i] != Comp::Root,
{
    assert forall|i: int| 0 <= i < cs.drop_first().len() implies #[trigger] comp_ok(
        cs.drop_first()[i],
        i,
    ) by {
        assert(cs.drop_first()[i] == cs[i + 1]);
        assert(comp_ok(cs[i + 1], i + 1));
    }
    assert forall|i: int| 0 <= i < cs.drop_first().len() implies #[trigger] cs.drop_first()[i]
        != Comp::Root by {
        assert(cs.drop_first()[i] == cs[i + 1]);
        assert(comp_ok(cs[i + 1], i + 1));
    }
}

/// Building a path from well formed components: it is absolute exactly when the first
/// component is the root, it ends with `/` only when it is the root alone, and splitting it
/// gives the components back.
pub proof fn lemma_render(cs: Seq<Comp>)
    requires
        well_formed(cs),
    ensures
        rooted(render(cs)) == (cs.len() > 0 && cs[0] == Comp::Root),
        cs.len() > 0 ==> render(cs).len() > 0,
        cs.len() > 0 ==> (render(cs).last() == '/' <==> (cs.len() == 1 && cs[0] == Comp::Root)),
        components_of(render(cs)) == cs,
    decreases cs.len(),
{
    if cs.len() == 0 {
        lemma_components_empty();
    } else {
        let init = cs.drop_last();
        let c = cs.last();
        lemma_well_formed_prefix(cs, cs.len() - 1);
        assert(init =~= cs.subrange(0, cs.len() - 1));
        lemma_render(init);
        let t = comp_text(c);
        assert(comp_ok(cs[cs.len() - 1], cs.len() - 1));
        assert(init.push(c) =~= cs);
        if cs.len() == 1 {
            assert(init.len() == 0);
            assert(render(init) == Seq::<char>::empty());
            assert(Seq::<char>::empty() + t =~= t);
            match c {
                Comp::Root => {
                    assert(render(cs) == seq!['/']);
                    lemma_components_root();
                },
                Comp::Cur => {
                    assert(render(cs) == dot());
                    assert(slash_free(dot()));
                    lemma_components_free(dot());
                },
                Comp::Parent => {
                    assert(render(cs) == dotdot());
                    assert(slash_free(dotdot()));
                    assert(dotdot() != dot()) by {
                        assert(dotdot().len() != dot().len());
                    }
                    lemma_components_free(dotdot());
                },
                Comp::Normal(s) => {
                    assert(normal_name(s));
                    assert(render(cs) == s);
                    lemma_components_free(s);
                },
            }
        } else {
            let r0 = render(init);
            assert(c is Parent || c is Normal);
            assert(slash_free(t) && t.len() > 0 && seg_comp(t) == Some(c)) by {
                match c {
                    Comp::Parent => {
                        assert(slash_free(dotdot()));
                        assert(dotdot() != dot()) by {
                            assert(dotdot().len() != dot().len());
                        }
                    },
                    Comp::Normal(s) => {
                        assert(normal_name(s));
                    },
                    _ => {},
                }
            }
            assert(!rooted(t));
            lemma_components_join(r0, t);
            assert(render(cs) == join_path(r0, t));
            let p = render(cs);
            if r0.last() != '/' {
                assert(p =~= r0 + seq!['/'] + t);
            } else {
                assert(p =~= r0 + t);
            }
            assert(p[0] == r0[0]);
            assert(p.last() == t.last());
            assert(t.last() != '/') by {
                assert(t[t.len() - 1] != '/');
            }
            assert(components_of(p) =~= init + seq![c]);
        }
    }
}

proof fn lemma_split_segments(p: Seq<char>)
    ensures
        forall|k: int| 0 <= k < split(p).len() ==> slash_free(#[trigger] split(p)[k]),
    decreases p.len(),
{
    if p.len() > 0 {
        let q = p.drop_last();
        let c = p.last();
        lemma_split_segments(q);
        assert(q.push(c) =~= p);
        lemma_split_push(q, c);
        assert forall|k: int| 0 <= k < split(p).len() implies slash_free(#[trigger] split(p)[k]) by {
            if c != '/' && k == split(q).len() - 1 {
                let l = split(q).last();
                assert(slash_free(l));
                assert forall|i: int| 0 <= i < l.push(c).len() implies l.push(c)[i] != '/' by {
                    if i < l.len() {
                        assert(l.push(c)[i] == l[i]);
                    }
                }
            } else if c == '/' && k == split(q).len() {
                assert(split(p)[k] == Seq::<char>::empty());
            } else {
                assert(split(p)[k] == split(q)[k]);
            }
        }
    }
}

/// Whether `c` may stand anywhere but first among the components of a path.
pub open spec fn inner_ok(c: Comp) -> bool {
    match c {
        Comp::Parent => true,
        Comp::Normal(s) => normal_name(s),
        _ => false,
    }
}

proof fn lemma_body_inner(ss: Seq<Seq<char>>)
    requires
        forall|k: int| 0 <= k < ss.len() ==> slash_free(#[trigger] ss[k]),
    ensures
        forall|i: int| 0 <= i < body(ss).len() ==> inner_ok(#[trigger] body(ss)[i]),
    decreases ss.len(),
{
    if ss.len() > 0 {
        let init = ss.drop_last();
        let s = ss.last();
        assert forall|k: int| 0 <= k < init.len() implies slash_free(#[trigger] init[k]) by {
            assert(init[k] == ss[k]);
        }
        lemma_body_inner(init);
        assert(slash_free(ss[ss.len() - 1]));
        assert(init.push(s) =~= ss);
        lemma_body_push(init, s);
        let tail = opt_comp(seg_comp(s));
        assert forall|i: int| 0 <= i < tail.len() implies inner_ok(#[trigger] tail[i]) by {
            assert(tail[i] == seg_comp(s)->Some_0);
            if s == dotdot() {
            } else {
                assert(normal_name(s));
            }
        }
        assert forall|i: int| 0 <= i < body(ss).len() implies inner_ok(#[trigger] body(ss)[i]) by {
            if i < body(init).len() {
                assert(body(ss)[i] == body(init)[i]);
            } else {
                assert(body(ss)[i] == tail[i - body(init).len()]);
            }
        }
    }
}

/// The components of any path are well formed.
pub proof fn lemma_components_well_formed(p: Seq<char>)
    ensures
        well_formed(components_of(p)),
{
    lemma_split_segments(p);
    lemma_body_inner(split(p));
    let l = lead(p);
    let b = body(split(p));
    assert forall|i: int| 0 <= i < components_of(p).len() implies #[trigger] comp_ok(
        components_of(p)[i],
        i,
    ) by {
        if i < l.len() {
            assert(i == 0);
            assert(components_of(p)[i] == l[i]);
        } else {
            assert(components_of(p)[i] == b[i - l.len()]);
            assert(inner_ok(b[i - l.len()]));
        }
    }
}

/// Splitting a path into its components and building a path from them gives the same
/// components back.
pub proof fn law_components_roundtrip(p: Seq<char>)
    ensures
        components_of(render(components_of(p))) == components_of(p),
{
    lemma_components_well_formed(p);
    lemma_render(components_of(p));
}

/// Building a path from well formed components and splitting it gives the components back.
pub proof fn law_render_roundtrip(cs: Seq<Comp>)
    requires
        well_formed(cs),
    ensures
        components_of(render(cs)) == cs,
{
    lemma_render(cs);
}

proof fn lemma_clean_form_prefix(cs: Seq<Comp>)
    requires
        clean_form(cs),
        cs.len() > 0,
    ensures
        clean_form(cs.drop_last()),
{
    let d = cs.drop_last();
    lemma_well_formed_prefix(cs, cs.len() - 1);
    assert(d =~= cs.subrange(0, cs.len() - 1));
    assert forall|i: int| 0 <= i < d.len() implies #[trigger] d[i] != Comp::Cur by {
        assert(d[i] == cs[i]);
    }
    assert forall|i: int, j: int| 0 <= i < j < d.len() && d[j] == Comp::Parent implies d[i]
        == Comp::Parent by {
        assert(d[i] == cs[i] && d[j] == cs[j]);
    }
}

proof fn lemma_clean_form(cs: Seq<Comp>)
    requires
        well_formed(cs),
    ensures
        clean_form(clean_comps(cs)),
    decreases cs.len(),
{
    if cs.len() > 0 {
        let init = cs.drop_last();
        let c = cs.last();
        lemma_well_formed_prefix(cs, cs.len() - 1);
        assert(init =~= cs.subrange(0, cs.len() - 1));
        lemma_clean_form(init);
        let out = clean_comps(init);
        assert(comp_ok(cs[cs.len() - 1], cs.len() - 1));
        if cs.len() == 1 {
            assert(init.len() == 0);
            assert(out =~= Seq::<Comp>::empty());
        }
        let r = clean_step(out, c);
        assert(clean_comps(cs) == r);
        if c == Comp::Cur && out.len() == 0 {
        } else if c == Comp::Parent && out.len() > 0 && out.last() != Comp::Parent {
            if out.last() is Normal {
                lemma_clean_form_prefix(out);
            }
        } else {
            assert(r == out.push(c));
            assert(c != Comp::Cur);
            if c == Comp::Root {
                assert(out.len() == 0);
            }
            if c == Comp::Parent && out.len() > 0 {
                assert(out.last() == Comp::Parent);
                assert forall|i: int| 0 <= i < out.len() implies #[trigger] out[i] == Comp::Parent by {
                    if i < out.len() - 1 {
                        assert(out[out.len() - 1] == Comp::Parent);
                    }
                }
            }
            assert forall|i: int| 0 <= i < r.len() implies #[trigger] comp_ok(r[i], i) by {
                if i < out.len() {
                    assert(r[i] == out[i]);
                }
            }
            assert forall|i: int| 0 <= i < r.len() implies #[trigger] r[i] != Comp::Cur by {
                if i < out.len() {
                    assert(r[i] == out[i]);
                }
            }
            assert forall|i: int, j: int| 0 <= i < j < r.len() && r[j] == Comp::Parent implies r[i]
                == Comp::Parent by {
                assert(r[i] == out[i]);
                if j < out.len() {
                    assert(r[j] == out[j]);
                }
            }
        }
    }
}

proof fn lemma_clean_fixed(s: Seq<Comp>)
    requires
        clean_form(s),
    ensures
        clean_comps(s) == s,
    decreases s.len(),
{
    if s.len() > 0 {
        let init = s.drop_last();
        let c = s.last();
        lemma_clean_form_prefix(s);
        lemma_clean_fixed(init);
        assert(s[s.len() - 1] != Comp::Cur);
        assert(comp_ok(s[s.len() - 1], s.len() - 1));
        if c == Comp::Parent && init.len() > 0 {
            assert(s[init.len() - 1] == Comp::Parent);
            assert(init.last() == Comp::Parent);
        }
        assert(init.push(c) =~= s);
    }
}

/// Cleaning a cleaned path changes nothing.
pub proof fn law_clean_idempotent(p: Seq<char>)
    ensures
        clean_of(clean_of(p)) == clean_of(p),
{
    let cc = clean_comps(components_of(p));
    lemma_components_well_formed(p);
    lemma_clean_form(components_of(p));
    if cc.len() == 0 {
        assert(slash_free(dot()));
        lemma_components_free(dot());
        let one = seq![Comp::Cur];
        assert(one.drop_last() =~= Seq::<Comp>::empty());
        assert(clean_comps(one.drop_last()) == Seq::<Comp>::empty());
        assert(one.last() == Comp::Cur);
        assert(clean_comps(one) == clean_step(Seq::<Comp>::empty(), Comp::Cur));
        assert(clean_comps(one) =~= Seq::<Comp>::empty());
    } else {
        lemma_render(cc);
        lemma_clean_fixed(cc);
    }
}

/// The components of a cleaned path are the cleaned components of the path, with no current
/// directory and every parent first; when nothing remains the cleaned path is `.`.
pub proof fn law_clean_components(p: Seq<char>)
    ensures
        clean_comps(components_of(p)).len() == 0 ==> components_of(clean_of(p)) == seq![Comp::Cur],
        clean_comps(components_of(p)).len() > 0 ==> components_of(clean_of(p)) == clean_comps(
            components_of(p),
        ),
        clean_form(clean_comps(components_of(p))),
{
    let cc = clean_comps(components_of(p));
    lemma_components_well_formed(p);
    lemma_clean_form(components_of(p));
    if cc.len() == 0 {
        assert(slash_free(dot()));
        lemma_components_free(dot());
    } else {
        lemma_render(cc);
    }
}

proof fn lemma_clean_comps_len(cs: Seq<Comp>)
    ensures
        clean_comps(cs).len() <= cs.len(),
    decreases cs.len(),
{
    if cs.len() > 0 {
        lemma_clean_comps_len(cs.drop_last());
    }
}

/// Cleaning never adds components: the cleaned components of a path are no more than its
/// components.
pub proof fn law_clean_no_longer(p: Seq<char>)
    ensures
        clean_comps(components_of(p)).len() <= components_of(p).len(),
{
    lemma_clean_comps_len(components_of(p));
}

/// Trimming the last component of a path removes exactly that component.
pub proof fn law_trim_last(p: Seq<char>)
    ensures
        components_of(trim_last_of(p)) == drop_back(components_of(p)),
{
    let cs = components_of(p);
    lemma_components_well_formed(p);
    if cs.len() > 0 {
        lemma_well_formed_prefix(cs, cs.len() - 1);
        assert(cs.drop_last() =~= cs.subrange(0, cs.len() - 1));
    }
    lemma_render(drop_back(cs));
}

/// Trimming the first component of a path removes exactly that component.
pub proof fn law_trim_first(p: Seq<char>)
    ensures
        components_of(trim_first_of(p)) == drop_front(components_of(p)),
{
    let cs = components_of(p);
    lemma_components_well_formed(p);
    if cs.len() > 0 {
        lemma_well_formed_tail(cs);
    }
    lemma_render(drop_front(cs));
}

/// Given an absolute current directory, the absolute form of any path is absolute.
pub proof fn law_abs_is_absolute(p: Seq<char>, cwd: Seq<char>, home: Seq<char>)
    requires
        rooted(cwd),
    ensures
        abs_of(p, cwd, home) matches Ok(v) ==> rooted(v),
{
    if p.len() > 0 {
        match expand_of(p, home) {
            Err(e) => {},
            Ok(x) => {
                let c = clean_of(trim_protocol_of(x));
                if rooted(c) {
                } else if components_of(c).len() > 0 && components_of(c)[0] == Comp::Parent {
                    if has_parent(cwd) {
                        let w = components_of(cwd);
                        lemma_components_well_formed(cwd);
                        assert(w[0] == Comp::Root);
                        assert(w.len() >= 2);
                        lemma_well_formed_prefix(w, w.len() - 1);
                        assert(w.drop_last() =~= w.subrange(0, w.len() - 1));
                        lemma_render(w.drop_last());
                        let base = trim_last_of(cwd);
                        assert(rooted(base));
                        let cc = components_of(c);
                        lemma_components_well_formed(c);
                        lemma_well_formed_tail(cc);
                        lemma_render(cc.drop_first());
                        let rest = trim_first_of(c);
                        assert(!rooted(rest)) by {
                            if cc.drop_first().len() > 0 {
                                assert(cc.drop_first()[0] != Comp::Root);
                            }
                        }
                        let v = join_path(base, rest);
                        if base.last() != '/' {
                            assert(v =~= base + seq!['/'] + rest);
                        } else {
                            assert(v =~= base + rest);
                        }
                        assert(v[0] == base[0]);
                    }
                } else {
                    let v = join_path(cwd, c);
                    if cwd.last() != '/' {
                        assert(v =~= cwd + seq!['/'] + c);
                    } else {
                        assert(v =~= cwd + c);
                    }
                    assert(v[0] == cwd[0]);
                }
            },
        }
    }
}

proof fn lemma_split_concat(a: Seq<char>, b: Seq<char>)
    ensures
        split(a).len() >= 1,
        split(b).len() >= 1,
        split(a + b) == split(a).drop_last() + seq![split(a).last() + split(b)[0]] + split(
            b,
        ).drop_first(),
    decreases b.len(),
{
    lemma_split_len(a);
    lemma_split_len(b);
    let sa = split(a);
    let l = sa.drop_last();
    let x = sa.last();
    let e = Seq::<char>::empty();
    if b.len() == 0 {
        assert(a + b =~= a);
        assert(split(b) == seq![e]);
        assert(x + e =~= x);
        assert(l + seq![x + e] + seq![e].drop_first() =~= sa);
    } else {
        let b0 = b.drop_last();
        let c = b.last();
        lemma_split_concat(a, b0);
        lemma_split_len(b0);
        assert((a + b0).push(c) =~= a + b);
        assert(b0.push(c) =~= b);
        lemma_split_push(a + b0, c);
        lemma_split_push(b0, c);
        let t0 = split(b0);
        let u = split(a + b0);
        assert(u == l + seq![x + t0[0]] + t0.drop_first());
        if c == '/' {
            assert(split(b) == t0.push(e));
            assert(split(b)[0] == t0[0]);
            assert(split(b).drop_first() =~= t0.drop_first().push(e));
            assert(u.push(e) =~= l + seq![x + t0[0]] + t0.drop_first().push(e));
        } else {
            let n = t0.len();
            assert(split(b) == t0.update(n - 1, t0.last().push(c)));
            if n == 1 {
                assert(split(b)[0] == t0[0].push(c));
                assert(split(b).drop_first() =~= Seq::<Seq<char>>::empty());
                assert((x + t0[0]).push(c) =~= x + t0[0].push(c));
                assert(u.update(u.len() - 1, u.last().push(c)) =~= l + seq![x + t0[0].push(c)]
                    + split(b).drop_first());
            } else {
                assert(split(b)[0] == t0[0]);
                assert(split(b).drop_first() =~= t0.drop_first().update(n - 2, t0.last().push(c)));
                assert(u.last() == t0.last());
                assert(u.update(u.len() - 1, u.last().push(c)) =~= l + seq![x + t0[0]]
                    + t0.drop_first().update(n - 2, t0.last().push(c)));
            }
        }
    }
}

proof fn lemma_body_concat(x: Seq<Seq<char>>, y: Seq<Seq<char>>)
    ensures
        body(x + y) == body(x) + body(y),
    decreases y.len(),
{
    if y.len() == 0 {
        assert(x + y =~= x);
        assert(body(y) =~= Seq::<Comp>::empty());
        assert(body(x) + body(y) =~= body(x));
    } else {
        let y0 = y.drop_last();
        let z = y.last();
        lemma_body_concat(x, y0);
        assert((x + y0).push(z) =~= x + y);
        assert(y0.push(z) =~= y);
        lemma_body_push(x + y0, z);
        lemma_body_push(y0, z);
        assert(body(x) + body(y0) + opt_comp(seg_comp(z)) =~= body(x) + (body(y0) + opt_comp(
            seg_comp(z),
        )));
    }
}

/// `cs` without a leading current directory.
pub open spec fn drop_cur(cs: Seq<Comp>) -> Seq<Comp> {
    if cs.len() > 0 && cs[0] == Comp::Cur {
        cs.drop_first()
    } else {
        cs
    }
}

/// Joining a relative path to a non empty path appends the components of the relative
/// path, but for a leading current directory, to those of the path; an absolute path
/// replaces the path.
pub proof fn law_join_components(a: Seq<char>, b: Seq<char>)
    ensures
        rooted(b) || a.len() == 0 ==> components_of(join_path(a, b)) == components_of(b),
        !rooted(b) && a.len() > 0 ==> components_of(join_path(a, b)) == components_of(a)
            + drop_cur(components_of(b)),
{
    if !rooted(b) && a.len() > 0 {
        let p = join_path(a, b);
        let sa = split(a);
        let sb = split(b);
        let e = Seq::<char>::empty();
        lemma_split_len(a);
        lemma_split_len(b);
        if a.last() != '/' {
            let a1 = a.push('/');
            assert(p =~= a1 + b);
            lemma_split_push(a, '/');
            lemma_split_concat(a1, b);
            assert(split(a1).drop_last() =~= sa);
            assert(split(a1).last() + sb[0] =~= sb[0]);
            assert(split(p) =~= sa + sb);
            lemma_body_concat(sa, sb);
            assert(split(p)[0] == sa[0]);
            assert(p[0] == a[0]);
            assert(lead(p) == lead(a));
            assert(components_of(p) =~= components_of(a) + body(sb));
        } else {
            let a0 = a.drop_last();
            assert(a0.push('/') =~= a);
            lemma_split_push(a0, '/');
            lemma_split_len(a0);
            lemma_split_concat(a, b);
            assert(p =~= a + b);
            let s0 = split(a0);
            assert(sa =~= s0.push(e));
            assert(sa.drop_last() =~= s0);
            assert(sa.last() + sb[0] =~= sb[0]);
            assert(split(p) =~= s0 + sb);
            lemma_body_concat(s0, sb);
            lemma_body_push(s0, e);
            assert(split(p)[0] == sa[0]);
            assert(p[0] == a[0]);
            assert(lead(p) == lead(a));
            assert(components_of(p) =~= components_of(a) + body(sb));
        }
        lemma_split_segments(b);
        lemma_body_inner(sb);
        if lead(b).len() == 0 {
            assert(components_of(b) =~= body(sb));
            if body(sb).len() > 0 {
                assert(inner_ok(body(sb)[0]));
            }
        } else {
            assert(components_of(b)[0] == Comp::Cur);
            assert(components_of(b).drop_first() =~= body(sb));
        }
    }
}

/// Mashing a base onto a non empty directory gives the components of the directory followed
/// by those of the base taken as relative, but for a leading current directory. Only one
/// leading `/` of the base is dropped: a base that still begins with `/` replaces the
/// directory.
pub proof fn law_mash_components(dir: Seq<char>, base: Seq<char>)
    requires
        dir.len() > 0,
    ensures
        !rooted(unrooted(base)) ==> components_of(mash_of(dir, base)) == components_of(dir)
            + drop_cur(components_of(unrooted(base))),
        rooted(unrooted(base)) ==> components_of(mash_of(dir, base)) == components_of(
            unrooted(base),
        ),
{
    law_join_components(dir, unrooted(base));
    law_components_roundtrip(join_path(dir, unrooted(base)));
}

/// The paths that a walk keeps are distinct, and every path that is to be kept is among them.
pub proof fn law_distinct_paths(ps: Seq<Seq<char>>, keep: Seq<bool>)
    requires
        ps.len() <= keep.len(),
    ensures
        forall|i: int, j: int|
            #![trigger distinct_of(ps, keep)[i], distinct_of(ps, keep)[j]]
            0 <= i < j < distinct_of(ps, keep).len() ==> components_of(distinct_of(ps, keep)[i])
                != components_of(distinct_of(ps, keep)[j]),
        forall|k: int| 0 <= k < ps.len() && keep[k] ==> seen(distinct_of(ps, keep), #[trigger] ps[k]),
    decreases ps.len(),
{
    if ps.len() > 0 {
        let init = ps.drop_last();
        let x = ps.last();
        law_distinct_paths(init, keep);
        let prev = distinct_of(init, keep);
        let d = distinct_of(ps, keep);
        if keep[ps.len() - 1] && !seen(prev, x) {
            assert(d == prev.push(x));
            assert forall|i: int, j: int| 0 <= i < j < d.len() implies components_of(d[i])
                != components_of(d[j]) by {
                if j == d.len() - 1 {
                    assert(d[j] == x);
                    assert(d[i] == prev[i]);
                    if components_of(prev[i]) == components_of(x) {
                        assert(seen(prev, x));
                    }
                } else {
                    assert(d[i] == prev[i] && d[j] == prev[j]);
                }
            }
        } else {
            assert(d == prev);
        }
        assert forall|k: int| 0 <= k < ps.len() && keep[k] implies seen(d, #[trigger] ps[k]) by {
            if k < ps.len() - 1 {
                assert(ps[k] == init[k]);
                assert(seen(prev, init[k]));
                let w = choose|w: int| 0 <= w < prev.len() && components_of(#[trigger] prev[w])
                    == components_of(init[k]);
                assert(d[w] == prev[w]);
            } else {
                if seen(prev, x) {
                    let w = choose|w: int| 0 <= w < prev.len() && components_of(#[trigger] prev[w])
                        == components_of(x);
                    assert(d[w] == prev[w]);
                } else {
                    assert(d[d.len() - 1] == x);
                }
            }
        }
    }
}

/// Trimming a prefix undoes putting it in front.
pub proof fn law_trim_prefix_undoes(prefix: Seq<char>, rest: Seq<char>)
    ensures
        trim_prefix_of(prefix + rest, prefix) == rest,
{
    assert((prefix + rest).subrange(0, prefix.len() as int) =~= prefix);
    assert(is_prefix_of(prefix, prefix + rest));
    assert((prefix + rest).subrange(prefix.len() as int, (prefix + rest).len() as int) =~= rest);
}

/// Trimming the last component of a path joined with a name gives back the path, as paths
/// compare.
pub proof fn law_trim_last_undoes_join(dir: Seq<char>, name: Seq<char>)
    requires
        dir.len() > 0,
        normal_name(name),
    ensures
        components_of(trim_last_of(join_path(dir, name))) == components_of(dir),
{
    lemma_components_join(dir, name);
    assert(seg_comp(name) == Some(Comp::Normal(name)));
    law_trim_last(join_path(dir, name));
    assert((components_of(dir) + seq![Comp::Normal(name)]).drop_last() =~= components_of(dir));
}

proof fn lemma_first_occurrence(s: Seq<char>, x: Seq<char>, i: int)
    requires
        occurs_at(s, x, i),
    ensures
        exists|j: int| occurs_at(s, x, j) && forall|k: int| 0 <= k < j ==> !occurs_at(s, x, k),
    decreases i,
{
    if exists|k: int| 0 <= k < i && occurs_at(s, x, k) {
        let k = choose|k: int| 0 <= k < i && occurs_at(s, x, k);
        lemma_first_occurrence(s, x, k);
    } else {
        assert(occurs_at(s, x, i) && forall|k: int| 0 <= k < i ==> !occurs_at(s, x, k));
    }
}

/// An absolute path has no protocol prefix to trim.
proof fn lemma_trim_protocol_rooted(p: Seq<char>)
    requires
        rooted(p),
    ensures
        trim_protocol_of(p) == p,
{
    if contains_seq(p, slashes()) {
        let i = choose|i: int| occurs_at(p, slashes(), i);
        lemma_first_occurrence(p, slashes(), i);
        let fi = first_index(p, slashes());
        assert(occurs_at(p, slashes(), fi));
        let pre = p.subrange(0, fi + 2);
        assert(pre[0] == '/');
        assert(!is_protocol(pre));
    }
}

proof fn lemma_count_zero_expand(p: Seq<char>, home: Seq<char>)
    requires
        count_char(p, '~') == 0,
    ensures
        expand_of(p, home) == Ok::<Seq<char>, PathErrorV>(p),
{
}

/// The components of an absolute clean path: the root, then normal components only.
proof fn lemma_clean_rooted(p: Seq<char>)
    requires
        rooted(p),
        clean_of(p) == p,
    ensures
        components_of(p).len() > 0,
        components_of(p)[0] == Comp::Root,
        well_formed(components_of(p)),
        forall|j: int| 1 <= j < components_of(p).len() ==> #[trigger] components_of(p)[j] is Normal,
{
    let x = components_of(p);
    assert(lead(p) == seq![Comp::Root]);
    assert(x[0] == Comp::Root);
    law_clean_components(p);
    lemma_components_well_formed(p);
    if clean_comps(x).len() == 0 {
        assert(components_of(clean_of(p)) == seq![Comp::Cur]);
        assert(false);
    }
    assert(x == clean_comps(x));
    assert forall|j: int| 1 <= j < x.len() implies #[trigger] x[j] is Normal by {
        assert(comp_ok(x[j], j));
        assert(x[j] != Comp::Cur);
        if x[j] == Comp::Parent {
            assert(x[0] == Comp::Parent);
        }
    }
}

/// Cleaning components that begin with the root keeps the root first.
proof fn lemma_clean_comps_root(cs: Seq<Comp>)
    requires
        cs.len() > 0,
        cs[0] == Comp::Root,
    ensures
        clean_comps(cs).len() > 0,
        clean_comps(cs)[0] == Comp::Root,
    decreases cs.len(),
{
    let init = cs.drop_last();
    if init.len() == 0 {
        assert(clean_comps(init) =~= Seq::<Comp>::empty());
    } else {
        assert(init[0] == cs[0]);
        lemma_clean_comps_root(init);
        let out = clean_comps(init);
        if cs.last() == Comp::Parent && out.last() != Comp::Parent && out.last() is Normal {
            assert(out.len() > 1);
            assert(out.drop_last()[0] == out[0]);
        } else {
            assert(out.push(cs.last())[0] == out[0]);
        }
    }
}

/// The absolute form of an absolute path without a home symbol is its clean form, which is
/// absolute and clean.
proof fn lemma_abs_of_rooted(p: Seq<char>, cwd: Seq<char>, home: Seq<char>)
    requires
        rooted(p),
        count_char(p, '~') == 0,
    ensures
        abs_of(p, cwd, home) == Ok::<Seq<char>, PathErrorV>(clean_of(p)),
        rooted(clean_of(p)),
        clean_of(clean_of(p)) == clean_of(p),
{
    lemma_count_zero_expand(p, home);
    lemma_trim_protocol_rooted(p);
    let cs = components_of(p);
    assert(lead(p) == seq![Comp::Root]);
    assert(cs[0] == Comp::Root);
    lemma_clean_comps_root(cs);
    lemma_components_well_formed(p);
    lemma_clean_form(cs);
    lemma_render(clean_comps(cs));
    law_clean_idempotent(p);
}

/// Common leading components are skipped by the relative walk.
proof fn lemma_rel_walk_skip(xs: Seq<Comp>, ys: Seq<Comp>, j: int)
    requires
        0 <= j <= xs.len(),
        j <= ys.len(),
        forall|i: int| 0 <= i < j ==> xs[i] == ys[i],
    ensures
        rel_walk(xs, ys, Seq::empty()) == rel_walk(xs.skip(j), ys.skip(j), Seq::empty()),
    decreases j,
{
    if j > 0 {
        lemma_rel_walk_skip(xs, ys, j - 1);
        let a = xs.skip(j - 1);
        let b = ys.skip(j - 1);
        assert(a[0] == xs[j - 1]);
        assert(b[0] == ys[j - 1]);
        lemma_rel_walk(a, b, Seq::empty());
        assert(a.drop_first() =~= xs.skip(j));
        assert(b.drop_first() =~= ys.skip(j));
    } else {
        assert(xs.skip(0) =~= xs);
        assert(ys.skip(0) =~= ys);
    }
}

/// Climbing `n` levels from the directory made of the first `k + n` components of a path
/// leaves the directory made of its first `k`.
proof fn lemma_abs_from_walk_climb(ys: Seq<Comp>, k: int, n: nat, t: Seq<Comp>)
    requires
        well_formed(ys),
        1 <= k,
        k + n <= ys.len(),
    ensures
        abs_from_walk(render(ys.subrange(0, k + n)), parents(n) + t) == abs_from_walk(
            render(ys.subrange(0, k)),
            t,
        ),
    decreases n,
{
    if n > 0 {
        let d = render(ys.subrange(0, k + n));
        lemma_abs_from_walk(d, parents(n) + t);
        assert((parents(n) + t)[0] == Comp::Parent);
        assert((parents(n) + t).drop_first() =~= parents((n - 1) as nat) + t);
        lemma_well_formed_prefix(ys, k + n);
        lemma_render(ys.subrange(0, k + n));
        assert(drop_back(ys.subrange(0, k + n)) =~= ys.subrange(0, k + n - 1));
        assert(trim_last_of(d) == render(ys.subrange(0, k + n - 1)));
        lemma_abs_from_walk_climb(ys, k, (n - 1) as nat, t);
    } else {
        assert(parents(0) + t =~= t);
    }
}

/// The components of a well formed list whose tail holds only normal components, rendered
/// after the list's first `k + 1`.
proof fn lemma_join_rest(xs: Seq<Comp>, k: int)
    requires
        well_formed(xs),
        1 <= k < xs.len(),
        xs[0] == Comp::Root,
        forall|j: int| 1 <= j < xs.len() ==> #[trigger] xs[j] is Normal,
    ensures
        components_of(join_path(render(xs.subrange(0, k + 1)), render(xs.skip(k + 1)))) == xs,
{
    let a = xs.subrange(0, k + 1);
    let t = xs.skip(k + 1);
    lemma_well_formed_prefix(xs, k + 1);
    lemma_render(a);
    assert forall|i: int| 0 <= i < t.len() implies #[trigger] comp_ok(t[i], i) by {
        assert(t[i] == xs[i + k + 1]);
        assert(comp_ok(xs[i + k + 1], i + k + 1));
        assert(xs[i + k + 1] is Normal);
    }
    lemma_render(t);
    if t.len() > 0 {
        assert(t[0] == xs[k + 1]);
        assert(t[0] is Normal);
    }
    law_join_components(render(a), render(t));
    assert(drop_cur(t) == t);
    assert(a + t =~= xs);
}

/// The first index at which two lists of components differ, when neither leads the other.
proof fn lemma_divergence(xs: Seq<Comp>, ys: Seq<Comp>) -> (k: int)
    requires
        !xs.is_prefix_of(ys),
        !ys.is_prefix_of(xs),
    ensures
        0 <= k < xs.len(),
        k < ys.len(),
        xs[k] != ys[k],
        forall|i: int| 0 <= i < k ==> xs[i] == ys[i],
{
    let m: int = if xs.len() < ys.len() { xs.len() as int } else { ys.len() as int };
    assert(exists|i: int| 0 <= i < m && xs[i] != ys[i]) by {
        if forall|i: int| 0 <= i < m ==> xs[i] == ys[i] {
            if xs.len() <= ys.len() {
                assert(xs =~= ys.subrange(0, xs.len() as int));
            } else {
                assert(ys =~= xs.subrange(0, ys.len() as int));
            }
        }
    }
    let i0 = choose|i: int| 0 <= i < m && xs[i] != ys[i];
    lemma_first_mismatch(xs, ys, m, i0);
    choose|k: int| 0 <= k < m && xs[k] != ys[k] && forall|i: int| 0 <= i < k ==> xs[i] == ys[i]
}

/// The relative walk from the components of one absolute clean path to those of another
/// climbs out of the base below their first difference and descends along the path.
proof fn lemma_relative_part(xs: Seq<Comp>, ys: Seq<Comp>, k: int)
    requires
        1 <= k < xs.len(),
        k < ys.len(),
        xs[k] != ys[k],
        forall|i: int| 0 <= i < k ==> xs[i] == ys[i],
        forall|j: int| 1 <= j < ys.len() ==> #[trigger] ys[j] is Normal,
    ensures
        rel_walk(xs, ys, Seq::empty()) == Some(parents((ys.len() - k - 1) as nat) + xs.skip(k)),
{
    lemma_rel_walk_skip(xs, ys, k);
    let xk = xs.skip(k);
    let yk = ys.skip(k);
    lemma_rel_walk(xk, yk, Seq::empty());
    assert(xk[0] == xs[k] && yk[0] == ys[k]);
    assert(ys[k] is Normal);
    assert(Seq::<Comp>::empty() + parents((yk.len() - 1) as nat) + xk =~= parents(
        (ys.len() - k - 1) as nat,
    ) + xk);
}

/// What the relative walk gives is well formed and does not begin with the root.
proof fn lemma_relative_form(xs: Seq<Comp>, k: int, n: nat)
    requires
        1 <= k < xs.len(),
        well_formed(xs),
        forall|j: int| 1 <= j < xs.len() ==> #[trigger] xs[j] is Normal,
    ensures
        well_formed(parents(n) + xs.skip(k)),
        (parents(n) + xs.skip(k))[0] != Comp::Root,
        components_of(render(parents(n) + xs.skip(k))) == parents(n) + xs.skip(k),
        !rooted(render(parents(n) + xs.skip(k))),
{
    let rc = parents(n) + xs.skip(k);
    assert forall|i: int| 0 <= i < rc.len() implies #[trigger] comp_ok(rc[i], i) by {
        if i < n {
            assert(rc[i] == Comp::Parent);
        } else {
            assert(rc[i] == xs[i - n + k]);
            assert(xs[i - n + k] is Normal);
            assert(comp_ok(xs[i - n + k], i - n + k));
        }
    }
    assert(rc[0] != Comp::Root) by {
        if n > 0 {
            assert(rc[0] == Comp::Parent);
        } else {
            assert(rc[0] == xs[k]);
        }
    }
    lemma_render(rc);
}

/// Walking the relative components from the directory of the base rebuilds the path.
proof fn lemma_absolute_part(p: Seq<char>, base: Seq<char>, k: int)
    requires
        rooted(p),
        clean_of(p) == p,
        well_formed(components_of(p)),
        well_formed(components_of(base)),
        components_of(p)[0] == Comp::Root,
        forall|j: int| 1 <= j < components_of(p).len() ==> #[trigger] components_of(p)[j] is Normal,
        1 <= k < components_of(p).len(),
        k < components_of(base).len(),
        forall|i: int| 0 <= i < k ==> components_of(p)[i] == components_of(base)[i],
    ensures
        abs_from_walk(
            trim_last_of(base),
            parents((components_of(base).len() - k - 1) as nat) + components_of(p).skip(k),
        ) == Some(p),
{
    let xs = components_of(p);
    let ys = components_of(base);
    let n = (ys.len() - k - 1) as nat;
    let xk = xs.skip(k);
    lemma_render(ys);
    assert(drop_back(ys) =~= ys.subrange(0, ys.len() - 1));
    assert(trim_last_of(base) == render(ys.subrange(0, k + n)));
    lemma_abs_from_walk_climb(ys, k, n, xk);
    assert(ys.subrange(0, k) =~= xs.subrange(0, k));
    lemma_abs_from_walk(render(xs.subrange(0, k)), xk);
    assert(xk[0] == xs[k]);
    assert(xs[k] is Normal);
    let x = xs[k]->Normal_0;
    assert(xk.drop_first() =~= xs.skip(k + 1));
    let q = join_path(join_path(render(xs.subrange(0, k)), x), render(xs.skip(k + 1)));
    assert(abs_from_walk(render(xs.subrange(0, k)), xk) == Some(clean_of(q)));
    let a = xs.subrange(0, k + 1);
    assert(a.drop_last() =~= xs.subrange(0, k));
    assert(a.last() == xs[k]);
    assert(render(a) == join_path(render(xs.subrange(0, k)), x));
    lemma_join_rest(xs, k);
    assert(components_of(q) == xs);
    assert(clean_of(q) == clean_of(p));
}

/// The relative form of one absolute clean path against another, made absolute again
/// against the same base, gives the path back, when neither path's components lead the
/// other's.
proof fn lemma_round_trip(
    p: Seq<char>,
    base: Seq<char>,
    cwd: Seq<char>,
    home: Seq<char>,
    x: Seq<char>,
    y: Seq<char>,
)
    requires
        abs_of(p, cwd, home) == Ok::<Seq<char>, PathErrorV>(x),
        abs_of(base, cwd, home) == Ok::<Seq<char>, PathErrorV>(y),
        rooted(x),
        rooted(y),
        clean_of(x) == x,
        clean_of(y) == y,
        !components_of(x).is_prefix_of(components_of(y)),
        !components_of(y).is_prefix_of(components_of(x)),
    ensures
        relative_from_of(p, base, cwd, home) matches Ok(r) && abs_from_of(r, base, cwd, home)
            == Ok::<Seq<char>, PathErrorV>(x),
{
    let xs = components_of(x);
    let ys = components_of(y);
    lemma_clean_rooted(x);
    lemma_clean_rooted(y);
    let k = lemma_divergence(xs, ys);
    assert(k >= 1) by {
        if k == 0 {
            assert(xs[0] == ys[0]);
        }
    }
    let n = (ys.len() - k - 1) as nat;
    let rc = parents(n) + xs.skip(k);
    lemma_relative_part(xs, ys, k);
    assert(xs != ys) by {
        assert(xs[k] != ys[k]);
    }
    let r = render(rc);
    assert(relative_from_of(p, base, cwd, home) == Ok::<Seq<char>, PathErrorV>(r));
    lemma_relative_form(xs, k, n);
    assert(components_of(r) != ys) by {
        assert(components_of(r)[0] != ys[0]);
    }
    lemma_absolute_part(x, y, k);
    assert(abs_from_of(r, base, cwd, home) == Ok::<Seq<char>, PathErrorV>(x));
}

/// For two absolute paths without a home symbol, whose clean forms are neither the same nor
/// one an ancestor of the other (neither one's components lead the other's), taking `p`
/// relative to `base` and then making the result absolute against `base`, whose last element
/// is a file name, gives back `p` in its clean form: `p` itself when it is clean, and a path
/// with the same components otherwise (as with a trailing or doubled `/`).
pub proof fn law_abs_from_undoes_relative_from(p: Seq<char>, base: Seq<char>, cwd: Seq<char>, home: Seq<char>)
    requires
        rooted(p),
        rooted(base),
        count_char(p, '~') == 0,
        count_char(base, '~') == 0,
        !components_of(clean_of(p)).is_prefix_of(components_of(clean_of(base))),
        !components_of(clean_of(base)).is_prefix_of(components_of(clean_of(p))),
    ensures
        relative_from_of(p, base, cwd, home) matches Ok(r) && abs_from_of(r, base, cwd, home)
            == Ok::<Seq<char>, PathErrorV>(clean_of(p)),
        components_of(clean_of(p)) == clean_comps(components_of(p)),
{
    lemma_abs_of_rooted(p, cwd, home);
    lemma_abs_of_rooted(base, cwd, home);
    lemma_round_trip(p, base, cwd, home, clean_of(p), clean_of(base));
    law_clean_components(p);
    lemma_clean_comps_root(components_of(p));
}

proof fn lemma_first_mismatch(xs: Seq<Comp>, ys: Seq<Comp>, m: int, i: int)
    requires
        0 <= i < m,
        m <= xs.len(),
        m <= ys.len(),
        xs[i] != ys[i],
    ensures
        exists|k: int| 0 <= k < m && xs[k] != ys[k] && forall|j: int| 0 <= j < k ==> xs[j] == ys[j],
    decreases i,
{
    if exists|j: int| 0 <= j < i && xs[j] != ys[j] {
        let j = choose|j: int| 0 <= j < i && xs[j] != ys[j];
        lemma_first_mismatch(xs, ys, m, j);
    } else {
        assert(0 <= i < m && xs[i] != ys[i] && forall|j: int| 0 <= j < i ==> xs[j] == ys[j]);
    }
}

proof fn lemma_after_last_index(s: Seq<char>, c: char)
    ensures
        forall|j: int| last_index_of(s, c) < j < s.len() ==> s[j] != c,
    decreases s.len(),
{
    if s.len() > 0 && s.last() != c {
        lemma_after_last_index(s.drop_last(), c);
        lemma_last_index_bounds(s.drop_last(), c);
        assert forall|j: int| last_index_of(s, c) < j < s.len() implies s[j] != c by {
            if j < s.len() - 1 {
                assert(s[j] == s.drop_last()[j]);
            }
        }
    }
}

/// The extension of a path is what follows the last `.` of its file name, and trimming it
/// removes exactly that `.` and the extension: the trimmed path followed by `.` and the
/// extension is the path rebuilt with its file name, so every earlier `.` stays.
pub proof fn law_trim_ext_then_ext(p: Seq<char>)
    ensures
        ext_of(p) matches Some(e) ==> (file_name_of(p) matches Some(n) && trim_ext_of(p)
            + seq!['.'] + e == join_path(trim_last_of(p), n) && forall|k: int|
            0 <= k < e.len() ==> e[k] != '.'),
{
    if ext_of(p) is Some {
        let e = ext_of(p)->Some_0;
        let cs = components_of(p);
        let n = file_name_of(p)->Some_0;
        let i = last_index_of(n, '.');
        lemma_last_index_bounds(n, '.');
        lemma_after_last_index(n, '.');
        lemma_components_well_formed(p);
        assert(comp_ok(cs[cs.len() - 1], cs.len() - 1));
        assert(cs[cs.len() - 1] == Comp::Normal(n));
        assert(normal_name(n));
        let st = n.subrange(0, i);
        assert(n =~= st + seq!['.'] + e);
        assert(st[0] == n[0]);
        assert(!rooted(st) && !rooted(n));
        let a = trim_last_of(p);
        assert(trim_ext_of(p) == join_path(a, st));
        if a.len() > 0 && a.last() != '/' {
            assert(join_path(a, st) + seq!['.'] + e =~= a + seq!['/'] + n);
        } else {
            assert(join_path(a, st) + seq!['.'] + e =~= a + n);
        }
        assert forall|k: int| 0 <= k < e.len() implies e[k] != '.' by {
            assert(e[k] == n[i + 1 + k]);
        }
    }
}

proof fn lemma_rel_walk_climb(ys: Seq<Comp>, acc: Seq<Comp>)
    ensures
        rel_walk(Seq::empty(), ys, acc) == Some(acc + parents(ys.len())),
    decreases ys.len(),
{
    lemma_rel_walk(Seq::empty(), ys, acc);
    if ys.len() == 0 {
        assert(acc + parents(0) =~= acc);
    } else {
        lemma_rel_walk_climb(ys.drop_first(), acc.push(Comp::Parent));
        assert(acc.push(Comp::Parent) + parents(ys.drop_first().len()) =~= acc + parents(ys.len()));
    }
}

/// A path that is an ancestor of the base, once both are absolute, is reached from the base
/// by climbing: its relative form is made of `..` components only, one for each component
/// that the base has beyond it.
pub proof fn law_relative_from_ancestor(p: Seq<char>, base: Seq<char>, cwd: Seq<char>, home: Seq<char>)
    requires
        abs_of(p, cwd, home) is Ok,
        abs_of(base, cwd, home) is Ok,
        components_of(abs_of(p, cwd, home)->Ok_0).len() < components_of(abs_of(base, cwd, home)->Ok_0).len(),
        components_of(abs_of(p, cwd, home)->Ok_0).is_prefix_of(components_of(abs_of(base, cwd, home)->Ok_0)),
    ensures
        relative_from_of(p, base, cwd, home) matches Ok(r) && components_of(r).len()
            == components_of(abs_of(base, cwd, home)->Ok_0).len() - components_of(
            abs_of(p, cwd, home)->Ok_0,
        ).len() && forall|i: int| 0 <= i < components_of(r).len() ==> #[trigger] components_of(r)[i]
            == Comp::Parent,
{
    let xs = components_of(abs_of(p, cwd, home)->Ok_0);
    let ys = components_of(abs_of(base, cwd, home)->Ok_0);
    let k = xs.len() as int;
    assert forall|i: int| 0 <= i < k implies xs[i] == ys[i] by {
        assert(xs[i] == ys.subrange(0, k)[i]);
    }
    lemma_rel_walk_skip(xs, ys, k);
    assert(xs.skip(k) =~= Seq::<Comp>::empty());
    lemma_rel_walk_climb(ys.skip(k), Seq::empty());
    let cs = parents((ys.len() - k) as nat);
    assert(Seq::<Comp>::empty() + parents(ys.skip(k).len()) =~= cs);
    assert(xs != ys);
    assert(relative_from_of(p, base, cwd, home) == Ok::<Seq<char>, PathErrorV>(render(cs)));
    assert forall|i: int| 0 <= i < cs.len() implies #[trigger] comp_ok(cs[i], i) by {
        assert(cs[i] == Comp::Parent);
    }
    lemma_render(cs);
}

} // verus!
