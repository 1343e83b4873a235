//! Iterator adaptors, applied to the items of a vector taken in order.
use vstd::prelude::*;
use crate::errors::IterError;

verus! {

/// The smaller of two integers.
pub open spec fn min(a: int, b: int) -> int {
    if a <= b { a } else { b }
}

/// What remains of the items once the iterator is consumed: nothing.
pub fn consume<T>(v: Vec<T>) -> (r: Vec<T>)
    ensures
        r@ == Seq::<T>::empty(),
{
    let mut v = v;
    v.clear();
    v
}

/// The items without their first `n` when `n` is positive, or without their last `-n`
/// when `n` is negative.
pub open spec fn drop_of<T>(s: Seq<T>, n: int) -> Seq<T> {
    if n > 0 {
        s.subrange(min(n, s.len() as int), s.len() as int)
    } else if n < 0 {
        s.subrange(0, s.len() - min(-n, s.len() as int))
    } else {
        s
    }
}

/// Drops the first `n` items if `n` is positive, or the last `|n|` if it is negative.
pub fn drop<T>(v: Vec<T>, n: isize) -> (r: Vec<T>)
    requires
        n != isize::MIN,
    ensures
        r@ == drop_of(v@, n as int),
{
    let mut v = v;
    if n > 0 {
        let k = n as usize;
        if k >= v.len() {
            v.clear();
            v
        } else {
            v.split_off(k)
        }
    } else if n < 0 {
        let k = (-n) as usize;
        if k >= v.len() {
            v.clear();
        } else {
            let keep = v.len() - k;
            v.truncate(keep);
        }
        v
    } else {
        v
    }
}

/// The first item, if any.
pub fn first<T>(v: Vec<T>) -> (r: Option<T>)
    ensures
        r == if v@.len() > 0 { Some(v@[0]) } else { None },
{
    let mut v = v;
    if v.len() > 0 {
        Some(v.remove(0))
    } else {
        None
    }
}

/// The first item, or an error when there is none.
pub fn first_result<T>(v: Vec<T>) -> (r: Result<T, IterError>)
    ensures
        r == if v@.len() > 0 {
            Ok::<T, IterError>(v@[0])
        } else {
            Err::<T, IterError>(IterError::ItemNotFound)
        },
{
    match first(v) {
        Some(x) => Ok(x),
        None => Err(IterError::item_not_found()),
    }
}

/// The last item, or an error when there is none.
pub fn last_result<T>(v: Vec<T>) -> (r: Result<T, IterError>)
    ensures
        r == if v@.len() > 0 {
            Ok::<T, IterError>(v@.last())
        } else {
            Err::<T, IterError>(IterError::ItemNotFound)
        },
{
    let mut v = v;
    match v.pop() {
        Some(x) => Ok(x),
        None => Err(IterError::item_not_found()),
    }
}

/// The only item, or an error when there is none or more than one.
pub fn single<T>(v: Vec<T>) -> (r: Result<T, IterError>)
    ensures
        r == if v@.len() == 1 {
            Ok::<T, IterError>(v@[0])
        } else if v@.len() == 0 {
            Err::<T, IterError>(IterError::ItemNotFound)
        } else {
            Err::<T, IterError>(IterError::MultipleItemsFound)
        },
{
    let mut v = v;
    if v.len() == 0 {
        Err(IterError::item_not_found())
    } else if v.len() > 1 {
        Err(IterError::multiple_items_found())
    } else {
        Ok(v.remove(0))
    }
}

/// Whether there is at least one item.
pub fn some<T>(v: &Vec<T>) -> (r: bool)
    ensures
        r == (v@.len() > 0),
{
    v.len() > 0
}

/// The index that `right` stands for in a slice of `len` items: counted from the end when
/// negative, and moved in to the last item when it lies past the end.
pub open spec fn slice_end(len: int, right: int) -> int {
    if right < 0 {
        len + right
    } else if right >= len {
        len - 1
    } else {
        right
    }
}

/// The items that `slice(left, right)` keeps: those from index `left` through index
/// `right`, both inclusive and counted from the end when negative, a right index past the
/// end being moved in. Nothing is kept when the left index lies outside the items or the
/// two indices are mutually exclusive.
pub open spec fn slice_of<T>(s: Seq<T>, left: int, right: int) -> Seq<T> {
    let l = abs_start(s.len() as int, left);
    let r = slice_end(s.len() as int, right);
    if 0 <= l && l <= r && r < s.len() {
        s.subrange(l, r + 1)
    } else {
        Seq::empty()
    }
}

/// Only the items from index `left` through index `right`, both inclusive and either
/// counted from the end when negative.
pub fn slice<T>(v: Vec<T>, left: isize, right: isize) -> (r: Vec<T>)
    requires
        v@.len() <= isize::MAX,
    ensures
        r@ == slice_of(v@, left as int, right as int),
{
    let mut v = v;
    let len = v.len() as isize;
    let ghost s = v@;
    let l: isize = if left < 0 { len + left } else { left };
    let r: isize = if right < 0 {
        len + right
    } else if right >= len {
        len - 1
    } else {
        right
    };
    if 0 <= l && l <= r && r < len {
        let ru = r as usize;
        v.truncate(ru + 1);
        let kept = v.split_off(l as usize);
        assert(kept@ =~= s.subrange(l as int, r + 1));
        kept
    } else {
        v.clear();
        assert(v@ =~= Seq::<T>::empty());
        v
    }
}

/// Slicing keeps exactly the items from index `left` through index `right`, each counted
/// from the end when negative and a right index past the end moved in, whenever the two lie
/// within the items in that order; when the indices are mutually exclusive it keeps nothing.
pub proof fn law_slice_inclusive<T>(s: Seq<T>, left: int, right: int)
    ensures
        0 <= abs_start(s.len() as int, left) <= slice_end(s.len() as int, right) < s.len()
            ==> slice_of(s, left, right) == s.subrange(
            abs_start(s.len() as int, left),
            slice_end(s.len() as int, right) + 1,
        ),
        abs_start(s.len() as int, left) > slice_end(s.len() as int, right) ==> slice_of(
            s,
            left,
            right,
        ).len() == 0,
{
}

/// Indices brought into positive notation and within bounds, the end exclusive.
#[derive(Debug, Clone, Copy, PartialEq, Eq)]
pub struct AbsIndices {
    pub i: usize,
    pub j: usize,
}

/// The start that [`abs_indices`] works with: `i` counted from the end when negative.
pub open spec fn abs_start(len: int, i: int) -> int {
    if i < 0 { len + i } else { i }
}

/// The length that [`abs_indices`] keeps indices within: `len`, or none when negative.
pub open spec fn bound(len: int) -> int {
    if len < 0 { 0 } else { len }
}

/// Converts the inclusive indices `i` and `j` into positive notation, counting from the
/// end when negative, and moves them within bounds, returning an exclusive end: the start
/// is kept between 0 and `len`, the inclusive end between -1 and `len - 1`. The indices are
/// mutually exclusive, an error, when the start lies past the end.
pub fn abs_indices(len: isize, i: isize, j: isize) -> (r: Result<AbsIndices, IterError>)
    requires
        len > isize::MIN,
        i < 0 ==> isize::MIN <= len + i,
        j < 0 ==> isize::MIN <= len + j,
    ensures
        match r {
            Ok(a) => {
                let x = abs_start(len as int, i as int);
                let y = abs_start(len as int, j as int);
                let m = bound(len as int);
                &&& x <= y
                &&& a.i == (if x < 0 { 0 } else if x > m { m } else { x })
                &&& a.j == (if y >= m { m - 1 } else if y < -1 { -1 } else { y }) + 1
                &&& a.i <= a.j <= m
            },
            Err(e) => abs_start(len as int, i as int) > abs_start(len as int, j as int)
                && e == IterError::MutuallyExclusiveIndicies,
        },
{
    let mut x = i;
    let mut y = j;
    if i < 0 {
        x = len + i;
    }
    if j < 0 {
        y = len + j;
    }
    if x > y {
        return Err(IterError::mutually_exclusive_indices());
    }
    let m: isize = if len < 0 { 0 } else { len };
    if x < 0 {
        x = 0;
    } else if x > m {
        x = m;
    }
    if y >= m {
        y = m - 1;
    } else if y < -1 {
        y = -1;
    }
    y = y + 1;
    Ok(AbsIndices { i: x as usize, j: y as usize })
}

} // verus!
