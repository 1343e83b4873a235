//! String helpers shared by the rest of the library.
use vstd::prelude::*;
use vstd::string::*;

verus! {

/// Appends one character to a `String` (`String::push`).
#[verifier::external_body]
pub(crate) fn push_char(s: &mut String, c: char)
    ensures
        final(s)@ == old(s)@.push(c),
{
    s.push(c)
}

/// The characters of `s`, in order.
pub fn chars_of(s: &str) -> (r: Vec<char>)
    ensures
        r@ == s@,
{
    let n = s.unicode_len();
    let mut r: Vec<char> = Vec::new();
    let mut i: usize = 0;
    while i < n
        invariant
            n == s@.len(),
            i <= n,
            r@ == s@.subrange(0, i as int),
        decreases n - i,
    {
        r.push(s.get_char(i));
        i = i + 1;
    }
    assert(r@ =~= s@);
    r
}

/// The string made of the characters of `v`, in order.
pub fn string_of(v: &[char]) -> (r: String)
    ensures
        r@ == v@,
{
    let mut r = String::new();
    let mut i: usize = 0;
    while i < v.len()
        invariant
            i <= v@.len(),
            r@ == v@.subrange(0, i as int),
        decreases v.len() - i,
    {
        push_char(&mut r, v[i]);
        i = i + 1;
    }
    assert(r@ =~= v@);
    r
}

} // verus!

verus! {

/// The decimal digit character for `d`, which is below ten.
pub open spec fn digit_char(d: nat) -> char {
    if d == 0 { '0' } else if d == 1 { '1' } else if d == 2 { '2' } else if d == 3 { '3' }
    else if d == 4 { '4' } else if d == 5 { '5' } else if d == 6 { '6' } else if d == 7 { '7' }
    else if d == 8 { '8' } else { '9' }
}

/// The decimal notation of `n`, without leading zeros.
pub open spec fn decimal(n: nat) -> Seq<char>
    decreases n,
{
    if n < 10 {
        seq![digit_char(n)]
    } else {
        decimal(n / 10).push(digit_char(n % 10))
    }
}

fn digit(d: u32) -> (c: char)
    requires
        d < 10,
    ensures
        c == digit_char(d as nat),
{
    if d == 0 { '0' } else if d == 1 { '1' } else if d == 2 { '2' } else if d == 3 { '3' }
    else if d == 4 { '4' } else if d == 5 { '5' } else if d == 6 { '6' } else if d == 7 { '7' }
    else if d == 8 { '8' } else { '9' }
}

fn decimal_chars(n: u32) -> (r: Vec<char>)
    ensures
        r@ == decimal(n as nat),
    decreases n,
{
    if n < 10 {
        let mut r = Vec::new();
        r.push(digit(n));
        assert(r@ =~= seq![digit_char(n as nat)]);
        r
    } else {
        let mut r = decimal_chars(n / 10);
        r.push(digit(n % 10));
        r
    }
}

/// The decimal notation of `n`, as `n.to_string()` writes it.
pub fn u32_to_string(n: u32) -> (r: String)
    ensures
        r@ == decimal(n as nat),
{
    let v = decimal_chars(n);
    string_of(v.as_slice())
}

} // verus!

verus! {

/// `x` is a prefix of `s`.
pub open spec fn is_prefix_of(x: Seq<char>, s: Seq<char>) -> bool {
    x.len() <= s.len() && s.subrange(0, x.len() as int) == x
}

/// `x` is a suffix of `s`.
pub open spec fn is_suffix_of(x: Seq<char>, s: Seq<char>) -> bool {
    x.len() <= s.len() && s.subrange(s.len() - x.len(), s.len() as int) == x
}

/// `x` occurs in `s` starting at index `i`.
pub open spec fn occurs_at(s: Seq<char>, x: Seq<char>, i: int) -> bool {
    0 <= i && i + x.len() <= s.len() && s.subrange(i, i + x.len()) == x
}

/// `x` occurs somewhere in `s`.
pub open spec fn contains_seq(s: Seq<char>, x: Seq<char>) -> bool {
    exists|i: int| occurs_at(s, x, i)
}

/// The number of times `c` occurs in `s`.
pub open spec fn count_char(s: Seq<char>, c: char) -> nat
    decreases s.len(),
{
    if s.len() == 0 {
        0
    } else {
        count_char(s.drop_last(), c) + if s.last() == c { 1nat } else { 0nat }
    }
}

/// Whether `s` begins with `x`.
pub fn starts_with(s: &[char], x: &[char]) -> (r: bool)
    ensures
        r == is_prefix_of(x@, s@),
{
    if x.len() > s.len() {
        return false;
    }
    let mut i: usize = 0;
    while i < x.len()
        invariant
            x@.len() <= s@.len(),
            i <= x@.len(),
            forall|j: int| 0 <= j < i ==> s@[j] == x@[j],
        decreases x.len() - i,
    {
        if s[i] != x[i] {
            assert(s@.subrange(0, x@.len() as int)[i as int] != x@[i as int]);
            return false;
        }
        i = i + 1;
    }
    assert(s@.subrange(0, x@.len() as int) =~= x@);
    true
}

/// Whether `s` ends with `x`.
pub fn ends_with(s: &[char], x: &[char]) -> (r: bool)
    ensures
        r == is_suffix_of(x@, s@),
{
    if x.len() > s.len() {
        return false;
    }
    let off = s.len() - x.len();
    let mut i: usize = 0;
    while i < x.len()
        invariant
            x@.len() <= s@.len(),
            off == s@.len() - x@.len(),
            off + x@.len() == s@.len(),
            s@.len() == s.len(),
            x@.len() == x.len(),
            i <= x@.len(),
            forall|j: int| 0 <= j < i ==> s@[off + j] == x@[j],
        decreases x.len() - i,
    {
        if s[off + i] != x[i] {
            assert(s@.subrange(off as int, s@.len() as int)[i as int] != x@[i as int]);
            return false;
        }
        i = i + 1;
    }
    assert(s@.subrange(off as int, s@.len() as int) =~= x@);
    true
}

/// Whether `x` occurs in `s` at index `i`.
pub fn occurs_at_exec(s: &[char], x: &[char], i: usize) -> (r: bool)
    ensures
        r == occurs_at(s@, x@, i as int),
{
    if i > s.len() || x.len() > s.len() - i {
        return false;
    }
    let mut j: usize = 0;
    while j < x.len()
        invariant
            i + x@.len() <= s@.len(),
            s@.len() == s.len(),
            x@.len() == x.len(),
            j <= x@.len(),
            forall|k: int| 0 <= k < j ==> s@[i + k] == x@[k],
        decreases x.len() - j,
    {
        if s[i + j] != x[j] {
            assert(s@.subrange(i as int, i + x@.len())[j as int] != x@[j as int]);
            return false;
        }
        j = j + 1;
    }
    assert(s@.subrange(i as int, i + x@.len()) =~= x@);
    true
}

/// The first index at which `x` occurs in `s`, if any.
pub fn find(s: &[char], x: &[char]) -> (r: Option<usize>)
    ensures
        match r {
            Some(i) => occurs_at(s@, x@, i as int) && forall|j: int|
                0 <= j < i ==> !occurs_at(s@, x@, j),
            None => !contains_seq(s@, x@),
        },
{
    let mut i: usize = 0;
    while i < s.len()
        invariant
            i <= s@.len(),
            forall|j: int| 0 <= j < i ==> !occurs_at(s@, x@, j),
        decreases s.len() - i,
    {
        if occurs_at_exec(s, x, i) {
            return Some(i);
        }
        i = i + 1;
    }
    if occurs_at_exec(s, x, i) {
        return Some(i);
    }
    assert forall|j: int| !occurs_at(s@, x@, j) by {
        if 0 <= j && j <= i {
        } else {
        }
    }
    None
}

/// Whether `x` occurs in `s`.
pub fn contains(s: &[char], x: &[char]) -> (r: bool)
    ensures
        r == contains_seq(s@, x@),
{
    match find(s, x) {
        Some(_) => true,
        None => false,
    }
}

/// The number of times `c` occurs in `s`.
pub fn count(s: &[char], c: char) -> (r: usize)
    ensures
        r == count_char(s@, c),
{
    let mut n: usize = 0;
    let mut i: usize = 0;
    while i < s.len()
        invariant
            i <= s@.len(),
            n == count_char(s@.subrange(0, i as int), c),
            n <= i,
        decreases s.len() - i,
    {
        proof {
            assert(s@.subrange(0, i + 1).drop_last() =~= s@.subrange(0, i as int));
        }
        if s[i] == c {
            n = n + 1;
        }
        i = i + 1;
    }
    assert(s@.subrange(0, s@.len() as int) =~= s@);
    n
}

/// The characters of `s` from index `from` up to but excluding `to`.
pub fn slice_chars(s: &[char], from: usize, to: usize) -> (r: Vec<char>)
    requires
        from <= to <= s@.len(),
    ensures
        r@ == s@.subrange(from as int, to as int),
{
    let mut r: Vec<char> = Vec::new();
    let mut i = from;
    while i < to
        invariant
            from <= i <= to,
            to <= s@.len(),
            r@ == s@.subrange(from as int, i as int),
        decreases to - i,
    {
        r.push(s[i]);
        i = i + 1;
    }
    r
}

/// Appends the characters of `w` to `v`.
pub fn extend_chars(v: &mut Vec<char>, w: &[char])
    ensures
        final(v)@ == old(v)@ + w@,
{
    let mut i: usize = 0;
    let ghost v0 = v@;
    while i < w.len()
        invariant
            i <= w@.len(),
            v@ == v0 + w@.subrange(0, i as int),
        decreases w.len() - i,
    {
        v.push(w[i]);
        i = i + 1;
    }
    assert(w@.subrange(0, w@.len() as int) =~= w@);
}

} // verus!

verus! {

/// `s` split at every `c`, keeping empty pieces: one piece more than there are `c`s.
pub open spec fn split_by(s: Seq<char>, c: char) -> Seq<Seq<char>>
    decreases s.len(),
{
    if s.len() == 0 {
        seq![Seq::empty()]
    } else {
        let prev = split_by(s.drop_last(), c);
        if s.last() == c {
            prev.push(Seq::empty())
        } else {
            prev.update(prev.len() - 1, prev.last().push(s.last()))
        }
    }
}

pub proof fn lemma_split_by_len(s: Seq<char>, c: char)
    ensures
        split_by(s, c).len() >= 1,
    decreases s.len(),
{
    if s.len() > 0 {
        lemma_split_by_len(s.drop_last(), c);
    }
}

/// The pieces of `s` between the occurrences of `c`.
pub fn split_chars(s: &[char], c: char) -> (r: Vec<Vec<char>>)
    ensures
        r@.len() == split_by(s@, c).len(),
        forall|k: int| 0 <= k < r@.len() ==> #[trigger] r@[k]@ == split_by(s@, c)[k],
{
    let mut done: Vec<Vec<char>> = Vec::new();
    let mut cur: Vec<char> = Vec::new();
    let mut i: usize = 0;
    proof {
        assert(s@.subrange(0, 0) =~= Seq::<char>::empty());
    }
    while i < s.len()
        invariant
            i <= s@.len(),
            split_by(s@.subrange(0, i as int), c).len() == done@.len() + 1,
            forall|k: int| 0 <= k < done@.len() ==> #[trigger] done@[k]@ == split_by(s@.subrange(0, i as int), c)[k],
            cur@ == split_by(s@.subrange(0, i as int), c).last(),
        decreases s.len() - i,
    {
        let ghost pre = s@.subrange(0, i as int);
        proof {
            assert(s@.subrange(0, i + 1).drop_last() =~= pre);
            lemma_split_by_len(pre, c);
        }
        if s[i] == c {
            done.push(cur);
            cur = Vec::new();
            proof {
                assert(cur@ =~= Seq::<char>::empty());
            }
        } else {
            cur.push(s[i]);
        }
        i = i + 1;
    }
    proof {
        assert(s@.subrange(0, s@.len() as int) =~= s@);
    }
    done.push(cur);
    done
}

/// Whether two strings are equal.
pub fn str_eq(a: &str, b: &str) -> (r: bool)
    ensures
        r == (a@ == b@),
{
    let x = chars_of(a);
    let y = chars_of(b);
    if x.len() != y.len() {
        return false;
    }
    let mut i: usize = 0;
    while i < x.len()
        invariant
            x@ == a@,
            y@ == b@,
            x@.len() == y@.len(),
            i <= x@.len(),
            forall|j: int| 0 <= j < i ==> x@[j] == y@[j],
        decreases x.len() - i,
    {
        if x[i] != y[i] {
            return false;
        }
        i = i + 1;
    }
    assert(x@ =~= y@);
    true
}

} // verus!

verus! {

/// Whether `c` has the Unicode White_Space property, as `char::is_whitespace` decides.
pub open spec fn is_whitespace(c: char) -> bool {
    let u = c as u32;
    (0x9 <= u && u <= 0xd) || u == 0x20 || u == 0x85 || u == 0xa0 || u == 0x1680 || (0x2000 <= u
        && u <= 0x200a) || u == 0x2028 || u == 0x2029 || u == 0x202f || u == 0x205f || u == 0x3000
}

fn is_whitespace_exec(c: char) -> (r: bool)
    ensures
        r == is_whitespace(c),
{
    let u = c as u32;
    (0x9 <= u && u <= 0xd) || u == 0x20 || u == 0x85 || u == 0xa0 || u == 0x1680 || (0x2000 <= u
        && u <= 0x200a) || u == 0x2028 || u == 0x2029 || u == 0x202f || u == 0x205f || u == 0x3000
}

/// `s` without its trailing whitespace.
pub open spec fn trim_end_of(s: Seq<char>) -> Seq<char>
    decreases s.len(),
{
    if s.len() > 0 && is_whitespace(s.last()) {
        trim_end_of(s.drop_last())
    } else {
        s
    }
}

/// `s` without its trailing whitespace, as `str::trim_end` trims it.
pub fn trim_end(s: &str) -> (r: String)
    ensures
        r@ == trim_end_of(s@),
{
    let cs = chars_of(s);
    let mut k = cs.len();
    assert(cs@.subrange(0, k as int) =~= cs@);
    while k > 0 && is_whitespace_exec(cs[k - 1])
        invariant
            k <= cs@.len(),
            trim_end_of(cs@) == trim_end_of(cs@.subrange(0, k as int)),
        decreases k,
    {
        proof {
            assert(cs@.subrange(0, k as int).drop_last() =~= cs@.subrange(0, k - 1));
        }
        k = k - 1;
    }
    let t = slice_chars(cs.as_slice(), 0, k);
    string_of(t.as_slice())
}

} // verus!
