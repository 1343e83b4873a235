//! String extensions.
use vstd::prelude::*;
use vstd::string::*;
use crate::text::{chars_of, ends_with, slice_chars, string_of, is_suffix_of};

verus! {

/// `s` with `suffix` trimmed off its end when it ends with it, else `s` itself.
pub open spec fn trim_suffix_of(s: Seq<char>, suffix: Seq<char>) -> Seq<char> {
    if is_suffix_of(suffix, s) {
        s.subrange(0, s.len() - suffix.len())
    } else {
        s
    }
}

fn trim_suffix_str(s: &str, suffix: &str) -> (r: String)
    ensures
        r@ == trim_suffix_of(s@, suffix@),
{
    let cs = chars_of(s);
    let x = chars_of(suffix);
    if ends_with(cs.as_slice(), x.as_slice()) {
        let t = slice_chars(cs.as_slice(), 0, cs.len() - x.len());
        string_of(t.as_slice())
    } else {
        String::from_str(s)
    }
}

/// Extensions for strings.
pub trait StringExt {
    /// The characters of the string.
    spec fn text(&self) -> Seq<char>;

    /// The length in characters rather than bytes.
    fn size(&self) -> (r: usize)
        ensures
            r == self.text().len(),
    ;

    /// The string with `suffix` trimmed off its end when it ends with it, else the string.
    fn trim_suffix(&self, suffix: &str) -> (r: String)
        ensures
            r@ == trim_suffix_of(self.text(), suffix@),
    ;
}

impl StringExt for str {
    open spec fn text(&self) -> Seq<char> {
        self@
    }

    fn size(&self) -> (r: usize) {
        self.unicode_len()
    }

    fn trim_suffix(&self, suffix: &str) -> (r: String) {
        trim_suffix_str(self, suffix)
    }
}

impl StringExt for String {
    open spec fn text(&self) -> Seq<char> {
        self@
    }

    fn size(&self) -> (r: usize) {
        self.as_str().unicode_len()
    }

    fn trim_suffix(&self, suffix: &str) -> (r: String) {
        trim_suffix_str(self.as_str(), suffix)
    }
}

/// Trimming a suffix undoes putting it behind.
pub proof fn law_trim_suffix_undoes(rest: Seq<char>, suffix: Seq<char>)
    ensures
        trim_suffix_of(rest + suffix, suffix) == rest,
{
    let s = rest + suffix;
    assert(s.subrange(s.len() - suffix.len(), s.len() as int) =~= suffix);
    assert(is_suffix_of(suffix, s));
    assert(s.subrange(0, s.len() - suffix.len()) =~= rest);
}

} // verus!
