//! Regular expressions kept together with the pattern they were compiled from, so that what
//! a match finds can be stated as a function of the pattern and the text.
use vstd::prelude::*;
use vstd::string::*;
use crate::text::contains_seq;

verus! {

/// A compiled regular expression.
#[verifier::external_type_specification]
#[verifier::external_body]
pub struct ExRegex(regex::Regex);

/// Whether `regex::Regex::new` accepts the pattern: a function of the pattern alone, on a
/// given target (the size limits it checks count in pointer widths).
pub uninterp spec fn regex_valid(pattern: Seq<char>) -> bool;

/// The capture groups that `regex::Regex::captures` finds for the regular expression
/// compiled from `pattern` in `text`, each as the text it matched or `None` when it took no
/// part in the match; `None` when nothing matches. A function of the pattern and the text.
pub uninterp spec fn captures_of(pattern: Seq<char>, text: Seq<char>) -> Option<Seq<Option<Seq<char>>>>;

/// Compiles `pattern` with `regex::Regex::new`, which succeeds exactly on the patterns it
/// accepts. Which patterns those are is not stated beyond their being a function of the
/// pattern.
#[verifier::external_body]
fn compile(pattern: &str) -> (r: Result<regex::Regex, regex::Error>)
    ensures
        r is Ok <==> regex_valid(pattern@),
{
    regex::Regex::new(pattern)
}

/// A regular expression and the pattern it was compiled from. It is made only by
/// [`Pattern::new`], so its expression is always the one its pattern compiles to.
#[derive(Debug)]
pub struct Pattern {
    source: String,
    re: regex::Regex,
}

impl View for Pattern {
    type V = Seq<char>;

    /// The pattern.
    closed spec fn view(&self) -> Seq<char> {
        self.source@
    }
}

impl Pattern {
    /// The regular expression that `source` compiles to; an error for a pattern that
    /// `regex::Regex::new` refuses.
    pub fn new(source: &str) -> (r: Result<Pattern, regex::Error>)
        ensures
            match r {
                Ok(p) => regex_valid(source@) && p@ == source@,
                Err(_) => !regex_valid(source@),
            },
    {
        match compile(source) {
            Ok(re) => Ok(Pattern { source: String::from_str(source), re }),
            Err(e) => Err(e),
        }
    }

    /// The pattern.
    pub fn as_str(&self) -> (r: &str)
        ensures
            r@ == self@,
    {
        self.source.as_str()
    }
}

/// The texts of capture groups.
pub open spec fn groups_view(g: Seq<Option<String>>) -> Seq<Option<Seq<char>>> {
    g.map_values(|o: Option<String>| match o {
        Some(s) => Some(s@),
        None => None,
    })
}

/// The texts of the capture groups of a match, if there was one.
pub open spec fn captures_view(c: Option<Vec<Option<String>>>) -> Option<Seq<Option<Seq<char>>>> {
    match c {
        Some(g) => Some(groups_view(g@)),
        None => None,
    }
}

/// The capture groups of the leftmost first match of the pattern in `text`, as
/// `regex::Regex::captures` finds them: `captures_of` the pattern and the text. As the
/// crate documents, when there is a match the first group is the whole match and is always
/// present, and every group is a piece of `text`. That the expression is the one compiled
/// from the pattern rests on `Pattern::new` being the only way to make a `Pattern`.
#[verifier::external_body]
pub(crate) fn capture_groups(p: &Pattern, text: &str) -> (r: Option<Vec<Option<String>>>)
    ensures
        captures_view(r) == captures_of(p@, text@),
        captures_view(r) matches Some(g) ==> g.len() >= 1 && g[0] is Some && forall|k: int|
            0 <= k < g.len() ==> (#[trigger] g[k] matches Some(m) ==> contains_seq(text@, m)),
{
    p.re.captures(text).map(|c| c.iter().map(|m| m.map(|m| m.as_str().to_string())).collect())
}

} // verus!
