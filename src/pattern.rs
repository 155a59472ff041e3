//! Regular expressions, through the `regex` crate.
//!
//! Matching and replacing are named here rather than defined: the contracts
//! of the wrappers below say that each result is a function of the pattern
//! text and of the other arguments, and nothing more.
use vstd::prelude::*;
use vstd::utf8::*;
use vstd::string::*;

verus! {

/// Declares `regex::Regex`, a compiled regular expression, as an opaque type.
#[verifier::external_type_specification]
#[verifier::external_body]
pub struct ExRegex(regex::Regex);

/// Declares `regex::Error`, the error of `regex::Regex::new`, as an opaque
/// type.
#[verifier::external_type_specification]
#[verifier::external_body]
pub struct ExRegexError(regex::Error);

/// Whether `regex::Regex::new` accepts the pattern text `p`.
pub uninterp spec fn regex_compiles(p: Seq<char>) -> bool;

/// Whether the regex of pattern text `p` matches anywhere in `hay`.
pub uninterp spec fn regex_matches(p: Seq<char>, hay: Seq<char>) -> bool;

/// The byte offsets at which the successive non-overlapping matches of the
/// regex of pattern text `p` start in `hay`.
pub uninterp spec fn regex_match_starts(p: Seq<char>, hay: Seq<char>) -> Seq<usize>;

/// `hay` with the first match of the regex of pattern text `p` replaced by
/// the expansion of `rep`.
pub uninterp spec fn regex_replace_first(p: Seq<char>, hay: Seq<char>, rep: Seq<char>) -> Seq<char>;

/// `hay` with every non-overlapping match of the regex of pattern text `p`
/// replaced by the expansion of `rep`.
pub uninterp spec fn regex_replace_all(p: Seq<char>, hay: Seq<char>, rep: Seq<char>) -> Seq<char>;

/// Relies on `regex::Regex::new`: it fails exactly on the patterns that
/// `regex_compiles` rejects.
#[verifier::external_body]
fn compile_regex(p: &str) -> (r: Result<regex::Regex, regex::Error>)
    ensures
        r is Ok <==> regex_compiles(p@),
{
    regex::Regex::new(p)
}

/// A compiled regular expression together with the text it was compiled
/// from. `Pattern::new` is the only way to build one, so `re` is always the
/// compilation of `source`.
pub struct Pattern {
    re: regex::Regex,
    source: String,
}

impl View for Pattern {
    type V = Seq<char>;

    closed spec fn view(&self) -> Seq<char> {
        self.source@
    }
}

impl Pattern {
    /// Compiles `p`; `None` when it is not a valid regular expression.
    pub fn new(p: &str) -> (r: Option<Pattern>)
        ensures
            r is Some <==> regex_compiles(p@),
            r is Some ==> r->0@ == p@,
    {
        match compile_regex(p) {
            Ok(re) => Some(Pattern { re, source: p.to_owned() }),
            Err(_) => None,
        }
    }

    /// Relies on `regex::Regex::is_match`, applied to the compilation of
    /// `self@`.
    #[verifier::external_body]
    pub(crate) fn is_match(&self, hay: &str) -> (r: bool)
        ensures
            r == regex_matches(self@, hay@),
    {
        self.re.is_match(hay)
    }

    /// Relies on `regex::Regex::find_iter` and `regex::Match::start`: the
    /// start of each successive match, as a byte offset into `hay`. The
    /// crate guarantees that such an offset falls on a character boundary.
    #[verifier::external_body]
    pub(crate) fn match_starts(&self, hay: &str) -> (r: Vec<usize>)
        ensures
            r@ == regex_match_starts(self@, hay@),
            forall|i: int| 0 <= i < r@.len() ==> is_char_boundary(encode_utf8(hay@), r@[i] as int),
    {
        self.re.find_iter(hay).map(|m| m.start()).collect()
    }

    /// Relies on `regex::Regex::replace`, with `rep` expanded as the crate
    /// documents (`$1`, `$name`, `$$`).
    #[verifier::external_body]
    pub(crate) fn replace_first(&self, hay: &str, rep: &str) -> (r: String)
        ensures
            r@ == regex_replace_first(self@, hay@, rep@),
    {
        self.re.replace(hay, rep).into_owned()
    }

    /// Relies on `regex::Regex::replace_all`, with `rep` expanded as the
    /// crate documents.
    #[verifier::external_body]
    pub(crate) fn replace_all(&self, hay: &str, rep: &str) -> (r: String)
        ensures
            r@ == regex_replace_all(self@, hay@, rep@),
    {
        self.re.replace_all(hay, rep).into_owned()
    }
}

} // verus!
