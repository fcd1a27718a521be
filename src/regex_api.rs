//! The regular-expression engine this library relies on, and what it is
//! trusted to do.
use vstd::prelude::*;

verus! {

#[verifier::external_type_specification]
#[verifier::external_body]
pub struct ExRegex(regex::Regex);

#[verifier::external_type_specification]
#[verifier::external_body]
pub struct ExRegexError(regex::Error);

/// Whether the engine accepts `p` as a pattern.
pub uninterp spec fn regex_accepts(p: Seq<char>) -> bool;

/// Whether pattern `p` matches somewhere in `hay`.
pub uninterp spec fn regex_finds(p: Seq<char>, hay: Seq<char>) -> bool;

/// The texts of the successive non-overlapping matches of `p` in `hay`.
pub uninterp spec fn regex_match_texts(p: Seq<char>, hay: Seq<char>) -> Seq<Seq<char>>;

/// `hay` with every non-overlapping match of `p` replaced by the expansion
/// of `rep` (group references such as `$1` expanded).
pub uninterp spec fn regex_replaced(p: Seq<char>, hay: Seq<char>, rep: Seq<char>) -> Seq<char>;

/// A compiled pattern, together with the text it was compiled from.
pub(crate) struct Pattern {
    re: regex::Regex,
    text: Ghost<Seq<char>>,
}

impl View for Pattern {
    type V = Seq<char>;

    closed spec fn view(&self) -> Seq<char> {
        self.text@
    }
}

/// Relies on `regex::Regex::new`: compiles `p`, failing exactly on the
/// patterns the engine refuses.
#[verifier::external_body]
pub(crate) fn compile(p: &str) -> (r: Result<Pattern, regex::Error>)
    ensures
        r is Ok <==> regex_accepts(p@),
        r is Ok ==> r->Ok_0@ == p@,
{
    regex::Regex::new(p).map(|re| Pattern { re, text: Ghost(p@) })
}

/// Relies on the `Display` impl of `regex::Error`: the engine's diagnostic.
#[verifier::external_body]
pub(crate) fn error_message(e: &regex::Error) -> (r: String) {
    e.to_string()
}

impl Pattern {
    /// Relies on `regex::Regex::is_match`: true exactly when the pattern
    /// matches somewhere in `hay`.
    #[verifier::external_body]
    pub(crate) fn is_match(&self, hay: &str) -> (r: bool)
        ensures
            r == regex_finds(self@, hay@),
    {
        self.re.is_match(hay)
    }

    /// Relies on `regex::Regex::find_iter`: the texts of all non-overlapping
    /// matches, in order; there are none exactly when the pattern does not
    /// match.
    #[verifier::external_body]
    pub(crate) fn find_all(&self, hay: &str) -> (r: Vec<String>)
        ensures
            r@.map_values(|s: String| s@) == regex_match_texts(self@, hay@),
            r@.len() == 0 <==> !regex_finds(self@, hay@),
    {
        self.re.find_iter(hay).map(|m| m.as_str().to_string()).collect()
    }

    /// Relies on `regex::Regex::replace_all`: every non-overlapping match
    /// replaced by the expansion of `rep`; with no match the haystack comes
    /// back unchanged.
    #[verifier::external_body]
    pub(crate) fn replace_all(&self, hay: &str, rep: &str) -> (r: String)
        ensures
            r@ == regex_replaced(self@, hay@, rep@),
            !regex_finds(self@, hay@) ==> r@ == hay@,
    {
        self.re.replace_all(hay, rep).to_string()
    }
}

} // verus!
