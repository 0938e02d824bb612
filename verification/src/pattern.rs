//! Regular expressions of the `regex` crate, in multi-line mode.
use vstd::prelude::*;

verus! {

/// A compiled regular expression.
#[verifier::external_type_specification]
#[verifier::external_body]
pub struct ExRegex(regex::Regex);

/// Why a pattern cannot be compiled, in words; nothing where it can.
pub uninterp spec fn pattern_error(pattern: Seq<char>) -> Option<Seq<char>>;

/// The pattern that a regular expression was compiled from.
pub uninterp spec fn pattern_of(regex: regex::Regex) -> Seq<char>;

/// The successive matches of a pattern in a text: how many bytes of the text there are up to the
/// end of each, and what it matched.
pub uninterp spec fn pattern_matches(pattern: Seq<char>, text: Seq<char>) -> Seq<(
    nat,
    Seq<char>,
)>;

/// `regex::RegexBuilder::build` in multi-line mode: compiles a pattern, or says why it cannot be
/// compiled.
#[verifier::external_body]
pub(crate) fn compile(pattern: &str) -> (r: Result<regex::Regex, String>)
    ensures
        match r {
            Ok(regex) => pattern_error(pattern@) is None && pattern_of(regex) == pattern@,
            Err(error) => pattern_error(pattern@) == Some(error@),
        },
{
    regex::RegexBuilder::new(pattern).multi_line(true).build().map_err(|error| error.to_string())
}

/// `regex::Regex::find_iter`: the successive matches in a text.
#[verifier::external_body]
pub(crate) fn find(regex: &regex::Regex, text: &str) -> (matches: Vec<(usize, String)>)
    ensures
        matches@.len() == pattern_matches(pattern_of(*regex), text@).len(),
        forall|i: int|
            0 <= i < matches@.len() ==> (
                (#[trigger] matches@[i]).0 as nat,
                matches@[i].1@,
            ) == pattern_matches(pattern_of(*regex), text@)[i],
{
    regex.find_iter(text).map(|m| (m.end(), m.as_str().to_string())).collect()
}

} // verus!
