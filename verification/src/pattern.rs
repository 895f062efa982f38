//! Regular expressions: the one place where the tokenizer meets the `regex`
//! crate. What a pattern matches is not defined here; it is referred to by
//! name, and the tokenizer is specified over those names.

use regex::Regex;
use vstd::prelude::*;
use vstd::string::*;
use vstd::utf8::*;

verus! {

/// `regex::Regex`, a compiled regular expression. Proofs see nothing inside
/// it.
#[verifier::external_type_specification]
#[verifier::external_body]
pub struct ExRegex(regex::Regex);

/// `regex::Error`, the reason why a pattern did not compile. Proofs see
/// nothing inside it.
#[verifier::external_type_specification]
#[verifier::external_body]
pub struct ExRegexError(regex::Error);

/// Whether `pattern` is accepted as a regular expression: whether
/// `Regex::new` returns `Ok` for it.
pub uninterp spec fn pattern_compiles(pattern: Seq<char>) -> bool;

/// The text that decides what a compiled expression matches: for an
/// expression that `Regex::new` made, the pattern that it was made from, which
/// `Regex::as_str` returns.
pub uninterp spec fn pattern_of(re: Regex) -> Seq<char>;

/// Where the expression made from `pattern` first matches in `haystack`: the
/// byte offsets at which the leftmost match starts and ends, as `Regex::find`
/// reports them, or `None` if there is no match.
pub uninterp spec fn first_match(pattern: Seq<char>, haystack: Seq<char>) -> Option<(int, int)>;

/// `Regex::new`: compiles `pattern`. Succeeds exactly on the patterns that
/// [`pattern_compiles`] names, and the expression it returns remembers the
/// pattern it was given.
#[verifier::external_body]
pub(crate) fn compile(pattern: &str) -> (r: Result<Regex, regex::Error>)
    ensures
        r is Ok <==> pattern_compiles(pattern@),
        r matches Ok(re) ==> pattern_of(re) == pattern@,
{
    Regex::new(pattern)
}

/// `Regex::find`, with the match given by its offsets (`Match::start`,
/// `Match::end`): the leftmost match of `re` in `haystack`, which is
/// [`first_match`] of the expression's pattern and the haystack. The offsets
/// are in order, within the haystack, and on character boundaries, as the
/// documentation of `Match` guarantees.
#[verifier::external_body]
pub(crate) fn find(re: &Regex, haystack: &str) -> (r: Option<(usize, usize)>)
    ensures
        match r {
            Some((start, end)) => first_match(pattern_of(*re), haystack@) == Some(
                (start as int, end as int),
            ),
            None => first_match(pattern_of(*re), haystack@) is None,
        },
        r matches Some((start, end)) ==> start <= end <= encode_utf8(haystack@).len()
            && is_char_boundary(encode_utf8(haystack@), start as int) && is_char_boundary(
            encode_utf8(haystack@),
            end as int,
        ),
{
    match re.find(haystack) {
        Some(m) => Some((m.start(), m.end())),
        None => None,
    }
}

} // verus!
