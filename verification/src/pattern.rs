//! Regular expressions. Matching is left to the `regex` crate; what it computes is
//! named here, and the rules built on it are stated over those names.

use crate::errors::ScrapingError;
use vstd::prelude::*;

verus! {

/// `regex::Regex`, carried through as an opaque value.
#[verifier::external_type_specification]
#[verifier::external_body]
pub struct ExRegex(regex::Regex);

/// `regex::Error`, carried through as an opaque value.
#[verifier::external_type_specification]
#[verifier::external_body]
pub struct ExRegexError(regex::Error);

/// Whether `source` is accepted as a regular expression.
pub uninterp spec fn pattern_compiles(source: Seq<char>) -> bool;

/// The first match of the expression `source` in `text`: `None` where nothing
/// matches, else one entry per capture group, the whole match at index 0, and
/// `None` for a group that took no part in the match.
pub uninterp spec fn first_match(source: Seq<char>, text: Seq<char>) -> Option<
    Seq<Option<Seq<char>>>,
>;

/// The views of the groups of a match.
pub open spec fn groups_view(groups: Seq<Option<String>>) -> Seq<Option<Seq<char>>> {
    groups.map_values(
        |g: Option<String>|
            match g {
                Some(s) => Some(s@),
                None => None,
            },
    )
}

/// The view of the result of a search.
pub open spec fn match_view(found: Option<Vec<Option<String>>>) -> Option<Seq<Option<Seq<char>>>> {
    match found {
        Some(groups) => Some(groups_view(groups@)),
        None => None,
    }
}

/// A compiled regular expression together with the text it was compiled from.
/// The fields are private and a value is only ever built by `Pattern::new` or
/// copied from another, so the two always agree.
pub struct Pattern {
    source: String,
    compiled: regex::Regex,
}

/// `regex::Regex::new`: succeeds exactly on the sources that the crate accepts,
/// which are only named here.
#[verifier::external_body]
fn compile(source: &str) -> (r: Result<regex::Regex, regex::Error>)
    ensures
        r is Ok <==> pattern_compiles(source@),
{
    regex::Regex::new(source)
}

/// The `Display` text of a `regex::Error`. Nothing is claimed of it.
#[verifier::external_body]
pub(crate) fn error_text(e: &regex::Error) -> String {
    e.to_string()
}

/// `Clone::clone` of the compiled expression of `pattern`, beside a copy of its
/// source: the copy has the same source.
#[verifier::external_body]
fn duplicate(pattern: &Pattern) -> (copy: Pattern)
    ensures
        copy.source@ == pattern.source@,
{
    Pattern { source: pattern.source.clone(), compiled: pattern.compiled.clone() }
}

impl Clone for Pattern {
    fn clone(&self) -> (copy: Pattern)
        ensures
            copy.source() == self.source(),
    {
        duplicate(self)
    }
}

impl Pattern {
    /// The text this pattern was compiled from.
    pub closed spec fn source(&self) -> Seq<char> {
        self.source@
    }

    /// Compiles `source`. Fails with a regex error exactly where the source is not
    /// accepted.
    pub fn new(source: &str) -> (r: Result<Pattern, ScrapingError>)
        ensures
            r is Ok <==> pattern_compiles(source@),
            r matches Ok(p) ==> p.source() == source@,
            r matches Err(e) ==> e is RegexError,
    {
        match compile(source) {
            Ok(compiled) => Ok(Pattern { source: source.to_owned(), compiled }),
            Err(e) => Err(ScrapingError::from(e)),
        }
    }

    /// `regex::Regex::captures` on the compiled expression, each group copied out
    /// with `Match::as_str`: the result is the first match of the source of this
    /// pattern in `text`, which is only named here.
    #[verifier::external_body]
    pub(crate) fn captures(&self, text: &str) -> (found: Option<Vec<Option<String>>>)
        ensures
            match_view(found) == first_match(self.source(), text@),
    {
        let caps = self.compiled.captures(text)?;
        Some(caps.iter().map(|g| g.map(|m| m.as_str().to_string())).collect())
    }
}

/// Group `index` of a match, where the match has such a group and it took part.
pub open spec fn group(groups: Seq<Option<Seq<char>>>, index: int) -> Option<Seq<char>> {
    if 0 <= index < groups.len() {
        groups[index]
    } else {
        None
    }
}

/// Group `index` of a match, where the match has such a group and it took part.
pub fn group_of(groups: &Vec<Option<String>>, index: usize) -> (g: Option<&String>)
    ensures
        match g {
            Some(s) => group(groups_view(groups@), index as int) == Some(s@),
            None => group(groups_view(groups@), index as int) is None,
        },
{
    if index < groups.len() {
        groups[index].as_ref()
    } else {
        None
    }
}

} // verus!
