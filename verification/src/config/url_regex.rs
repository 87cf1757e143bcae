use crate::config::errors::ConfigParseError;
use regex::Regex;
use vstd::prelude::*;
use vstd::std_specs::cmp::PartialEqSpecImpl;
use vstd::string::*;

verus! {

/// `regex::Regex`, a compiled regular expression, as a value that is only
/// carried through.
#[verifier::external_type_specification]
#[verifier::external_body]
pub struct ExRegex(regex::Regex);

/// `regex::Error`, why a pattern did not compile, as a value that is only
/// carried through.
#[verifier::external_type_specification]
#[verifier::external_body]
pub struct ExRegexError(regex::Error);

/// Whether `regex::Regex::new` compiles `pattern`: whether it is a valid
/// regular expression within the crate's default size limit.
pub uninterp spec fn pattern_compiles(pattern: Seq<char>) -> bool;

/// What `regex::Regex::as_str` returns: the text that the regular
/// expression was compiled from.
pub uninterp spec fn regex_source(regex: Regex) -> Seq<char>;

/// What `regex::Regex::is_match` returns on the regular expression that
/// `regex::Regex::new` compiles from `pattern`: whether it finds a match
/// anywhere in `haystack`.
pub uninterp spec fn pattern_matches(pattern: Seq<char>, haystack: Seq<char>) -> bool;

/// `regex::Regex::new`. Claimed: whether it succeeds depends on the pattern
/// alone, and the regex it returns remembers the pattern it was given, which
/// is what `Regex::as_str` hands back.
#[verifier::external_body]
fn compile(pattern: &str) -> (compiled: Result<Regex, regex::Error>)
    ensures
        compiled is Ok == pattern_compiles(pattern@),
        compiled is Ok ==> regex_source(compiled->Ok_0) == pattern@,
{
    Regex::new(pattern)
}

/// `regex::Regex::as_str`. Claimed: it returns the text the regex was
/// compiled from.
#[verifier::external_body]
fn source(regex: &Regex) -> (text: &str)
    ensures
        text@ == regex_source(*regex),
{
    regex.as_str()
}

/// `regex::Regex::is_match`, on the regex that a `UriRegex` holds. Such a
/// regex was made by `Regex::new` and by nothing else, so no builder option
/// is set on it. Claimed: whether it finds a match anywhere in the haystack
/// depends on its pattern and the haystack alone.
#[verifier::external_body]
fn is_match(regex: &UriRegex, haystack: &str) -> (found: bool)
    ensures
        found == pattern_matches(regex.pattern(), haystack@),
{
    regex.0.is_match(haystack)
}

/// A compiled path pattern. Two of them are the same key when their pattern
/// texts are the same.
#[derive(Debug)]
pub struct UriRegex(Regex);

impl UriRegex {
    /// The pattern's text.
    pub closed spec fn pattern(&self) -> Seq<char> {
        regex_source(self.0)
    }

    /// Whether the pattern matches anywhere in `uri`: the search is not
    /// anchored, so a pattern that is to match from the start begins with `^`.
    pub open spec fn matches(&self, uri: Seq<char>) -> bool {
        pattern_matches(self.pattern(), uri)
    }

    /// Tests a path against the pattern.
    pub fn match_url(&self, uri: &str) -> (found: bool)
        ensures
            found == self.matches(uri@),
    {
        is_match(self, uri)
    }

    /// Compiles a pattern. It fails exactly on a text that is no valid
    /// regular expression.
    pub fn from_str(rg: &str) -> (compiled: Result<Self, ConfigParseError>)
        ensures
            compiled is Ok == pattern_compiles(rg@),
            compiled is Ok ==> compiled->Ok_0.pattern() == rg@,
            compiled is Err ==> compiled->Err_0 == ConfigParseError::InvalidRegexRule,
    {
        match compile(rg) {
            Ok(regex) => Ok(UriRegex(regex)),
            Err(_) => Err(ConfigParseError::InvalidRegexRule),
        }
    }

    /// The pattern's text.
    pub fn as_str(&self) -> (text: &str)
        ensures
            text@ == self.pattern(),
    {
        source(&self.0)
    }

    /// Whether this pattern's text is `text`.
    pub fn has_pattern(&self, text: &str) -> (same: bool)
        ensures
            same == (self.pattern() == text@),
    {
        String::from_str(source(&self.0)) == String::from_str(text)
    }
}

impl PartialEq for UriRegex {
    fn eq(&self, other: &Self) -> (same: bool) {
        self.has_pattern(other.as_str())
    }
}

impl Eq for UriRegex {

}

impl PartialEqSpecImpl for UriRegex {
    open spec fn obeys_eq_spec() -> bool {
        true
    }

    open spec fn eq_spec(&self, other: &Self) -> bool {
        self.pattern() == other.pattern()
    }
}

} // verus!
