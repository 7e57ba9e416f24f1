//! Search patterns: a regular expression compiled once and tested against
//! hexadecimal addresses, anywhere in the text.
use vstd::prelude::*;

use crate::account::{Account, AccountView};
use crate::hex::prefixed_hex;

verus! {

/// The regex crate's compiled regular expression, carried opaquely.
#[verifier::external_type_specification]
#[verifier::external_body]
pub struct ExRegex(regex::Regex);

/// Whether the regex crate accepts `pattern` (its syntax, within its default size limit).
pub uninterp spec fn regex_compiles(pattern: Seq<char>) -> bool;

/// Whether `pattern` matches somewhere in `haystack` (not anchored at either end).
pub uninterp spec fn regex_finds(pattern: Seq<char>, haystack: Seq<char>) -> bool;

/// Whether the address of account `a`, rendered as `0x`-prefixed hex, matches `pattern`.
pub open spec fn candidate_matches(pattern: Seq<char>, a: AccountView) -> bool {
    regex_finds(pattern, prefixed_hex(a.address))
}

/// Relies on regex::Regex::new: it compiles the pattern or reports why it
/// cannot, as a function of the pattern text alone.
#[verifier::external_body]
fn regex_new(pattern: &str) -> (r: Result<regex::Regex, String>)
    ensures
        r is Ok <==> regex_compiles(pattern@),
{
    match regex::Regex::new(pattern) {
        Ok(re) => Ok(re),
        Err(e) => Err(e.to_string()),
    }
}

/// The pattern did not compile; `message` says why.
#[derive(Debug)]
pub struct PatternError {
    pub message: String,
}

/// A compiled pattern together with the text it was compiled from.
/// Only `compile` builds one, so `regex` is always the compilation of `source`.
pub struct Pattern {
    source: String,
    regex: regex::Regex,
}

impl View for Pattern {
    type V = Seq<char>;

    closed spec fn view(&self) -> Seq<char> {
        self.source@
    }
}

/// Relies on regex::Regex::is_match: whether the compiled pattern matches
/// anywhere in `haystack`. The regex of a `Pattern` is the compilation of its
/// source, as `Pattern::compile` is its only constructor.
#[verifier::external_body]
fn regex_is_match(pattern: &Pattern, haystack: &str) -> (r: bool)
    ensures
        r == regex_finds(pattern@, haystack@),
{
    pattern.regex.is_match(haystack)
}

impl Pattern {
    /// Compiles `pattern`; fails exactly when the regex crate rejects it.
    pub fn compile(pattern: &str) -> (r: Result<Pattern, PatternError>)
        ensures
            r is Ok <==> regex_compiles(pattern@),
            r matches Ok(p) ==> p@ == pattern@,
    {
        match regex_new(pattern) {
            Ok(regex) => Ok(Pattern { source: pattern.to_owned(), regex }),
            Err(message) => Err(PatternError { message }),
        }
    }

    /// Whether the pattern matches somewhere in `haystack`.
    pub fn is_match(&self, haystack: &str) -> (r: bool)
        ensures
            r == regex_finds(self@, haystack@),
    {
        regex_is_match(self, haystack)
    }

    /// Whether the pattern matches somewhere in the account's `0x`-prefixed hex address.
    pub fn matches_account(&self, account: &Account) -> (r: bool)
        ensures
            r == candidate_matches(self@, account@),
    {
        let address = account.address_as_hex();
        regex_is_match(self, address.as_str())
    }

    /// The text the pattern was compiled from.
    pub fn as_str(&self) -> (r: &str)
        ensures
            r@ == self@,
    {
        self.source.as_str()
    }
}

} // verus!
