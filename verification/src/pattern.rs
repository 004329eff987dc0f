//! The regular-expression engine, as far as this library relies on it.
//!
//! Nothing in this file is proved: each item states what the `regex` crate is
//! taken to do, and the rest of the library is verified against these
//! statements. A compiled expression is held by `Matcher` alone.

use regex::Regex;
use vstd::prelude::*;

verus! {

/// A compiled expression. Nothing of its inside is known here.
#[verifier::external_type_specification]
#[verifier::external_body]
pub struct ExRegex(Regex);

/// What the engine says when it refuses a pattern.
#[verifier::external_type_specification]
#[verifier::external_body]
pub struct ExRegexError(regex::Error);

/// The pattern text that a compiled expression was built from: what
/// `Regex::as_str` returns for it.
pub uninterp spec fn regex_source(re: Regex) -> Seq<char>;

/// Whether the expression was built the way `Regex::new` builds one, with
/// every option of the engine at its default. An expression built otherwise
/// (without regard to case, say) may match differently with the same text.
pub uninterp spec fn regex_is_plain(re: Regex) -> bool;

/// Whether `Regex::new` accepts `pattern`: the text is a well-formed pattern
/// and compiles within the size limit that the engine sets by default.
pub uninterp spec fn regex_accepts(pattern: Seq<char>) -> bool;

/// What the capture group named `group` holds in the first match of
/// `pattern`, compiled with the engine's defaults, in `haystack`; `None`
/// when the pattern matches nowhere, has no group of that name, or the group
/// took no part in the match.
pub uninterp spec fn regex_capture(
    pattern: Seq<char>,
    group: Seq<char>,
    haystack: Seq<char>,
) -> Option<Seq<char>>;

/// The characters that carry a meaning of their own in a pattern.
pub open spec fn is_meta_character(c: char) -> bool {
    c == '\\' || c == '.' || c == '+' || c == '*' || c == '?' || c == '(' || c == ')' || c == '|'
        || c == '[' || c == ']' || c == '{' || c == '}' || c == '^' || c == '$' || c == '#'
        || c == '&' || c == '-' || c == '~'
}

/// `text` with a backslash in front of every meta character.
pub open spec fn escaped(text: Seq<char>) -> Seq<char>
    decreases text.len(),
{
    if text.len() == 0 {
        Seq::empty()
    } else if is_meta_character(text.last()) {
        escaped(text.drop_last()).push('\\').push(text.last())
    } else {
        escaped(text.drop_last()).push(text.last())
    }
}

/// Calls `regex::escape`, which copies `text` and puts a backslash in front
/// of each meta character, so that the result matches `text` literally.
#[verifier::external_body]
pub(crate) fn escape(text: &str) -> (quoted: String)
    ensures
        quoted@ == escaped(text@),
{
    regex::escape(text)
}

/// Calls `Regex::new`. Whether the engine accepts a pattern depends on the
/// pattern alone; when it does, the expression is built with the default
/// options and remembers the text it was built from.
#[verifier::external_body]
pub(crate) fn compile(pattern: &str) -> (compiled: Result<Regex, regex::Error>)
    ensures
        compiled is Ok == regex_accepts(pattern@),
        compiled matches Ok(re) ==> regex_source(re) == pattern@ && regex_is_plain(re),
{
    Regex::new(pattern)
}

/// Calls `Regex::captures` and then `Captures::name`, and copies the text of
/// the group out of the haystack. For an expression built with the default
/// options the outcome depends on the pattern text, the group's name and
/// the haystack alone.
#[verifier::external_body]
pub(crate) fn capture(re: &Regex, group: &str, haystack: &str) -> (found: Option<String>)
    requires
        regex_is_plain(*re),
    ensures
        captured_text(found) == regex_capture(regex_source(*re), group@, haystack@),
{
    Some(re.captures(haystack)?.name(group)?.as_str().to_string())
}

/// The characters of an optional string.
pub open spec fn captured_text(found: Option<String>) -> Option<Seq<char>> {
    match found {
        Some(text) => Some(text@),
        None => None,
    }
}

} // verus!
