//! A compiled pattern that is known to match as its text says.

use crate::pattern::{
    capture, captured_text, compile, regex_accepts, regex_capture, regex_is_plain, regex_source,
};
use regex::Regex;
use vstd::prelude::*;

verus! {

/// A pattern that the engine has compiled with its default options. It can
/// only be made by `Matcher::new`, so that what it finds depends on its text
/// alone.
pub struct Matcher {
    compiled: Regex,
}

impl View for Matcher {
    type V = Seq<char>;

    /// The text of the pattern.
    closed spec fn view(&self) -> Seq<char> {
        regex_source(self.compiled)
    }
}

impl Matcher {
    #[verifier::type_invariant]
    spec fn built_with_defaults(self) -> bool {
        regex_is_plain(self.compiled)
    }

    /// Compiles `pattern`. There is a matcher exactly where the engine
    /// accepts the pattern.
    pub fn new(pattern: &str) -> (made: Option<Matcher>)
        ensures
            made is Some == regex_accepts(pattern@),
            made matches Some(matcher) ==> matcher@ == pattern@,
    {
        match compile(pattern) {
            Ok(compiled) => Some(Matcher { compiled }),
            Err(_) => None,
        }
    }

    /// What the group named `group` holds in the first match of the pattern
    /// in `haystack`, if there is a match and the group took part in it.
    pub fn capture(&self, group: &str, haystack: &str) -> (found: Option<String>)
        ensures
            captured_text(found) == regex_capture(self@, group@, haystack@),
    {
        proof {
            use_type_invariant(self);
        }
        capture(&self.compiled, group, haystack)
    }
}

} // verus!
