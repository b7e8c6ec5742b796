//! Regular expressions, compiled and matched by the `regex` library.
use vstd::prelude::*;

use crate::cc::header::opt_view;

verus! {

#[verifier::external_type_specification]
#[verifier::external_body]
pub struct ExRegex(regex::Regex);

/// Whether the `regex` library accepts `pattern` (`Regex::new` succeeds).
pub uninterp spec fn regex_accepts(pattern: Seq<char>) -> bool;

/// What `Regex::captures` finds of `pattern` in `haystack`: nothing when it
/// does not match; else the number of groups (the whole match counted) and
/// the text of group 1, when that group took part in the match.
pub uninterp spec fn regex_first_group(pattern: Seq<char>, haystack: Seq<char>) -> Option<
    (nat, Option<Seq<char>>),
>;

/// A compiled regular expression with the text it was compiled from.
#[derive(Debug)]
pub struct Pattern {
    source: String,
    regex: regex::Regex,
}

impl View for Pattern {
    type V = Seq<char>;

    closed spec fn view(&self) -> Seq<char> {
        self.source@
    }
}

impl Pattern {
    /// Compiles `source` (`Regex::new`).
    ///
    /// Trusted: compiling succeeds exactly for the patterns that the library
    /// accepts, and the pattern keeps its text.
    #[verifier::external_body]
    pub fn new(source: &str) -> (r: Result<Pattern, regex::Error>)
        ensures
            r is Ok <==> regex_accepts(source@),
            r matches Ok(p) ==> p@ == source@,
    {
        match regex::Regex::new(source) {
            Ok(regex) => Ok(Pattern { source: source.to_owned(), regex }),
            Err(e) => Err(e),
        }
    }

    /// The text the pattern was compiled from.
    pub fn as_str(&self) -> (s: &str)
        ensures
            s@ == self@,
    {
        self.source.as_str()
    }

    /// Matches the pattern against `haystack` (`Regex::captures`): the number
    /// of groups and the text of group 1, or nothing when it does not match.
    ///
    /// Trusted: the result is what `captures` finds, as `regex_first_group` names it.
    #[verifier::external_body]
    pub fn first_group(&self, haystack: &str) -> (r: Option<(usize, Option<String>)>)
        ensures
            match regex_first_group(self@, haystack@) {
                None => r is None,
                Some((n, g)) => r matches Some((k, t)) && k == n && opt_view(t) == g,
            },
    {
        match self.regex.captures(haystack) {
            Some(c) => {
                let group = match c.get(1) {
                    Some(m) => Some(m.as_str().to_owned()),
                    None => None,
                };
                Some((c.len(), group))
            },
            None => None,
        }
    }
}

} // verus!
