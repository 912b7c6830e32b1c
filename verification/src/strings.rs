//! String matchers: [`contains_str`], [`starts_with`], [`ends_with`] and
//! [`matches_regex`].
//!
//! Each works on any string-like value ([`Textual`]): `str`, `String`, and
//! references to them. When either side of a substring check spans several
//! lines, the failure carries a line diff of the needle against the text.

use vstd::prelude::*;

use crate::description::{Desc, Description};
use crate::diff::{multi_line_diff, multi_line_diff_of};
use crate::matcher::{MatchResult, Matcher, Mismatch, MismatchModel};
use crate::primitives::{phrase, rendered};
use crate::show::{str_debug, Show};
use crate::text::{chars_of, find_substring, has_prefix, has_substring, has_suffix, push_str, string_of};

verus! {

/// A string-like value.
pub trait Textual: Show {
    /// The characters of the value.
    spec fn text_of(&self) -> Seq<char>;

    /// The value as a `str`.
    fn as_text(&self) -> (s: &str)
        ensures
            s@ == self.text_of(),
    ;
}

impl Textual for str {
    open spec fn text_of(&self) -> Seq<char> {
        self@
    }

    fn as_text(&self) -> (s: &str) {
        self
    }
}

impl Textual for String {
    open spec fn text_of(&self) -> Seq<char> {
        self@
    }

    fn as_text(&self) -> (s: &str) {
        self.as_str()
    }
}

impl<'a, T: Textual + ?Sized> Textual for &'a T {
    open spec fn text_of(&self) -> Seq<char> {
        (**self).text_of()
    }

    fn as_text(&self) -> (s: &str) {
        (**self).as_text()
    }
}

/// The rejection of a substring check: the needle's description, the text's
/// rendering, and a diff when either spans several lines.
pub open spec fn str_rejection(expected: Desc, needle: Seq<char>, shown: Seq<char>, text: Seq<char>) -> MismatchModel {
    MismatchModel { expected, actual: shown, diff: multi_line_diff_of(needle, text) }
}

/// Fails a substring check on `actual`.
fn str_failure<T: Textual + ?Sized>(expected: Description, needle: &String, actual: &T) -> (r: MatchResult)
    ensures
        r.wf(),
        !r.matched,
        r.mismatch() == str_rejection(expected@, needle@, actual.shown(), actual.text_of()),
{
    let mut mismatch = Mismatch::new(expected, rendered(actual));
    match multi_line_diff(needle.as_str(), actual.as_text()) {
        Some(d) => {
            mismatch = mismatch.with_diff(d);
        },
        None => {},
    }
    MatchResult::fail(mismatch)
}

/// The matcher behind [`contains_str`].
pub struct ContainsStrMatcher {
    pub needle: String,
}

impl<T: Textual + ?Sized> Matcher<T> for ContainsStrMatcher {
    open spec fn expects(&self) -> Desc {
        Desc::Text("a string containing "@ + str_debug(self.needle@))
    }

    open spec fn accepts(&self, actual: &T) -> bool {
        has_substring(actual.text_of(), self.needle@)
    }

    open spec fn rejection(&self, actual: &T) -> MismatchModel {
        str_rejection(
            Desc::Text("a string containing "@ + str_debug(self.needle@)),
            self.needle@,
            actual.shown(),
            actual.text_of(),
        )
    }

    fn check(&self, actual: &T) -> (r: MatchResult) {
        let text = chars_of(actual.as_text());
        let needle = chars_of(self.needle.as_str());
        if find_substring(&text, &needle) {
            MatchResult::pass()
        } else {
            proof {
                reveal_strlit("a string containing ");
            }
            str_failure(phrase("a string containing ", &self.needle), &self.needle, actual)
        }
    }

    fn description(&self) -> (d: Description) {
        proof {
            reveal_strlit("a string containing ");
        }
        phrase("a string containing ", &self.needle)
    }
}

/// Matches a string that contains `needle`.
pub fn contains_str(needle: &str) -> (m: ContainsStrMatcher)
    ensures
        m.needle@ == needle@,
{
    ContainsStrMatcher { needle: String::from_str(needle) }
}

/// The matcher behind [`starts_with`].
pub struct StartsWithMatcher {
    pub needle: String,
}

impl<T: Textual + ?Sized> Matcher<T> for StartsWithMatcher {
    open spec fn expects(&self) -> Desc {
        Desc::Text("a string starting with "@ + str_debug(self.needle@))
    }

    open spec fn accepts(&self, actual: &T) -> bool {
        crate::text::starts_with(actual.text_of(), self.needle@)
    }

    open spec fn rejection(&self, actual: &T) -> MismatchModel {
        str_rejection(
            Desc::Text("a string starting with "@ + str_debug(self.needle@)),
            self.needle@,
            actual.shown(),
            actual.text_of(),
        )
    }

    fn check(&self, actual: &T) -> (r: MatchResult) {
        let text = chars_of(actual.as_text());
        let needle = chars_of(self.needle.as_str());
        if has_prefix(&text, &needle) {
            MatchResult::pass()
        } else {
            proof {
                reveal_strlit("a string starting with ");
            }
            str_failure(phrase("a string starting with ", &self.needle), &self.needle, actual)
        }
    }

    fn description(&self) -> (d: Description) {
        proof {
            reveal_strlit("a string starting with ");
        }
        phrase("a string starting with ", &self.needle)
    }
}

/// Matches a string that begins with `prefix`.
pub fn starts_with(prefix: &str) -> (m: StartsWithMatcher)
    ensures
        m.needle@ == prefix@,
{
    StartsWithMatcher { needle: String::from_str(prefix) }
}

/// The matcher behind [`ends_with`].
pub struct EndsWithMatcher {
    pub needle: String,
}

impl<T: Textual + ?Sized> Matcher<T> for EndsWithMatcher {
    open spec fn expects(&self) -> Desc {
        Desc::Text("a string ending with "@ + str_debug(self.needle@))
    }

    open spec fn accepts(&self, actual: &T) -> bool {
        crate::text::ends_with(actual.text_of(), self.needle@)
    }

    open spec fn rejection(&self, actual: &T) -> MismatchModel {
        str_rejection(
            Desc::Text("a string ending with "@ + str_debug(self.needle@)),
            self.needle@,
            actual.shown(),
            actual.text_of(),
        )
    }

    fn check(&self, actual: &T) -> (r: MatchResult) {
        let text = chars_of(actual.as_text());
        let needle = chars_of(self.needle.as_str());
        if has_suffix(&text, &needle) {
            MatchResult::pass()
        } else {
            proof {
                reveal_strlit("a string ending with ");
            }
            str_failure(phrase("a string ending with ", &self.needle), &self.needle, actual)
        }
    }

    fn description(&self) -> (d: Description) {
        proof {
            reveal_strlit("a string ending with ");
        }
        phrase("a string ending with ", &self.needle)
    }
}

/// Matches a string that ends with `suffix`.
pub fn ends_with(suffix: &str) -> (m: EndsWithMatcher)
    ensures
        m.needle@ == suffix@,
{
    EndsWithMatcher { needle: String::from_str(suffix) }
}

/// Whether `pattern` is refused by the regex compiler, and why.
pub uninterp spec fn regex_error(pattern: Seq<char>) -> Option<Seq<char>>;

/// Whether the regex compiled from `pattern` matches somewhere in `text`.
pub uninterp spec fn regex_match(pattern: Seq<char>, text: Seq<char>) -> bool;

/// `regex::Regex::new(pattern)` and, when the pattern compiles, the compiled
/// regex's `is_match(text)`. The compile error is taken by its `Display`
/// text. What the regex language accepts is named by [`regex_error`] and
/// [`regex_match`], not stated.
#[verifier::external_body]
fn regex_is_match(pattern: &str, text: &str) -> (r: Result<bool, String>)
    ensures
        match r {
            Ok(b) => regex_error(pattern@) is None && b == regex_match(pattern@, text@),
            Err(e) => regex_error(pattern@) == Some(e@),
        },
{
    match regex::Regex::new(pattern) {
        Ok(re) => Ok(re.is_match(text)),
        Err(e) => Err(e.to_string()),
    }
}

/// The actual value reported for a pattern the regex compiler refused.
pub open spec fn invalid_regex_report(pattern: Seq<char>, error: Seq<char>) -> Seq<char> {
    "<invalid regex "@ + str_debug(pattern) + ": "@ + error + ">"@
}

/// What the regex matcher for `pattern` reports for `actual` once the regex
/// has been tried: `outcome` is whether it matched, or the compiler's message
/// for a pattern it refused.
pub fn regex_verdict<T: Textual + ?Sized>(pattern: &String, actual: &T, outcome: Result<bool, String>) -> (r: MatchResult)
    ensures
        r.wf(),
        match outcome {
            Err(e) => !r.matched && r.mismatch() == (MismatchModel {
                expected: Desc::Text("a string matching the regex "@ + str_debug(pattern@)),
                actual: invalid_regex_report(pattern@, e@),
                diff: None,
            }),
            Ok(found) => r.matched == found && (!found ==> r.mismatch() == (MismatchModel {
                expected: Desc::Text("a string matching the regex "@ + str_debug(pattern@)),
                actual: actual.shown(),
                diff: None,
            })),
        },
{
    proof {
        reveal_strlit("a string matching the regex ");
    }
    match outcome {
        Err(error) => {
            let mut report = chars_of("<invalid regex ");
            pattern.write_plain(&mut report);
            push_str(&mut report, ": ");
            push_str(&mut report, error.as_str());
            push_str(&mut report, ">");
            proof {
                reveal_strlit("<invalid regex ");
                reveal_strlit(": ");
                reveal_strlit(">");
                assert(report@ =~= invalid_regex_report(pattern@, error@));
            }
            MatchResult::fail(Mismatch::new(phrase("a string matching the regex ", pattern), string_of(&report)))
        },
        Ok(found) => {
            if found {
                MatchResult::pass()
            } else {
                MatchResult::fail(Mismatch::new(phrase("a string matching the regex ", pattern), rendered(actual)))
            }
        },
    }
}

/// The matcher behind [`matches_regex`].
pub struct RegexMatcher {
    pub pattern: String,
}

impl<T: Textual + ?Sized> Matcher<T> for RegexMatcher {
    open spec fn expects(&self) -> Desc {
        Desc::Text("a string matching the regex "@ + str_debug(self.pattern@))
    }

    open spec fn accepts(&self, actual: &T) -> bool {
        regex_error(self.pattern@) is None && regex_match(self.pattern@, actual.text_of())
    }

    open spec fn rejection(&self, actual: &T) -> MismatchModel {
        MismatchModel {
            expected: Desc::Text("a string matching the regex "@ + str_debug(self.pattern@)),
            actual: match regex_error(self.pattern@) {
                Some(e) => invalid_regex_report(self.pattern@, e),
                None => actual.shown(),
            },
            diff: None,
        }
    }

    fn check(&self, actual: &T) -> (r: MatchResult) {
        let outcome = regex_is_match(self.pattern.as_str(), actual.as_text());
        regex_verdict(&self.pattern, actual, outcome)
    }

    fn description(&self) -> (d: Description) {
        proof {
            reveal_strlit("a string matching the regex ");
        }
        phrase("a string matching the regex ", &self.pattern)
    }
}

/// Matches a string in which the regex `pattern` finds a match. A pattern the
/// regex compiler refuses makes every check fail, with the compile error as
/// the reported actual value.
pub fn matches_regex(pattern: &str) -> (m: RegexMatcher)
    ensures
        m.pattern@ == pattern@,
{
    RegexMatcher { pattern: String::from_str(pattern) }
}

} // verus!
