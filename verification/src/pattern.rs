//! Searching a line of text with a regular expression.

use regex::Regex;
use vstd::prelude::*;

verus! {

/// What a search of one line with one pattern gave.
#[derive(Debug, PartialEq, Eq)]
pub enum Capture {
    /// The pattern was not accepted as a regular expression.
    Invalid,
    /// The pattern matches nowhere in the line.
    NoMatch,
    /// The pattern matches, but its first group took no part in the match.
    Unset,
    /// The text that the first group matched.
    Group(String),
}

/// A `Capture` with its text as a sequence of characters.
pub ghost enum CaptureText {
    Invalid,
    NoMatch,
    Unset,
    Group(Seq<char>),
}

impl View for Capture {
    type V = CaptureText;

    open spec fn view(&self) -> CaptureText {
        match self {
            Capture::Invalid => CaptureText::Invalid,
            Capture::NoMatch => CaptureText::NoMatch,
            Capture::Unset => CaptureText::Unset,
            Capture::Group(text) => CaptureText::Group(text@),
        }
    }
}

/// What the first group of `pattern` captures at the leftmost match of
/// `pattern` in `line`, as the `regex` crate finds it.
pub uninterp spec fn first_group(pattern: Seq<char>, line: Seq<char>) -> CaptureText;

/// Compiles `pattern` with `regex::Regex::new`, searches `line` with
/// `Regex::captures` and reads group 1 with `Captures::get` and
/// `Match::as_str`.
///
/// Trusted: the outcome depends on the two texts alone, so it is named
/// `first_group`. Nothing more is claimed of it.
#[verifier::external_body]
pub(crate) fn search(pattern: &str, line: &str) -> (r: Capture)
    ensures
        r@ == first_group(pattern@, line@),
{
    match Regex::new(pattern) {
        Err(_) => Capture::Invalid,
        Ok(re) => match re.captures(line) {
            None => Capture::NoMatch,
            Some(caps) => match caps.get(1) {
                None => Capture::Unset,
                Some(m) => Capture::Group(m.as_str().to_string()),
            },
        },
    }
}

} // verus!
