//! One line of probe output, read as a latency sample or a timeout.

use crate::pattern::{first_group, search, Capture, CaptureText};
use crate::text::{chars_of, contains, is_substring};
use crate::unicode::{lowercase_of, to_lowercase};
use vstd::prelude::*;

verus! {

/// The decimal-aware shape: `time=` or `time<`, digits with an optional
/// fraction, optional blanks, `ms`.
pub const UNIX_PATTERN: &'static str = r"time[=<](\d+\.?\d*)\s*ms";

/// The integer shape: `time=` or `time<`, digits, optional blanks, `ms`.
pub const WINDOWS_PATTERN: &'static str = r"time[=<](\d+)\s*ms";

/// `c` is one of the ten ASCII digits.
pub open spec fn is_digit(c: char) -> bool {
    '0' <= c && c <= '9'
}

/// Every character of `s` is an ASCII digit.
pub open spec fn all_digits(s: Seq<char>) -> bool {
    forall|i: int| 0 <= i < s.len() ==> is_digit(#[trigger] s[i])
}

/// `t` is digits up to `dot`, and there either ends or goes on with a point
/// and digits only.
pub open spec fn splits_at(t: Seq<char>, dot: int) -> bool {
    &&& 0 < dot <= t.len()
    &&& all_digits(t.take(dot))
    &&& (dot == t.len() || (t[dot] == '.' && all_digits(t.skip(dot + 1))))
}

/// `t` writes a number in decimal: at least one ASCII digit, then
/// optionally a point and any number of ASCII digits.
pub open spec fn is_decimal(t: Seq<char>) -> bool {
    exists|dot: int| splits_at(t, dot)
}

/// Whether `c` is an ASCII digit.
pub fn is_digit_char(c: char) -> (r: bool)
    ensures
        r == is_digit(c),
{
    '0' <= c && c <= '9'
}

/// The first position at or after `from` that holds no digit.
fn skip_digits(t: &Vec<char>, from: usize) -> (end: usize)
    requires
        from <= t.len(),
    ensures
        from <= end <= t.len(),
        all_digits(t@.subrange(from as int, end as int)),
        end < t.len() ==> !is_digit(t@[end as int]),
{
    let mut end: usize = from;
    while end < t.len() && is_digit_char(t[end])
        invariant
            from <= end <= t.len(),
            all_digits(t@.subrange(from as int, end as int)),
        decreases t.len() - end,
    {
        proof {
            let before = t@.subrange(from as int, end as int);
            let after = t@.subrange(from as int, end + 1);
            assert forall|i: int| 0 <= i < after.len() implies is_digit(#[trigger] after[i]) by {
                if i < before.len() {
                    assert(after[i] == before[i]);
                }
            }
        }
        end += 1;
    }
    end
}

/// Whether `t` writes a number in decimal.
pub fn is_decimal_text(t: &Vec<char>) -> (r: bool)
    ensures
        r == is_decimal(t@),
{
    let whole: usize = skip_digits(t, 0);
    proof {
        assert(t@.subrange(0, whole as int) =~= t@.take(whole as int));
        // Any split lies where the leading digits end.
        assert forall|dot: int| splits_at(t@, dot) implies dot == whole by {
            if dot > whole {
                assert(t@.take(dot)[whole as int] == t@[whole as int]);
            }
            if dot < whole {
                assert(t@.take(whole as int)[dot] == t@[dot]);
            }
        }
    }
    if whole == 0 {
        return false;
    }
    if whole == t.len() {
        assert(splits_at(t@, whole as int));
        return true;
    }
    if t[whole] != '.' {
        return false;
    }
    let end: usize = skip_digits(t, whole + 1);
    proof {
        let rest = t@.skip(whole + 1);
        if end == t.len() {
            assert(t@.subrange(whole + 1, end as int) =~= rest);
            assert(splits_at(t@, whole as int));
        } else {
            assert(rest[end - (whole + 1)] == t@[end as int]);
        }
    }
    end == t.len()
}

/// A latency in milliseconds, held as the decimal text that the probe wrote.
#[derive(Debug, PartialEq, Eq)]
pub struct Latency {
    text: String,
}

impl View for Latency {
    type V = Seq<char>;

    closed spec fn view(&self) -> Seq<char> {
        self.text@
    }
}

impl Latency {
    #[verifier::type_invariant]
    spec fn well_formed(&self) -> bool {
        is_decimal(self.text@)
    }

    /// The latency that `text` writes, if it writes a number in decimal.
    pub fn from_text(text: String) -> (r: Option<Latency>)
        ensures
            r is Some <==> is_decimal(text@),
            r is Some ==> r.unwrap()@ == text@,
    {
        let chars = chars_of(text.as_str());
        if is_decimal_text(&chars) {
            Some(Latency { text })
        } else {
            None
        }
    }

    /// The decimal text of this latency.
    pub fn as_str(&self) -> (r: &str)
        ensures
            r@ == self@,
            is_decimal(r@),
    {
        proof {
            use_type_invariant(self);
        }
        self.text.as_str()
    }
}

/// The text of an optional latency.
pub open spec fn latency_text(l: Option<Latency>) -> Option<Seq<char>> {
    match l {
        Some(l) => Some(l@),
        None => None,
    }
}

/// The latency that a captured text gives: the text itself where it writes
/// a number in decimal.
pub open spec fn number_of(t: Seq<char>) -> Option<Seq<char>> {
    if is_decimal(t) {
        Some(t)
    } else {
        None
    }
}

/// The latency that the two searches of a line give. The decimal-aware
/// search is preferred; the integer search counts only where the first
/// found no match.
pub open spec fn latency_of(unix: CaptureText, windows: CaptureText) -> Option<Seq<char>> {
    if unix is Invalid || windows is Invalid {
        None
    } else {
        match unix {
            CaptureText::Group(t) => number_of(t),
            CaptureText::NoMatch => match windows {
                CaptureText::Group(t) => number_of(t),
                _ => None,
            },
            _ => None,
        }
    }
}

/// The latency that the two searches of a line give.
pub fn latency_from_captures(unix: Capture, windows: Capture) -> (r: Option<Latency>)
    ensures
        latency_text(r) == latency_of(unix@, windows@),
{
    match windows {
        Capture::Invalid => None,
        Capture::Group(w) => match unix {
            Capture::Group(u) => Latency::from_text(u),
            Capture::NoMatch => Latency::from_text(w),
            _ => None,
        },
        _ => match unix {
            Capture::Group(u) => Latency::from_text(u),
            _ => None,
        },
    }
}

/// The latency that `line` reports.
pub open spec fn latency_in(line: Seq<char>) -> Option<Seq<char>> {
    latency_of(first_group(UNIX_PATTERN@, line), first_group(WINDOWS_PATTERN@, line))
}

/// Extracts the latency that a line of probe output reports, if any.
pub fn parse_ping_line(line: &str) -> (r: Option<Latency>)
    ensures
        latency_text(r) == latency_in(line@),
{
    let unix = search(UNIX_PATTERN, line);
    let windows = search(WINDOWS_PATTERN, line);
    latency_from_captures(unix, windows)
}

/// `lower` holds one of the phrases by which a probe reports a lost or
/// undeliverable echo.
pub open spec fn mentions_timeout(lower: Seq<char>) -> bool {
    ||| is_substring("request timed out"@, lower)
    ||| is_substring("request timeout"@, lower)
    ||| is_substring("100% packet loss"@, lower)
    ||| is_substring("destination host unreachable"@, lower)
    ||| is_substring("network is unreachable"@, lower)
}

/// Whether a lowercased line holds one of the timeout phrases.
pub fn has_timeout_phrase(lower: &str) -> (r: bool)
    ensures
        r == mentions_timeout(lower@),
{
    let hay = chars_of(lower);
    contains(&hay, &chars_of("request timed out"))
        || contains(&hay, &chars_of("request timeout"))
        || contains(&hay, &chars_of("100% packet loss"))
        || contains(&hay, &chars_of("destination host unreachable"))
        || contains(&hay, &chars_of("network is unreachable"))
}

/// `line` reports a timeout: its lowercase form holds a timeout phrase.
pub open spec fn is_timeout(line: Seq<char>) -> bool {
    mentions_timeout(lowercase_of(line))
}

/// Whether a line of probe output reports a lost or undeliverable echo,
/// whatever the case of its letters.
pub fn is_timeout_line(line: &str) -> (r: bool)
    ensures
        r == is_timeout(line@),
{
    let lower = to_lowercase(line);
    has_timeout_phrase(lower.as_str())
}

/// What one line of probe output tells.
#[derive(Debug, PartialEq, Eq)]
pub enum Sample {
    /// An echo came back after this many milliseconds.
    Latency(Latency),
    /// An echo was lost or could not be delivered.
    Timeout,
}

/// A `Sample` with its latency as decimal text.
pub ghost enum SampleText {
    Latency(Seq<char>),
    Timeout,
}

impl View for Sample {
    type V = SampleText;

    open spec fn view(&self) -> SampleText {
        match self {
            Sample::Latency(l) => SampleText::Latency(l@),
            Sample::Timeout => SampleText::Timeout,
        }
    }
}

/// The sample of an optional `Sample`, as text.
pub open spec fn sample_text(s: Option<Sample>) -> Option<SampleText> {
    match s {
        Some(s) => Some(s@),
        None => None,
    }
}

/// The sample that a line gives once its latency and its timeout phrasing
/// are known: a latency comes first, and a timeout counts only without one.
pub open spec fn sample_of(latency: Option<Seq<char>>, timeout: bool) -> Option<SampleText> {
    match latency {
        Some(t) => Some(SampleText::Latency(t)),
        None => if timeout {
            Some(SampleText::Timeout)
        } else {
            None
        },
    }
}

/// The sample that `line` gives.
pub open spec fn sample_in(line: Seq<char>) -> Option<SampleText> {
    sample_of(latency_in(line), is_timeout(line))
}

/// Reads one line of probe output: a latency where the line reports one,
/// else a timeout where the line is phrased as one, else nothing.
pub fn classify_line(line: &str) -> (r: Option<Sample>)
    ensures
        sample_text(r) == sample_in(line@),
{
    match parse_ping_line(line) {
        Some(latency) => Some(Sample::Latency(latency)),
        None => if is_timeout_line(line) {
            Some(Sample::Timeout)
        } else {
            None
        },
    }
}

} // verus!
