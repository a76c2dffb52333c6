//! Rendering ranges as lines of a text message.

use vstd::prelude::*;
use crate::coalesce::{Span, TimePeriod};

verus! {

/// How the start of a range is shown: weekday, month, day and 12-hour time.
pub const START_FORMAT: &'static str = "%A, %B %d %I:%M%p";

/// How the end of a range is shown: 12-hour time only.
pub const END_FORMAT: &'static str = "%I:%M%p";

/// The first line of every message.
pub const BANNER: &'static str = "☀️Good bike times in the next 7 days☀️";

/// What chrono shows for the RFC 3339 timestamp `ts` under the strftime
/// pattern `pattern`; `None` where `ts` is not an RFC 3339 timestamp.
pub uninterp spec fn rendered_timestamp(ts: Seq<char>, pattern: Seq<char>) -> Option<Seq<char>>;

pub open spec fn known_pattern(pattern: Seq<char>) -> bool {
    pattern == START_FORMAT@ || pattern == END_FORMAT@
}

/// Relies on chrono's `DateTime::parse_from_rfc3339` to read `ts` (an error
/// becomes `None`) and on `DateTime::format` to show it under `pattern`, in
/// the timestamp's own offset. Both results depend on their arguments alone;
/// with a valid strftime pattern, as both of the library's are, showing the
/// value does not fail.
#[verifier::external_body]
fn render_timestamp(ts: &str, pattern: &str) -> (r: Option<String>)
    requires
        known_pattern(pattern@),
    ensures
        match r {
            Some(t) => rendered_timestamp(ts@, pattern@) == Some(t@),
            None => rendered_timestamp(ts@, pattern@) == None::<Seq<char>>,
        },
{
    match chrono::DateTime::parse_from_rfc3339(ts) {
        Ok(d) => Some(d.format(pattern).to_string()),
        Err(_) => None,
    }
}

pub open spec fn digit_char(d: int) -> char {
    ('0' as int + d) as char
}

/// The decimal digits of a non-negative number, without leading zeros.
pub open spec fn digits_text(n: nat) -> Seq<char>
    decreases n,
{
    if n < 10 {
        seq![digit_char(n as int)]
    } else {
        digits_text(n / 10) + seq![digit_char((n % 10) as int)]
    }
}

/// A number written in decimal, with a `-` in front when it is negative.
pub open spec fn decimal_text(n: int) -> Seq<char> {
    if n < 0 {
        seq!['-'] + digits_text((-n) as nat)
    } else {
        digits_text(n as nat)
    }
}

fn digit_str(d: u64) -> (r: &'static str)
    requires
        d < 10,
    ensures
        r@ == seq![digit_char(d as int)],
{
    let r = if d == 0 {
        "0"
    } else if d == 1 {
        "1"
    } else if d == 2 {
        "2"
    } else if d == 3 {
        "3"
    } else if d == 4 {
        "4"
    } else if d == 5 {
        "5"
    } else if d == 6 {
        "6"
    } else if d == 7 {
        "7"
    } else if d == 8 {
        "8"
    } else {
        "9"
    };
    proof {
        reveal_strlit("0");
        reveal_strlit("1");
        reveal_strlit("2");
        reveal_strlit("3");
        reveal_strlit("4");
        reveal_strlit("5");
        reveal_strlit("6");
        reveal_strlit("7");
        reveal_strlit("8");
        reveal_strlit("9");
    }
    assert(r@ =~= seq![digit_char(d as int)]);
    r
}

fn unsigned_text(n: u64) -> (r: String)
    ensures
        r@ == digits_text(n as nat),
    decreases n,
{
    if n < 10 {
        String::from_str(digit_str(n))
    } else {
        let mut s = unsigned_text(n / 10);
        s.append(digit_str(n % 10));
        s
    }
}

/// `n` written in decimal.
pub fn integer_text(n: i64) -> (r: String)
    ensures
        r@ == decimal_text(n as int),
{
    if n < 0 {
        let magnitude: u64 = (-(n as i128)) as u64;
        let mut s = String::from_str("-");
        proof {
            reveal_strlit("-");
        }
        s.append(unsigned_text(magnitude).as_str());
        assert(s@ =~= decimal_text(n as int));
        s
    } else {
        unsigned_text(n as u64)
    }
}

/// The line for a range whose bounds show as `start` and `end`.
pub open spec fn range_line(start: Seq<char>, end: Seq<char>, t: Span) -> Seq<char> {
    "🚲 "@ + start + " - "@ + end + " temp "@ + decimal_text(t.temp) + "F precipitation "@
        + decimal_text(t.precipitation) + "% wind speed "@ + decimal_text(t.wind) + " mph"@
}

/// The line for a range, or `None` where one of its timestamps cannot be read.
pub open spec fn range_display(t: Span) -> Option<Seq<char>> {
    match (rendered_timestamp(t.start, START_FORMAT@), rendered_timestamp(t.end, END_FORMAT@)) {
        (Some(start), Some(end)) => Some(range_line(start, end, t)),
        _ => None,
    }
}

pub open spec fn text_of(r: Option<String>) -> Option<Seq<char>> {
    match r {
        Some(s) => Some(s@),
        None => None,
    }
}

/// The line for `t`, given how its start and end are shown.
pub fn describe_range(start: &str, end: &str, t: &TimePeriod) -> (r: String)
    ensures
        r@ == range_line(start@, end@, t@),
{
    let mut s = String::from_str("🚲 ");
    s.append(start);
    s.append(" - ");
    s.append(end);
    s.append(" temp ");
    s.append(integer_text(t.temp).as_str());
    s.append("F precipitation ");
    s.append(integer_text(t.probability_of_precipitation).as_str());
    s.append("% wind speed ");
    s.append(integer_text(t.max_wind_speed as i64).as_str());
    s.append(" mph");
    s
}

impl TimePeriod {
    /// One line of text for this range: its start as weekday, month, day and
    /// time, its end as a time, then its readings. `None` where a timestamp
    /// is not RFC 3339.
    pub fn pretty(&self) -> (r: Option<String>)
        ensures
            text_of(r) == range_display(self@),
    {
        let start = render_timestamp(self.start_time.as_str(), START_FORMAT);
        let start = match start {
            Some(s) => s,
            None => return None,
        };
        let end = render_timestamp(self.end_time.as_str(), END_FORMAT);
        match end {
            Some(e) => Some(describe_range(start.as_str(), e.as_str(), self)),
            None => None,
        }
    }
}

} // verus!
