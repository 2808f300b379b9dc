use crate::calendar::{days_in_month, is_leap_year, Date};
use chrono::{Datelike, Timelike};
use vstd::prelude::*;

verus! {

/// A calendar date with a time of day to the second.
#[derive(Clone, Copy, Debug, PartialEq, Eq, Structural)]
pub struct DateTime {
    pub date: Date,
    pub hour: u32,
    pub minute: u32,
    pub second: u32,
}

impl DateTime {
    pub open spec fn wf(&self) -> bool {
        self.date.wf() && self.hour < 24 && self.minute < 60 && self.second < 60
    }
}

/// ISO 8601 with a `T` between date and time.
pub const ISO_FORMAT: &'static str = "%Y-%m-%dT%H:%M:%S";

/// Date and time separated by a space.
pub const SPACED_FORMAT: &'static str = "%Y-%m-%d %H:%M:%S";

/// US month/day order with a two-digit year, no seconds.
pub const SHORT_YEAR_FORMAT: &'static str = "%m/%d/%y %H:%M";

/// US month/day order with a full year, no seconds.
pub const FULL_YEAR_FORMAT: &'static str = "%m/%d/%Y %H:%M";

/// What chrono reads from `text` under the strftime-style pattern `format`.
pub uninterp spec fn chrono_datetime(text: Seq<char>, format: Seq<char>) -> Option<DateTime>;

/// Relies on chrono's `NaiveDateTime::parse_from_str`: whether and to what it parses depends on
/// the text and the pattern alone, and a `NaiveDateTime` is always a valid calendar date with a
/// time of day whose `second()` lies below 60.
#[verifier::external_body]
fn parse_with_format(text: &str, format: &str) -> (r: Option<DateTime>)
    ensures
        r == chrono_datetime(text@, format@),
        r matches Some(t) ==> t.wf(),
{
    match chrono::NaiveDateTime::parse_from_str(text, format) {
        Ok(t) => Some(DateTime {
            date: Date { year: t.year() as i64, month: t.month(), day: t.day() },
            hour: t.hour(),
            minute: t.minute(),
            second: t.second(),
        }),
        Err(_) => None,
    }
}

pub open spec fn reading_wf(r: Option<DateTime>) -> bool {
    r matches Some(t) ==> t.wf()
}

/// The readings of `text` under each supported pattern, in order of priority.
pub open spec fn format_readings(text: Seq<char>) -> Seq<Option<DateTime>> {
    seq![
        chrono_datetime(text, ISO_FORMAT@),
        chrono_datetime(text, SPACED_FORMAT@),
        chrono_datetime(text, SHORT_YEAR_FORMAT@),
        chrono_datetime(text, FULL_YEAR_FORMAT@),
    ]
}

/// The first reading that succeeded, if any.
pub open spec fn first_reading(s: Seq<Option<DateTime>>) -> Option<DateTime>
    decreases s.len(),
{
    if s.len() == 0 {
        None
    } else if s[0] is Some {
        s[0]
    } else {
        first_reading(s.drop_first())
    }
}

/// Moves a year before 2000 forward by two thousand years, keeping everything else.
pub open spec fn century_corrected(t: DateTime) -> DateTime {
    if t.date.year < 2000 {
        DateTime { date: Date { year: (t.date.year + 2000) as i64, ..t.date }, ..t }
    } else {
        t
    }
}

pub open spec fn resolved(s: Seq<Option<DateTime>>) -> Option<DateTime> {
    match first_reading(s) {
        Some(t) => Some(century_corrected(t)),
        None => None,
    }
}

/// The time stamp that `text` denotes, if any supported pattern reads it.
pub open spec fn timestamp_of(text: Seq<char>) -> Option<DateTime> {
    resolved(format_readings(text))
}

/// The stand-in for a time stamp that could not be read: 1970-01-01T00:00:00.
pub open spec fn epoch() -> DateTime {
    DateTime { date: Date { year: 1970, month: 1, day: 1 }, hour: 0, minute: 0, second: 0 }
}

pub proof fn lemma_first_reading_at(s: Seq<Option<DateTime>>, i: int)
    requires
        0 <= i <= s.len(),
        forall|j: int| 0 <= j < i ==> s[j] is None,
    ensures
        i < s.len() && s[i] is Some ==> first_reading(s) == s[i],
        i == s.len() ==> first_reading(s) is None,
    decreases i,
{
    if i > 0 {
        lemma_first_reading_at(s.drop_first(), i - 1);
    }
}

/// The first pattern that reads a text decides its time stamp: a later pattern is consulted only
/// where every earlier one fails, a year before 2000 gains two thousand years with the rest
/// kept, and a text that no pattern reads has none.
pub proof fn lemma_first_pattern_decides(text: Seq<char>, k: int)
    requires
        0 <= k <= 4,
        forall|j: int| 0 <= j < k ==> format_readings(text)[j] is None,
    ensures
        k < 4 && format_readings(text)[k] is Some ==> timestamp_of(text) == Some(
            century_corrected(format_readings(text)[k]->0),
        ),
        k == 4 ==> timestamp_of(text) is None,
{
    lemma_first_reading_at(format_readings(text), k);
}

pub proof fn lemma_leap_shift(y: int)
    ensures
        is_leap_year(y + 2000) == is_leap_year(y),
{
    assert((y + 2000) % 4 == y % 4);
    assert((y + 2000) % 100 == y % 100);
    assert((y + 2000) % 400 == y % 400);
}

/// Applies the two-digit-year correction to a parsed time stamp.
pub fn correct_century(t: DateTime) -> (r: DateTime)
    requires
        t.wf(),
    ensures
        r == century_corrected(t),
        r.wf(),
{
    if t.date.year < 2000 {
        proof {
            lemma_leap_shift(t.date.year as int);
            assert(days_in_month(t.date.year + 2000, t.date.month as int) == days_in_month(
                t.date.year as int,
                t.date.month as int,
            ));
        }
        DateTime {
            date: Date { year: t.date.year + 2000, month: t.date.month, day: t.date.day },
            hour: t.hour,
            minute: t.minute,
            second: t.second,
        }
    } else {
        t
    }
}

/// Takes the first successful reading, in order, and corrects its century.
pub fn resolve_readings(readings: &Vec<Option<DateTime>>) -> (r: Option<DateTime>)
    requires
        forall|i: int| 0 <= i < readings@.len() ==> reading_wf(#[trigger] readings@[i]),
    ensures
        r == resolved(readings@),
        r matches Some(t) ==> t.wf(),
{
    let mut i: usize = 0;
    while i < readings.len()
        invariant
            i <= readings@.len(),
            forall|j: int| 0 <= j < readings@.len() ==> reading_wf(#[trigger] readings@[j]),
            forall|j: int| 0 <= j < i ==> readings@[j] is None,
        decreases readings@.len() - i,
    {
        if let Some(t) = readings[i] {
            proof {
                lemma_first_reading_at(readings@, i as int);
            }
            return Some(correct_century(t));
        }
        i += 1;
    }
    proof {
        lemma_first_reading_at(readings@, i as int);
    }
    None
}

/// Reads a time stamp under each supported pattern in turn; `None` when none of them fits.
pub fn parse_timestamp(text: &str) -> (r: Option<DateTime>)
    ensures
        r == timestamp_of(text@),
        r matches Some(t) ==> t.wf(),
{
    let readings = vec![
        parse_with_format(text, ISO_FORMAT),
        parse_with_format(text, SPACED_FORMAT),
        parse_with_format(text, SHORT_YEAR_FORMAT),
        parse_with_format(text, FULL_YEAR_FORMAT),
    ];
    assert(readings@ == format_readings(text@));
    resolve_readings(&readings)
}

/// Reads a time stamp, falling back to 1970-01-01T00:00:00 when no pattern fits.
pub fn parse_date(text: &str) -> (r: DateTime)
    ensures
        r == match timestamp_of(text@) {
            Some(t) => t,
            None => epoch(),
        },
        r.wf(),
{
    match parse_timestamp(text) {
        Some(t) => t,
        None => DateTime {
            date: Date { year: 1970, month: 1, day: 1 },
            hour: 0,
            minute: 0,
            second: 0,
        },
    }
}

} // verus!
