use vstd::prelude::*;

verus! {

/// A calendar date of the proleptic Gregorian calendar.
#[derive(Clone, Copy, Debug, PartialEq, Eq, Structural)]
pub struct Date {
    pub year: i64,
    pub month: u32,
    pub day: u32,
}

pub open spec fn is_leap_year(y: int) -> bool {
    (y % 4 == 0 && y % 100 != 0) || y % 400 == 0
}

pub open spec fn days_in_month(y: int, m: int) -> int {
    if m == 2 {
        if is_leap_year(y) {
            29
        } else {
            28
        }
    } else if m == 4 || m == 6 || m == 9 || m == 11 {
        30
    } else {
        31
    }
}

/// Strict chronological order of two dates.
pub open spec fn date_lt(a: Date, b: Date) -> bool {
    a.year < b.year || (a.year == b.year && (a.month < b.month || (a.month == b.month && a.day
        < b.day)))
}

pub open spec fn date_le(a: Date, b: Date) -> bool {
    date_lt(a, b) || a == b
}

/// The calendar date that follows `d`.
pub open spec fn next_date(d: Date) -> Date {
    if (d.day as int) < days_in_month(d.year as int, d.month as int) {
        Date { day: (d.day + 1) as u32, ..d }
    } else if d.month < 12 {
        Date { year: d.year, month: (d.month + 1) as u32, day: 1 }
    } else {
        Date { year: (d.year + 1) as i64, month: 1, day: 1 }
    }
}

/// The date `n` days after `d`.
pub open spec fn date_after(d: Date, n: nat) -> Date
    decreases n,
{
    if n == 0 {
        d
    } else {
        next_date(date_after(d, (n - 1) as nat))
    }
}

/// A strictly increasing measure of dates: one step of the calendar raises it by one to four.
pub open spec fn date_rank(d: Date) -> int {
    372 * d.year + 31 * d.month + d.day
}

impl Date {
    pub open spec fn wf(&self) -> bool {
        1 <= self.month <= 12 && 1 <= self.day <= days_in_month(self.year as int, self.month as int)
    }

    pub fn new(year: i64, month: u32, day: u32) -> (r: Option<Date>)
        ensures
            r matches Some(d) <==> (Date { year, month, day }).wf(),
            r matches Some(d) ==> d == (Date { year, month, day }),
    {
        if 1 <= month && month <= 12 && 1 <= day && day <= month_length(year, month) {
            Some(Date { year, month, day })
        } else {
            None
        }
    }

    /// The following calendar date.
    pub fn succ(&self) -> (r: Date)
        requires
            self.wf(),
            self.year < i64::MAX,
        ensures
            r == next_date(*self),
            r.wf(),
    {
        if self.day < month_length(self.year, self.month) {
            Date { year: self.year, month: self.month, day: self.day + 1 }
        } else if self.month < 12 {
            Date { year: self.year, month: self.month + 1, day: 1 }
        } else {
            Date { year: self.year + 1, month: 1, day: 1 }
        }
    }

    pub fn is_before(&self, other: &Date) -> (r: bool)
        ensures
            r == date_lt(*self, *other),
    {
        self.year < other.year || (self.year == other.year && (self.month < other.month || (
        self.month == other.month && self.day < other.day)))
    }
}

pub fn is_leap(year: i64) -> (r: bool)
    ensures
        r == is_leap_year(year as int),
{
    let y: i128 = year as i128;
    let r4 = y % 4;
    let r100 = y % 100;
    let r400 = y % 400;
    proof {
        assert((year as int % 4 == 0) == (r4 == 0));
        assert((year as int % 100 == 0) == (r100 == 0));
        assert((year as int % 400 == 0) == (r400 == 0));
    }
    (r4 == 0 && r100 != 0) || r400 == 0
}

pub fn month_length(year: i64, month: u32) -> (r: u32)
    ensures
        r == days_in_month(year as int, month as int),
{
    if month == 2 {
        if is_leap(year) {
            29
        } else {
            28
        }
    } else if month == 4 || month == 6 || month == 9 || month == 11 {
        30
    } else {
        31
    }
}

/// The first date that the published data covers.
pub open spec fn first_report_date() -> Date {
    Date { year: 2020, month: 1, day: 22 }
}

pub fn first_report_day() -> (r: Date)
    ensures
        r == first_report_date(),
        r.wf(),
{
    Date { year: 2020, month: 1, day: 22 }
}

pub proof fn lemma_next_date_rank(d: Date)
    requires
        d.wf(),
        d.year < i64::MAX,
    ensures
        next_date(d).wf(),
        date_rank(d) + 1 <= date_rank(next_date(d)) <= date_rank(d) + 4,
        date_lt(d, next_date(d)),
{
}

pub proof fn lemma_rank_order(a: Date, b: Date)
    requires
        a.wf(),
        b.wf(),
    ensures
        date_lt(a, b) ==> date_rank(a) < date_rank(b),
        date_le(a, b) ==> date_rank(a) <= date_rank(b),
{
}

/// Two dates are either in order or one strictly follows the other.
pub proof fn lemma_date_order_total(a: Date, b: Date)
    ensures
        date_le(a, b) <==> !date_lt(b, a),
{
    if a.year == b.year && a.month == b.month && a.day == b.day {
        assert(a == b);
    }
}

/// No date lies strictly between a date and the next one.
pub proof fn lemma_next_date_is_least(d: Date, t: Date)
    requires
        d.wf(),
        t.wf(),
        d.year < i64::MAX,
        date_lt(d, t),
    ensures
        date_le(next_date(d), t),
{
}

/// Every date from the first report date through `today`, one per calendar day, in order.
pub fn dates_through(today: Date) -> (r: Vec<Date>)
    requires
        today.wf(),
        today.year < i64::MAX,
    ensures
        r@.len() > 0 <==> date_le(first_report_date(), today),
        forall|i: int| 0 <= i < r@.len() ==> r@[i] == date_after(first_report_date(), i as nat),
        forall|i: int| 0 <= i < r@.len() ==> r@[i].wf() && date_le(r@[i], today),
        r@.len() > 0 ==> r@.last() == today,
{
    let mut dates: Vec<Date> = Vec::new();
    let mut date = first_report_day();
    proof {
        lemma_rank_order(date, today);
    }
    while !today.is_before(&date)
        invariant
            today.wf(),
            today.year < i64::MAX,
            date.wf(),
            date == date_after(first_report_date(), dates@.len() as nat),
            forall|i: int|
                0 <= i < dates@.len() ==> dates@[i] == date_after(first_report_date(), i as nat),
            forall|i: int| 0 <= i < dates@.len() ==> dates@[i].wf() && date_le(dates@[i], today),
            dates@.len() > 0 ==> date == next_date(dates@.last()),
            dates@.len() == 0 ==> date == first_report_date(),
        decreases date_rank(today) + 4 - date_rank(date),
    {
        proof {
            lemma_date_order_total(date, today);
            lemma_rank_order(date, today);
            lemma_next_date_rank(date);
            if date_lt(date, today) {
                lemma_next_date_is_least(date, today);
            }
        }
        dates.push(date);
        date = date.succ();
        proof {
            lemma_rank_order(date, today);
        }
    }
    proof {
        lemma_date_order_total(date, today);
        lemma_date_order_total(first_report_date(), today);
        if dates@.len() > 0 {
            assert(dates@[0] == date_after(first_report_date(), 0));
            let last = dates@.last();
            assert(date_le(last, today));
            if date_lt(last, today) {
                lemma_next_date_is_least(last, today);
            }
        }
    }
    dates
}

} // verus!
