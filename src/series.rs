use crate::calendar::{
    date_after, date_rank, first_report_date, first_report_day, lemma_next_date_rank, Date,
};
use crate::coerce::{i32_value, parse_i32};
use crate::record::{cell, cell_at, opt_text, row_text, text_at, text_or_empty};
use vstd::prelude::*;

verus! {

/// The three cumulative counts that the time series are published for.
#[derive(Clone, Copy, Debug, PartialEq, Eq, Structural)]
pub enum Metric {
    Confirmed,
    Deaths,
    Recovered,
}

impl Metric {
    pub open spec fn name_text(self) -> Seq<char> {
        match self {
            Metric::Confirmed => "Confirmed"@,
            Metric::Deaths => "Deaths"@,
            Metric::Recovered => "Recovered"@,
        }
    }

    /// The metrics in the order their series are read.
    pub fn all() -> (r: Vec<Metric>)
        ensures
            r@ == seq![Metric::Confirmed, Metric::Deaths, Metric::Recovered],
    {
        vec![Metric::Confirmed, Metric::Deaths, Metric::Recovered]
    }

    /// The name under which the metric's series is published.
    pub fn name(&self) -> (r: &'static str)
        ensures
            r@ == self.name_text(),
    {
        match self {
            Metric::Confirmed => "Confirmed",
            Metric::Deaths => "Deaths",
            Metric::Recovered => "Recovered",
        }
    }
}

/// One day's count in a series.
#[derive(Clone, Copy, Debug, PartialEq, Eq, Structural)]
pub struct SeriesPoint {
    pub date: Date,
    pub value: i32,
}

/// One place's series of one metric, a count per reported day.
///
/// The coordinates keep the text of their cells: `None` where the row ends before them.
#[derive(Debug)]
pub struct SeriesRecord {
    pub province: String,
    pub country: String,
    pub lat: Option<String>,
    pub long: Option<String>,
    pub metric: Metric,
    pub data: Vec<SeriesPoint>,
}

pub struct SeriesRecordView {
    pub province: Seq<char>,
    pub country: Seq<char>,
    pub lat: Option<Seq<char>>,
    pub long: Option<Seq<char>>,
    pub metric: Metric,
    pub data: Seq<SeriesPoint>,
}

impl View for SeriesRecord {
    type V = SeriesRecordView;

    open spec fn view(&self) -> SeriesRecordView {
        SeriesRecordView {
            province: self.province@,
            country: self.country@,
            lat: opt_text(self.lat),
            long: opt_text(self.long),
            metric: self.metric,
            data: self.data@,
        }
    }
}

/// The column that holds the first day's count.
pub const FIRST_DAY_COLUMN: usize = 4;

/// The points of a series row: column `4 + n` holds the count of the `n`-th day after the first
/// report date, and a count that is negative or unreadable leaves its day out.
pub open spec fn series_points(row: Seq<Seq<char>>) -> Seq<SeriesPoint>
    decreases row.len(),
{
    if row.len() <= FIRST_DAY_COLUMN {
        Seq::empty()
    } else {
        let earlier = series_points(row.drop_last());
        let day = date_after(first_report_date(), (row.len() - 1 - FIRST_DAY_COLUMN) as nat);
        match i32_value(row.last()) {
            Some(v) => if v >= 0 {
                earlier.push(SeriesPoint { date: day, value: v })
            } else {
                earlier
            },
            None => earlier,
        }
    }
}

/// The series that a row of a metric's table stands for: province, country, latitude,
/// longitude, then one column per day.
pub open spec fn series_of_row(row: Seq<Seq<char>>, metric: Metric) -> SeriesRecordView {
    SeriesRecordView {
        province: text_or_empty(cell(row, 0)),
        country: text_or_empty(cell(row, 1)),
        lat: cell(row, 2),
        long: cell(row, 3),
        metric,
        data: series_points(row),
    }
}

/// Reads the day columns of a series row, pairing column `4 + n` with the `n`-th day after the
/// first report date.
pub fn series_data(row: &Vec<String>) -> (r: Vec<SeriesPoint>)
    ensures
        r@ == series_points(row_text(row@)),
{
    let ghost cells = row_text(row@);
    let mut data: Vec<SeriesPoint> = Vec::new();
    if row.len() <= FIRST_DAY_COLUMN {
        return data;
    }
    let mut index: usize = FIRST_DAY_COLUMN;
    let mut date = first_report_day();
    assert(cells.subrange(0, index as int).len() == FIRST_DAY_COLUMN);
    while index < row.len()
        invariant
            cells == row_text(row@),
            FIRST_DAY_COLUMN <= index <= row@.len(),
            date.wf(),
            date == date_after(first_report_date(), (index - FIRST_DAY_COLUMN) as nat),
            date_rank(date) <= date_rank(first_report_date()) + 4 * (index - FIRST_DAY_COLUMN),
            data@ == series_points(cells.subrange(0, index as int)),
        decreases row@.len() - index,
    {
        let ghost upto = cells.subrange(0, index as int + 1);
        assert(upto.drop_last() =~= cells.subrange(0, index as int));
        assert(upto.last() == row@[index as int]@);
        if let Some(v) = parse_i32(row[index].as_str()) {
            if v >= 0 {
                data.push(SeriesPoint { date, value: v });
            }
        }
        proof {
            lemma_next_date_rank(date);
        }
        date = date.succ();
        index += 1;
    }
    assert(cells.subrange(0, index as int) =~= cells);
    data
}

/// Builds the series of one metric that a row of its table stands for.
pub fn build_series(row: &Vec<String>, metric: Metric) -> (r: SeriesRecord)
    ensures
        r@ == series_of_row(row_text(row@), metric),
{
    SeriesRecord {
        province: text_at(row, 0),
        country: text_at(row, 1),
        lat: cell_at(row, 2),
        long: cell_at(row, 3),
        metric,
        data: series_data(row),
    }
}

} // verus!
