use crate::calendar::{date_after, dates_through, first_report_date, Date};
use crate::record::{point_of_row, record_from_row, row_text, PointRecord, PointRecordView};
use crate::series::{build_series, series_of_row, Metric, SeriesRecord, SeriesRecordView};
use chrono::Datelike;
use vstd::prelude::*;
use vstd::string::StringExecFns;

verus! {

/// Where the daily reports are published, one file per day.
pub const DAILY_REPORT_BASE: &'static str = "https://raw.githubusercontent.com/CSSEGISandData/COVID-19/master/csse_covid_19_data/csse_covid_19_daily_reports/";

/// Where the time series are published, one file per metric.
pub const TIME_SERIES_BASE: &'static str = "https://raw.githubusercontent.com/CSSEGISandData/COVID-19/master/csse_covid_19_data/csse_covid_19_time_series/time_series_19-covid-";

/// The suffix of every published file.
pub const CSV_SUFFIX: &'static str = ".csv";

/// Why published text could not be read.
#[derive(Debug)]
pub enum DataError {
    /// The delimited text is malformed; the message says where.
    Malformed(String),
}

/// The text of each cell of each row.
pub open spec fn rows_text(rows: Seq<Vec<String>>) -> Seq<Seq<Seq<char>>> {
    rows.map_values(|r: Vec<String>| row_text(r@))
}

/// The data rows that csv reads from comma-separated text with a header row, or `None` where
/// the text is malformed.
pub uninterp spec fn csv_rows(text: Seq<char>) -> Option<Seq<Seq<Seq<char>>>>;

/// Relies on the csv crate's `Reader::records`, with a comma as delimiter and the first row
/// taken as header: the rows it yields depend on the text alone, and the first error ends the
/// reading.
#[verifier::external_body]
fn read_csv_rows(text: &str) -> (r: Result<Vec<Vec<String>>, String>)
    ensures
        r matches Ok(rows) ==> csv_rows(text@) == Some(rows_text(rows@)),
        r is Err ==> csv_rows(text@) is None,
{
    let mut reader = csv::ReaderBuilder::new().delimiter(b',').from_reader(text.as_bytes());
    let mut rows = Vec::new();
    for record in reader.records() {
        match record {
            Ok(r) => rows.push(r.iter().map(|c| c.to_string()).collect()),
            Err(e) => return Err(e.to_string()),
        }
    }
    Ok(rows)
}

pub open spec fn digit_char(d: int) -> char {
    if d == 0 {
        '0'
    } else if d == 1 {
        '1'
    } else if d == 2 {
        '2'
    } else if d == 3 {
        '3'
    } else if d == 4 {
        '4'
    } else if d == 5 {
        '5'
    } else if d == 6 {
        '6'
    } else if d == 7 {
        '7'
    } else if d == 8 {
        '8'
    } else {
        '9'
    }
}

pub open spec fn two_digits(n: int) -> Seq<char> {
    seq![digit_char(n / 10), digit_char(n % 10)]
}

pub open spec fn four_digits(n: int) -> Seq<char> {
    seq![digit_char(n / 1000), digit_char((n / 100) % 10), digit_char((n / 10) % 10), digit_char(n % 10)]
}

/// A date written `MM-DD-YYYY`.
pub open spec fn month_day_year_text(d: Date) -> Seq<char> {
    two_digits(d.month as int) + seq!['-'] + two_digits(d.day as int) + seq!['-'] + four_digits(
        d.year as int,
    )
}

/// Relies on chrono's `NaiveDate::from_ymd_opt`, which accepts every valid date of these years,
/// and `format("%m-%d-%Y")`, which writes month and day as two digits and such a year as four,
/// zero-padded and joined by hyphens.
#[verifier::external_body]
fn month_day_year(d: Date) -> (r: String)
    requires
        d.wf(),
        0 <= d.year <= 9999,
    ensures
        r@ == month_day_year_text(d),
{
    chrono::NaiveDate::from_ymd_opt(d.year as i32, d.month, d.day).unwrap().format(
        "%m-%d-%Y",
    ).to_string()
}

/// Relies on chrono's `Utc::now`: today's date in UTC, a valid calendar date whose year fits
/// in an `i32`.
#[verifier::external_body]
fn current_date() -> (r: Date)
    ensures
        r.wf(),
        i32::MIN <= r.year <= i32::MAX,
{
    let now = chrono::Utc::now();
    Date { year: now.year() as i64, month: now.month(), day: now.day() }
}

/// The address of the daily report of a date.
pub fn daily_report_url(date: &Date) -> (r: String)
    requires
        date.wf(),
        0 <= date.year <= 9999,
    ensures
        r@ == DAILY_REPORT_BASE@ + month_day_year_text(*date) + CSV_SUFFIX@,
{
    let mut url = String::from_str(DAILY_REPORT_BASE);
    let label = month_day_year(*date);
    url.append(label.as_str());
    url.append(CSV_SUFFIX);
    url
}

/// The address of the time series of a metric.
pub fn time_series_url(metric: Metric) -> (r: String)
    ensures
        r@ == TIME_SERIES_BASE@ + metric.name_text() + CSV_SUFFIX@,
{
    let mut url = String::from_str(TIME_SERIES_BASE);
    url.append(metric.name());
    url.append(CSV_SUFFIX);
    url
}

/// The dates whose daily reports are read: from the first report date through today.
pub fn get_dates() -> (r: Vec<Date>)
    ensures
        forall|i: int| 0 <= i < r@.len() ==> r@[i] == date_after(first_report_date(), i as nat),
        forall|i: int| 0 <= i < r@.len() ==> #[trigger] r@[i].wf(),
{
    let today = current_date();
    dates_through(today)
}

pub open spec fn records_views(s: Seq<PointRecord>) -> Seq<PointRecordView> {
    s.map_values(|r: PointRecord| r@)
}

pub open spec fn series_views(s: Seq<SeriesRecord>) -> Seq<SeriesRecordView> {
    s.map_values(|r: SeriesRecord| r@)
}

/// The records of the data rows of a daily report, one per row, in order.
pub fn records_from_rows(rows: &Vec<Vec<String>>) -> (r: Vec<PointRecord>)
    ensures
        records_views(r@) == rows_text(rows@).map_values(|row: Seq<Seq<char>>| point_of_row(row)),
{
    let mut records: Vec<PointRecord> = Vec::new();
    let mut i: usize = 0;
    while i < rows.len()
        invariant
            i <= rows@.len(),
            records@.len() == i,
            forall|j: int|
                0 <= j < i ==> (#[trigger] records@[j])@ == point_of_row(row_text(rows@[j]@)),
        decreases rows@.len() - i,
    {
        records.push(record_from_row(&rows[i]));
        i += 1;
    }
    assert(records_views(records@) =~= rows_text(rows@).map_values(
        |row: Seq<Seq<char>>| point_of_row(row),
    ));
    records
}

/// The series of the data rows of a metric's table, one per row, in order.
pub fn series_from_rows(rows: &Vec<Vec<String>>, metric: Metric) -> (r: Vec<SeriesRecord>)
    ensures
        series_views(r@) == rows_text(rows@).map_values(
            |row: Seq<Seq<char>>| series_of_row(row, metric),
        ),
{
    let mut series: Vec<SeriesRecord> = Vec::new();
    let mut i: usize = 0;
    while i < rows.len()
        invariant
            i <= rows@.len(),
            series@.len() == i,
            forall|j: int|
                0 <= j < i ==> (#[trigger] series@[j])@ == series_of_row(
                    row_text(rows@[j]@),
                    metric,
                ),
        decreases rows@.len() - i,
    {
        series.push(build_series(&rows[i], metric));
        i += 1;
    }
    assert(series_views(series@) =~= rows_text(rows@).map_values(
        |row: Seq<Seq<char>>| series_of_row(row, metric),
    ));
    series
}

/// Reads the records of a daily report's text; malformed text fails as a whole.
pub fn parse_daily_report(text: &str) -> (r: Result<Vec<PointRecord>, DataError>)
    ensures
        r is Ok <==> csv_rows(text@) is Some,
        r matches Ok(records) ==> records_views(records@) == csv_rows(text@)->0.map_values(
            |row: Seq<Seq<char>>| point_of_row(row),
        ),
{
    match read_csv_rows(text) {
        Ok(rows) => Ok(records_from_rows(&rows)),
        Err(message) => Err(DataError::Malformed(message)),
    }
}

/// Reads the series of a metric's table from its text; malformed text fails as a whole.
pub fn parse_time_series(text: &str, metric: Metric) -> (r: Result<Vec<SeriesRecord>, DataError>)
    ensures
        r is Ok <==> csv_rows(text@) is Some,
        r matches Ok(series) ==> series_views(series@) == csv_rows(text@)->0.map_values(
            |row: Seq<Seq<char>>| series_of_row(row, metric),
        ),
{
    match read_csv_rows(text) {
        Ok(rows) => Ok(series_from_rows(&rows, metric)),
        Err(message) => Err(DataError::Malformed(message)),
    }
}

} // verus!
