use crate::coerce::{coerce_count, count_value};
use crate::timestamp::{epoch, parse_date, timestamp_of, DateTime};
use vstd::prelude::*;

verus! {

/// The text of an optional string.
pub open spec fn opt_text(o: Option<String>) -> Option<Seq<char>> {
    match o {
        Some(s) => Some(s@),
        None => None,
    }
}

/// The cell at column `i`, if the row reaches that far.
pub open spec fn cell(row: Seq<Seq<char>>, i: int) -> Option<Seq<char>> {
    if 0 <= i < row.len() {
        Some(row[i])
    } else {
        None
    }
}

pub open spec fn text_or_empty(c: Option<Seq<char>>) -> Seq<char> {
    match c {
        Some(t) => t,
        None => Seq::empty(),
    }
}

pub open spec fn count_or_zero(c: Option<Seq<char>>) -> u32 {
    match c {
        Some(t) => count_value(t),
        None => 0,
    }
}

/// The time stamp that a cell's text denotes, or 1970-01-01T00:00:00.
pub open spec fn date_or_epoch(t: Seq<char>) -> DateTime {
    match timestamp_of(t) {
        Some(d) => d,
        None => epoch(),
    }
}

/// The text of a row's cells.
pub open spec fn row_text(row: Seq<String>) -> Seq<Seq<char>> {
    row.map_values(|s: String| s@)
}

/// A daily-report row with its cells placed and its counts read; the time stamp is still text.
///
/// The coordinates keep the text of their cells: `None` where the row ends before them.
#[derive(Debug)]
pub struct CsvRecord {
    pub province: String,
    pub country: String,
    pub updated: String,
    pub confirmed: u32,
    pub deaths: u32,
    pub recovered: u32,
    pub lat: Option<String>,
    pub long: Option<String>,
}

pub struct CsvRecordView {
    pub province: Seq<char>,
    pub country: Seq<char>,
    pub updated: Seq<char>,
    pub confirmed: u32,
    pub deaths: u32,
    pub recovered: u32,
    pub lat: Option<Seq<char>>,
    pub long: Option<Seq<char>>,
}

impl View for CsvRecord {
    type V = CsvRecordView;

    open spec fn view(&self) -> CsvRecordView {
        CsvRecordView {
            province: self.province@,
            country: self.country@,
            updated: self.updated@,
            confirmed: self.confirmed,
            deaths: self.deaths,
            recovered: self.recovered,
            lat: opt_text(self.lat),
            long: opt_text(self.long),
        }
    }
}

/// One place's cumulative counts as of a point in time.
///
/// The coordinates keep the text of their cells: `None` where the row ends before them.
#[derive(Debug)]
pub struct PointRecord {
    pub province: String,
    pub country: String,
    pub updated: DateTime,
    pub confirmed: u32,
    pub deaths: u32,
    pub recovered: u32,
    pub lat: Option<String>,
    pub long: Option<String>,
}

pub struct PointRecordView {
    pub province: Seq<char>,
    pub country: Seq<char>,
    pub updated: DateTime,
    pub confirmed: u32,
    pub deaths: u32,
    pub recovered: u32,
    pub lat: Option<Seq<char>>,
    pub long: Option<Seq<char>>,
}

impl View for PointRecord {
    type V = PointRecordView;

    open spec fn view(&self) -> PointRecordView {
        PointRecordView {
            province: self.province@,
            country: self.country@,
            updated: self.updated,
            confirmed: self.confirmed,
            deaths: self.deaths,
            recovered: self.recovered,
            lat: opt_text(self.lat),
            long: opt_text(self.long),
        }
    }
}

/// The cells of a row placed by position: province, country, update time, confirmed, deaths,
/// recovered, latitude, longitude. Missing cells read as empty text, zero counts and no
/// coordinates.
pub open spec fn csv_record_of(row: Seq<Seq<char>>) -> CsvRecordView {
    CsvRecordView {
        province: text_or_empty(cell(row, 0)),
        country: text_or_empty(cell(row, 1)),
        updated: text_or_empty(cell(row, 2)),
        confirmed: count_or_zero(cell(row, 3)),
        deaths: count_or_zero(cell(row, 4)),
        recovered: count_or_zero(cell(row, 5)),
        lat: cell(row, 6),
        long: cell(row, 7),
    }
}

pub open spec fn point_of_csv(r: CsvRecordView) -> PointRecordView {
    PointRecordView {
        province: r.province,
        country: r.country,
        updated: date_or_epoch(r.updated),
        confirmed: r.confirmed,
        deaths: r.deaths,
        recovered: r.recovered,
        lat: r.lat,
        long: r.long,
    }
}

/// The record that a daily-report row stands for.
pub open spec fn point_of_row(row: Seq<Seq<char>>) -> PointRecordView {
    point_of_csv(csv_record_of(row))
}

/// A copy of the cell at column `i`, if the row reaches that far.
pub fn cell_at(row: &Vec<String>, i: usize) -> (r: Option<String>)
    ensures
        opt_text(r) == cell(row_text(row@), i as int),
{
    if i < row.len() {
        Some(row[i].clone())
    } else {
        None
    }
}

/// The text of the cell at column `i`, or empty text where the row ends before it.
pub fn text_at(row: &Vec<String>, i: usize) -> (r: String)
    ensures
        r@ == text_or_empty(cell(row_text(row@), i as int)),
{
    match cell_at(row, i) {
        Some(s) => s,
        None => String::new(),
    }
}

/// The count in the cell at column `i`, or zero where it is missing or unreadable.
pub fn count_at(row: &Vec<String>, i: usize) -> (r: u32)
    ensures
        r == count_or_zero(cell(row_text(row@), i as int)),
{
    if i < row.len() {
        coerce_count(row[i].as_str())
    } else {
        0
    }
}

/// Places the cells of a daily-report row by position, tolerating a short row.
pub fn normalize(row: &Vec<String>) -> (r: CsvRecord)
    ensures
        r@ == csv_record_of(row_text(row@)),
{
    CsvRecord {
        province: text_at(row, 0),
        country: text_at(row, 1),
        updated: text_at(row, 2),
        confirmed: count_at(row, 3),
        deaths: count_at(row, 4),
        recovered: count_at(row, 5),
        lat: cell_at(row, 6),
        long: cell_at(row, 7),
    }
}

/// Reads the update time of a placed row.
pub fn to_record(record: CsvRecord) -> (r: PointRecord)
    ensures
        r@ == point_of_csv(record@),
        r.updated.wf(),
{
    let updated = parse_date(record.updated.as_str());
    PointRecord {
        province: record.province,
        country: record.country,
        updated,
        confirmed: record.confirmed,
        deaths: record.deaths,
        recovered: record.recovered,
        lat: record.lat,
        long: record.long,
    }
}

/// The record that a daily-report row stands for.
pub fn record_from_row(row: &Vec<String>) -> (r: PointRecord)
    ensures
        r@ == point_of_row(row_text(row@)),
        r.updated.wf(),
{
    to_record(normalize(row))
}

/// Normalizing depends on the row alone: two records made from one row agree in every field.
pub proof fn lemma_normalize_repeatable(row: Seq<String>, a: PointRecord, b: PointRecord)
    requires
        a@ == point_of_row(row_text(row)),
        b@ == point_of_row(row_text(row)),
    ensures
        a@ == b@,
{
}

} // verus!
