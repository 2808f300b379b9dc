//! Reads the published daily reports and time series of case counts into records: tolerant
//! cell parsing, time stamps in several formats, rows grouped by country, and day-indexed series.

pub mod calendar;
pub mod coerce;
pub mod index;
pub mod record;
pub mod series;
pub mod source;
pub mod timestamp;
