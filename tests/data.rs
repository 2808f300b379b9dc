use chrono::Datelike;
use covid_data::calendar::{dates_through, Date};
use covid_data::coerce::{coerce_count, parse_i32, parse_u32};
use covid_data::index::CountryIndex;
use covid_data::record::{normalize, record_from_row, to_record};
use covid_data::series::{build_series, Metric, SeriesPoint};
use covid_data::source::{
    daily_report_url, get_dates, parse_daily_report, parse_time_series, time_series_url,
    DataError,
};
use covid_data::timestamp::{parse_date, parse_timestamp, DateTime};

fn row(cells: &[&str]) -> Vec<String> {
    cells.iter().map(|c| c.to_string()).collect()
}

fn date(year: i64, month: u32, day: u32) -> Date {
    Date { year, month, day }
}

fn stamp(year: i64, month: u32, day: u32, hour: u32, minute: u32, second: u32) -> DateTime {
    DateTime { date: date(year, month, day), hour, minute, second }
}

#[test]
fn iso_timestamp_parses() {
    assert_eq!(parse_date("2020-01-22T17:00:00"), stamp(2020, 1, 22, 17, 0, 0));
}

#[test]
fn spaced_timestamp_parses() {
    assert_eq!(parse_date("2020-02-29 23:59:58"), stamp(2020, 2, 29, 23, 59, 58));
}

#[test]
fn short_year_timestamp_parses() {
    assert_eq!(parse_date("03/08/20 05:31"), stamp(2020, 3, 8, 5, 31, 0));
}

#[test]
fn full_year_timestamp_parses() {
    assert_eq!(parse_date("03/08/2020 05:31"), stamp(2020, 3, 8, 5, 31, 0));
}

#[test]
fn early_year_is_moved_forward() {
    assert_eq!(parse_date("0020-03-01T10:20:30"), stamp(2020, 3, 1, 10, 20, 30));
    assert_eq!(parse_date("03/01/99 10:20"), stamp(3999, 3, 1, 10, 20, 0));
}

#[test]
fn unreadable_timestamp_gives_epoch() {
    assert_eq!(parse_date("yesterday"), stamp(1970, 1, 1, 0, 0, 0));
    assert_eq!(parse_date(""), stamp(1970, 1, 1, 0, 0, 0));
    assert_eq!(parse_timestamp("2020-13-01T00:00:00"), None);
}

#[test]
fn counts_fall_back_to_zero() {
    assert_eq!(coerce_count(""), 0);
    assert_eq!(coerce_count("abc"), 0);
    assert_eq!(coerce_count("-1"), 0);
    assert_eq!(coerce_count("4294967296"), 0);
    assert_eq!(coerce_count("42"), 42);
    assert_eq!(coerce_count("+7"), 7);
    assert_eq!(coerce_count("4294967295"), u32::MAX);
}

#[test]
fn integers_parse_like_std() {
    for text in ["", "+", "-", "0", "-0", "+12", "-2147483648", "2147483647", "2147483648", "1.5", " 3", "0012"] {
        assert_eq!(parse_i32(text), text.parse::<i32>().ok(), "{text}");
        assert_eq!(parse_u32(text), text.parse::<u32>().ok(), "{text}");
    }
}

#[test]
fn short_row_takes_fallbacks() {
    let r = record_from_row(&row(&["Hubei", "China", "2020-01-22T17:00:00"]));
    assert_eq!(r.province, "Hubei");
    assert_eq!(r.country, "China");
    assert_eq!(r.updated, stamp(2020, 1, 22, 17, 0, 0));
    assert_eq!(r.confirmed, 0);
    assert_eq!(r.deaths, 0);
    assert_eq!(r.recovered, 0);
    assert_eq!(r.lat, None);
    assert_eq!(r.long, None);
}

#[test]
fn full_row_is_placed_by_position() {
    let raw = normalize(&row(&[
        "", "Italy", "3/8/20 5:31", "7375", "366", "622", "41.87", "12.56",
    ]));
    assert_eq!(raw.updated, "3/8/20 5:31");
    assert_eq!(raw.confirmed, 7375);
    assert_eq!(raw.deaths, 366);
    assert_eq!(raw.recovered, 622);
    let r = to_record(raw);
    assert_eq!(r.province, "");
    assert_eq!(r.updated, stamp(2020, 3, 8, 5, 31, 0));
    let lat: f32 = r.lat.as_deref().unwrap().parse().unwrap();
    let long: f32 = r.long.as_deref().unwrap().parse().unwrap();
    assert!((lat - 41.87).abs() < 1e-4);
    assert!((long - 12.56).abs() < 1e-4);
}

#[test]
fn unreadable_coordinate_is_no_number() {
    let r = record_from_row(&row(&["", "Italy", "", "1", "2", "3", "north", ""]));
    assert!(r.lat.as_deref().unwrap().parse::<f32>().is_err());
    assert!(r.long.as_deref().unwrap().parse::<f32>().is_err());
}

#[test]
fn normalizing_twice_agrees() {
    let cells = row(&["Hubei", "China", "2020-01-22 17:00:00", "444", "17", "28", "30.97", "112.27"]);
    let a = record_from_row(&cells);
    let b = record_from_row(&cells);
    assert_eq!(a.province, b.province);
    assert_eq!(a.country, b.country);
    assert_eq!(a.updated, b.updated);
    assert_eq!(a.confirmed, b.confirmed);
    assert_eq!(a.deaths, b.deaths);
    assert_eq!(a.recovered, b.recovered);
    assert_eq!(a.lat, b.lat);
    assert_eq!(a.long, b.long);
}

#[test]
fn two_days_keep_day_order() {
    let day1 = vec![
        record_from_row(&row(&["Hubei", "China", "2020-01-22T17:00:00", "444"])),
        record_from_row(&row(&["", "Japan", "2020-01-22T17:00:00", "2"])),
    ];
    let day2 = vec![record_from_row(&row(&["Hubei", "China", "2020-01-23T17:00:00", "549"]))];
    let mut index = CountryIndex::new();
    index.add_snapshot(&day1);
    index.add_snapshot(&day2);
    let china = index.records_for(&"China".to_string()).unwrap();
    assert_eq!(china.len(), 2);
    assert_eq!(china[0].confirmed, 444);
    assert_eq!(china[1].confirmed, 549);
    assert_eq!(index.records_for(&"Japan".to_string()).unwrap().len(), 1);
    assert!(index.records_for(&"Italy".to_string()).is_none());
    assert_eq!(index.countries(), vec!["China".to_string(), "Japan".to_string()]);
}

#[test]
fn series_skips_negative_days() {
    let s = build_series(&row(&["", "Italy", "41.87", "12.56", "0", "0", "-1", "3"]), Metric::Confirmed);
    assert_eq!(s.country, "Italy");
    assert_eq!(s.province, "");
    assert_eq!(s.lat.as_deref(), Some("41.87"));
    assert_eq!(s.metric, Metric::Confirmed);
    assert_eq!(
        s.data,
        vec![
            SeriesPoint { date: date(2020, 1, 22), value: 0 },
            SeriesPoint { date: date(2020, 1, 23), value: 0 },
            SeriesPoint { date: date(2020, 1, 25), value: 3 },
        ]
    );
}

#[test]
fn series_columns_cross_month_end() {
    let mut cells = row(&["", "X", "", ""]);
    for i in 0..12 {
        cells.push(if i == 5 { "n/a".to_string() } else { i.to_string() });
    }
    let s = build_series(&cells, Metric::Deaths);
    assert_eq!(s.data.len(), 11);
    assert_eq!(s.data[4], SeriesPoint { date: date(2020, 1, 26), value: 4 });
    assert_eq!(s.data[5], SeriesPoint { date: date(2020, 1, 28), value: 6 });
    assert_eq!(s.data[10], SeriesPoint { date: date(2020, 2, 2), value: 11 });
}

#[test]
fn short_series_row_is_empty() {
    let s = build_series(&row(&["Hubei", "China"]), Metric::Recovered);
    assert_eq!(s.country, "China");
    assert_eq!(s.lat, None);
    assert!(s.data.is_empty());
}

#[test]
fn date_range_ends_today() {
    let dates = dates_through(date(2020, 3, 1));
    assert_eq!(dates.len(), 40);
    assert_eq!(dates[0], date(2020, 1, 22));
    assert_eq!(dates[38], date(2020, 2, 29));
    assert_eq!(*dates.last().unwrap(), date(2020, 3, 1));
    assert_eq!(dates_through(date(2020, 1, 22)), vec![date(2020, 1, 22)]);
    assert!(dates_through(date(2020, 1, 21)).is_empty());
}

#[test]
fn generated_dates_include_now() {
    let now = chrono::Utc::now();
    let dates = get_dates();
    assert_eq!(dates[0], date(2020, 1, 22));
    assert_eq!(*dates.last().unwrap(), date(now.year() as i64, now.month(), now.day()));
}

#[test]
fn successor_crosses_year_and_leap_day() {
    assert_eq!(date(2020, 2, 28).succ(), date(2020, 2, 29));
    assert_eq!(date(2019, 2, 28).succ(), date(2019, 3, 1));
    assert_eq!(date(1900, 2, 28).succ(), date(1900, 3, 1));
    assert_eq!(date(2020, 12, 31).succ(), date(2021, 1, 1));
    assert_eq!(Date::new(2021, 2, 29), None);
}

#[test]
fn urls_name_date_and_metric() {
    assert_eq!(
        daily_report_url(&date(2020, 1, 2)),
        "https://raw.githubusercontent.com/CSSEGISandData/COVID-19/master/csse_covid_19_data/csse_covid_19_daily_reports/01-02-2020.csv"
    );
    assert_eq!(
        time_series_url(Metric::Deaths),
        "https://raw.githubusercontent.com/CSSEGISandData/COVID-19/master/csse_covid_19_data/csse_covid_19_time_series/time_series_19-covid-Deaths.csv"
    );
    assert!(daily_report_url(&date(33, 5, 6)).ends_with("/05-06-0033.csv"));
    assert_eq!(Metric::all(), vec![Metric::Confirmed, Metric::Deaths, Metric::Recovered]);
}

#[test]
fn daily_report_skips_header() {
    let text = "Province/State,Country/Region,Last Update,Confirmed,Deaths,Recovered\n\
                Hubei,China,1/22/2020 17:00,444,,28\n\
                ,Japan,1/22/2020 17:00,2,,\n";
    let records = parse_daily_report(text).unwrap();
    assert_eq!(records.len(), 2);
    assert_eq!(records[0].country, "China");
    assert_eq!(records[0].updated, stamp(2020, 1, 22, 17, 0, 0));
    assert_eq!(records[0].deaths, 0);
    assert_eq!(records[0].recovered, 28);
    assert_eq!(records[1].province, "");
    assert_eq!(records[1].confirmed, 2);
}

#[test]
fn malformed_report_fails_whole() {
    let text = "a,b,c\n1,2,3\n4,5\n";
    assert!(matches!(parse_daily_report(text), Err(DataError::Malformed(_))));
    assert!(parse_time_series(text, Metric::Confirmed).is_err());
}

#[test]
fn time_series_text_is_read() {
    let text = "Province/State,Country/Region,Lat,Long,1/22/20,1/23/20\n\
                ,Italy,41.87,12.56,0,2\n\
                Hubei,China,30.97,112.27,444,\n";
    let series = parse_time_series(text, Metric::Recovered).unwrap();
    assert_eq!(series.len(), 2);
    assert_eq!(series[0].data.len(), 2);
    assert_eq!(series[1].data, vec![SeriesPoint { date: date(2020, 1, 22), value: 444 }]);
    assert_eq!(series[1].metric, Metric::Recovered);
}
