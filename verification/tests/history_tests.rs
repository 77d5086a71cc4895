use avanza_ghostfolio::date::{parse_date, Date};
use avanza_ghostfolio::error::Error;
use avanza_ghostfolio::history::{
    history_url, join_rows, run_backfill, time_period_from_days, AvanzaHistory, BackfillState,
    DataSerie, TimePeriod,
};

fn point(timestamp: i64, price: &str) -> DataSerie {
    DataSerie { timestamp, price: price.to_string() }
}

fn bucket(from_date: &str, to_date: &str, points: Vec<DataSerie>) -> AvanzaHistory {
    AvanzaHistory {
        id: "5247".to_string(),
        data_serie: points,
        name: "Example Fund".to_string(),
        from_date: from_date.to_string(),
        to_date: to_date.to_string(),
    }
}

#[test]
fn period_names() {
    assert_eq!(TimePeriod::OneMonth.to_str(), "one_month");
    assert_eq!(TimePeriod::ThreeMonths.to_str(), "three_months");
    assert_eq!(TimePeriod::OneYear.to_str(), "one_year");
    assert_eq!(TimePeriod::ThreeYears.to_str(), "three_years");
    assert_eq!(TimePeriod::FiveYears.to_str(), "five_years");
    assert_eq!(TimePeriod::Max.to_str(), "max");
}

#[test]
fn period_advance_order() {
    assert_eq!(TimePeriod::OneMonth.next(), Some(TimePeriod::ThreeMonths));
    assert_eq!(TimePeriod::ThreeMonths.next(), Some(TimePeriod::OneYear));
    assert_eq!(TimePeriod::OneYear.next(), Some(TimePeriod::ThreeYears));
    assert_eq!(TimePeriod::ThreeYears.next(), Some(TimePeriod::FiveYears));
    assert_eq!(TimePeriod::FiveYears.next(), Some(TimePeriod::Max));
    assert_eq!(TimePeriod::Max.next(), None);
}

#[test]
fn initial_period_thresholds() {
    assert_eq!(time_period_from_days(0), TimePeriod::OneMonth);
    assert_eq!(time_period_from_days(29), TimePeriod::OneMonth);
    assert_eq!(time_period_from_days(30), TimePeriod::ThreeMonths);
    assert_eq!(time_period_from_days(89), TimePeriod::ThreeMonths);
    assert_eq!(time_period_from_days(90), TimePeriod::OneYear);
    assert_eq!(time_period_from_days(364), TimePeriod::OneYear);
    assert_eq!(time_period_from_days(365), TimePeriod::ThreeYears);
    assert_eq!(time_period_from_days(1094), TimePeriod::ThreeYears);
    assert_eq!(time_period_from_days(1095), TimePeriod::FiveYears);
    assert_eq!(time_period_from_days(1824), TimePeriod::FiveYears);
    assert_eq!(time_period_from_days(1825), TimePeriod::Max);
    assert_eq!(time_period_from_days(-5), TimePeriod::OneMonth);
}

#[test]
fn chart_url_shape() {
    assert_eq!(
        history_url("5247", &TimePeriod::ThreeMonths),
        "https://www.avanza.se/_api/fund-guide/chart/5247/three_months?raw=true"
    );
}

#[test]
fn fresh_state_holds_only_the_header() {
    let s = BackfillState::new(TimePeriod::OneYear);
    assert_eq!(s.rows, vec!["date;marketPrice".to_string()]);
    assert_eq!(s.watermark, i64::MAX);
    assert_eq!(s.period, TimePeriod::OneYear);
    assert!(!s.done);
}

#[test]
fn one_pass_emits_rows_newest_first() {
    let from = parse_date("2023-01-01").unwrap();
    let to = parse_date("2023-06-01").unwrap();
    let mut s = BackfillState::new(TimePeriod::OneMonth);
    // 2023-05-20 and 2023-05-15, newest first, as the provider sends them.
    let b = bucket(
        "2023-05-02",
        "2023-06-01",
        vec![point(1684540800000, "10.5"), point(1684108800000, "10.0")],
    );
    s.step(&b, &from, &to).unwrap();
    assert_eq!(
        s.rows,
        vec![
            "date;marketPrice".to_string(),
            "2023-05-20;10.5".to_string(),
            "2023-05-15;10.0".to_string(),
        ]
    );
    assert_eq!(s.watermark, 1684540800000);
    // The bucket starts after the requested start, so the walk goes on
    // with the next larger bucket.
    assert!(!s.done);
    assert_eq!(s.period, TimePeriod::ThreeMonths);
}

#[test]
fn points_after_the_requested_end_stop_the_pass() {
    let from = parse_date("2023-01-01").unwrap();
    let to = parse_date("2023-05-16").unwrap();
    let mut s = BackfillState::new(TimePeriod::OneMonth);
    // The newest point falls after `to`: the pass stops there and keeps
    // nothing, per the provider's newest-first order.
    let b = bucket(
        "2023-05-02",
        "2023-06-01",
        vec![point(1684540800000, "10.5"), point(1684108800000, "10.0")],
    );
    s.step(&b, &from, &to).unwrap();
    assert_eq!(s.rows, vec!["date;marketPrice".to_string()]);
}

#[test]
fn overlap_with_previous_bucket_is_skipped() {
    let from = parse_date("2023-01-01").unwrap();
    let to = parse_date("2023-06-01").unwrap();
    let mut s = BackfillState::new(TimePeriod::OneMonth);
    let first = bucket("2023-05-02", "2023-06-01", vec![point(1684540800000, "10.5")]);
    s.step(&first, &from, &to).unwrap();
    assert_eq!(s.watermark, 1684540800000);
    // The larger bucket repeats a newer point (2023-05-21); only the older
    // one (2023-05-13) may be emitted.
    let second = bucket(
        "2023-03-01",
        "2023-06-01",
        vec![point(1684627200000, "11.0"), point(1683936000000, "9.5")],
    );
    s.step(&second, &from, &to).unwrap();
    assert_eq!(
        s.rows,
        vec![
            "date;marketPrice".to_string(),
            "2023-05-20;10.5".to_string(),
            "2023-05-13;9.5".to_string(),
        ]
    );
}

#[test]
fn covered_start_stops_the_walk() {
    let from = parse_date("2023-05-02").unwrap();
    let to = parse_date("2023-06-01").unwrap();
    let mut s = BackfillState::new(TimePeriod::OneMonth);
    // The bucket's coverage starts exactly on the requested start.
    let b = bucket("2023-05-02", "2023-06-01", vec![point(1684108800000, "10.0")]);
    s.step(&b, &from, &to).unwrap();
    assert!(s.done);
    assert_eq!(s.period, TimePeriod::OneMonth);
}

#[test]
fn unreadable_bucket_from_date_fails_and_keeps_nothing() {
    let from = parse_date("2023-01-01").unwrap();
    let to = parse_date("2023-06-01").unwrap();
    let mut s = BackfillState::new(TimePeriod::OneMonth);
    let b = bucket("not a date", "2023-06-01", vec![point(1684108800000, "10.0")]);
    assert_eq!(s.step(&b, &from, &to), Err(Error::UpstreamFailure));
    assert_eq!(s.rows, vec!["date;marketPrice".to_string()]);
    assert_eq!(s.watermark, i64::MAX);
    assert!(!s.done);
}

#[test]
fn backfill_advances_past_a_bucket_that_covers_too_little() {
    // A stubbed provider returning a single one-month bucket covering only
    // the last 30 days: the output covers just that window and the walk
    // advances instead of stopping early.
    let from = parse_date("2023-01-01").unwrap();
    let to = parse_date("2023-06-01").unwrap();
    let responses = vec![bucket(
        "2023-05-02",
        "2023-06-01",
        vec![point(1684540800000, "10.5"), point(1684108800000, "10.0")],
    )];
    let run = run_backfill(&responses, &from, &to, TimePeriod::OneMonth).unwrap();
    assert_eq!(run.passes, 1);
    assert!(!run.state.done);
    assert_eq!(run.state.period, TimePeriod::ThreeMonths);
    assert_eq!(
        run.state.rows,
        vec![
            "date;marketPrice".to_string(),
            "2023-05-20;10.5".to_string(),
            "2023-05-15;10.0".to_string(),
        ]
    );
}

#[test]
fn backfill_stops_after_six_passes_even_uncovered() {
    let from = parse_date("1900-01-01").unwrap();
    let to = parse_date("2023-06-01").unwrap();
    // Ten buckets, none of which ever reaches back to the requested start.
    let responses: Vec<AvanzaHistory> = (0..10)
        .map(|_| bucket("2023-05-02", "2023-06-01", vec![point(1684108800000, "10.0")]))
        .collect();
    let run = run_backfill(&responses, &from, &to, TimePeriod::OneMonth).unwrap();
    assert_eq!(run.passes, 6);
    assert!(run.state.done);
    assert_eq!(run.state.period, TimePeriod::Max);
}

#[test]
fn backfill_stalls_when_responses_run_out() {
    let from = parse_date("1900-01-01").unwrap();
    let to = parse_date("2023-06-01").unwrap();
    let responses = vec![
        bucket("2023-05-02", "2023-06-01", vec![point(1684108800000, "10.0")]),
        bucket("2023-03-01", "2023-06-01", vec![point(1683936000000, "9.5")]),
    ];
    let run = run_backfill(&responses, &from, &to, TimePeriod::OneMonth).unwrap();
    assert_eq!(run.passes, 2);
    assert!(!run.state.done);
    assert_eq!(run.state.period, TimePeriod::OneYear);
}

#[test]
fn rows_join_with_newlines() {
    assert_eq!(join_rows(&Vec::new()), "");
    assert_eq!(join_rows(&vec!["a".to_string()]), "a");
    assert_eq!(
        join_rows(&vec!["date;marketPrice".to_string(), "2023-05-20;10.5".to_string()]),
        "date;marketPrice\n2023-05-20;10.5"
    );
}
