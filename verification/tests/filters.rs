use chrono::{DateTime, Utc};
use monocle_cli::filters::{
    read_times, FilterError, ParseFilters, PeerIp, SearchFilters, TimeReadings, WindowPlan,
};
use monocle_cli::time::{Span, UtcTime, MAX_TIMESTAMP, MIN_TIMESTAMP};
use std::time::Duration;

const NONE: TimeReadings = TimeReadings { start: None, end: None };

fn at(secs: i64) -> Option<UtcTime> {
    UtcTime::new(secs, 0)
}

fn text(s: Option<&str>) -> Option<String> {
    s.map(|s| s.to_string())
}

fn search(start: Option<&str>, end: Option<&str>, duration: Option<&str>) -> SearchFilters {
    SearchFilters {
        start_ts: text(start),
        end_ts: text(end),
        duration: text(duration),
        collector: None,
        project: None,
        origin_asn: None,
        prefix: None,
        include_super: false,
        include_sub: false,
        peer_ip: vec![],
        peer_asn: None,
        elem_type: None,
        as_path: None,
    }
}

fn parse(start: Option<&str>, end: Option<&str>) -> ParseFilters {
    ParseFilters {
        origin_asn: None,
        prefix: None,
        include_super: false,
        include_sub: false,
        peer_ip: vec![],
        peer_asn: None,
        elem_type: None,
        start_ts: text(start),
        end_ts: text(end),
        as_path: None,
    }
}

fn said(filters: &SearchFilters, readings: &TimeReadings) -> String {
    let e = filters.window(readings).unwrap().unwrap_err();
    let validated = filters.validate(readings).unwrap_err();
    assert_eq!(validated.message(), e.message());
    e.message()
}

#[test]
fn calendar_ends_where_chrono_ends_it() {
    assert_eq!(DateTime::<Utc>::MIN_UTC.timestamp(), MIN_TIMESTAMP);
    assert_eq!(DateTime::<Utc>::MAX_UTC.timestamp(), MAX_TIMESTAMP);
    for (secs, nanos) in [
        (MIN_TIMESTAMP, 0),
        (MIN_TIMESTAMP - 1, 0),
        (MAX_TIMESTAMP, 999_999_999),
        (MAX_TIMESTAMP + 1, 0),
        (59, 1_000_000_000),
        (59, 1_999_999_999),
        (59, 2_000_000_000),
        (58, 1_000_000_000),
        (-1, 1_000_000_000),
        (-2, 1_000_000_000),
        (i64::MIN, 0),
        (i64::MAX, 0),
    ] {
        assert_eq!(
            UtcTime::new(secs, nanos).is_some(),
            DateTime::from_timestamp(secs, nanos).is_some(),
            "{secs} {nanos}"
        );
    }
}

#[test]
fn spans_lead_where_chrono_leads() {
    let times = [
        (0, 0),
        (0, 999_999_999),
        (-1, 500_000_000),
        (59, 1_000_000_000),
        (59, 1_500_000_000),
        (-1, 1_999_999_999),
        (1_700_000_000, 1),
        (MIN_TIMESTAMP, 0),
        (MAX_TIMESTAMP, 1_999_999_999),
    ];
    let spans = [
        (0, 0),
        (0, 1),
        (0, 500_000_000),
        (0, 999_999_999),
        (1, 0),
        (1, 500_000_000),
        (59, 0),
        (60, 1),
        (86_400, 0),
        (16_544_868_105_598, 0),
        (16_544_868_105_599, 0),
        (16_544_868_105_600, 0),
        (u64::MAX, 999_999_999),
    ];
    for (secs, nanos) in times {
        for (span_secs, span_nanos) in spans {
            let t = UtcTime::new(secs, nanos).unwrap();
            let d = Span::new(span_secs, span_nanos).unwrap();
            let ts = DateTime::from_timestamp(secs, nanos).unwrap();
            let delta = chrono::TimeDelta::from_std(Duration::new(span_secs, span_nanos)).ok();
            let after = delta.and_then(|d| ts.checked_add_signed(d)).map(|t| t.timestamp());
            let before = delta.and_then(|d| ts.checked_sub_signed(d)).map(|t| t.timestamp());
            let from = WindowPlan::From(t, "x".to_string()).window(Some(d));
            let until = WindowPlan::Until(t, "x".to_string()).window(Some(d));
            assert_eq!(from.map(|w| w.unwrap()), after.map(|e| (secs, e)));
            assert_eq!(until.map(|w| w.unwrap()), before.map(|s| (s, secs)));
        }
    }
}

#[test]
fn parse_filters_reject_times_that_are_none() {
    let both = TimeReadings { start: at(1), end: at(2) };
    assert!(parse(None, None).validate(&NONE).is_ok());
    assert!(parse(Some("1"), Some("2")).validate(&both).is_ok());
    let e = parse(Some("soon"), Some("later")).validate(&NONE).unwrap_err();
    assert!(matches!(e, FilterError::StartTs(_)));
    assert_eq!(e.message(), "start-ts is not a valid time string: soon");
    let start = TimeReadings { start: at(1), end: None };
    let e = parse(Some("1"), Some("later")).validate(&start).unwrap_err();
    assert!(matches!(e, FilterError::EndTs(_)));
    assert_eq!(e.message(), "end-ts is not a valid time string: later");
}

#[test]
fn window_between_two_times() {
    let readings = TimeReadings { start: at(100), end: at(50) };
    let filters = search(Some("100"), Some("50"), None);
    assert_eq!(filters.window(&readings).unwrap().unwrap(), (100, 50));
    assert!(filters.validate(&readings).is_ok());
    assert_eq!(filters.parse_start_end_strings(&readings).unwrap(), (100, 50));
}

#[test]
fn window_of_a_length() {
    let start = TimeReadings { start: at(1_700_000_000), end: None };
    let end = TimeReadings { start: None, end: at(1_700_000_000) };
    for (duration, secs) in [
        ("90s", 90),
        ("1h", 3600),
        ("1h 30m", 5400),
        ("2 days", 172_800),
        ("1M", 2_630_016),
        ("1500ms", 1),
        ("0s", 0),
        ("0", 0),
        ("2y", 63_115_200),
        ("1.5h", 5400),
        (" 1 0 min 3sec ", 603),
        ("1week1day", 691_200),
        ("999999\u{b5}s 1us", 1),
    ] {
        let from = search(Some("t"), None, Some(duration)).window(&start).unwrap().unwrap();
        assert_eq!(from, (1_700_000_000, 1_700_000_000 + secs), "{duration}");
    }
    let until = search(None, Some("t"), Some("1h 30m")).window(&end).unwrap().unwrap();
    assert_eq!(until, (1_700_000_000 - 5400, 1_700_000_000));
    let until = search(None, Some("t"), Some("1500ms")).window(&end).unwrap().unwrap();
    assert_eq!(until, (1_700_000_000 - 2, 1_700_000_000));
}

#[test]
fn window_is_the_same_from_either_end() {
    let start = TimeReadings { start: at(1000), end: None };
    let window = search(Some("t"), None, Some("1w")).window(&start).unwrap().unwrap();
    let end = TimeReadings { start: None, end: at(window.1) };
    assert_eq!(search(None, Some("t"), Some("1w")).window(&end).unwrap().unwrap(), window);
    assert!(window.0 <= window.1);
    assert_eq!(window.1 - window.0, 604_800);
}

#[test]
fn window_is_within_a_second_of_its_length() {
    let start = TimeReadings { start: UtcTime::new(10, 600_000_000), end: None };
    let window = search(Some("t"), None, Some("2s 500ms")).window(&start).unwrap().unwrap();
    assert_eq!(window, (10, 13));
    let window = search(Some("t"), None, Some("2s 300ms")).window(&start).unwrap().unwrap();
    assert_eq!(window, (10, 12));
}

#[test]
fn only_times_bear_on_validation() {
    let start = TimeReadings { start: at(1), end: None };
    let mut filters = search(Some("1"), None, Some("1h"));
    filters.prefix = text(Some("no prefix"));
    filters.elem_type = text(Some("z"));
    filters.as_path = text(Some("("));
    filters.collector = text(Some("none"));
    assert!(filters.validate(&start).is_ok());
    filters.duration = text(Some("1 fortnight"));
    assert_eq!(
        said(&filters, &start),
        "duration is not a valid time duration string: 1 fortnight"
    );
}

#[test]
fn window_takes_exactly_two() {
    let both = TimeReadings { start: at(1), end: at(2) };
    let two = "must specify two from: start_ts, end_ts and duration";
    assert_eq!(said(&search(None, None, None), &NONE), two);
    assert_eq!(said(&search(None, None, Some("1h")), &NONE), two);
    assert_eq!(said(&search(Some("1"), None, None), &both), two);
    assert_eq!(said(&search(None, Some("2"), None), &both), two);
    assert_eq!(
        said(&search(Some("1"), Some("2"), Some("1h")), &both),
        "cannot specify start_ts, end_ts, and duration all at the same time"
    );
}

#[test]
fn faults_of_times_come_first() {
    let start = TimeReadings { start: at(1), end: None };
    assert_eq!(
        said(&search(Some("soon"), Some("later"), Some("1h")), &NONE),
        "start-ts is not a valid time string: soon"
    );
    assert_eq!(
        said(&search(Some("1"), Some("later"), Some("1h")), &start),
        "end-ts is not a valid time string: later"
    );
    assert_eq!(
        said(&search(Some("1"), None, Some("1 fortnight")), &start),
        "duration is not a valid time duration string: 1 fortnight"
    );
    assert_eq!(
        said(&search(Some("1"), None, Some("2024-01-01T00:00:00Z")), &start),
        "duration is not a valid time duration string: 2024-01-01T00:00:00Z"
    );
    for duration in ["soon", " ", "1", "1.h", "0.5ns", "0.0001h", "1h-30m", "1H"] {
        assert_eq!(
            said(&search(Some("1"), None, Some(duration)), &start),
            format!("duration is not a valid time duration string: {duration}")
        );
    }
    assert_eq!(
        said(&search(Some("1"), None, Some("")), &start),
        "duration is not a valid time duration string: "
    );
}

#[test]
fn readings_of_missing_times_are_left_aside() {
    let both = TimeReadings { start: at(1), end: at(2) };
    let filters = search(Some("1"), None, Some("1h"));
    assert!(matches!(filters.plan(&both), Ok(WindowPlan::From(_, _))));
    assert_eq!(filters.window(&both).unwrap().unwrap(), (1, 3601));
}

#[test]
fn plans_hold_what_was_given() {
    let both = TimeReadings { start: at(1), end: at(2) };
    match search(None, Some("2"), Some("1h")).plan(&both) {
        Ok(WindowPlan::Until(end, text)) => {
            assert_eq!(end.timestamp(), 2);
            assert_eq!(text, "1h");
        }
        _ => panic!("no plan"),
    }
    assert!(matches!(search(Some("1"), Some("2"), None).plan(&both), Ok(WindowPlan::Between(_, _))));
}

#[test]
fn window_beyond_the_calendar_is_none() {
    let start = TimeReadings { start: at(1), end: None };
    let end = TimeReadings { start: None, end: at(1) };
    assert!(search(Some("t"), None, Some("300000y")).window(&start).is_none());
    assert!(search(None, Some("t"), Some("300000y")).window(&end).is_none());
    assert!(search(Some("t"), None, Some("18446744073709551615s")).window(&start).is_none());
    let e = search(Some("t"), None, Some("18446744073709551616s")).window(&start);
    assert!(matches!(e, Some(Err(FilterError::Duration(_)))));
}

#[test]
fn lengths_are_read_whatever_their_digits() {
    let start = TimeReadings { start: at(1_700_000_000), end: None };
    for (duration, secs) in [("1h 600000000000ns", 4200), ("0.5h 999999999999us", 1_001_799)] {
        let window = search(Some("t"), None, Some(duration)).window(&start).unwrap().unwrap();
        assert_eq!(window, (1_700_000_000, 1_700_000_000 + secs));
    }
    let day = "2024-06-01 12:34:56 UTC+8";
    assert_eq!(
        said(&search(Some("t"), None, Some(day)), &start),
        format!("duration is not a valid time duration string: {day}")
    );
    let filters = search(Some("t"), None, Some("18446744073709551615s 1s"));
    assert!(matches!(filters.window(&start), Some(Err(FilterError::Duration(_)))));
    for beyond in ["499999999999y 2s", "4999 9999 9999y 0.2s", "18446744073709551615s 999ms"] {
        assert!(search(Some("t"), None, Some(beyond)).window(&start).is_none());
    }
}

#[test]
fn lengths_that_overflow_are_not_read() {
    let start = TimeReadings { start: at(1), end: None };
    let filters = search(Some("t"), None, Some("18446744073709551615s 1000ms"));
    assert!(filters.window(&start).is_none());
}

#[test]
fn readers_are_handed_the_texts_that_are_given() {
    let reader = |text: &str| UtcTime::new(text.parse().ok()?, 0);
    let readings = read_times(&text(Some("12")), &None, reader);
    assert_eq!(readings.start.map(|t| t.timestamp()), Some(12));
    assert!(readings.end.is_none());
    assert_eq!(search(Some("5"), Some("9"), None).read_window(reader).unwrap().unwrap(), (5, 9));
    assert_eq!(
        search(Some("x"), Some("9"), None).read_window(reader).unwrap().unwrap_err().message(),
        "start-ts is not a valid time string: x"
    );
    assert!(parse(Some("5"), None).read_and_validate(reader).is_ok());
    assert_eq!(
        parse(Some("5"), Some("y")).read_and_validate(reader).unwrap_err().message(),
        "end-ts is not a valid time string: y"
    );
}

#[test]
fn spans_have_less_than_a_second_of_nanoseconds() {
    assert!(Span::new(u64::MAX, 999_999_999).is_some());
    assert!(Span::new(0, 1_000_000_000).is_none());
}

#[test]
fn file_filters_hold_the_window() {
    let mut filters = search(Some("a"), Some("b"), None);
    filters.origin_asn = Some(13335);
    filters.prefix = text(Some("1.1.1.0/24"));
    filters.include_super = true;
    filters.peer_ip = vec![PeerIp::V4(0x01010101), PeerIp::V6(1)];
    filters.peer_asn = Some(64496);
    filters.elem_type = text(Some("a"));
    filters.as_path = text(Some("^1"));
    let file = filters.file_filters(-5, 1_700_000_000);
    assert_eq!(file.start_ts.as_deref(), Some("-5"));
    assert_eq!(file.end_ts.as_deref(), Some("1700000000"));
    assert_eq!(file.origin_asn, Some(13335));
    assert_eq!(file.prefix.as_deref(), Some("1.1.1.0/24"));
    assert!(file.include_super && !file.include_sub);
    assert_eq!(file.peer_ip, vec![PeerIp::V4(0x01010101), PeerIp::V6(1)]);
    assert_eq!(file.peer_asn, Some(64496));
    assert_eq!(file.elem_type.as_deref(), Some("a"));
    assert_eq!(file.as_path.as_deref(), Some("^1"));
}

#[test]
fn broker_query_asks_for_updates() {
    let mut filters = search(None, None, None);
    filters.collector = text(Some("rrc00"));
    let query = filters.broker_query(1, 2);
    assert_eq!((query.ts_start, query.ts_end, query.page_size), (1, 2, 1000));
    assert_eq!(query.data_type, "update");
    assert_eq!(query.collector_id.as_deref(), Some("rrc00"));
    assert_eq!(query.project, None);
}
