use monocle_cli::radar::{
    check_status, count_to_visibility, list_origins, names_status, origin_query, origin_rows, stats_rows,
    visibility, OriginEntry, OriginRow, RouteCounts, Share, StatsScope, Visibility,
};

fn counts(n: u32) -> RouteCounts {
    let share = |count: u32| Share { count, percent: format!("{:.2}", count as f64 / 8.0) };
    RouteCounts {
        origins: n,
        prefixes: n + 1,
        valid: share(n + 2),
        invalid: share(n + 3),
        unknown: share(n + 4),
    }
}

#[test]
fn scopes_of_queries() {
    let scope = StatsScope::of_query(None);
    assert_eq!((scope.asn(), scope.country(), scope.name()), (None, None, "global".to_string()));
    let scope = StatsScope::of_query(Some("13335".to_string()));
    assert_eq!((scope.asn(), scope.country(), scope.name()), (Some(13335), None, "as13335".to_string()));
    let scope = StatsScope::of_query(Some("US".to_string()));
    assert_eq!(
        (scope.asn(), scope.country(), scope.name()),
        (None, Some("US".to_string()), "US".to_string())
    );
}

#[test]
fn rows_of_statistics() {
    let scope = StatsScope::Asn(1);
    let rows = stats_rows(&scope, &counts(10), &counts(20), &counts(30));
    assert_eq!(rows.len(), 3);
    assert_eq!(rows[0].scope, "as1");
    assert_eq!(rows[1].scope, "as1 ipv4");
    assert_eq!(rows[2].scope, "as1 ipv6");
    assert_eq!((rows[1].origins, rows[1].prefixes), (20, 21));
    assert_eq!(rows[0].rpki_valid, "12 (1.50%)");
    assert_eq!(rows[0].rpki_invalid, "13 (1.62%)");
    assert_eq!(rows[2].rpki_unknown, "34 (4.25%)");
}

#[test]
fn origins_are_looked_up_by_number_or_prefix() {
    assert_eq!(origin_query("13335".to_string()), (Some(13335), None));
    assert_eq!(origin_query("1.1.1.0/24".to_string()), (None, Some("1.1.1.0/24".to_string())));
}

#[test]
fn statuses_in_either_case() {
    assert_eq!(check_status(None), Ok(None));
    for text in ["valid", "Valid", "INVALID", "uNkNoWn", "un\u{212a}nown"] {
        assert_eq!(check_status(Some(text.to_string())), Ok(Some(text.to_string())));
    }
    for text in ["", "valid ", "notfound"] {
        assert_eq!(
            check_status(Some(text.to_string())),
            Err(format!("invalid rpki status: {text}"))
        );
    }
    assert!(names_status(&"unknown".to_string()));
    assert!(!names_status(&"Unknown".to_string()));
}

#[test]
fn visibility_by_fifths() {
    assert_eq!(visibility(81, 100), Visibility::High);
    assert_eq!(visibility(80, 100), Visibility::Mid);
    assert_eq!(visibility(20, 100), Visibility::Mid);
    assert_eq!(visibility(19, 100), Visibility::Low);
    assert_eq!(count_to_visibility(81, 100, "81.00"), "high (81.00%)");
    assert_eq!(count_to_visibility(50, 100, "50.00"), "mid (50.00%)");
    assert_eq!(count_to_visibility(0, 100, "0.00"), "low (0.00%)");
}

#[test]
fn visibility_is_that_of_the_ratio() {
    let rate = |count: u32, total: u32| {
        let ratio = count as f64 / total as f64;
        if ratio > 0.8 {
            Visibility::High
        } else if ratio < 0.2 {
            Visibility::Low
        } else {
            Visibility::Mid
        }
    };
    for total in 0..300u32 {
        for count in 0..400u32 {
            assert_eq!(visibility(count, total), rate(count, total), "{count}/{total}");
        }
    }
    for total in [u32::MAX, u32::MAX - 1, u32::MAX - 4, 4_000_000_000, 3_999_999_999] {
        for fifth in [1u64, 4] {
            let near = (total as u64 * fifth / 5) as u32;
            for count in near - 3..near + 4 {
                assert_eq!(visibility(count, total), rate(count, total), "{count}/{total}");
            }
        }
    }
    assert_eq!(visibility(1, 0), rate(1, 0));
    assert_eq!(visibility(u32::MAX, u32::MAX), Visibility::High);
}

#[test]
fn visibility_does_not_fall_as_counts_grow() {
    let rank = |v: Visibility| match v {
        Visibility::Low => 0,
        Visibility::Mid => 1,
        Visibility::High => 2,
    };
    for count in 0..50u32 {
        assert!(rank(visibility(count, 40)) <= rank(visibility(count + 1, 40)));
    }
}

#[test]
fn rows_of_origins() {
    let entry = |origin: i64, peer_count: i64| OriginEntry {
        prefix: "1.1.1.0/24".to_string(),
        origin,
        rpki_validation: "Valid".to_string(),
        peer_count,
        percent: "90.00".to_string(),
    };
    assert_eq!(
        origin_rows(&vec![entry(13335, 90), entry(-1, (1 << 32) + 1)], 100),
        vec![
            OriginRow {
                prefix: "1.1.1.0/24".to_string(),
                origin: "as13335".to_string(),
                rpki: "valid".to_string(),
                visibility: "high (90.00%)".to_string(),
            },
            OriginRow {
                prefix: "1.1.1.0/24".to_string(),
                origin: "as-1".to_string(),
                rpki: "valid".to_string(),
                visibility: "low (90.00%)".to_string(),
            },
        ]
    );
    assert!(origin_rows(&vec![], 100).is_empty());
    assert_eq!(list_origins(&vec![entry(13335, 90)], 100).unwrap().len(), 1);
    assert_eq!(
        list_origins(&vec![], 100).unwrap_err(),
        "no prefix origins found for the given query"
    );
}
