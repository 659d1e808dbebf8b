use monocle_cli::whois::{
    concise, list_results, order_results, psv_lines, search_type, Listing, SearchResult,
    SearchResultConcise, SearchType, TableStyle,
};

fn result(asn: u32, name: &str) -> SearchResult {
    SearchResult {
        asn,
        as_name: name.to_string(),
        org_name: "Org".to_string(),
        org_id: "ID-1".to_string(),
        org_country: "US".to_string(),
        org_size: 2,
    }
}

#[test]
fn search_types() {
    assert_eq!(search_type(false, false, false), Ok(SearchType::Guess));
    assert_eq!(search_type(true, false, false), Ok(SearchType::NameOnly));
    assert_eq!(search_type(false, true, false), Ok(SearchType::AsnOnly));
    assert_eq!(search_type(false, false, true), Ok(SearchType::CountryOnly));
    assert_eq!(search_type(true, false, true), Ok(SearchType::CountryOnly));
    for country_only in [false, true] {
        assert_eq!(
            search_type(true, true, country_only).unwrap_err(),
            "name-only and asn-only cannot be both true"
        );
    }
}

#[test]
fn results_are_ordered_by_asn() {
    let asns = [5u32, 3, 9, 3, 1, 5, 5, 0, 4294967295, 3];
    let make = || {
        asns.iter()
            .enumerate()
            .map(|(i, asn)| result(*asn, &i.to_string()))
            .collect::<Vec<_>>()
    };
    let mut expected = make();
    expected.sort_by_key(|r| r.asn);
    assert_eq!(order_results(make()), expected);
    assert_eq!(order_results(vec![]), vec![]);
    assert_eq!(order_results(vec![result(1, "a")]), vec![result(1, "a")]);
}

#[test]
fn many_results_are_ordered() {
    let mut x: u32 = 7;
    let mut asns: Vec<u32> = vec![];
    for _ in 0..20_000 {
        x = x.wrapping_mul(1_664_525).wrapping_add(1_013_904_223);
        asns.push(x >> 20);
    }
    let make = || {
        asns.iter()
            .enumerate()
            .map(|(i, asn)| result(*asn, &i.to_string()))
            .collect::<Vec<_>>()
    };
    let mut expected = make();
    expected.sort_by_key(|r| r.asn);
    assert_eq!(order_results(make()), expected);
}

#[test]
fn concise_results_leave_out_two_columns() {
    assert_eq!(
        concise(&vec![result(13335, "CLOUDFLARENET")]),
        vec![SearchResultConcise {
            asn: 13335,
            as_name: "CLOUDFLARENET".to_string(),
            org_name: "Org".to_string(),
            org_country: "US".to_string(),
        }]
    );
}

#[test]
fn results_as_pipe_separated_values() {
    let results = vec![result(13335, "CLOUDFLARENET"), result(0, "")];
    assert_eq!(
        psv_lines(&results, false),
        vec![
            "asn|asn_name|org_name|org_country",
            "13335|CLOUDFLARENET|Org|US",
            "0||Org|US"
        ]
    );
    assert_eq!(
        psv_lines(&results, true),
        vec![
            "asn|asn_name|org_name|org_id|org_country|org_size",
            "13335|CLOUDFLARENET|Org|ID-1|US|2",
            "0||Org|ID-1|US|2"
        ]
    );
    assert_eq!(psv_lines(&vec![], false).len(), 1);
}

#[test]
fn listings_of_results() {
    let make = || vec![result(2, "b"), result(1, "a")];
    let sorted = || vec![result(1, "a"), result(2, "b")];
    assert_eq!(
        list_results(make(), true, false, true),
        Listing::Full(sorted(), TableStyle::Rounded)
    );
    assert_eq!(
        list_results(make(), false, false, false),
        Listing::Concise(concise(&sorted()), TableStyle::Markdown)
    );
    for full in [false, true] {
        for pretty in [false, true] {
            assert_eq!(
                list_results(make(), full, true, pretty),
                Listing::Lines(psv_lines(&sorted(), full))
            );
        }
    }
}
