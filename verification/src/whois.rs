//! Lookup of AS numbers and organizations: what is searched, and how results are listed.
use vstd::prelude::*;

use crate::decimal::{decimal, u64_to_string};

verus! {

/// What a query is compared with.
#[derive(Debug, Clone, Copy, PartialEq, Eq, Structural)]
pub enum SearchType {
    AsnOnly,
    NameOnly,
    CountryOnly,
    Guess,
}

/// What is said where a search is asked for by name only and by AS number only.
pub open spec fn both_only_text() -> Seq<char> {
    "name-only and asn-only cannot be both true"@
}

/// Decides what queries are compared with. A search by name only and by AS number only is
/// refused, and one by country only leaves both aside.
pub fn search_type(name_only: bool, asn_only: bool, country_only: bool) -> (res: Result<
    SearchType,
    String,
>)
    ensures
        res is Err <==> name_only && asn_only,
        res matches Err(text) ==> text@ == both_only_text(),
        res matches Ok(kind) ==> kind == (if country_only {
            SearchType::CountryOnly
        } else if name_only {
            SearchType::NameOnly
        } else if asn_only {
            SearchType::AsnOnly
        } else {
            SearchType::Guess
        }),
{
    let kind = match (name_only, asn_only) {
        (true, false) => SearchType::NameOnly,
        (false, true) => SearchType::AsnOnly,
        (false, false) => SearchType::Guess,
        (true, true) => {
            return Err("name-only and asn-only cannot be both true".to_string());
        },
    };
    if country_only {
        Ok(SearchType::CountryOnly)
    } else {
        Ok(kind)
    }
}

/// An AS number with its name and its organization.
#[derive(Debug, PartialEq, Eq)]
pub struct SearchResult {
    pub asn: u32,
    pub as_name: String,
    pub org_name: String,
    pub org_id: String,
    pub org_country: String,
    pub org_size: u32,
}

/// An AS number with its name, and the name and country of its organization.
#[derive(Debug, PartialEq, Eq)]
pub struct SearchResultConcise {
    pub asn: u32,
    pub as_name: String,
    pub org_name: String,
    pub org_country: String,
}

/// The results for one AS number, in the order in which they stand.
pub open spec fn with_asn(results: Seq<SearchResult>, asn: u32) -> Seq<SearchResult>
    decreases results.len(),
{
    if results.len() == 0 {
        Seq::empty()
    } else if results.last().asn == asn {
        with_asn(results.drop_last(), asn).push(results.last())
    } else {
        with_asn(results.drop_last(), asn)
    }
}

/// Whether results are in the order of their AS numbers.
pub open spec fn in_asn_order(results: Seq<SearchResult>) -> bool {
    forall|i: int, j: int|
        0 <= i < j < results.len() ==> #[trigger] results[i].asn <= #[trigger] results[j].asn
}

/// Whether `sorted` holds the results of `results` in the order of their AS numbers, those of
/// one AS number in the order in which they stood.
pub open spec fn is_ordering(sorted: Seq<SearchResult>, results: Seq<SearchResult>) -> bool {
    &&& in_asn_order(sorted)
    &&& forall|asn: u32| #[trigger] with_asn(sorted, asn) == with_asn(results, asn)
}

proof fn lemma_with_asn_add(a: Seq<SearchResult>, b: Seq<SearchResult>, asn: u32)
    ensures
        with_asn(a + b, asn) == with_asn(a, asn) + with_asn(b, asn),
    decreases b.len(),
{
    if b.len() == 0 {
        assert(a + b =~= a);
        assert(with_asn(a, asn) + with_asn(b, asn) =~= with_asn(a, asn));
    } else {
        lemma_with_asn_add(a, b.drop_last(), asn);
        assert((a + b).drop_last() =~= a + b.drop_last());
        assert(with_asn(a + b, asn) =~= with_asn(a, asn) + with_asn(b, asn));
    }
}

proof fn lemma_with_asn_none(a: Seq<SearchResult>, asn: u32)
    requires
        forall|i: int| 0 <= i < a.len() ==> (#[trigger] a[i]).asn != asn,
    ensures
        with_asn(a, asn) == Seq::<SearchResult>::empty(),
    decreases a.len(),
{
    if a.len() > 0 {
        lemma_with_asn_none(a.drop_last(), asn);
    }
}

/// The step of a merge that takes the last result of `a` or of `b` to the front of `tail`.
proof fn lemma_merge_step(
    a: Seq<SearchResult>,
    b: Seq<SearchResult>,
    tail: Seq<SearchResult>,
    from_a: bool,
    asn: u32,
)
    requires
        from_a ==> a.len() > 0,
        !from_a ==> b.len() > 0,
        from_a ==> forall|i: int| 0 <= i < b.len() ==> (#[trigger] b[i]).asn < a.last().asn,
    ensures
        ({
            let x = if from_a { a.last() } else { b.last() };
            let a1 = if from_a { a.drop_last() } else { a };
            let b1 = if from_a { b } else { b.drop_last() };
            with_asn(a, asn) + with_asn(b, asn) + with_asn(tail, asn) == with_asn(a1, asn)
                + with_asn(b1, asn) + with_asn(seq![x] + tail, asn)
        }),
{
    let x = if from_a { a.last() } else { b.last() };
    let one = seq![x];
    lemma_with_asn_add(one, tail, asn);
    assert(one.drop_last() =~= Seq::<SearchResult>::empty());
    reveal_with_fuel(with_asn, 2);
    if from_a && x.asn == asn {
        lemma_with_asn_none(b, asn);
    }
    let a1 = if from_a { a.drop_last() } else { a };
    let b1 = if from_a { b } else { b.drop_last() };
    assert(with_asn(a, asn) + with_asn(b, asn) + with_asn(tail, asn) =~= with_asn(a1, asn)
        + with_asn(b1, asn) + with_asn(one + tail, asn));
}

/// Puts the results of a vector in the reverse order.
fn reverse(results: Vec<SearchResult>) -> (res: Vec<SearchResult>)
    ensures
        res@ == results@.reverse(),
{
    let ghost all = results@;
    let mut from = results;
    let mut to: Vec<SearchResult> = Vec::new();
    while from.len() > 0
        invariant
            from@.len() <= all.len(),
            from@ == all.take(from@.len() as int),
            to@ == all.skip(from@.len() as int).reverse(),
        decreases from@.len(),
    {
        let ghost n = from@.len() as int;
        match from.pop() {
            Some(x) => {
                to.push(x);
                assert(to@ =~= all.skip(n - 1).reverse());
                assert(from@ =~= all.take(n - 1));
            },
            None => {},
        }
    }
    assert(all.skip(0) =~= all);
    to
}

/// Merges ordered results; of one AS number, those of `first` come first.
fn merge(first: Vec<SearchResult>, second: Vec<SearchResult>) -> (res: Vec<SearchResult>)
    requires
        in_asn_order(first@),
        in_asn_order(second@),
    ensures
        is_ordering(res@, first@ + second@),
{
    let mut a = first;
    let mut b = second;
    let mut out: Vec<SearchResult> = Vec::new();
    while a.len() > 0 || b.len() > 0
        invariant
            in_asn_order(a@),
            in_asn_order(b@),
            in_asn_order(out@.reverse()),
            forall|i: int, j: int|
                0 <= i < a@.len() && 0 <= j < out@.len() ==> (#[trigger] a@[i]).asn
                    <= (#[trigger] out@[j]).asn,
            forall|i: int, j: int|
                0 <= i < b@.len() && 0 <= j < out@.len() ==> (#[trigger] b@[i]).asn
                    <= (#[trigger] out@[j]).asn,
            forall|asn: u32| #[trigger]
                with_asn(first@, asn) + with_asn(second@, asn) == with_asn(a@, asn) + with_asn(
                    b@,
                    asn,
                ) + with_asn(out@.reverse(), asn),
        decreases a@.len() + b@.len(),
    {
        let ghost a0 = a@;
        let ghost b0 = b@;
        let ghost out0 = out@;
        let from_a = if a.len() == 0 {
            false
        } else if b.len() == 0 {
            true
        } else {
            a[a.len() - 1].asn > b[b.len() - 1].asn
        };
        let popped = if from_a {
            a.pop()
        } else {
            b.pop()
        };
        match popped {
            Some(x) => {
                out.push(x);
                proof {
                    assert(out@.reverse() =~= seq![x] + out0.reverse());
                    assert forall|asn: u32| #[trigger]
                        with_asn(first@, asn) + with_asn(second@, asn) == with_asn(a@, asn)
                            + with_asn(b@, asn) + with_asn(out@.reverse(), asn) by {
                        lemma_merge_step(a0, b0, out0.reverse(), from_a, asn);
                    }
                    let tail = out@.reverse();
                    assert forall|i: int, j: int| 0 <= i < j < tail.len() implies (
                    #[trigger] tail[i]).asn <= (#[trigger] tail[j]).asn by {
                        if i == 0 {
                            assert(tail[j] == out0.reverse()[j - 1]);
                            assert(tail[j] == out0[out0.len() - j]);
                        } else {
                            assert(tail[i] == out0.reverse()[i - 1]);
                            assert(tail[j] == out0.reverse()[j - 1]);
                        }
                    }
                }
            },
            None => {},
        }
    }
    let res = reverse(out);
    proof {
        assert forall|asn: u32| #[trigger] with_asn(res@, asn) == with_asn(
            first@ + second@,
            asn,
        ) by {
            lemma_with_asn_add(first@, second@, asn);
            assert(with_asn(first@, asn) + with_asn(second@, asn) =~= with_asn(res@, asn));
        }
    }
    res
}

/// Orders results by their AS numbers; those of one AS number stay in the order in which they
/// stand.
pub fn order_results(results: Vec<SearchResult>) -> (res: Vec<SearchResult>)
    ensures
        is_ordering(res@, results@),
    decreases results@.len(),
{
    if results.len() <= 1 {
        return results;
    }
    let ghost all = results@;
    let mut first = results;
    let second = first.split_off(first.len() / 2);
    let ghost a = first@;
    let ghost b = second@;
    assert(all =~= a + b);
    let first = order_results(first);
    let second = order_results(second);
    let res = merge(first, second);
    proof {
        assert forall|asn: u32| #[trigger] with_asn(res@, asn) == with_asn(all, asn) by {
            lemma_with_asn_add(a, b, asn);
            lemma_with_asn_add(first@, second@, asn);
            assert(with_asn(first@, asn) == with_asn(a, asn));
            assert(with_asn(second@, asn) == with_asn(b, asn));
        }
    }
    res
}

proof fn lemma_orderings_end_alike(
    one: Seq<SearchResult>,
    other: Seq<SearchResult>,
)
    requires
        in_asn_order(one),
        in_asn_order(other),
        forall|asn: u32| #[trigger] with_asn(one, asn) == with_asn(other, asn),
        one.len() > 0,
    ensures
        other.len() > 0,
        one.last().asn <= other.last().asn,
{
    let asn = one.last().asn;
    assert(with_asn(one, asn).len() > 0);
    assert(with_asn(other, asn) == with_asn(one, asn));
    if forall|i: int| 0 <= i < other.len() ==> (#[trigger] other[i]).asn != asn {
        lemma_with_asn_none(other, asn);
    }
    let i = choose|i: int| 0 <= i < other.len() && (#[trigger] other[i]).asn == asn;
    assert(i < other.len() - 1 ==> other[i].asn <= other[other.len() - 1].asn);
}

/// Results have one ordering.
pub proof fn ordering_is_unique(
    one: Seq<SearchResult>,
    other: Seq<SearchResult>,
    results: Seq<SearchResult>,
)
    requires
        is_ordering(one, results),
        is_ordering(other, results),
    ensures
        one == other,
    decreases one.len(),
{
    assert forall|asn: u32| #[trigger] with_asn(one, asn) == with_asn(other, asn) by {
        assert(with_asn(one, asn) == with_asn(results, asn));
        assert(with_asn(other, asn) == with_asn(results, asn));
    }
    if one.len() == 0 {
        if other.len() > 0 {
            lemma_orderings_end_alike(other, one);
        }
        assert(one =~= other);
    } else {
        lemma_orderings_end_alike(one, other);
        lemma_orderings_end_alike(other, one);
        let asn = one.last().asn;
        assert(with_asn(one, asn) == with_asn(other, asn));
        assert(with_asn(one, asn).last() == one.last());
        assert(with_asn(other, asn).last() == other.last());
        let one1 = one.drop_last();
        let other1 = other.drop_last();
        assert forall|asn: u32| #[trigger] with_asn(one1, asn) == with_asn(other1, asn) by {
            assert(with_asn(one, asn) == with_asn(other, asn));
            if one.last().asn == asn {
                assert(with_asn(one, asn).drop_last() =~= with_asn(one1, asn));
                assert(with_asn(other, asn).drop_last() =~= with_asn(other1, asn));
            }
        }
        ordering_is_unique(one1, other1, one1);
        assert(one =~= one1.push(one.last()));
        assert(other =~= other1.push(other.last()));
    }
}

proof fn lemma_count_with_asn(results: Seq<SearchResult>, x: SearchResult)
    ensures
        results.to_multiset().count(x) == with_asn(results, x.asn).to_multiset().count(x),
    decreases results.len(),
{
    broadcast use vstd::seq_lib::group_to_multiset_ensures;

    if results.len() > 0 {
        lemma_count_with_asn(results.drop_last(), x);
        assert(results =~= results.drop_last().push(results.last()));
    } else {
        assert(with_asn(results, x.asn) =~= results);
    }
}

/// An ordering drops no result and adds none.
pub proof fn ordering_keeps_all_results(sorted: Seq<SearchResult>, results: Seq<SearchResult>)
    requires
        is_ordering(sorted, results),
    ensures
        sorted.to_multiset() == results.to_multiset(),
        sorted.len() == results.len(),
{
    broadcast use vstd::seq_lib::group_to_multiset_ensures;

    assert forall|x: SearchResult| #[trigger]
        sorted.to_multiset().count(x) == results.to_multiset().count(x) by {
        lemma_count_with_asn(sorted, x);
        lemma_count_with_asn(results, x);
        assert(with_asn(sorted, x.asn) == with_asn(results, x.asn));
    }
    assert(sorted.to_multiset() =~= results.to_multiset());
    assert(sorted.to_multiset().len() == results.to_multiset().len());
}

/// Whether `short` holds what is shown of `result`, where not all of it is shown.
pub open spec fn is_concise(short: SearchResultConcise, result: SearchResult) -> bool {
    &&& short.asn == result.asn
    &&& short.as_name == result.as_name
    &&& short.org_name == result.org_name
    &&& short.org_country == result.org_country
}

/// The results without the identifiers and sizes of their organizations.
pub fn concise(results: &Vec<SearchResult>) -> (res: Vec<SearchResultConcise>)
    ensures
        res@.len() == results@.len(),
        forall|i: int| 0 <= i < res@.len() ==> is_concise(#[trigger] res@[i], results@[i]),
{
    let mut res: Vec<SearchResultConcise> = Vec::new();
    for i in 0..results.len()
        invariant
            res@.len() == i,
            forall|j: int| 0 <= j < i ==> is_concise(#[trigger] res@[j], results@[j]),
    {
        let result = &results[i];
        res.push(
            SearchResultConcise {
                asn: result.asn,
                as_name: result.as_name.clone(),
                org_name: result.org_name.clone(),
                org_country: result.org_country.clone(),
            },
        );
    }
    res
}

/// The header of the pipe-separated list.
pub open spec fn psv_header(full: bool) -> Seq<char> {
    if full {
        "asn|asn_name|org_name|org_id|org_country|org_size"@
    } else {
        "asn|asn_name|org_name|org_country"@
    }
}

/// The pipe-separated line of a result.
pub open spec fn psv_line(result: SearchResult, full: bool) -> Seq<char> {
    let head = decimal(result.asn as nat) + "|"@ + result.as_name@ + "|"@ + result.org_name@;
    if full {
        head + "|"@ + result.org_id@ + "|"@ + result.org_country@ + "|"@ + decimal(
            result.org_size as nat,
        )
    } else {
        head + "|"@ + result.org_country@
    }
}

/// Lists results as pipe-separated lines under a header.
pub fn psv_lines(results: &Vec<SearchResult>, full: bool) -> (res: Vec<String>)
    ensures
        res@.len() == results@.len() + 1,
        res@[0]@ == psv_header(full),
        forall|i: int|
            0 <= i < results@.len() ==> (#[trigger] res@[i + 1])@ == psv_line(results@[i], full),
{
    let mut res: Vec<String> = Vec::new();
    if full {
        res.push("asn|asn_name|org_name|org_id|org_country|org_size".to_string());
    } else {
        res.push("asn|asn_name|org_name|org_country".to_string());
    }
    for i in 0..results.len()
        invariant
            res@.len() == i + 1,
            res@[0]@ == psv_header(full),
            forall|j: int| 0 <= j < i ==> (#[trigger] res@[j + 1])@ == psv_line(results@[j], full),
    {
        let result = &results[i];
        let head = u64_to_string(result.asn as u64).concat("|").concat(
            result.as_name.as_str(),
        ).concat("|").concat(result.org_name.as_str());
        let line = if full {
            head.concat("|").concat(result.org_id.as_str()).concat("|").concat(
                result.org_country.as_str(),
            ).concat("|").concat(u64_to_string(result.org_size as u64).as_str())
        } else {
            head.concat("|").concat(result.org_country.as_str())
        };
        res.push(line);
    }
    res
}

/// The borders of a table.
#[derive(Debug, Clone, Copy, PartialEq, Eq, Structural)]
pub enum TableStyle {
    Rounded,
    Markdown,
}

/// How results are shown.
#[derive(Debug, PartialEq, Eq)]
pub enum Listing {
    /// As pipe-separated lines.
    Lines(Vec<String>),
    /// As a table without the identifiers and sizes of organizations.
    Concise(Vec<SearchResultConcise>, TableStyle),
    /// As a table of everything.
    Full(Vec<SearchResult>, TableStyle),
}

impl Listing {
    /// Whether the listing shows these results, in their order, in the form asked for.
    pub open spec fn shows(
        self,
        results: Seq<SearchResult>,
        full_table: bool,
        psv: bool,
        pretty: bool,
    ) -> bool {
        let wanted = if pretty {
            TableStyle::Rounded
        } else {
            TableStyle::Markdown
        };
        if psv {
            &&& self matches Listing::Lines(lines)
            &&& lines@.len() == results.len() + 1
            &&& lines@[0]@ == psv_header(full_table)
            &&& forall|i: int|
                0 <= i < results.len() ==> (#[trigger] lines@[i + 1])@ == psv_line(
                    results[i],
                    full_table,
                )
        } else if full_table {
            &&& self matches Listing::Full(rows, style)
            &&& rows@ == results
            &&& style == wanted
        } else {
            &&& self matches Listing::Concise(rows, style)
            &&& rows@.len() == results.len()
            &&& forall|i: int| 0 <= i < rows@.len() ==> is_concise(#[trigger] rows@[i], results[i])
            &&& style == wanted
        }
    }
}

/// Orders results and lists them: as pipe-separated lines where these are asked for, and else
/// as a table.
pub fn list_results(
    results: Vec<SearchResult>,
    full_table: bool,
    psv: bool,
    pretty: bool,
) -> (res: Listing)
    ensures
        exists|sorted: Seq<SearchResult>| #[trigger]
            is_ordering(sorted, results@) && res.shows(sorted, full_table, psv, pretty),
{
    let sorted = order_results(results);
    let ghost rows = sorted@;
    assert(is_ordering(rows, results@));
    let style = if pretty {
        TableStyle::Rounded
    } else {
        TableStyle::Markdown
    };
    if psv {
        Listing::Lines(psv_lines(&sorted, full_table))
    } else if full_table {
        Listing::Full(sorted, style)
    } else {
        Listing::Concise(concise(&sorted), style)
    }
}

/// Whether `places` are the places that `sorted` has its results from: each place of `results`
/// once, by AS number, and for one AS number from the first to the last.
pub open spec fn are_sorted_places(
    places: Seq<int>,
    sorted: Seq<SearchResult>,
    results: Seq<SearchResult>,
) -> bool {
    &&& places.len() == results.len()
    &&& sorted.len() == results.len()
    &&& places.no_duplicates()
    &&& forall|i: int| 0 <= i < places.len() ==> 0 <= #[trigger] places[i] < results.len()
    &&& forall|i: int| 0 <= i < places.len() ==> sorted[i] == results[#[trigger] places[i]]
    &&& forall|i: int, j: int|
        0 <= i < j < places.len() ==> {
            ||| results[#[trigger] places[i]].asn < results[#[trigger] places[j]].asn
            ||| results[places[i]].asn == results[places[j]].asn && places[i] < places[j]
        }
}

proof fn lemma_last_with_asn(sorted: Seq<SearchResult>, asn: u32) -> (p: int)
    requires
        with_asn(sorted, asn).len() > 0,
    ensures
        0 <= p < sorted.len(),
        sorted[p].asn == asn,
        sorted[p] == with_asn(sorted, asn).last(),
        forall|i: int| p < i < sorted.len() ==> (#[trigger] sorted[i]).asn != asn,
    decreases sorted.len(),
{
    if sorted.last().asn == asn {
        sorted.len() - 1
    } else {
        let p = lemma_last_with_asn(sorted.drop_last(), asn);
        assert forall|i: int| p < i < sorted.len() implies (#[trigger] sorted[i]).asn != asn by {
            if i < sorted.len() - 1 {
                assert(sorted.drop_last()[i].asn != asn);
            }
        }
        p
    }
}

proof fn lemma_without_last_with_asn(sorted: Seq<SearchResult>, p: int, asn: u32)
    requires
        0 <= p < sorted.len(),
        forall|i: int| p < i < sorted.len() ==> (#[trigger] sorted[i]).asn != sorted[p].asn,
    ensures
        with_asn(sorted.remove(p), asn) == (if asn == sorted[p].asn {
            with_asn(sorted, asn).drop_last()
        } else {
            with_asn(sorted, asn)
        }),
{
    let a = sorted.take(p);
    let one = seq![sorted[p]];
    let b = sorted.skip(p + 1);
    assert(sorted =~= a + one + b);
    assert(sorted.remove(p) =~= a + b);
    lemma_with_asn_add(a + one, b, asn);
    lemma_with_asn_add(a, one, asn);
    lemma_with_asn_add(a, b, asn);
    reveal_with_fuel(with_asn, 2);
    assert(one.drop_last() =~= Seq::<SearchResult>::empty());
    if asn == sorted[p].asn {
        assert forall|i: int| 0 <= i < b.len() implies (#[trigger] b[i]).asn != asn by {
            assert(b[i] == sorted[p + 1 + i]);
        }
        lemma_with_asn_none(b, asn);
        assert(with_asn(one, asn) =~= one);
        assert(with_asn(sorted, asn) =~= with_asn(a, asn).push(sorted[p]));
        assert(with_asn(sorted, asn).drop_last() =~= with_asn(a, asn));
        assert(with_asn(sorted.remove(p), asn) =~= with_asn(a, asn));
    } else {
        assert(with_asn(one, asn) =~= Seq::<SearchResult>::empty());
        assert(with_asn(sorted, asn) =~= with_asn(a, asn) + with_asn(b, asn));
    }
}

proof fn lemma_places(sorted: Seq<SearchResult>, results: Seq<SearchResult>) -> (places: Seq<int>)
    requires
        is_ordering(sorted, results),
    ensures
        are_sorted_places(places, sorted, results),
    decreases results.len(),
{
    if results.len() == 0 {
        if sorted.len() > 0 {
            let asn = sorted.last().asn;
            assert(with_asn(sorted, asn).len() > 0);
            assert(with_asn(results, asn).len() == 0);
        }
        Seq::empty()
    } else {
        let n = results.len() - 1;
        let last = results.last();
        let before = results.drop_last();
        assert(with_asn(sorted, last.asn) == with_asn(results, last.asn));
        let p = lemma_last_with_asn(sorted, last.asn);
        assert(sorted[p] == last);
        let rest = sorted.remove(p);
        assert forall|asn: u32| #[trigger] with_asn(rest, asn) == with_asn(before, asn) by {
            lemma_without_last_with_asn(sorted, p, asn);
            assert(with_asn(sorted, asn) == with_asn(results, asn));
            assert(with_asn(before, last.asn).push(last).drop_last() =~= with_asn(before, last.asn));
        }
        assert(in_asn_order(rest)) by {
            assert forall|i: int, j: int| 0 <= i < j < rest.len() implies #[trigger] rest[i].asn
                <= #[trigger] rest[j].asn by {
                let i1 = if i < p { i } else { i + 1 };
                let j1 = if j < p { j } else { j + 1 };
                assert(rest[i] == sorted[i1] && rest[j] == sorted[j1]);
            }
        }
        let fewer = lemma_places(rest, before);
        let places = fewer.insert(p, n);
        assert(sorted.len() == rest.len() + 1);
        assert forall|i: int| 0 <= i < places.len() implies 0 <= #[trigger] places[i]
            < results.len() && sorted[i] == results[places[i]] by {
            if i < p {
                assert(places[i] == fewer[i]);
                assert(rest[i] == sorted[i]);
                assert(before[fewer[i]] == results[fewer[i]]);
            } else if i > p {
                assert(places[i] == fewer[i - 1]);
                assert(rest[i - 1] == sorted[i]);
                assert(before[fewer[i - 1]] == results[fewer[i - 1]]);
            }
        }
        assert forall|i: int, j: int| 0 <= i < j < places.len() implies {
            ||| results[#[trigger] places[i]].asn < results[#[trigger] places[j]].asn
            ||| results[places[i]].asn == results[places[j]].asn && places[i] < places[j]
        } by {
            assert(sorted[i] == results[places[i]] && sorted[j] == results[places[j]]);
            assert(sorted[i].asn <= sorted[j].asn);
            if j == p {
                assert(places[i] == fewer[i]);
                assert(places[i] < n);
            } else if i == p {
                assert(sorted[j].asn != last.asn);
            } else {
                let i1 = if i < p { i } else { i - 1 };
                let j1 = if j < p { j } else { j - 1 };
                assert(places[i] == fewer[i1] && places[j] == fewer[j1]);
                assert(before[fewer[i1]] == results[fewer[i1]]);
                assert(before[fewer[j1]] == results[fewer[j1]]);
            }
        }
        assert(places.no_duplicates()) by {
            assert forall|i: int, j: int|
                0 <= i < places.len() && 0 <= j < places.len() && i != j implies places[i]
                != places[j] by {
                if i < j {
                    assert(results[places[i]].asn < results[places[j]].asn || places[i]
                        < places[j]);
                } else {
                    assert(results[places[j]].asn < results[places[i]].asn || places[j]
                        < places[i]);
                }
            }
        }
        places
    }
}

/// Ordering results puts each of them in one place: by AS number, and for one AS number in the
/// order in which they stood.
pub proof fn every_result_has_one_place(results: Vec<SearchResult>, sorted: Vec<SearchResult>)
    requires
        call_ensures(order_results, (results,), sorted),
    ensures
        sorted@.len() == results@.len(),
        sorted@.to_multiset() == results@.to_multiset(),
        exists|places: Seq<int>| are_sorted_places(places, sorted@, results@),
{
    ordering_keeps_all_results(sorted@, results@);
    let places = lemma_places(sorted@, results@);
    assert(are_sorted_places(places, sorted@, results@));
}

/// A listing has one row for each result that was found, or one line for each under a header,
/// however many they are, and shows each as it is: in the order of the AS numbers, and for one AS
/// number in the order in which they were found.
pub proof fn every_result_is_listed(
    results: Vec<SearchResult>,
    full_table: bool,
    psv: bool,
    pretty: bool,
    res: Listing,
)
    requires
        call_ensures(list_results, (results, full_table, psv, pretty), res),
    ensures
        res matches Listing::Lines(lines) ==> lines@.len() == results@.len() + 1,
        res matches Listing::Concise(rows, _) ==> rows@.len() == results@.len(),
        res matches Listing::Full(rows, _) ==> rows@.len() == results@.len(),
        exists|places: Seq<int>, sorted: Seq<SearchResult>| #[trigger]
            are_sorted_places(places, sorted, results@) && match res {
                Listing::Lines(lines) => forall|i: int|
                    0 <= i < sorted.len() ==> (#[trigger] lines@[i + 1])@ == (if full_table {
                        decimal(sorted[i].asn as nat) + "|"@ + sorted[i].as_name@ + "|"@
                            + sorted[i].org_name@ + "|"@ + sorted[i].org_id@ + "|"@
                            + sorted[i].org_country@ + "|"@ + decimal(sorted[i].org_size as nat)
                    } else {
                        decimal(sorted[i].asn as nat) + "|"@ + sorted[i].as_name@ + "|"@
                            + sorted[i].org_name@ + "|"@ + sorted[i].org_country@
                    }),
                Listing::Concise(rows, _) => forall|i: int|
                    0 <= i < sorted.len() ==> {
                        &&& (#[trigger] rows@[i]).asn == sorted[i].asn
                        &&& rows@[i].as_name == sorted[i].as_name
                        &&& rows@[i].org_name == sorted[i].org_name
                        &&& rows@[i].org_country == sorted[i].org_country
                    },
                Listing::Full(rows, _) => rows@ == sorted,
            },
{
    let sorted = choose|sorted: Seq<SearchResult>| #[trigger]
        is_ordering(sorted, results@) && res.shows(sorted, full_table, psv, pretty);
    ordering_keeps_all_results(sorted, results@);
    let places = lemma_places(sorted, results@);
    assert(are_sorted_places(places, sorted, results@));
    match res {
        Listing::Concise(rows, _) => {
            assert forall|i: int| 0 <= i < sorted.len() implies {
                &&& (#[trigger] rows@[i]).asn == sorted[i].asn
                &&& rows@[i].as_name == sorted[i].as_name
                &&& rows@[i].org_name == sorted[i].org_name
                &&& rows@[i].org_country == sorted[i].org_country
            } by {
                assert(is_concise(rows@[i], sorted[i]));
            }
        },
        _ => {},
    }
}

/// Pipe-separated lines come where they are asked for, under a header that names their columns;
/// else a table does, of everything where that is asked for, with round corners where it is to be
/// pretty.
pub proof fn listing_has_the_form_asked_for(
    results: Vec<SearchResult>,
    full_table: bool,
    psv: bool,
    pretty: bool,
    res: Listing,
)
    requires
        call_ensures(list_results, (results, full_table, psv, pretty), res),
    ensures
        res is Lines <==> psv,
        res is Full <==> !psv && full_table,
        res is Concise <==> !psv && !full_table,
        res matches Listing::Lines(lines) ==> lines@[0]@ == (if full_table {
            "asn|asn_name|org_name|org_id|org_country|org_size"@
        } else {
            "asn|asn_name|org_name|org_country"@
        }),
        res matches Listing::Concise(_, style) ==> (style is Rounded <==> pretty),
        res matches Listing::Full(_, style) ==> (style is Rounded <==> pretty),
{
    let sorted = choose|sorted: Seq<SearchResult>| #[trigger]
        is_ordering(sorted, results@) && res.shows(sorted, full_table, psv, pretty);
}

/// Results are shortened one by one, and keep their AS number, its name, and the name and the
/// country of its organization.
pub proof fn shortened_results_keep_four_fields(
    results: Vec<SearchResult>,
    short: Vec<SearchResultConcise>,
    i: int,
)
    requires
        call_ensures(concise, (&results,), short),
        0 <= i < results@.len(),
    ensures
        short@.len() == results@.len(),
        short@[i].asn == results@[i].asn,
        short@[i].as_name == results@[i].as_name,
        short@[i].org_name == results@[i].org_name,
        short@[i].org_country == results@[i].org_country,
{
    assert(is_concise(short@[i], results@[i]));
}

/// Every result has a line of its own under the header, with its fields in the header's order.
pub proof fn every_result_has_a_line(
    results: Vec<SearchResult>,
    full: bool,
    lines: Vec<String>,
    i: int,
    asn: String,
    size: String,
)
    requires
        call_ensures(psv_lines, (&results, full), lines),
        0 <= i < results@.len(),
        call_ensures(u64_to_string, (results@[i].asn as u64,), asn),
        call_ensures(u64_to_string, (results@[i].org_size as u64,), size),
    ensures
        lines@.len() == results@.len() + 1,
        lines@[0]@ == (if full {
            "asn|asn_name|org_name|org_id|org_country|org_size"@
        } else {
            "asn|asn_name|org_name|org_country"@
        }),
        lines@[i + 1]@ == (if full {
            asn@ + "|"@ + results@[i].as_name@ + "|"@ + results@[i].org_name@ + "|"@
                + results@[i].org_id@ + "|"@ + results@[i].org_country@ + "|"@ + size@
        } else {
            asn@ + "|"@ + results@[i].as_name@ + "|"@ + results@[i].org_name@ + "|"@
                + results@[i].org_country@
        }),
{
}

/// A search by name only and by AS number only is refused, with or without the country; one by
/// country only compares countries alone.
pub proof fn search_is_by_what_was_asked_for(
    name_only: bool,
    asn_only: bool,
    country_only: bool,
    res: Result<SearchType, String>,
)
    requires
        call_ensures(search_type, (name_only, asn_only, country_only), res),
    ensures
        name_only && asn_only ==> (res matches Err(said) && said@
            == "name-only and asn-only cannot be both true"@),
        !(name_only && asn_only) ==> {
            &&& res is Ok
            &&& res->Ok_0 is CountryOnly <==> country_only
            &&& res->Ok_0 is NameOnly <==> name_only && !country_only
            &&& res->Ok_0 is AsnOnly <==> asn_only && !country_only
        },
{
}

} // verus!
