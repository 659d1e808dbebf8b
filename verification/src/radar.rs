//! Routing statistics and prefix origins: what is asked for, and how replies are tabled.
use vstd::prelude::*;

use crate::decimal::{decimal, i64_to_string, parse_u32, signed_decimal, u32_of_text, u64_to_string};

verus! {

/// What routing statistics are about.
#[derive(Debug, PartialEq, Eq)]
pub enum StatsScope {
    Global,
    Country(String),
    Asn(u32),
}

impl StatsScope {
    /// What a query asks for: an AS number, or else a country; without one, all routes.
    pub fn of_query(query: Option<String>) -> (res: StatsScope)
        ensures
            res == (match query {
                None => StatsScope::Global,
                Some(q) => match u32_of_text(q@) {
                    Some(asn) => StatsScope::Asn(asn),
                    None => StatsScope::Country(q),
                },
            }),
    {
        match query {
            None => StatsScope::Global,
            Some(q) => match parse_u32(q.as_str()) {
                Some(asn) => StatsScope::Asn(asn),
                None => StatsScope::Country(q),
            },
        }
    }

    /// The AS number, where that is what is asked for.
    pub fn asn(&self) -> (res: Option<u32>)
        ensures
            res == (match *self {
                StatsScope::Asn(asn) => Some(asn),
                _ => None,
            }),
    {
        match self {
            StatsScope::Asn(asn) => Some(*asn),
            _ => None,
        }
    }

    /// The country, where that is what is asked for.
    pub fn country(&self) -> (res: Option<String>)
        ensures
            res == (match *self {
                StatsScope::Country(country) => Some(country),
                _ => None,
            }),
    {
        match self {
            StatsScope::Country(country) => Some(country.clone()),
            _ => None,
        }
    }

    /// The name of the scope.
    pub open spec fn spec_name(self) -> Seq<char> {
        match self {
            StatsScope::Global => "global"@,
            StatsScope::Country(country) => country@,
            StatsScope::Asn(asn) => "as"@ + decimal(asn as nat),
        }
    }

    /// The name of the scope.
    pub fn name(&self) -> (res: String)
        ensures
            res@ == self.spec_name(),
    {
        match self {
            StatsScope::Global => "global".to_string(),
            StatsScope::Country(country) => country.clone(),
            StatsScope::Asn(asn) => "as".to_string().concat(u64_to_string(*asn as u64).as_str()),
        }
    }
}

/// A count of routes, and the text of the percentage that it is of all.
#[derive(Debug, PartialEq, Eq)]
pub struct Share {
    pub count: u32,
    pub percent: String,
}

impl Share {
    pub open spec fn spec_cell(self) -> Seq<char> {
        decimal(self.count as nat) + " ("@ + self.percent@ + "%)"@
    }

    /// The count with its percentage.
    pub fn cell(&self) -> (res: String)
        ensures
            res@ == self.spec_cell(),
    {
        u64_to_string(self.count as u64).concat(" (").concat(self.percent.as_str()).concat("%)")
    }
}

/// The counts of routes of one address family, or of all.
#[derive(Debug, PartialEq, Eq)]
pub struct RouteCounts {
    pub origins: u32,
    pub prefixes: u32,
    pub valid: Share,
    pub invalid: Share,
    pub unknown: Share,
}

/// A row of the table of routing statistics.
#[derive(Debug, PartialEq, Eq)]
pub struct StatsRow {
    pub scope: String,
    pub origins: u32,
    pub prefixes: u32,
    pub rpki_valid: String,
    pub rpki_invalid: String,
    pub rpki_unknown: String,
}

impl StatsRow {
    /// Whether the row shows these counts under this name.
    pub open spec fn shows(self, name: Seq<char>, counts: RouteCounts) -> bool {
        &&& self.scope@ == name
        &&& self.origins == counts.origins
        &&& self.prefixes == counts.prefixes
        &&& self.rpki_valid@ == counts.valid.spec_cell()
        &&& self.rpki_invalid@ == counts.invalid.spec_cell()
        &&& self.rpki_unknown@ == counts.unknown.spec_cell()
    }

    /// The row that shows counts under a name.
    pub fn new(name: String, counts: &RouteCounts) -> (res: StatsRow)
        ensures
            res.shows(name@, *counts),
    {
        StatsRow {
            scope: name,
            origins: counts.origins,
            prefixes: counts.prefixes,
            rpki_valid: counts.valid.cell(),
            rpki_invalid: counts.invalid.cell(),
            rpki_unknown: counts.unknown.cell(),
        }
    }
}

/// The table of routing statistics: one row for all routes, one for those of IPv4 and one for
/// those of IPv6.
pub fn stats_rows(
    scope: &StatsScope,
    all: &RouteCounts,
    ipv4: &RouteCounts,
    ipv6: &RouteCounts,
) -> (res: Vec<StatsRow>)
    ensures
        res@.len() == 3,
        res@[0].shows(scope.spec_name(), *all),
        res@[1].shows(scope.spec_name() + " ipv4"@, *ipv4),
        res@[2].shows(scope.spec_name() + " ipv6"@, *ipv6),
{
    let mut rows: Vec<StatsRow> = Vec::new();
    rows.push(StatsRow::new(scope.name(), all));
    rows.push(StatsRow::new(scope.name().concat(" ipv4"), ipv4));
    rows.push(StatsRow::new(scope.name().concat(" ipv6"), ipv6));
    rows
}

/// What prefix origins are looked up by: an AS number, or else a prefix.
pub fn origin_query(query: String) -> (res: (Option<u32>, Option<String>))
    ensures
        res.0 == u32_of_text(query@),
        res.1 == (if u32_of_text(query@) is Some {
            None
        } else {
            Some(query)
        }),
        res.0 is Some <==> res.1 is None,
{
    match parse_u32(query.as_str()) {
        Some(asn) => (Some(asn), None),
        None => (None, Some(query)),
    }
}

/// The lower-case ASCII letter for an upper-case one; any other character stays.
pub open spec fn ascii_lower(c: char) -> char {
    if 'A' <= c <= 'Z' {
        (c as int + 32) as char
    } else {
        c
    }
}

/// The text that `str::to_lowercase` gives.
pub uninterp spec fn lowercase(text: Seq<char>) -> Seq<char>;

/// `str::to_lowercase`.
///
/// Claimed: the result depends on the text alone, and is named `lowercase`; of ASCII text, it
/// has the upper-case letters replaced one by one. What becomes of other letters is left
/// unsaid.
#[verifier::external_body]
fn to_lowercase(text: &str) -> (res: String)
    ensures
        res@ == lowercase(text@),
        vstd::utf8::is_ascii_chars(text@) ==> res@ == text@.map_values(|c: char| ascii_lower(c)),
{
    text.to_lowercase()
}

/// Whether a text in lower case is the name of an RPKI status.
pub open spec fn is_status(text: Seq<char>) -> bool {
    text == "valid"@ || text == "invalid"@ || text == "unknown"@
}

/// Tests whether a text in lower case is the name of an RPKI status.
pub fn names_status(text: &String) -> (res: bool)
    ensures
        res == is_status(text@),
{
    *text == "valid".to_string() || *text == "invalid".to_string() || *text
        == "unknown".to_string()
}

/// Checks the RPKI status that origins are filtered by: `valid`, `invalid` or `unknown`, in
/// letters of either case, which it keeps; or says what is wrong.
pub fn check_status(status: Option<String>) -> (res: Result<Option<String>, String>)
    ensures
        match status {
            None => res == Ok::<Option<String>, String>(None),
            Some(text) => if is_status(lowercase(text@)) {
                res == Ok::<Option<String>, String>(Some(text))
            } else {
                res matches Err(said) && said@ == "invalid rpki status: "@ + text@
            },
        },
        status is Some && vstd::utf8::is_ascii_chars(status->0@) ==> (res is Ok <==> is_status(
            status->0@.map_values(|c: char| ascii_lower(c)),
        )),
{
    match status {
        None => Ok(None),
        Some(text) => {
            if names_status(&to_lowercase(text.as_str())) {
                Ok(Some(text))
            } else {
                Err("invalid rpki status: ".to_string().concat(text.as_str()))
            }
        },
    }
}

/// How many of the peers see a route.
#[derive(Debug, Clone, Copy, PartialEq, Eq, Structural)]
pub enum Visibility {
    /// More than four fifths.
    High,
    /// From a fifth to four fifths.
    Mid,
    /// Less than a fifth.
    Low,
}

/// The visibility of a route that `count` of `total` peers see.
pub open spec fn visibility_of(count: u32, total: u32) -> Visibility {
    if 5 * count > 4 * total {
        Visibility::High
    } else if 5 * count < total {
        Visibility::Low
    } else {
        Visibility::Mid
    }
}

/// Rates how many of the peers see a route.
pub fn visibility(count: u32, total: u32) -> (res: Visibility)
    ensures
        res == visibility_of(count, total),
{
    let c: u64 = count as u64;
    let t: u64 = total as u64;
    if 5 * c > 4 * t {
        Visibility::High
    } else if 5 * c < t {
        Visibility::Low
    } else {
        Visibility::Mid
    }
}

/// The name of a visibility.
pub open spec fn visibility_name(v: Visibility) -> Seq<char> {
    match v {
        Visibility::High => "high"@,
        Visibility::Mid => "mid"@,
        Visibility::Low => "low"@,
    }
}

/// The text for a visibility and a percentage.
pub open spec fn visibility_text(count: u32, total: u32, percent: Seq<char>) -> Seq<char> {
    visibility_name(visibility_of(count, total)) + " ("@ + percent + "%)"@
}

/// Rates how many of the peers see a route, and shows the percentage that they are.
pub fn count_to_visibility(count: u32, total: u32, percent: &str) -> (res: String)
    ensures
        res@ == visibility_text(count, total, percent@),
{
    let name = match visibility(count, total) {
        Visibility::High => "high",
        Visibility::Mid => "mid",
        Visibility::Low => "low",
    };
    name.to_string().concat(" (").concat(percent).concat("%)")
}

/// A prefix and an AS that originates it, with the text of the percentage of peers that see it.
#[derive(Debug, PartialEq, Eq)]
pub struct OriginEntry {
    pub prefix: String,
    pub origin: i64,
    pub rpki_validation: String,
    pub peer_count: i64,
    pub percent: String,
}

/// A row of the table of prefix origins.
#[derive(Debug, PartialEq, Eq)]
pub struct OriginRow {
    pub prefix: String,
    pub origin: String,
    pub rpki: String,
    pub visibility: String,
}

impl OriginRow {
    /// Whether the row shows this entry.
    pub open spec fn shows(self, entry: OriginEntry, total_peers: i64) -> bool {
        &&& self.prefix == entry.prefix
        &&& self.origin@ == "as"@ + signed_decimal(entry.origin as int)
        &&& self.rpki@ == lowercase(entry.rpki_validation@)
        &&& vstd::utf8::is_ascii_chars(entry.rpki_validation@) ==> self.rpki@
            == entry.rpki_validation@.map_values(|c: char| ascii_lower(c))
        &&& self.visibility@ == visibility_text(
            entry.peer_count as u32,
            total_peers as u32,
            entry.percent@,
        )
    }
}

/// The table of prefix origins. Counts of peers are taken in 32 bits.
pub fn origin_rows(entries: &Vec<OriginEntry>, total_peers: i64) -> (res: Vec<OriginRow>)
    ensures
        res@.len() == entries@.len(),
        forall|i: int|
            0 <= i < res@.len() ==> (#[trigger] res@[i]).shows(entries@[i], total_peers),
{
    let mut rows: Vec<OriginRow> = Vec::new();
    for i in 0..entries.len()
        invariant
            rows@.len() == i,
            forall|j: int| 0 <= j < i ==> (#[trigger] rows@[j]).shows(entries@[j], total_peers),
    {
        let entry = &entries[i];
        let count: u32 = #[verifier::truncate]
        (entry.peer_count as u32);
        let total: u32 = #[verifier::truncate]
        (total_peers as u32);
        rows.push(
            OriginRow {
                prefix: entry.prefix.clone(),
                origin: "as".to_string().concat(i64_to_string(entry.origin).as_str()),
                rpki: to_lowercase(entry.rpki_validation.as_str()),
                visibility: count_to_visibility(count, total, entry.percent.as_str()),
            },
        );
    }
    rows
}

/// Lists prefix origins as the rows of a table, or says that there are none.
pub fn list_origins(entries: &Vec<OriginEntry>, total_peers: i64) -> (res: Result<
    Vec<OriginRow>,
    String,
>)
    ensures
        match res {
            Ok(rows) => {
                &&& entries@.len() > 0
                &&& rows@.len() == entries@.len()
                &&& forall|i: int|
                    0 <= i < rows@.len() ==> (#[trigger] rows@[i]).shows(entries@[i], total_peers)
            },
            Err(said) => {
                &&& entries@.len() == 0
                &&& said@ == "no prefix origins found for the given query"@
            },
        },
{
    if entries.len() == 0 {
        Err("no prefix origins found for the given query".to_string())
    } else {
        Ok(origin_rows(entries, total_peers))
    }
}

/// A rank for visibilities, the lowest first.
pub open spec fn rank(v: Visibility) -> int {
    match v {
        Visibility::Low => 0,
        Visibility::Mid => 1,
        Visibility::High => 2,
    }
}

/// A route that more of the peers see is rated no lower.
pub proof fn visibility_grows_with_the_count(fewer: u32, more: u32, total: u32)
    requires
        fewer <= more,
    ensures
        rank(visibility_of(fewer, total)) <= rank(visibility_of(more, total)),
{
}

/// Statistics are never asked for by AS number and by country at once.
pub proof fn scope_is_not_both(scope: StatsScope, asn: Option<u32>, country: Option<String>)
    requires
        call_ensures(StatsScope::asn, (&scope,), asn),
        call_ensures(StatsScope::country, (&scope,), country),
    ensures
        asn is None || country is None,
        asn is None && country is None <==> scope is Global,
{
}

/// A query for statistics asks for the AS number that it is read as; if it is none, for the
/// country that it names; and without a query, for all routes.
pub proof fn stats_are_asked_for_as_the_query_reads(
    query: Option<String>,
    text: &str,
    number: Option<u32>,
    scope: StatsScope,
    asn: Option<u32>,
    country: Option<String>,
)
    requires
        query matches Some(q) ==> q@ == text@,
        call_ensures(parse_u32, (text,), number),
        call_ensures(StatsScope::of_query, (query,), scope),
        call_ensures(StatsScope::asn, (&scope,), asn),
        call_ensures(StatsScope::country, (&scope,), country),
    ensures
        query is None ==> asn is None && country is None,
        query is Some ==> asn == number,
        query is Some && number is None ==> country == query,
        query is Some && number is Some ==> country is None,
{
}

/// Statistics are named after the AS number or the country that they are about, in full.
pub proof fn scope_is_named_in_full(
    scope: StatsScope,
    asn: Option<u32>,
    country: Option<String>,
    written: String,
    name: String,
)
    requires
        call_ensures(StatsScope::asn, (&scope,), asn),
        call_ensures(StatsScope::country, (&scope,), country),
        asn matches Some(n) ==> call_ensures(u64_to_string, (n as u64,), written),
        call_ensures(StatsScope::name, (&scope,), name),
    ensures
        asn is Some ==> name@ == "as"@ + written@,
        country matches Some(c) ==> name@ == c@,
        asn is None && country is None ==> name@ == "global"@,
{
}

/// A cell shows its count in full, and then its percentage in brackets.
pub proof fn cell_shows_count_and_percentage(share: Share, written: String, cell: String)
    requires
        call_ensures(u64_to_string, (share.count as u64,), written),
        call_ensures(Share::cell, (&share,), cell),
    ensures
        cell@ == written@ + " ("@ + share.percent@ + "%)"@,
{
}

/// A row shows its name, its two numbers, and the three cells of its counts, each in its place.
pub proof fn stats_row_shows_each_count(
    name: String,
    counts: RouteCounts,
    valid: String,
    invalid: String,
    unknown: String,
    row: StatsRow,
)
    requires
        call_ensures(Share::cell, (&counts.valid,), valid),
        call_ensures(Share::cell, (&counts.invalid,), invalid),
        call_ensures(Share::cell, (&counts.unknown,), unknown),
        call_ensures(StatsRow::new, (name, &counts), row),
    ensures
        row.scope@ == name@,
        row.origins == counts.origins,
        row.prefixes == counts.prefixes,
        row.rpki_valid@ == valid@,
        row.rpki_invalid@ == invalid@,
        row.rpki_unknown@ == unknown@,
{
}

/// The table has a row for all routes, then one for IPv4, then one for IPv6, each under the name
/// of the scope and with its own counts.
pub proof fn stats_table_has_a_row_for_each_family(
    scope: StatsScope,
    all: RouteCounts,
    ipv4: RouteCounts,
    ipv6: RouteCounts,
    name: String,
    rows: Vec<StatsRow>,
    family: int,
    counts: RouteCounts,
    valid: String,
    invalid: String,
    unknown: String,
)
    requires
        call_ensures(StatsScope::name, (&scope,), name),
        call_ensures(stats_rows, (&scope, &all, &ipv4, &ipv6), rows),
        0 <= family < 3,
        counts == seq![all, ipv4, ipv6][family],
        call_ensures(Share::cell, (&counts.valid,), valid),
        call_ensures(Share::cell, (&counts.invalid,), invalid),
        call_ensures(Share::cell, (&counts.unknown,), unknown),
    ensures
        rows@.len() == 3,
        rows@[family].scope@ == name@ + seq![""@, " ipv4"@, " ipv6"@][family],
        rows@[family].origins == counts.origins,
        rows@[family].prefixes == counts.prefixes,
        rows@[family].rpki_valid@ == valid@,
        rows@[family].rpki_invalid@ == invalid@,
        rows@[family].rpki_unknown@ == unknown@,
{
    reveal_strlit("");
    assert(name@ + ""@ =~= name@);
    assert(seq![all, ipv4, ipv6][0] == all);
    assert(seq![all, ipv4, ipv6][1] == ipv4);
    assert(seq![all, ipv4, ipv6][2] == ipv6);
    assert(seq![""@, " ipv4"@, " ipv6"@][0] == ""@);
    assert(seq![""@, " ipv4"@, " ipv6"@][1] == " ipv4"@);
    assert(seq![""@, " ipv4"@, " ipv6"@][2] == " ipv6"@);
}

/// Origins are looked up by the AS number that the query is read as, and else by the query as it
/// stands.
pub proof fn origins_are_looked_up_as_the_query_reads(
    query: String,
    text: &str,
    number: Option<u32>,
    res: (Option<u32>, Option<String>),
)
    requires
        query@ == text@,
        call_ensures(parse_u32, (text,), number),
        call_ensures(origin_query, (query,), res),
    ensures
        res.0 == number,
        number is Some ==> res.1 is None,
        number is None ==> res.1 == Some(query),
{
}

/// Whether two texts have the same letters, where the first may have upper-case ones.
pub open spec fn same_letters(text: Seq<char>, word: Seq<char>) -> bool {
    &&& text.len() == word.len()
    &&& forall|i: int|
        0 <= i < text.len() ==> {
            ||| #[trigger] text[i] == word[i]
            ||| 'A' <= text[i] <= 'Z' && text[i] as int + 32 == word[i] as int
        }
}

proof fn lemma_lower_letters(text: Seq<char>, word: Seq<char>)
    requires
        forall|i: int| 0 <= i < word.len() ==> 'a' <= #[trigger] word[i] <= 'z',
    ensures
        text.map_values(|c: char| ascii_lower(c)) == word <==> same_letters(text, word),
{
    let lower = text.map_values(|c: char| ascii_lower(c));
    if same_letters(text, word) {
        assert(lower =~= word);
    }
    if lower == word {
        assert forall|i: int| 0 <= i < text.len() implies {
            ||| #[trigger] text[i] == word[i]
            ||| 'A' <= text[i] <= 'Z' && text[i] as int + 32 == word[i] as int
        } by {
            assert(lower[i] == word[i]);
        }
    }
}

/// The statuses that origins are filtered by are `valid`, `invalid` and `unknown`, in letters of
/// either case. One of them is handed on as it was given; any other text is refused with the
/// text; and without one, nothing is filtered.
pub proof fn three_statuses_are_taken(status: Option<String>, res: Result<Option<String>, String>)
    requires
        call_ensures(check_status, (status,), res),
        status matches Some(text) ==> vstd::utf8::is_ascii_chars(text@),
    ensures
        status is None ==> res == Ok::<Option<String>, String>(None),
        status matches Some(text) ==> {
            if same_letters(text@, "valid"@) || same_letters(text@, "invalid"@) || same_letters(
                text@,
                "unknown"@,
            ) {
                res == Ok::<Option<String>, String>(Some(text))
            } else {
                res matches Err(said) && said@ == "invalid rpki status: "@ + text@
            }
        },
{
    if let Some(text) = status {
        reveal_strlit("valid");
        reveal_strlit("invalid");
        reveal_strlit("unknown");
        lemma_lower_letters(text@, "valid"@);
        lemma_lower_letters(text@, "invalid"@);
        lemma_lower_letters(text@, "unknown"@);
    }
}

/// A text in lower case names a status where it is one of three words.
pub proof fn three_words_name_a_status(text: String, res: bool)
    requires
        call_ensures(names_status, (&text,), res),
    ensures
        res <==> text@ == "valid"@ || text@ == "invalid"@ || text@ == "unknown"@,
{
}

/// A route is rated high where more than four fifths of the peers see it, low where less than a
/// fifth do, and mid where neither holds.
pub proof fn visibility_has_two_thresholds(count: u32, total: u32, res: Visibility)
    requires
        call_ensures(visibility, (count, total), res),
    ensures
        res is High <==> count * 5 > total * 4,
        res is Low <==> count * 5 < total && !(count * 5 > total * 4),
        res is Mid <==> total <= count * 5 <= total * 4,
{
}

/// A visibility is shown with the name of its rating and the percentage that was worked out.
pub proof fn visibility_is_named_by_its_rating(
    count: u32,
    total: u32,
    percent: &str,
    rating: Visibility,
    text: String,
)
    requires
        call_ensures(visibility, (count, total), rating),
        call_ensures(count_to_visibility, (count, total, percent), text),
    ensures
        rating is High ==> text@ == "high ("@ + percent@ + "%)"@,
        rating is Mid ==> text@ == "mid ("@ + percent@ + "%)"@,
        rating is Low ==> text@ == "low ("@ + percent@ + "%)"@,
{
    lemma_names_open_a_bracket();
}

proof fn lemma_names_open_a_bracket()
    ensures
        "high"@ + " ("@ == "high ("@,
        "mid"@ + " ("@ == "mid ("@,
        "low"@ + " ("@ == "low ("@,
{
    reveal_strlit("high");
    reveal_strlit("mid");
    reveal_strlit("low");
    reveal_strlit(" (");
    reveal_strlit("high (");
    reveal_strlit("mid (");
    reveal_strlit("low (");
    assert("high"@ + " ("@ =~= "high ("@);
    assert("mid"@ + " ("@ =~= "mid ("@);
    assert("low"@ + " ("@ =~= "low ("@);
}

/// What a number of peers is in 32 bits.
proof fn lemma_in_32_bits(n: i64)
    ensures
        (n as u32) as int == n as int % 0x1_0000_0000,
{
    assert((n as u32) as int == n as int % 0x1_0000_0000) by (bit_vector);
}

/// Every origin has one row, in the order of the entries. It shows the prefix and the AS as they
/// are, and rates the entry's own count against the number of all peers, both in 32 bits.
pub proof fn every_origin_is_rated_against_all_peers(
    entries: Vec<OriginEntry>,
    total_peers: i64,
    rows: Vec<OriginRow>,
    i: int,
    written: String,
)
    requires
        call_ensures(origin_rows, (&entries, total_peers), rows),
        0 <= i < entries@.len(),
        call_ensures(i64_to_string, (entries@[i].origin,), written),
    ensures
        rows@.len() == entries@.len(),
        rows@[i].prefix == entries@[i].prefix,
        rows@[i].origin@ == "as"@ + written@,
        ({
            let count = entries@[i].peer_count as int % 0x1_0000_0000;
            let total = total_peers as int % 0x1_0000_0000;
            let shown = rows@[i].visibility@;
            let percent = entries@[i].percent@;
            &&& count * 5 > total * 4 ==> shown == "high ("@ + percent + "%)"@
            &&& total <= count * 5 <= total * 4 ==> shown == "mid ("@ + percent + "%)"@
            &&& count * 5 < total ==> shown == "low ("@ + percent + "%)"@
        }),
{
    assert(rows@[i].shows(entries@[i], total_peers));
    lemma_names_open_a_bracket();
    lemma_in_32_bits(entries@[i].peer_count);
    lemma_in_32_bits(total_peers);
}

/// A status is taken by its letters in lower case, whatever its script, and a row shows the
/// validation of its entry in lower case.
pub proof fn case_is_left_aside(
    status: String,
    res: Result<Option<String>, String>,
    entries: Vec<OriginEntry>,
    total_peers: i64,
    rows: Vec<OriginRow>,
    i: int,
)
    requires
        call_ensures(check_status, (Some(status),), res),
        call_ensures(origin_rows, (&entries, total_peers), rows),
        0 <= i < entries@.len(),
    ensures
        res is Ok <==> lowercase(status@) == "valid"@ || lowercase(status@) == "invalid"@
            || lowercase(status@) == "unknown"@,
        res matches Ok(kept) ==> kept == Some(status),
        res matches Err(said) ==> said@ == "invalid rpki status: "@ + status@,
        rows@[i].rpki@ == lowercase(entries@[i].rpki_validation@),
{
    assert(rows@[i].shows(entries@[i], total_peers));
}

/// A row shows the validation of its entry with the same letters, all in lower case.
pub proof fn validation_is_shown_in_lower_case(
    entries: Vec<OriginEntry>,
    total_peers: i64,
    rows: Vec<OriginRow>,
    i: int,
)
    requires
        call_ensures(origin_rows, (&entries, total_peers), rows),
        0 <= i < entries@.len(),
        vstd::utf8::is_ascii_chars(entries@[i].rpki_validation@),
    ensures
        same_letters(entries@[i].rpki_validation@, rows@[i].rpki@),
        forall|j: int|
            0 <= j < rows@[i].rpki@.len() ==> !('A' <= #[trigger] rows@[i].rpki@[j] <= 'Z'),
{
    assert(rows@[i].shows(entries@[i], total_peers));
    let text = entries@[i].rpki_validation@;
    let lower = text.map_values(|c: char| ascii_lower(c));
    assert(rows@[i].rpki@ == lower);
    assert forall|j: int| 0 <= j < text.len() implies {
        ||| #[trigger] text[j] == lower[j]
        ||| 'A' <= text[j] <= 'Z' && text[j] as int + 32 == lower[j] as int
    } by {
    }
    assert forall|j: int| 0 <= j < lower.len() implies !('A' <= #[trigger] lower[j] <= 'Z') by {
        assert(lower[j] == ascii_lower(text[j]));
    }
}

/// Origins are listed as their table, and only where there are none is that said instead.
pub proof fn origins_are_listed_unless_there_are_none(
    entries: Vec<OriginEntry>,
    total_peers: i64,
    rows: Vec<OriginRow>,
    res: Result<Vec<OriginRow>, String>,
)
    requires
        call_ensures(origin_rows, (&entries, total_peers), rows),
        call_ensures(list_origins, (&entries, total_peers), res),
    ensures
        entries@.len() == 0 ==> (res matches Err(said) && said@
            == "no prefix origins found for the given query"@),
        entries@.len() > 0 ==> {
            &&& res is Ok
            &&& res->Ok_0@.len() == rows@.len()
            &&& forall|i: int|
                0 <= i < rows@.len() ==> {
                    &&& (#[trigger] res->Ok_0@[i]).prefix == rows@[i].prefix
                    &&& res->Ok_0@[i].origin@ == rows@[i].origin@
                    &&& res->Ok_0@[i].rpki@ == rows@[i].rpki@
                    &&& res->Ok_0@[i].visibility@ == rows@[i].visibility@
                }
        },
{
    if entries@.len() > 0 {
        assert forall|i: int| 0 <= i < rows@.len() implies {
            &&& (#[trigger] res->Ok_0@[i]).prefix == rows@[i].prefix
            &&& res->Ok_0@[i].origin@ == rows@[i].origin@
            &&& res->Ok_0@[i].rpki@ == rows@[i].rpki@
            &&& res->Ok_0@[i].visibility@ == rows@[i].visibility@
        } by {
            assert(rows@[i].shows(entries@[i], total_peers));
            assert(res->Ok_0@[i].shows(entries@[i], total_peers));
        }
    }
}

} // verus!
