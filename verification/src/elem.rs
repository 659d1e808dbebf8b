//! The text that a BGP element is shown as.
use vstd::prelude::*;

use bgpkit_parser::BgpElem;

use crate::json::{
    compact_object_holds_each_member, compact_object_is_one_line, compact_object_is_unique,
    holds_text, is_compact_object, json_string, json_string_reads_back, member_text,
    object_reads_back, one_line, read_object, string_of, unquoted, without_blanks,
};

verus! {

/// An element of a BGP message, as bgpkit-parser holds it.
#[verifier::external_type_specification]
#[verifier::external_body]
pub struct ExBgpElem(bgpkit_parser::BgpElem);

/// A JSON value, as serde_json holds it.
#[verifier::external_type_specification]
#[verifier::external_body]
pub struct ExValue(serde_json::Value);

/// A JSON object, as serde_json holds it.
#[verifier::external_type_specification]
#[verifier::external_body]
#[verifier::reject_recursive_types(K)]
#[verifier::reject_recursive_types(V)]
pub struct ExObject<K, V>(serde_json::Map<K, V>);

/// The members of a JSON object: each key with the compact JSON text of its value.
pub uninterp spec fn members(object: serde_json::Map<String, serde_json::Value>) -> Map<
    Seq<char>,
    Seq<char>,
>;

/// The pipe-separated line that an element displays as.
pub uninterp spec fn elem_line(elem: BgpElem) -> Seq<char>;

/// The members of the JSON object that an element serializes to.
pub uninterp spec fn elem_members(elem: BgpElem) -> Map<Seq<char>, Seq<char>>;

/// The text that serde_json pretty-prints for an object with these members.
pub uninterp spec fn pretty_object(members: Map<Seq<char>, Seq<char>>) -> Seq<char>;

/// Whether a compact JSON text is that of a string, a number, a truth value or null.
pub open spec fn is_simple(value: Seq<char>) -> bool {
    value.len() > 0 && value[0] != '{' && value[0] != '['
}

/// The line of a simple member in pretty-printed JSON.
pub open spec fn pretty_member(key: Seq<char>, value: Seq<char>) -> Seq<char> {
    seq!['\n', ' ', ' '] + json_string(key) + seq![':', ' '] + value
}

/// Whether an object has any members.
pub open spec fn has_members(members: Map<Seq<char>, Seq<char>>) -> bool {
    exists|key: Seq<char>| members.contains_key(key)
}

/// Whether `text` starts with a brace on the first line and ends with one on the last.
pub open spec fn is_braced(text: Seq<char>) -> bool {
    &&& text.len() >= 4
    &&& text.take(2) == seq!['{', '\n']
    &&& text.skip(text.len() - 2) == seq!['\n', '}']
}

/// `<BgpElem as Display>::fmt` of bgpkit-parser, through `to_string`.
///
/// Claimed: the line depends on the element alone, and is named `elem_line`.
#[verifier::external_body]
fn display_elem(elem: &BgpElem) -> (res: String)
    ensures
        res@ == elem_line(*elem),
{
    elem.to_string()
}

/// `serde_json::to_value` of an element, and `Value::as_object_mut` of the result.
///
/// Claimed: the members of the object depend on the element alone, and are named
/// `elem_members`; none has the key `collector`. The element derives its serialization as a
/// struct whose parts always serialize, so it always is an object.
#[verifier::external_body]
fn elem_object(elem: &BgpElem) -> (res: serde_json::Map<String, serde_json::Value>)
    ensures
        members(res) == elem_members(*elem),
        !members(res).contains_key("collector"@),
{
    std::mem::take(serde_json::to_value(elem).unwrap().as_object_mut().unwrap())
}

/// `serde_json::Map::insert` of a string value.
///
/// Claimed: the key then stands for the JSON string of the text, and all other members stay.
#[verifier::external_body]
fn insert_text(
    object: &mut serde_json::Map<String, serde_json::Value>,
    key: &str,
    text: &str,
)
    ensures
        members(*final(object)) == members(*old(object)).insert(key@, json_string(text@)),
{
    object.insert(key.to_string(), serde_json::Value::from(text));
}

/// `<serde_json::Value as Display>::fmt` of an object, through `to_string`.
///
/// Claimed: the text is compact JSON with the members in the order of their keys, each value
/// in compact JSON too.
#[verifier::external_body]
fn object_to_string(object: serde_json::Map<String, serde_json::Value>) -> (res: String)
    ensures
        is_compact_object(res@, members(object)),
{
    serde_json::Value::Object(object).to_string()
}

/// `serde_json::to_string_pretty` of an object.
///
/// Claimed: the text depends on the object's members alone, and is named `pretty_object`; it is
/// the compact text with blanks outside the strings; each simple member stands in it on a line of
/// its own; an object that has members has its braces on lines of their own. How other members are
/// laid out is left unsaid. It fails on no object, whose keys are strings.
#[verifier::external_body]
fn object_to_string_pretty(object: serde_json::Map<String, serde_json::Value>) -> (res: String)
    ensures
        res@ == pretty_object(members(object)),
        forall|key: Seq<char>| #[trigger]
            members(object).contains_key(key) && is_simple(members(object)[key]) ==> holds_text(
                res@,
                pretty_member(key, members(object)[key]),
            ),
        is_compact_object(without_blanks(res@, unquoted()), members(object)),
        has_members(members(object)) ==> is_braced(res@),
{
    serde_json::to_string_pretty(&serde_json::Value::Object(object)).unwrap()
}

/// The members of an object, with the collector that the element came from.
pub open spec fn with_collector(
    members: Map<Seq<char>, Seq<char>>,
    collector: Seq<char>,
) -> Map<Seq<char>, Seq<char>> {
    members.insert("collector"@, json_string(collector))
}

/// Whether `text` shows an object with these members, in the form asked for.
pub open spec fn shows_object(
    text: Seq<char>,
    members: Map<Seq<char>, Seq<char>>,
    pretty: bool,
) -> bool {
    if pretty {
        &&& text == pretty_object(members)
        &&& is_compact_object(without_blanks(text, unquoted()), members)
    } else {
        is_compact_object(text, members)
    }
}

/// Shows the JSON object of an element, with its collector.
pub fn object_with_collector(
    object: serde_json::Map<String, serde_json::Value>,
    pretty: bool,
    collector: &str,
) -> (res: String)
    ensures
        shows_object(res@, with_collector(members(object), collector@), pretty),
        pretty ==> holds_text(res@, pretty_member("collector"@, json_string(collector@))),
        pretty ==> is_braced(res@),
        !pretty ==> one_line(res@),
{
    let mut object = object;
    insert_text(&mut object, "collector", collector);
    if pretty {
        assert(members(object).contains_key("collector"@));
        assert(json_string(collector@)[0] == '"');
        object_to_string_pretty(object)
    } else {
        let ghost all = members(object);
        let text = object_to_string(object);
        proof {
            compact_object_is_one_line(text@, all);
        }
        text
    }
}

/// Shows the line of an element, with its collector as the last column.
pub fn line_with_collector(line: String, collector: &str) -> (res: String)
    ensures
        res@ == line@ + seq!['|'] + collector@,
{
    proof {
        reveal_strlit("|");
        assert("|"@ =~= seq!['|']);
    }
    line.concat("|").concat(collector)
}

/// Shows an element and the collector that it came from: as JSON on one line or over several,
/// or as a pipe-separated line.
pub fn elem_to_string(elem: &BgpElem, json: bool, pretty: bool, collector: &str) -> (res: String)
    ensures
        json ==> shows_object(res@, with_collector(elem_members(*elem), collector@), pretty),
        json ==> !elem_members(*elem).contains_key("collector"@),
        json && pretty ==> holds_text(
            res@,
            pretty_member("collector"@, json_string(collector@)),
        ),
        json && pretty ==> is_braced(res@),
        json && !pretty ==> one_line(res@),
        !json ==> res@ == elem_line(*elem) + seq!['|'] + collector@,
{
    if json {
        object_with_collector(elem_object(elem), pretty, collector)
    } else {
        line_with_collector(display_elem(elem), collector)
    }
}

/// An element that is shown as JSON on one line is shown with its collector, and with every
/// other member as it was.
pub proof fn json_line_holds_each_member(
    text: Seq<char>,
    members: Map<Seq<char>, Seq<char>>,
    collector: Seq<char>,
    key: Seq<char>,
)
    requires
        shows_object(text, with_collector(members, collector), false),
    ensures
        holds_text(text, member_text("collector"@, json_string(collector))),
        members.contains_key(key) && key != "collector"@ ==> holds_text(
            text,
            member_text(key, members[key]),
        ),
{
    let all = with_collector(members, collector);
    compact_object_holds_each_member(text, all, "collector"@);
    if members.contains_key(key) && key != "collector"@ {
        compact_object_holds_each_member(text, all, key);
    }
}

/// An element that is shown as JSON reads back as an object with the members that were shown, in
/// which the collector is the text that it was, whatever that holds.
pub proof fn shown_collector_reads_back(
    text: Seq<char>,
    members: Map<Seq<char>, Seq<char>>,
    collector: Seq<char>,
    pretty: bool,
)
    requires
        shows_object(text, with_collector(members, collector), pretty),
    ensures
        read_object(text) == Some(with_collector(members, collector)),
        read_object(text)->0.contains_key("collector"@),
        string_of(read_object(text)->0["collector"@]) == Some(collector),
{
    let all = with_collector(members, collector);
    if !pretty {
        compact_object_is_one_line(text, all);
    }
    object_reads_back(text, all);
    json_string_reads_back(collector);
}

/// Pretty-printed JSON is that on one line with blanks outside its strings, and reads back as
/// the same object.
pub proof fn pretty_and_compact_show_the_same(
    pretty: Seq<char>,
    compact: Seq<char>,
    members: Map<Seq<char>, Seq<char>>,
)
    requires
        shows_object(pretty, members, true),
        shows_object(compact, members, false),
    ensures
        without_blanks(pretty, unquoted()) == compact,
        read_object(pretty) == Some(members),
        read_object(compact) == Some(members),
{
    compact_object_is_unique(without_blanks(pretty, unquoted()), compact, members);
    compact_object_is_one_line(compact, members);
    object_reads_back(pretty, members);
    object_reads_back(compact, members);
}

/// One element that is shown as JSON with two collectors reads back as two objects with the same
/// keys, those of the element and `collector`, and the same value for each but `collector`. The
/// values for that one are the same only where the collectors are.
pub proof fn collectors_change_one_member(
    members: Map<Seq<char>, Seq<char>>,
    one: Seq<char>,
    one_collector: Seq<char>,
    one_pretty: bool,
    other: Seq<char>,
    other_collector: Seq<char>,
    other_pretty: bool,
)
    requires
        shows_object(one, with_collector(members, one_collector), one_pretty),
        shows_object(other, with_collector(members, other_collector), other_pretty),
    ensures
        ({
            let a = read_object(one)->0;
            let b = read_object(other)->0;
            &&& read_object(one) is Some
            &&& read_object(other) is Some
            &&& a.dom() == members.dom().insert("collector"@)
            &&& b.dom() == members.dom().insert("collector"@)
            &&& forall|key: Seq<char>|
                a.contains_key(key) && key != "collector"@ ==> #[trigger] a[key] == members[key]
                    && #[trigger] b[key] == members[key]
            &&& a["collector"@] == b["collector"@] <==> one_collector == other_collector
        }),
{
    shown_collector_reads_back(one, members, one_collector, one_pretty);
    shown_collector_reads_back(other, members, other_collector, other_pretty);
}

/// An element that is shown as JSON reads back as an object with all its own members as they are
/// and one more, the collector as it was given; over several lines where it is to be pretty, and
/// else on one.
pub proof fn element_is_shown_with_its_collector(
    elem: BgpElem,
    pretty: bool,
    collector: &str,
    res: String,
)
    requires
        call_ensures(elem_to_string, (&elem, true, pretty, collector), res),
    ensures
        read_object(res@) is Some,
        ({
            let shown = read_object(res@)->0;
            let own = elem_members(elem);
            &&& !own.contains_key("collector"@)
            &&& shown.dom() == own.dom().insert("collector"@)
            &&& string_of(shown["collector"@]) == Some(collector@)
            &&& forall|key: Seq<char>|
                own.contains_key(key) ==> #[trigger] shown[key] == own[key]
        }),
        pretty ==> res@.len() >= 4 && res@[0] == '{' && res@[1] == '\n' && res@[res@.len() - 2]
            == '\n' && res@.last() == '}',
        !pretty ==> !res@.contains('\n') && !res@.contains('\r'),
{
    shown_collector_reads_back(res@, elem_members(elem), collector@, pretty);
    if pretty {
        assert(res@.take(2)[0] == '{' && res@.take(2)[1] == '\n');
        assert(res@.skip(res@.len() - 2)[0] == '\n' && res@.skip(res@.len() - 2)[1] == '}');
    }
}

/// An element that is shown as a line is its own line, a pipe, and the collector as it was given.
pub proof fn element_line_ends_with_its_collector(
    elem: BgpElem,
    pretty: bool,
    collector: &str,
    res: String,
)
    requires
        call_ensures(elem_to_string, (&elem, false, pretty, collector), res),
    ensures
        ({
            let own = elem_line(elem);
            &&& res@.len() == own.len() + 1 + collector@.len()
            &&& res@.take(own.len() as int) == own
            &&& res@[own.len() as int] == '|'
            &&& res@.skip(own.len() as int + 1) == collector@
        }),
{
    let own = elem_line(elem);
    assert(res@.take(own.len() as int) =~= own);
    assert(res@.skip(own.len() as int + 1) =~= collector@);
}

/// A line that is given a collector ends with it.
pub proof fn line_ends_with_its_collector(line: String, collector: &str, res: String)
    requires
        call_ensures(line_with_collector, (line, collector), res),
    ensures
        res@.len() == line@.len() + 1 + collector@.len(),
        res@.take(line@.len() as int) == line@,
        res@[line@.len() as int] == '|',
        res@.skip(line@.len() as int + 1) == collector@,
{
    assert(res@.take(line@.len() as int) =~= line@);
    assert(res@.skip(line@.len() as int + 1) =~= collector@);
}

/// An object that is shown with a collector reads back with all its other members as they are.
pub proof fn object_is_shown_with_its_collector(
    object: serde_json::Map<String, serde_json::Value>,
    pretty: bool,
    collector: &str,
    res: String,
)
    requires
        call_ensures(object_with_collector, (object, pretty, collector), res),
    ensures
        read_object(res@) is Some,
        ({
            let shown = read_object(res@)->0;
            let own = members(object);
            &&& shown.dom() == own.dom().insert("collector"@)
            &&& string_of(shown["collector"@]) == Some(collector@)
            &&& forall|key: Seq<char>|
                own.contains_key(key) && key != "collector"@ ==> #[trigger] shown[key] == own[key]
        }),
{
    shown_collector_reads_back(res@, members(object), collector@, pretty);
}

} // verus!
