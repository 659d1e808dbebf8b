use bgpkit_parser::BgpElem;
use monocle_cli::elem::{elem_to_string, line_with_collector, object_with_collector};

#[test]
fn elem_as_a_line() {
    let elem = BgpElem::default();
    let line = "A|0|0.0.0.0|0|0.0.0.0/0|||0.0.0.0||||false||";
    assert_eq!(elem_to_string(&elem, false, false, "rrc00"), format!("{line}|rrc00"));
    assert_eq!(elem_to_string(&elem, false, true, ""), format!("{line}|"));
}

#[test]
fn elem_as_json() {
    let elem = BgpElem::default();
    let text = "{\"aggr_asn\":null,\"aggr_ip\":null,\"as_path\":null,\"atomic\":false,\
        \"collector\":\"rrc00\",\"communities\":null,\"deprecated\":null,\"local_pref\":null,\
        \"med\":null,\"next_hop\":\"0.0.0.0\",\"only_to_customer\":null,\"origin\":null,\
        \"origin_asns\":null,\"peer_asn\":0,\"peer_ip\":\"0.0.0.0\",\"prefix\":\"0.0.0.0/0\",\
        \"timestamp\":0.0,\"type\":\"ANNOUNCE\",\"unknown\":null}";
    assert_eq!(elem_to_string(&elem, true, false, "rrc00"), text);
}

#[test]
fn elem_as_pretty_json() {
    let elem = BgpElem::default();
    let text = elem_to_string(&elem, true, true, "rrc00");
    assert!(text.starts_with("{\n  \"aggr_asn\": null,\n"));
    assert!(text.contains("\n  \"collector\": \"rrc00\",\n"));
    assert!(text.ends_with("\n  \"unknown\": null\n}"));
}

#[test]
fn elems_with_a_path_are_objects() {
    let mut elem = BgpElem::default();
    elem.timestamp = 1_637_437_798.25;
    elem.as_path = Some(bgpkit_parser::models::AsPath::from_sequence([64496, 64511]));
    let text = elem_to_string(&elem, true, false, "");
    assert!(text.contains("\"as_path\":[64496,64511]"));
    assert!(text.contains("\"timestamp\":1637437798.25"));
    assert!(text.contains("\"collector\":\"\""));
}

#[test]
fn collector_is_written_as_a_json_string() {
    let object = serde_json::Map::new();
    let text = object_with_collector(object, false, "a\"b\\c\n\t\r\u{8}\u{c}\u{1}\u{1f}\u{7f}\u{e9}");
    let expected =
        "{\"collector\":\"a\\\"b\\\\c\\n\\t\\r\\b\\f\\u0001\\u001f\u{7f}\u{e9}\"}";
    assert_eq!(text, expected);
}

fn object_of(text: &str) -> serde_json::Map<String, serde_json::Value> {
    serde_json::from_str::<serde_json::Value>(text).unwrap().as_object().unwrap().clone()
}

fn elem_with_a_path() -> BgpElem {
    let mut elem = BgpElem::default();
    elem.as_path = Some(bgpkit_parser::models::AsPath::from_sequence([64496, 64511]));
    elem.communities = Some(vec![]);
    elem
}

#[test]
fn collector_reads_back() {
    let elem = elem_with_a_path();
    for collector in ["", "rrc00", "a\"b\\c\n\r\t\u{8}\u{c}\u{1}\u{7f}", "\u{e9}\u{1f600},}:{["] {
        for pretty in [false, true] {
            let object = object_of(&elem_to_string(&elem, true, pretty, collector));
            assert_eq!(object["collector"].as_str(), Some(collector));
        }
    }
}

#[test]
fn compact_json_is_on_one_line() {
    let text = elem_to_string(&elem_with_a_path(), true, false, "a\nb\rc");
    assert!(!text.contains('\n') && !text.contains('\r') && !text.contains(' '));
    assert!(text.starts_with('{') && text.ends_with('}'));
}

#[test]
fn pretty_json_adds_blanks_alone() {
    let elem = elem_with_a_path();
    let pretty = elem_to_string(&elem, true, true, "route-views2");
    let compact = elem_to_string(&elem, true, false, "route-views2");
    assert_eq!(pretty.replace([' ', '\n'], ""), compact);
    assert!(pretty.starts_with("{\n") && pretty.ends_with("\n}"));
    assert_eq!(object_of(&pretty), object_of(&compact));
}

#[test]
fn collectors_change_one_member() {
    let elem = elem_with_a_path();
    let mut one = object_of(&elem_to_string(&elem, true, false, "rrc00"));
    let mut other = object_of(&elem_to_string(&elem, true, true, "rrc01"));
    assert_ne!(one, other);
    assert_eq!(one.remove("collector"), Some(serde_json::Value::from("rrc00")));
    assert_eq!(other.remove("collector"), Some(serde_json::Value::from("rrc01")));
    assert_eq!(one, other);
}

#[test]
fn collector_takes_its_place_among_the_members() {
    let mut object = serde_json::Map::new();
    object.insert("z".to_string(), serde_json::Value::from(1));
    object.insert("a".to_string(), serde_json::Value::from("x"));
    object.insert("collector".to_string(), serde_json::Value::Null);
    assert_eq!(
        object_with_collector(object.clone(), false, "rrc00"),
        "{\"a\":\"x\",\"collector\":\"rrc00\",\"z\":1}"
    );
    assert_eq!(
        object_with_collector(object, true, "rrc00"),
        "{\n  \"a\": \"x\",\n  \"collector\": \"rrc00\",\n  \"z\": 1\n}"
    );
}

#[test]
fn line_has_the_collector_last() {
    assert_eq!(line_with_collector("A|1".to_string(), "rrc00"), "A|1|rrc00");
    assert_eq!(line_with_collector(String::new(), ""), "|");
}
