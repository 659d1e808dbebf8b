use monocle_cli::rpki::{choose_resource, no_roas_text, parse_resource, Network, Resource};

#[test]
fn resources_are_numbers_or_networks() {
    assert_eq!(parse_resource("13335"), Ok(Resource::Asn(13335)));
    assert_eq!(parse_resource("+1"), Ok(Resource::Asn(1)));
    assert_eq!(
        parse_resource("1.1.1.0/24"),
        Ok(Resource::Prefix(Network::V4(0x01010100, 24)))
    );
    assert_eq!(
        parse_resource("255.0.10.7/32"),
        Ok(Resource::Prefix(Network::V4(0xff000a07, 32)))
    );
    assert_eq!(
        parse_resource("2606:4700::/32"),
        Ok(Resource::Prefix(Network::V6(0x2606_4700 << 96, 32)))
    );
}

#[test]
fn other_resources_are_refused() {
    for text in ["", "as13335", "1.1.1.1", "1.1.1.0/33", "::/129", "4294967296", "1/24", "/"] {
        assert_eq!(
            parse_resource(text),
            Err(format!("list resource not an AS number or a prefix: {text}"))
        );
    }
}

#[test]
fn numbers_come_first() {
    let network = Network::V4(0, 0);
    assert_eq!(choose_resource("7", Some(network)), Some(Resource::Asn(7)));
    assert_eq!(choose_resource("x", Some(network)), Some(Resource::Prefix(network)));
    assert_eq!(choose_resource("x", None), None);
}

#[test]
fn missing_roas() {
    let said = no_roas_text("13335", 0);
    assert_eq!(said.as_deref(), Some("no matching ROAS found for 13335"));
    assert_eq!(no_roas_text("13335", 1), None);
}
