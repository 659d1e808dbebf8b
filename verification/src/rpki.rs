//! What a list of ROAs is asked for by.
use vstd::arithmetic::div_mod::lemma_fundamental_div_mod_converse;
use vstd::prelude::*;

use crate::decimal::{
    decimal, decimal_reads_back, is_digit, parse_u32, u32_of_text, u64_to_string, unsigned_part,
};

verus! {

/// A network: the number that its address's octets form, and the length of its prefix.
#[derive(Debug, Clone, Copy, PartialEq, Eq, Structural)]
pub enum Network {
    V4(u32, u8),
    V6(u128, u8),
}

/// The network that `ipnet::IpNet` reads from a text such as `1.1.1.0/24`, if any.
pub uninterp spec fn read_network(text: Seq<char>) -> Option<Network>;

/// An IPv4 network as it is written: four octets in decimal with dots between them, a slash, and
/// the length of the prefix.
pub open spec fn v4_text(addr: u32, len: u8) -> Seq<char> {
    decimal(addr as nat / 0x100_0000) + "."@ + decimal(addr as nat / 0x1_0000 % 0x100) + "."@
        + decimal(addr as nat / 0x100 % 0x100) + "."@ + decimal(addr as nat % 0x100) + "/"@
        + decimal(len as nat)
}

/// `<ipnet::IpNet as FromStr>::from_str`, through `str::parse`.
///
/// Claimed: the network depends on the text alone, and is named `read_network`; only a text
/// with a slash in it is one, the prefix is no longer than the address, and an IPv4 network as
/// `v4_text` writes it is read as itself. What else is read as a network is left unsaid.
#[verifier::external_body]
fn parse_network(text: &str) -> (res: Option<Network>)
    ensures
        res == read_network(text@),
        res is Some ==> text@.contains('/'),
        res matches Some(Network::V4(_, len)) ==> len <= 32,
        res matches Some(Network::V6(_, len)) ==> len <= 128,
        forall|addr: u32, len: u8|
            len <= 32 && text@ == #[trigger] v4_text(addr, len) ==> res == Some(
                Network::V4(addr, len),
            ),
{
    match text.parse::<ipnet::IpNet>() {
        Ok(ipnet::IpNet::V4(net)) => {
            Some(Network::V4(u32::from(net.addr()), net.prefix_len()))
        },
        Ok(ipnet::IpNet::V6(net)) => {
            Some(Network::V6(u128::from(net.addr()), net.prefix_len()))
        },
        Err(_) => None,
    }
}

/// What ROAs are listed by.
#[derive(Debug, Clone, Copy, PartialEq, Eq, Structural)]
pub enum Resource {
    Asn(u32),
    Prefix(Network),
}

/// What a text asks ROAs to be listed by, given the network that it was read as.
pub open spec fn resource_of(text: Seq<char>, network: Option<Network>) -> Option<Resource> {
    match u32_of_text(text) {
        Some(asn) => Some(Resource::Asn(asn)),
        None => match network {
            Some(network) => Some(Resource::Prefix(network)),
            None => None,
        },
    }
}

/// Decides what ROAs are listed by, given the network that the text was read as.
pub fn choose_resource(text: &str, network: Option<Network>) -> (res: Option<Resource>)
    ensures
        res == resource_of(text@, network),
{
    match parse_u32(text) {
        Some(asn) => Some(Resource::Asn(asn)),
        None => match network {
            Some(network) => Some(Resource::Prefix(network)),
            None => None,
        },
    }
}

proof fn lemma_number_has_no_slash(text: Seq<char>)
    requires
        u32_of_text(text) is Some,
    ensures
        !text.contains('/'),
{
    let body = unsigned_part(text);
    let off = text.len() - body.len();
    if text.contains('/') {
        let i = choose|i: int| 0 <= i < text.len() && text[i] == '/';
        assert(body[i - off] == text[i]);
        assert(is_digit(body[i - off]));
    }
}

/// Reads what ROAs are listed by: an AS number, or else a network; or says what is wrong. No
/// text is both.
pub fn parse_resource(text: &str) -> (res: Result<Resource, String>)
    ensures
        match resource_of(text@, read_network(text@)) {
            Some(resource) => res == Ok::<Resource, String>(resource),
            None => res matches Err(said) && said@
                == "list resource not an AS number or a prefix: "@ + text@,
        },
        res matches Ok(Resource::Prefix(Network::V4(_, len))) ==> len <= 32,
        res matches Ok(Resource::Prefix(Network::V6(_, len))) ==> len <= 128,
        res matches Ok(Resource::Prefix(_)) ==> text@.contains('/'),
        u32_of_text(text@) is Some ==> read_network(text@) is None,
        forall|addr: u32, len: u8|
            len <= 32 && text@ == #[trigger] v4_text(addr, len) ==> res == Ok::<Resource, String>(
                Resource::Prefix(Network::V4(addr, len)),
            ),
{
    proof {
        if u32_of_text(text@) is Some {
            lemma_number_has_no_slash(text@);
        }
    }
    match choose_resource(text, parse_network(text)) {
        Some(resource) => Ok(resource),
        None => {
            Err("list resource not an AS number or a prefix: ".to_string().concat(text))
        },
    }
}

/// What is said where no ROA matches: nothing, where any does.
pub fn no_roas_text(text: &str, count: usize) -> (res: Option<String>)
    ensures
        res is Some <==> count == 0,
        res matches Some(said) ==> said@ == "no matching ROAS found for "@ + text@,
{
    if count == 0 {
        Some("no matching ROAS found for ".to_string().concat(text))
    } else {
        None
    }
}

/// A text that is read as an AS number asks for that AS number, whatever network it may be; any
/// other asks for the network that it was read as.
pub proof fn number_is_chosen_before_network(
    text: &str,
    network: Option<Network>,
    number: Option<u32>,
    res: Option<Resource>,
)
    requires
        call_ensures(parse_u32, (text,), number),
        call_ensures(choose_resource, (text, network), res),
    ensures
        number matches Some(n) ==> res == Some(Resource::Asn(n)),
        number is None && network is None ==> res is None,
        number is None ==> (network matches Some(net) ==> res == Some(Resource::Prefix(net))),
{
}

/// An AS number that is written in decimal is what ROAs are listed by.
pub proof fn written_number_is_the_resource(
    n: u32,
    written: String,
    text: &str,
    res: Result<Resource, String>,
)
    requires
        call_ensures(u64_to_string, (n as u64,), written),
        text@ == written@,
        call_ensures(parse_resource, (text,), res),
    ensures
        res == Ok::<Resource, String>(Resource::Asn(n)),
{
    decimal_reads_back(n);
}

/// A text that is no AS number is listed by as the network that it is, if it is one, and refused
/// with the text if not.
pub proof fn other_text_is_a_network_or_refused(
    text: &str,
    number: Option<u32>,
    res: Result<Resource, String>,
)
    requires
        call_ensures(parse_u32, (text,), number),
        call_ensures(parse_resource, (text,), res),
    ensures
        number matches Some(n) ==> res == Ok::<Resource, String>(Resource::Asn(n)),
        number is None ==> match read_network(text@) {
            Some(network) => res == Ok::<Resource, String>(Resource::Prefix(network)),
            None => res matches Err(said) && said@
                == "list resource not an AS number or a prefix: "@ + text@,
        },
{
}

proof fn lemma_octets_of(a: u8, b: u8, c: u8, d: u8)
    ensures
        ({
            let addr = (a * 0x100_0000 + b * 0x1_0000 + c * 0x100 + d) as u32;
            &&& addr as nat / 0x100_0000 == a
            &&& addr as nat / 0x1_0000 % 0x100 == b
            &&& addr as nat / 0x100 % 0x100 == c
            &&& addr as nat % 0x100 == d
        }),
{
    let x = a * 0x100_0000 + b * 0x1_0000 + c * 0x100 + d;
    let high = a * 0x100 + b;
    let upper = a * 0x1_0000 + b * 0x100 + c;
    lemma_fundamental_div_mod_converse(x, 0x100_0000, a as int, b * 0x1_0000 + c * 0x100 + d);
    lemma_fundamental_div_mod_converse(x, 0x1_0000, high, c * 0x100 + d);
    lemma_fundamental_div_mod_converse(high, 0x100, a as int, b as int);
    lemma_fundamental_div_mod_converse(x, 0x100, upper, d as int);
    lemma_fundamental_div_mod_converse(upper, 0x100, high, c as int);
}

/// An IPv4 network that is written with its four octets and its length is what ROAs are listed
/// by.
pub proof fn written_network_is_the_resource(
    a: u8,
    b: u8,
    c: u8,
    d: u8,
    len: u8,
    octets: (String, String, String, String),
    bits: String,
    text: &str,
    res: Result<Resource, String>,
)
    requires
        len <= 32,
        call_ensures(u64_to_string, (a as u64,), octets.0),
        call_ensures(u64_to_string, (b as u64,), octets.1),
        call_ensures(u64_to_string, (c as u64,), octets.2),
        call_ensures(u64_to_string, (d as u64,), octets.3),
        call_ensures(u64_to_string, (len as u64,), bits),
        text@ == octets.0@ + "."@ + octets.1@ + "."@ + octets.2@ + "."@ + octets.3@ + "/"@ + bits@,
        call_ensures(parse_resource, (text,), res),
    ensures
        res == Ok::<Resource, String>(
            Resource::Prefix(
                Network::V4((a * 0x100_0000 + b * 0x1_0000 + c * 0x100 + d) as u32, len),
            ),
        ),
{
    let addr = (a * 0x100_0000 + b * 0x1_0000 + c * 0x100 + d) as u32;
    lemma_octets_of(a, b, c, d);
    assert(octets.0@ == decimal(addr as nat / 0x100_0000));
    assert(octets.1@ == decimal(addr as nat / 0x1_0000 % 0x100));
    assert(octets.2@ == decimal(addr as nat / 0x100 % 0x100));
    assert(octets.3@ == decimal(addr as nat % 0x100));
    assert(bits@ == decimal(len as nat));
    assert(v4_text(addr, len) == text@);
}

/// That no ROA matches is said, with what was asked for, exactly where none does.
pub proof fn no_roas_are_said_where_there_are_none(text: &str, count: usize, res: Option<String>)
    requires
        call_ensures(no_roas_text, (text, count), res),
    ensures
        count > 0 ==> res is None,
        count == 0 ==> (res matches Some(said) && said@ == "no matching ROAS found for "@ + text@),
{
}

} // verus!
