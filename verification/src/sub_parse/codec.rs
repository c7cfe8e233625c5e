//! The decoders that other crates provide, each behind a contract that
//! names what it returns.
use vstd::prelude::*;
use vstd::utf8::{decode_utf8, encode_utf8, valid_utf8};
use crate::sub_parse::node::Node;
use crate::text::text_of;

verus! {

/// A run of bytes that may be absent.
pub open spec fn bytes_of(b: Option<Vec<u8>>) -> Option<Seq<u8>> {
    match b {
        Some(v) => Some(v@),
        None => None,
    }
}

/// Names the bytes that the standard base64 alphabet with padding decodes
/// a text to; `None` where the text is no such encoding.
pub uninterp spec fn base64_standard(input: Seq<char>) -> Option<Seq<u8>>;

/// Names the bytes that the URL-safe base64 alphabet with padding decodes
/// a text to; `None` where the text is no such encoding.
pub uninterp spec fn base64_url_safe(input: Seq<char>) -> Option<Seq<u8>>;

/// `base64::Engine::decode` on `general_purpose::STANDARD`. The contract
/// only names the result.
#[verifier::external_body]
pub(crate) fn decode_standard(input: &str) -> (r: Option<Vec<u8>>)
    ensures
        bytes_of(r) == base64_standard(input@),
{
    base64::Engine::decode(&base64::engine::general_purpose::STANDARD, input).ok()
}

/// `base64::Engine::decode` on `general_purpose::URL_SAFE`. The contract
/// only names the result.
#[verifier::external_body]
pub(crate) fn decode_url_safe(input: &str) -> (r: Option<Vec<u8>>)
    ensures
        bytes_of(r) == base64_url_safe(input@),
{
    base64::Engine::decode(&base64::engine::general_purpose::URL_SAFE, input).ok()
}

/// `String::from_utf8`: the bytes as text where they are well-formed
/// UTF-8, and nothing where they are not.
#[verifier::external_body]
pub(crate) fn text_from_utf8(bytes: Vec<u8>) -> (r: Option<String>)
    ensures
        text_of(r) == if valid_utf8(bytes@) {
            Some(decode_utf8(bytes@))
        } else {
            None
        },
{
    String::from_utf8(bytes).ok()
}

/// The value of a hexadecimal digit in ASCII, in either case.
pub open spec fn hex_value(b: u8) -> Option<u8> {
    if 0x30 <= b <= 0x39 {
        Some((b - 0x30) as u8)
    } else if 0x61 <= b <= 0x66 {
        Some((b - 0x61 + 10) as u8)
    } else if 0x41 <= b <= 0x46 {
        Some((b - 0x41 + 10) as u8)
    } else {
        None
    }
}

/// Percent-decoding of bytes: every `%` that two hexadecimal digits follow
/// stands, with them, for the byte that they write; every other byte
/// stands for itself.
pub open spec fn percent_decoded_bytes(b: Seq<u8>) -> Seq<u8>
    decreases b.len(),
{
    if b.len() == 0 {
        Seq::empty()
    } else if b[0] == 0x25 && b.len() >= 3 && hex_value(b[1]) is Some && hex_value(b[2]) is Some {
        seq![(hex_value(b[1])->0 * 16 + hex_value(b[2])->0) as u8] + percent_decoded_bytes(
            b.skip(3),
        )
    } else {
        seq![b[0]] + percent_decoded_bytes(b.skip(1))
    }
}

/// The text that percent-decoding gives: the bytes of the text are
/// decoded and read as UTF-8; `None` where they are none.
pub open spec fn percent_decoded(input: Seq<char>) -> Option<Seq<char>> {
    let decoded = percent_decoded_bytes(encode_utf8(input));
    if valid_utf8(decoded) {
        Some(decode_utf8(decoded))
    } else {
        None
    }
}

/// `percent_encoding::percent_decode_str` followed by `decode_utf8`: the
/// percent-decoded bytes of the text as text, and nothing where they are
/// no UTF-8.
#[verifier::external_body]
pub(crate) fn percent_decode_utf8(input: &str) -> (r: Option<String>)
    ensures
        text_of(r) == percent_decoded(input@),
{
    percent_encoding::percent_decode_str(input).decode_utf8().ok().map(|t| t.into_owned())
}

/// The parts of an address that the share links are read from.
#[derive(Debug, Clone, PartialEq, Eq)]
pub struct UriParts {
    pub scheme: String,
    pub fragment: Option<String>,
    pub host: Option<String>,
    pub port: Option<u16>,
    pub username: String,
    pub password: Option<String>,
    /// The pairs of the query, decoded, in the order of the address.
    pub query: Vec<(String, String)>,
}

/// A `UriParts` with its texts as sequences of characters.
pub struct UriPartsView {
    pub scheme: Seq<char>,
    pub fragment: Option<Seq<char>>,
    pub host: Option<Seq<char>>,
    pub port: Option<u16>,
    pub username: Seq<char>,
    pub password: Option<Seq<char>>,
    pub query: Seq<(Seq<char>, Seq<char>)>,
}

/// A list of pairs of texts by its characters.
pub open spec fn pairs_of(pairs: Seq<(String, String)>) -> Seq<(Seq<char>, Seq<char>)> {
    pairs.map_values(|p: (String, String)| (p.0@, p.1@))
}

impl View for UriParts {
    type V = UriPartsView;

    open spec fn view(&self) -> UriPartsView {
        UriPartsView {
            scheme: self.scheme@,
            fragment: text_of(self.fragment),
            host: text_of(self.host),
            port: self.port,
            username: self.username@,
            password: text_of(self.password),
            query: pairs_of(self.query@),
        }
    }
}

/// The parts of an address that may be absent.
pub open spec fn parts_of(p: Option<UriParts>) -> Option<UriPartsView> {
    match p {
        Some(parts) => Some(parts@),
        None => None,
    }
}

/// Names the parts that the URL parser finds in an address; `None` where
/// it takes the text for no address.
pub uninterp spec fn parsed_url(input: Seq<char>) -> Option<UriPartsView>;

/// `url::Url::parse`, and the accessors of the parsed address (`scheme`,
/// `fragment`, `host_str`, `port`, `username`, `password`, `query_pairs`)
/// copied out one for one. The contract only names the result.
#[verifier::external_body]
pub(crate) fn parse_url(input: &str) -> (r: Option<UriParts>)
    ensures
        parts_of(r) == parsed_url(input@),
{
    url::Url::parse(input).ok().map(|u| UriParts {
        scheme: u.scheme().to_string(),
        fragment: u.fragment().map(str::to_string),
        host: u.host_str().map(str::to_string),
        port: u.port(),
        username: u.username().to_string(),
        password: u.password().map(str::to_string),
        query: u.query_pairs().map(|(k, v)| (k.into_owned(), v.into_owned())).collect(),
    })
}

/// `serde_json::Value`, carried through as an opaque value.
#[verifier::external_type_specification]
#[verifier::external_body]
pub struct ExJsonValue(serde_json::Value);

/// `serde_yaml::Value`, carried through as an opaque value.
#[verifier::external_type_specification]
#[verifier::external_body]
pub struct ExYamlValue(serde_yaml::Value);

/// `serde_json::Number`, carried through as an opaque value.
#[verifier::external_type_specification]
#[verifier::external_body]
pub struct ExJsonNumber(serde_json::Number);

/// `serde_yaml::Number`, carried through as an opaque value.
#[verifier::external_type_specification]
#[verifier::external_body]
pub struct ExYamlNumber(serde_yaml::Number);

/// A `serde_json::Number` as a node: `PosInt` where `as_u64` gives the
/// number, `NegInt` where only `as_i64` does, and `Real` with the number's
/// text otherwise.
#[verifier::external_body]
fn node_from_json_number(n: &serde_json::Number) -> Node {
    match (n.as_u64(), n.as_i64()) {
        (Some(u), _) => Node::PosInt(u),
        (_, Some(i)) => Node::NegInt(i),
        _ => Node::Real(n.to_string()),
    }
}

/// A `serde_yaml::Number` as a node: `PosInt` where `as_u64` gives the
/// number, `NegInt` where only `as_i64` does, and `Real` with the number's
/// text otherwise.
#[verifier::external_body]
fn node_from_yaml_number(n: &serde_yaml::Number) -> Node {
    match (n.as_u64(), n.as_i64()) {
        (Some(u), _) => Node::PosInt(u),
        (_, Some(i)) => Node::NegInt(i),
        _ => Node::Real(n.to_string()),
    }
}

/// Copies a `serde_json::Value` into a tree of the library, variant by
/// variant. The keys of an object become `Text` nodes.
#[verifier::external_body]
fn node_from_json(v: &serde_json::Value) -> Node {
    match v {
        serde_json::Value::Null => Node::Null,
        serde_json::Value::Bool(b) => Node::Bool(*b),
        serde_json::Value::Number(n) => node_from_json_number(n),
        serde_json::Value::String(s) => Node::Text(s.clone()),
        serde_json::Value::Array(xs) => Node::List(xs.iter().map(node_from_json).collect()),
        serde_json::Value::Object(m) => {
            Node::Table(m.iter().map(|(k, x)| (Node::Text(k.clone()), node_from_json(x))).collect())
        },
    }
}

/// Copies a `serde_yaml::Value` into a tree of the library, variant by
/// variant.
#[verifier::external_body]
fn node_from_yaml(v: &serde_yaml::Value) -> Node {
    match v {
        serde_yaml::Value::Null => Node::Null,
        serde_yaml::Value::Bool(b) => Node::Bool(*b),
        serde_yaml::Value::Number(n) => node_from_yaml_number(n),
        serde_yaml::Value::String(s) => Node::Text(s.clone()),
        serde_yaml::Value::Sequence(xs) => Node::List(xs.iter().map(node_from_yaml).collect()),
        serde_yaml::Value::Mapping(m) => {
            Node::Table(m.iter().map(|(k, x)| (node_from_yaml(k), node_from_yaml(x))).collect())
        },
        serde_yaml::Value::Tagged(t) => Node::Tagged(t.tag.to_string(), Box::new(node_from_yaml(&t.value))),
    }
}

/// Names the tree that a JSON text parses to; `None` where the text is no
/// JSON document.
pub uninterp spec fn json_document(text: Seq<char>) -> Option<Node>;

/// Names the tree that a YAML text parses to; `None` where the text is no
/// YAML document.
pub uninterp spec fn yaml_document(text: Seq<char>) -> Option<Node>;

/// `serde_json::from_str` to a `serde_json::Value`, copied into a tree of
/// the library. The contract only names the result.
#[verifier::external_body]
pub(crate) fn parse_json(text: &str) -> (r: Option<Node>)
    ensures
        r == json_document(text@),
{
    serde_json::from_str::<serde_json::Value>(text).ok().map(|v| node_from_json(&v))
}

/// `serde_yaml::from_str` to a `serde_yaml::Value`, copied into a tree of
/// the library. The contract only names the result.
#[verifier::external_body]
pub(crate) fn parse_yaml(text: &str) -> (r: Option<Node>)
    ensures
        r == yaml_document(text@),
{
    serde_yaml::from_str::<serde_yaml::Value>(text).ok().map(|v| node_from_yaml(&v))
}

} // verus!
