//! Share links: one proxy node written as an address, in the `vmess`,
//! `vless`, `trojan` and `ss` forms.
use vstd::prelude::*;
use crate::decimal::{decimal, parse_u16, parsed_u16, push_decimal};
use crate::scan::{
    find_char, has_prefix, index_of, pair_of, skip_prefixes, split_at_first, split_once,
    text_starts_with, without_prefixes,
};
use crate::sub_parse::codec::{
    json_document, pairs_of, parse_json, parse_url, parsed_url, UriParts, UriPartsView,
};
use crate::sub_parse::node::{field, Node};
use crate::sub_parse::{
    base64_text, decode_base64_to_utf8, i64_of, json_get_i64, json_get_str, json_get_u16, kept,
    node_of, percent_decode_to_string, percent_text, str_of, to_bool, to_opt_string, truthy,
    u16_of, CanonicalNode, CanonicalNodeView,
};
use crate::text::{
    chars_of, lowercased, same_text, string_from, text_of, to_lowercase, trim, trim_bounds,
    trimmed,
};

verus! {

/// `a` where it is not empty, else `b`.
pub open spec fn either(a: Seq<char>, b: Seq<char>) -> Seq<char> {
    if a.len() > 0 {
        a
    } else {
        b
    }
}

fn first_filled(a: String, b: String) -> (r: String)
    ensures
        r@ == either(a@, b@),
{
    if a.as_str().is_empty() {
        b
    } else {
        a
    }
}

/// The tag of a node that names none: its kind, host and port.
pub open spec fn tag_text(kind: Seq<char>, host: Seq<char>, port: u16) -> Seq<char> {
    kind + ":"@ + host + ":"@ + decimal(port as nat)
}

/// The tag of a node that names none.
pub fn default_tag(kind: &str, host: &str, port: u16) -> (r: String)
    ensures
        r@ == tag_text(kind@, host@, port),
{
    let mut out = String::from_str(kind);
    out.append(":");
    out.append(host);
    out.append(":");
    push_decimal(&mut out, port as u64);
    out
}

/// The text under `key` in a JSON object.
pub open spec fn member(obj: Node, key: Seq<char>) -> Seq<char> {
    str_of(field(Some(obj), key))
}

/// Whether a `vmess` object allows an unverified certificate: the first
/// of its four spellings of the setting that holds a text decides.
pub open spec fn vmess_insecure(obj: Node) -> Option<bool> {
    if member(obj, "allowInsecure"@).len() > 0 {
        Some(truthy(member(obj, "allowInsecure"@)))
    } else if member(obj, "allow_insecure"@).len() > 0 {
        Some(truthy(member(obj, "allow_insecure"@)))
    } else if member(obj, "skipCertVerify"@).len() > 0 {
        Some(truthy(member(obj, "skipCertVerify"@)))
    } else if member(obj, "skip-cert-verify"@).len() > 0 {
        Some(truthy(member(obj, "skip-cert-verify"@)))
    } else {
        None
    }
}

/// The node that a `vmess` object describes; `None` where it lacks a
/// host, a port or an id.
pub open spec fn vmess_node(obj: Node) -> Option<CanonicalNodeView> {
    let host = either(member(obj, "add"@), member(obj, "host"@));
    let port = u16_of(field(Some(obj), "port"@));
    let id = member(obj, "id"@);
    if port is None || host.len() == 0 || port->0 == 0 || id.len() == 0 {
        None
    } else {
        Some(
            CanonicalNodeView {
                type_: "vmess"@,
                tag: Some(either(member(obj, "ps"@), tag_text("vmess"@, host, port->0))),
                host,
                port: port->0,
                id: Some(id),
                password: None,
                method: None,
                alterId: i64_of(field(Some(obj), "aid"@)),
                security: kept(
                    either(member(obj, "scy"@), either(member(obj, "cipher"@), "auto"@)),
                ),
                net: kept(either(member(obj, "net"@), "tcp"@)),
                tls: kept(member(obj, "tls"@)),
                sni: kept(either(member(obj, "sni"@), member(obj, "serverName"@))),
                allowInsecure: vmess_insecure(obj),
                encryption: None,
                flow: None,
                wsHost: kept(member(obj, "host"@)),
                wsPath: kept(member(obj, "path"@)),
                grpcServiceName: None,
                clash: None,
            },
        )
    }
}

fn vmess_allow_insecure(obj: &Node) -> (r: Option<bool>)
    ensures
        r == vmess_insecure(*obj),
{
    let a = json_get_str(obj, "allowInsecure");
    if !a.as_str().is_empty() {
        return Some(to_bool(a.as_str()));
    }
    let b = json_get_str(obj, "allow_insecure");
    if !b.as_str().is_empty() {
        return Some(to_bool(b.as_str()));
    }
    let c = json_get_str(obj, "skipCertVerify");
    if !c.as_str().is_empty() {
        return Some(to_bool(c.as_str()));
    }
    let d = json_get_str(obj, "skip-cert-verify");
    if !d.as_str().is_empty() {
        return Some(to_bool(d.as_str()));
    }
    None
}

/// Reads the node that the object of a `vmess` link describes.
pub fn vmess_from_json(obj: &Node) -> (r: Option<CanonicalNode>)
    ensures
        node_of(r) == vmess_node(*obj),
{
    let host = first_filled(json_get_str(obj, "add"), json_get_str(obj, "host"));
    let port = json_get_u16(obj, "port")?;
    let id = json_get_str(obj, "id");
    if host.as_str().is_empty() || port == 0 || id.as_str().is_empty() {
        return None;
    }
    let tag = first_filled(json_get_str(obj, "ps"), default_tag("vmess", host.as_str(), port));
    let security = first_filled(
        json_get_str(obj, "scy"),
        first_filled(json_get_str(obj, "cipher"), String::from_str("auto")),
    );
    let net = first_filled(json_get_str(obj, "net"), String::from_str("tcp"));
    let tls = json_get_str(obj, "tls");
    let sni = first_filled(json_get_str(obj, "sni"), json_get_str(obj, "serverName"));
    let allow_insecure = vmess_allow_insecure(obj);
    let ws_host = json_get_str(obj, "host");
    let ws_path = json_get_str(obj, "path");
    Some(
        CanonicalNode {
            type_: String::from_str("vmess"),
            tag: Some(tag),
            host,
            port,
            id: Some(id),
            password: None,
            method: None,
            alterId: json_get_i64(obj, "aid"),
            security: to_opt_string(security.as_str()),
            net: to_opt_string(net.as_str()),
            tls: to_opt_string(tls.as_str()),
            sni: to_opt_string(sni.as_str()),
            allowInsecure: allow_insecure,
            encryption: None,
            flow: None,
            wsHost: to_opt_string(ws_host.as_str()),
            wsPath: to_opt_string(ws_path.as_str()),
            grpcServiceName: None,
            clash: None,
        },
    )
}

/// What follows the scheme of a link, trimmed: the link is trimmed, every
/// leading repetition of the scheme is taken off, and the rest is trimmed.
pub open spec fn link_payload(uri: Seq<char>, scheme: Seq<char>) -> Seq<char> {
    trimmed(without_prefixes(trimmed(uri), scheme))
}

fn payload_of(uri: &str, scheme: &str) -> (r: String)
    ensures
        r@ == link_payload(uri@, scheme@),
{
    let raw = trim(uri);
    let chars = chars_of(raw.as_str());
    assert(chars@.skip(0) =~= chars@);
    let at = skip_prefixes(&chars, 0, scheme);
    assert(chars@.subrange(at as int, chars.len() as int) =~= chars@.skip(at as int));
    let (a, b) = trim_bounds(&chars, at, chars.len());
    string_from(&chars, a, b)
}

/// The node of a `vmess` link: its payload is base64 of a JSON object.
pub open spec fn vmess_uri_node(uri: Seq<char>) -> Option<CanonicalNodeView> {
    match base64_text(link_payload(uri, "vmess://"@)) {
        Some(json) => match json_document(json) {
            Some(obj) => vmess_node(obj),
            None => None,
        },
        None => None,
    }
}

/// Reads the node of a `vmess` link.
pub fn parse_vmess_uri(uri: &str) -> (r: Option<CanonicalNode>)
    ensures
        node_of(r) == vmess_uri_node(uri@),
{
    let b64 = payload_of(uri, "vmess://");
    let json_text = decode_base64_to_utf8(b64.as_str())?;
    let obj = parse_json(json_text.as_str())?;
    vmess_from_json(&obj)
}

/// What the `vless` and `trojan` links have in common.
#[derive(Debug, Clone, PartialEq, Eq)]
pub struct UriCommon {
    pub type_: String,
    pub tag: String,
    pub host: String,
    pub port: u16,
    pub user: String,
    pub password: String,
    /// The pairs of the query in the order of the link. Where a key
    /// stands twice, its last value counts.
    pub params: Vec<(String, String)>,
}

/// A `UriCommon` with its texts as sequences of characters.
pub struct UriCommonView {
    pub type_: Seq<char>,
    pub tag: Seq<char>,
    pub host: Seq<char>,
    pub port: u16,
    pub user: Seq<char>,
    pub password: Seq<char>,
    pub params: Seq<(Seq<char>, Seq<char>)>,
}

impl View for UriCommon {
    type V = UriCommonView;

    open spec fn view(&self) -> UriCommonView {
        UriCommonView {
            type_: self.type_@,
            tag: self.tag@,
            host: self.host@,
            port: self.port,
            user: self.user@,
            password: self.password@,
            params: pairs_of(self.params@),
        }
    }
}

/// The common parts that may be absent, by their view.
pub open spec fn common_of(u: Option<UriCommon>) -> Option<UriCommonView> {
    match u {
        Some(c) => Some(c@),
        None => None,
    }
}

/// A part that may be absent, percent-decoded and trimmed.
pub open spec fn decoded_part(part: Option<Seq<char>>) -> Seq<char> {
    match part {
        Some(p) => trimmed(percent_text(p)),
        None => Seq::empty(),
    }
}

/// The common parts of a parsed link.
pub open spec fn uri_common(parts: UriPartsView) -> UriCommonView {
    UriCommonView {
        type_: lowercased(parts.scheme),
        tag: decoded_part(parts.fragment),
        host: trimmed_or_empty(parts.host),
        port: match parts.port {
            Some(p) => p,
            None => 0,
        },
        user: trimmed(percent_text(parts.username)),
        password: decoded_part(parts.password),
        params: parts.query,
    }
}

fn decode_part(part: &Option<String>) -> (r: String)
    ensures
        r@ == decoded_part(text_of(*part)),
{
    match part {
        Some(p) => trim(percent_decode_to_string(p.as_str()).as_str()),
        None => {
            let r = String::new();
            assert(r@ =~= Seq::<char>::empty());
            r
        },
    }
}

/// Reads the common parts out of a parsed link.
pub fn common_from_parts(parts: UriParts) -> (r: UriCommon)
    ensures
        r@ == uri_common(parts@),
{
    let type_ = to_lowercase(parts.scheme.as_str());
    let tag = decode_part(&parts.fragment);
    let host = value_or_empty(parts.host.as_ref());
    let port: u16 = match parts.port {
        Some(p) => p,
        None => 0,
    };
    let user = trim(percent_decode_to_string(parts.username.as_str()).as_str());
    let password = decode_part(&parts.password);
    UriCommon { type_, tag, host, port, user, password, params: parts.query }
}

/// Parses a link and reads its common parts; `None` where the text is no
/// address.
pub fn parse_uri_common(uri: &str) -> (r: Option<UriCommon>)
    ensures
        common_of(r) == match parsed_url(uri@) {
            Some(parts) => Some(uri_common(parts)),
            None => None,
        },
{
    match parse_url(uri) {
        Some(parts) => Some(common_from_parts(parts)),
        None => None,
    }
}

/// The value of a key of the query: the last pair with that key.
pub open spec fn param(params: Seq<(Seq<char>, Seq<char>)>, key: Seq<char>) -> Option<Seq<char>>
    decreases params.len(),
{
    if params.len() == 0 {
        None
    } else if params.last().0 == key {
        Some(params.last().1)
    } else {
        param(params.drop_last(), key)
    }
}

/// The value of a key of the query.
pub fn get_param<'a>(params: &'a Vec<(String, String)>, key: &str) -> (r: Option<&'a String>)
    ensures
        match r {
            Some(v) => param(pairs_of(params@), key@) == Some(v@),
            None => param(pairs_of(params@), key@) is None,
        },
{
    let ghost pairs = pairs_of(params@);
    let mut i: usize = params.len();
    assert(pairs.take(i as int) =~= pairs);
    while i > 0
        invariant
            i <= params.len(),
            pairs == pairs_of(params@),
            param(pairs, key@) == param(pairs.take(i as int), key@),
        decreases i,
    {
        i -= 1;
        assert(pairs.take(i + 1).drop_last() =~= pairs.take(i as int));
        assert(pairs.take(i + 1).last() == (params[i as int].0@, params[i as int].1@));
        if same_text(params[i].0.as_str(), key) {
            return Some(&params[i].1);
        }
    }
    None
}

/// The first of two values that is there.
pub open spec fn or_else(a: Option<Seq<char>>, b: Option<Seq<char>>) -> Option<Seq<char>> {
    if a is Some {
        a
    } else {
        b
    }
}

/// A value trimmed, and the empty text where it is absent.
pub open spec fn trimmed_or_empty(v: Option<Seq<char>>) -> Seq<char> {
    match v {
        Some(t) => trimmed(t),
        None => Seq::empty(),
    }
}

/// A value trimmed, and `default` where it is absent or blank.
pub open spec fn trimmed_or(v: Option<Seq<char>>, default: Seq<char>) -> Seq<char> {
    match v {
        Some(t) => if trimmed(t).len() > 0 {
            trimmed(t)
        } else {
            default
        },
        None => default,
    }
}

/// Whether the query allows an unverified certificate: the first of its
/// three spellings of the setting that is there decides.
pub open spec fn query_insecure(q: Seq<(Seq<char>, Seq<char>)>) -> Option<bool> {
    match or_else(
        param(q, "allowInsecure"@),
        or_else(param(q, "allow_insecure"@), param(q, "insecure"@)),
    ) {
        Some(v) => Some(truthy(v)),
        None => None,
    }
}

fn value_or_empty(v: Option<&String>) -> (r: String)
    ensures
        r@ == trimmed_or_empty(
            match v {
                Some(t) => Some(t@),
                None => None,
            },
        ),
{
    match v {
        Some(t) => trim(t.as_str()),
        None => {
            let r = String::new();
            assert(r@ =~= Seq::<char>::empty());
            r
        },
    }
}

fn value_or(v: Option<&String>, default: &str) -> (r: String)
    ensures
        r@ == trimmed_or(
            match v {
                Some(t) => Some(t@),
                None => None,
            },
            default@,
        ),
{
    match v {
        Some(t) => {
            let s = trim(t.as_str());
            if s.as_str().is_empty() {
                String::from_str(default)
            } else {
                s
            }
        },
        None => String::from_str(default),
    }
}

fn param_or_empty(params: &Vec<(String, String)>, key: &str) -> (r: String)
    ensures
        r@ == trimmed_or_empty(param(pairs_of(params@), key@)),
{
    value_or_empty(get_param(params, key))
}

fn param_or(params: &Vec<(String, String)>, key: &str, default: &str) -> (r: String)
    ensures
        r@ == trimmed_or(param(pairs_of(params@), key@), default@),
{
    value_or(get_param(params, key), default)
}

fn first_param<'a>(params: &'a Vec<(String, String)>, a: &str, b: &str) -> (r: Option<&'a String>)
    ensures
        match r {
            Some(v) => or_else(param(pairs_of(params@), a@), param(pairs_of(params@), b@)) == Some(
                v@,
            ),
            None => or_else(param(pairs_of(params@), a@), param(pairs_of(params@), b@)) is None,
        },
{
    match get_param(params, a) {
        Some(v) => Some(v),
        None => get_param(params, b),
    }
}

fn allow_insecure_of(params: &Vec<(String, String)>) -> (r: Option<bool>)
    ensures
        r == query_insecure(pairs_of(params@)),
{
    let v = match get_param(params, "allowInsecure") {
        Some(v) => Some(v),
        None => first_param(params, "allow_insecure", "insecure"),
    };
    match v {
        Some(s) => Some(to_bool(s.as_str())),
        None => None,
    }
}

/// The tag of a link: the one it names, else its kind, host and port.
pub open spec fn link_tag(u: UriCommonView, kind: Seq<char>) -> Seq<char> {
    if u.tag.len() == 0 {
        tag_text(kind, u.host, u.port)
    } else {
        u.tag
    }
}

/// Whether the common parts name a host, a port and a user.
pub open spec fn complete(u: UriCommonView) -> bool {
    u.host.len() > 0 && u.port != 0 && u.user.len() > 0
}

/// The node of a `vless` link.
pub open spec fn vless_node(u: UriCommonView) -> Option<CanonicalNodeView> {
    if u.type_ != "vless"@ || !complete(u) {
        None
    } else {
        Some(
            CanonicalNodeView {
                type_: "vless"@,
                tag: Some(link_tag(u, "vless"@)),
                host: u.host,
                port: u.port,
                id: Some(u.user),
                password: None,
                method: None,
                alterId: None,
                security: None,
                net: kept(trimmed_or(param(u.params, "type"@), "tcp"@)),
                tls: kept(trimmed_or_empty(param(u.params, "security"@))),
                sni: kept(
                    trimmed_or_empty(
                        or_else(param(u.params, "sni"@), param(u.params, "serverName"@)),
                    ),
                ),
                allowInsecure: query_insecure(u.params),
                encryption: kept(trimmed_or(param(u.params, "encryption"@), "none"@)),
                flow: kept(trimmed_or_empty(param(u.params, "flow"@))),
                wsHost: kept(trimmed_or_empty(param(u.params, "host"@))),
                wsPath: kept(trimmed_or_empty(param(u.params, "path"@))),
                grpcServiceName: kept(trimmed_or_empty(param(u.params, "serviceName"@))),
                clash: None,
            },
        )
    }
}

/// The node of a `trojan` link.
pub open spec fn trojan_node(u: UriCommonView) -> Option<CanonicalNodeView> {
    if u.type_ != "trojan"@ || !complete(u) {
        None
    } else {
        Some(
            CanonicalNodeView {
                type_: "trojan"@,
                tag: Some(link_tag(u, "trojan"@)),
                host: u.host,
                port: u.port,
                id: None,
                password: Some(u.user),
                method: None,
                alterId: None,
                security: None,
                net: kept(trimmed_or(param(u.params, "type"@), "tcp"@)),
                tls: kept(trimmed_or(param(u.params, "security"@), "tls"@)),
                sni: kept(
                    trimmed_or_empty(or_else(param(u.params, "sni"@), param(u.params, "peer"@))),
                ),
                allowInsecure: query_insecure(u.params),
                encryption: None,
                flow: None,
                wsHost: kept(trimmed_or_empty(param(u.params, "host"@))),
                wsPath: kept(trimmed_or_empty(param(u.params, "path"@))),
                grpcServiceName: kept(trimmed_or_empty(param(u.params, "serviceName"@))),
                clash: None,
            },
        )
    }
}

fn tag_of_link(u: &UriCommon, kind: &str) -> (r: String)
    ensures
        r@ == link_tag(u@, kind@),
{
    if u.tag.as_str().is_empty() {
        default_tag(kind, u.host.as_str(), u.port)
    } else {
        u.tag.clone()
    }
}

fn is_complete(u: &UriCommon) -> (r: bool)
    ensures
        r == complete(u@),
{
    !u.host.as_str().is_empty() && u.port != 0 && !u.user.as_str().is_empty()
}

/// Reads the node of a `vless` link from its common parts.
pub fn vless_from_common(u: UriCommon) -> (r: Option<CanonicalNode>)
    ensures
        node_of(r) == vless_node(u@),
{
    if !same_text(u.type_.as_str(), "vless") || !is_complete(&u) {
        return None;
    }
    let net = param_or(&u.params, "type", "tcp");
    let security = param_or_empty(&u.params, "security");
    let sni = value_or_empty(first_param(&u.params, "sni", "serverName"));
    let allow_insecure = allow_insecure_of(&u.params);
    let ws_host = param_or_empty(&u.params, "host");
    let ws_path = param_or_empty(&u.params, "path");
    let grpc_service_name = param_or_empty(&u.params, "serviceName");
    let encryption = param_or(&u.params, "encryption", "none");
    let flow = param_or_empty(&u.params, "flow");
    let tag = tag_of_link(&u, "vless");
    Some(
        CanonicalNode {
            type_: String::from_str("vless"),
            tag: Some(tag),
            host: u.host,
            port: u.port,
            id: Some(u.user),
            password: None,
            method: None,
            alterId: None,
            security: None,
            net: to_opt_string(net.as_str()),
            tls: to_opt_string(security.as_str()),
            sni: to_opt_string(sni.as_str()),
            allowInsecure: allow_insecure,
            encryption: to_opt_string(encryption.as_str()),
            flow: to_opt_string(flow.as_str()),
            wsHost: to_opt_string(ws_host.as_str()),
            wsPath: to_opt_string(ws_path.as_str()),
            grpcServiceName: to_opt_string(grpc_service_name.as_str()),
            clash: None,
        },
    )
}

/// Reads the node of a `trojan` link from its common parts.
pub fn trojan_from_common(u: UriCommon) -> (r: Option<CanonicalNode>)
    ensures
        node_of(r) == trojan_node(u@),
{
    if !same_text(u.type_.as_str(), "trojan") || !is_complete(&u) {
        return None;
    }
    let net = param_or(&u.params, "type", "tcp");
    let security = param_or(&u.params, "security", "tls");
    let sni = value_or_empty(first_param(&u.params, "sni", "peer"));
    let allow_insecure = allow_insecure_of(&u.params);
    let ws_host = param_or_empty(&u.params, "host");
    let ws_path = param_or_empty(&u.params, "path");
    let grpc_service_name = param_or_empty(&u.params, "serviceName");
    let tag = tag_of_link(&u, "trojan");
    Some(
        CanonicalNode {
            type_: String::from_str("trojan"),
            tag: Some(tag),
            host: u.host,
            port: u.port,
            id: None,
            password: Some(u.user),
            method: None,
            alterId: None,
            security: None,
            net: to_opt_string(net.as_str()),
            tls: to_opt_string(security.as_str()),
            sni: to_opt_string(sni.as_str()),
            allowInsecure: allow_insecure,
            encryption: None,
            flow: None,
            wsHost: to_opt_string(ws_host.as_str()),
            wsPath: to_opt_string(ws_path.as_str()),
            grpcServiceName: to_opt_string(grpc_service_name.as_str()),
            clash: None,
        },
    )
}

/// The node of a `vless` link; `None` where the text is no address.
pub open spec fn vless_uri_node(uri: Seq<char>) -> Option<CanonicalNodeView> {
    match parsed_url(uri) {
        Some(parts) => vless_node(uri_common(parts)),
        None => None,
    }
}

/// The node of a `trojan` link; `None` where the text is no address.
pub open spec fn trojan_uri_node(uri: Seq<char>) -> Option<CanonicalNodeView> {
    match parsed_url(uri) {
        Some(parts) => trojan_node(uri_common(parts)),
        None => None,
    }
}

/// Reads the node of a `vless` link.
pub fn parse_vless_uri(uri: &str) -> (r: Option<CanonicalNode>)
    ensures
        node_of(r) == vless_uri_node(uri@),
{
    let u = parse_uri_common(uri)?;
    vless_from_common(u)
}

/// Reads the node of a `trojan` link.
pub fn parse_trojan_uri(uri: &str) -> (r: Option<CanonicalNode>)
    ensures
        node_of(r) == trojan_uri_node(uri@),
{
    let u = parse_uri_common(uri)?;
    trojan_from_common(u)
}

/// A text parted at its first `c`; where it holds none, what it decodes
/// to as base64 is parted instead.
pub open spec fn split_plain_or_encoded(s: Seq<char>, c: char) -> Option<(Seq<char>, Seq<char>)> {
    match split_at_first(s, c) {
        Some(parts) => Some(parts),
        None => match base64_text(s) {
            Some(decoded) => split_at_first(decoded, c),
            None => None,
        },
    }
}

fn split_or_decode(s: &str, c: char) -> (r: Option<(String, String)>)
    ensures
        pair_of(r) == split_plain_or_encoded(s@, c),
{
    match split_once(s, c) {
        Some(parts) => Some(parts),
        None => {
            let decoded = decode_base64_to_utf8(s)?;
            split_once(decoded.as_str(), c)
        },
    }
}

/// What stands before the first `c` of a text: all of it where it holds
/// none.
pub open spec fn before_first(s: Seq<char>, c: char) -> Seq<char> {
    s.take(index_of(s, c))
}

/// What stands after the first `c` of a text: nothing where it holds
/// none.
pub open spec fn after_first(s: Seq<char>, c: char) -> Seq<char> {
    if index_of(s, c) < s.len() {
        s.skip(index_of(s, c) + 1)
    } else {
        Seq::empty()
    }
}

/// The node with the given method, password, host and port.
pub open spec fn ss_node(
    tag: Seq<char>,
    method: Seq<char>,
    password: Seq<char>,
    host: Seq<char>,
    port: u16,
) -> CanonicalNodeView {
    CanonicalNodeView {
        type_: "ss"@,
        tag: Some(either(tag, tag_text("ss"@, host, port))),
        host,
        port,
        id: None,
        password: kept(password),
        method: kept(method),
        alterId: None,
        security: None,
        net: None,
        tls: None,
        sni: None,
        allowInsecure: None,
        encryption: None,
        flow: None,
        wsHost: None,
        wsPath: None,
        grpcServiceName: None,
        clash: None,
    }
}

/// The node that the payload of an `ss` link describes: credentials, `@`,
/// host, `:`, port, where the credentials, or all of it, may be base64.
pub open spec fn ss_payload_node(tag: Seq<char>, main: Seq<char>) -> Option<CanonicalNodeView> {
    match split_plain_or_encoded(main, '@') {
        None => None,
        Some((creds, host_part)) => match split_plain_or_encoded(creds, ':') {
            None => None,
            Some((method, password)) => match split_at_first(host_part, ':') {
                None => None,
                Some((host, port_raw)) => match parsed_u16(trimmed(port_raw)) {
                    None => None,
                    Some(port) => if trimmed(host).len() == 0 || port == 0 {
                        None
                    } else {
                        Some(ss_node(tag, method, password, trimmed(host), port))
                    },
                },
            },
        },
    }
}

/// The node of an `ss` link. What follows `#` is the tag, what follows
/// `?` before it is left out, and the rest is the payload.
pub open spec fn ss_uri_node(uri: Seq<char>) -> Option<CanonicalNodeView> {
    let no_scheme = without_prefixes(trimmed(uri), "ss://"@);
    let tag = trimmed(percent_text(after_first(no_scheme, '#')));
    let main = trimmed(before_first(before_first(no_scheme, '#'), '?'));
    if main.len() == 0 {
        None
    } else {
        ss_payload_node(tag, main)
    }
}

/// Reads the node that the payload of an `ss` link describes.
pub fn ss_from_payload(tag: String, main: &str) -> (r: Option<CanonicalNode>)
    ensures
        node_of(r) == ss_payload_node(tag@, main@),
{
    let (creds_part, host_part) = split_or_decode(main, '@')?;
    let (method, password) = split_or_decode(creds_part.as_str(), ':')?;
    let (host, port_raw) = split_once(host_part.as_str(), ':')?;
    let host = trim(host.as_str());
    let port = parse_u16(trim(port_raw.as_str()).as_str())?;
    if host.as_str().is_empty() || port == 0 {
        return None;
    }
    let tag = first_filled(tag, default_tag("ss", host.as_str(), port));
    Some(
        CanonicalNode {
            type_: String::from_str("ss"),
            tag: Some(tag),
            host,
            port,
            id: None,
            password: to_opt_string(password.as_str()),
            method: to_opt_string(method.as_str()),
            alterId: None,
            security: None,
            net: None,
            tls: None,
            sni: None,
            allowInsecure: None,
            encryption: None,
            flow: None,
            wsHost: None,
            wsPath: None,
            grpcServiceName: None,
            clash: None,
        },
    )
}

/// Reads the node of an `ss` link.
pub fn parse_ss_uri(uri: &str) -> (r: Option<CanonicalNode>)
    ensures
        node_of(r) == ss_uri_node(uri@),
{
    let raw = trim(uri);
    let chars = chars_of(raw.as_str());
    assert(chars@.skip(0) =~= chars@);
    let start = skip_prefixes(&chars, 0, "ss://");
    let ghost no_scheme = chars@.skip(start as int);
    assert(chars@.subrange(start as int, chars.len() as int) =~= no_scheme);
    let cut = find_char(&chars, start, chars.len(), '#');
    let hash = if cut < chars.len() {
        string_from(&chars, cut + 1, chars.len())
    } else {
        String::new()
    };
    proof {
        if cut < chars.len() {
            assert(chars@.subrange(cut + 1, chars.len() as int) =~= no_scheme.skip(
                cut - start + 1,
            ));
        } else {
            assert(hash@ =~= Seq::<char>::empty());
        }
        assert(hash@ == after_first(no_scheme, '#'));
        assert(chars@.subrange(start as int, cut as int) =~= before_first(no_scheme, '#'));
    }
    let tag = trim(percent_decode_to_string(hash.as_str()).as_str());
    let stop = find_char(&chars, start, cut, '?');
    proof {
        assert(chars@.subrange(start as int, stop as int) =~= before_first(
            before_first(no_scheme, '#'),
            '?',
        ));
    }
    let (a, b) = trim_bounds(&chars, start, stop);
    if a == b {
        assert(chars@.subrange(a as int, b as int).len() == 0);
        return None;
    }
    let main = string_from(&chars, a, b);
    ss_from_payload(tag, main.as_str())
}

/// The node that a line describes: the line is trimmed, and the scheme
/// it begins with, in any case, decides how it is read.
pub open spec fn line_node(line: Seq<char>) -> Option<CanonicalNodeView> {
    let s = trimmed(line);
    if s.len() == 0 {
        None
    } else if has_prefix(lowercased(s), "vmess://"@) {
        vmess_uri_node(s)
    } else if has_prefix(lowercased(s), "vless://"@) {
        vless_uri_node(s)
    } else if has_prefix(lowercased(s), "trojan://"@) {
        trojan_uri_node(s)
    } else if has_prefix(lowercased(s), "ss://"@) {
        ss_uri_node(s)
    } else {
        None
    }
}

/// Reads the node that a line describes.
pub fn parse_node_from_uri_line(line: &str) -> (r: Option<CanonicalNode>)
    ensures
        node_of(r) == line_node(line@),
{
    let s = trim(line);
    if s.as_str().is_empty() {
        return None;
    }
    let lower = to_lowercase(s.as_str());
    if text_starts_with(lower.as_str(), "vmess://") {
        return parse_vmess_uri(s.as_str());
    }
    if text_starts_with(lower.as_str(), "vless://") {
        return parse_vless_uri(s.as_str());
    }
    if text_starts_with(lower.as_str(), "trojan://") {
        return parse_trojan_uri(s.as_str());
    }
    if text_starts_with(lower.as_str(), "ss://") {
        return parse_ss_uri(s.as_str());
    }
    None
}

} // verus!
