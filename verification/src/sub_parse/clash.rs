//! Clash documents: the entries of the `proxies` list, each read into a
//! node by the rules of its type.
use vstd::prelude::*;
use crate::decimal::{parse_i64, parsed_i64};
use crate::sub_parse::codec::{parse_yaml, yaml_document};
use crate::sub_parse::node::{field, get_field, lookup, pointee, y_map_get, Node};
use crate::sub_parse::uri::{default_tag, either, tag_text};
use crate::sub_parse::{
    bool_of, kept, node_of, str_of, to_opt_string, u16_of, views_of, y_bool, y_str, y_u16,
    CanonicalNode, CanonicalNodeView,
};
use crate::text::{lowercased, same_text, to_lowercase, trim, trimmed};

verus! {

/// What every entry of the proxy list names, whatever its type.
pub struct EntryHead {
    pub kind: String,
    pub name: String,
    pub host: String,
    pub port: u16,
    pub allow_insecure: bool,
}

/// An `EntryHead` with its texts as sequences of characters.
pub struct EntryHeadView {
    pub kind: Seq<char>,
    pub name: Seq<char>,
    pub host: Seq<char>,
    pub port: u16,
    pub allow_insecure: bool,
}

impl View for EntryHead {
    type V = EntryHeadView;

    open spec fn view(&self) -> EntryHeadView {
        EntryHeadView {
            kind: self.kind@,
            name: self.name@,
            host: self.host@,
            port: self.port,
            allow_insecure: self.allow_insecure,
        }
    }
}

/// The held value, or `fallback` where there is none.
pub open spec fn flag_or(v: Option<bool>, fallback: bool) -> bool {
    match v {
        Some(b) => b,
        None => fallback,
    }
}

/// The first of the values that is there.
pub open spec fn first_of(a: Option<Node>, b: Option<Node>) -> Option<Node> {
    if a is Some {
        a
    } else {
        b
    }
}

/// The text under `key` in the entries of a mapping.
pub open spec fn entry_text(m: Seq<(Node, Node)>, key: Seq<char>) -> Seq<char> {
    str_of(lookup(m, key))
}

/// Whether the entry allows an unverified certificate: the first of the
/// three spellings of the setting that is there decides, and "no" where
/// none gives an answer.
pub open spec fn entry_insecure(m: Seq<(Node, Node)>) -> bool {
    flag_or(
        bool_of(
            first_of(
                lookup(m, "skip-cert-verify"@),
                first_of(lookup(m, "skipCertVerify"@), lookup(m, "allowInsecure"@)),
            ),
        ),
        false,
    )
}

/// The head of an entry; `None` where it lacks a type, a server or a
/// port.
pub open spec fn entry_head(m: Seq<(Node, Node)>) -> Option<EntryHeadView> {
    let kind = lowercased(entry_text(m, "type"@));
    let host = entry_text(m, "server"@);
    let port = u16_of(lookup(m, "port"@));
    if port is None || kind.len() == 0 || host.len() == 0 || port->0 == 0 {
        None
    } else {
        Some(
            EntryHeadView {
                kind,
                name: entry_text(m, "name"@),
                host,
                port: port->0,
                allow_insecure: entry_insecure(m),
            },
        )
    }
}

fn first_entry<'a>(m: &'a Vec<(Node, Node)>, a: &str, b: &str) -> (r: Option<&'a Node>)
    ensures
        pointee(r) == first_of(lookup(m@, a@), lookup(m@, b@)),
{
    match y_map_get(m, a) {
        Some(v) => Some(v),
        None => y_map_get(m, b),
    }
}

fn text_at(m: &Vec<(Node, Node)>, key: &str) -> (r: String)
    ensures
        r@ == entry_text(m@, key@),
{
    y_str(y_map_get(m, key))
}

fn head_of(m: &Vec<(Node, Node)>) -> (r: Option<EntryHead>)
    ensures
        match r {
            Some(h) => entry_head(m@) == Some(h@),
            None => entry_head(m@) is None,
        },
{
    let kind = to_lowercase(text_at(m, "type").as_str());
    let name = text_at(m, "name");
    let host = text_at(m, "server");
    let port = y_u16(y_map_get(m, "port"))?;
    if kind.as_str().is_empty() || host.as_str().is_empty() || port == 0 {
        return None;
    }
    let setting = match y_map_get(m, "skip-cert-verify") {
        Some(v) => Some(v),
        None => first_entry(m, "skipCertVerify", "allowInsecure"),
    };
    let allow_insecure = match y_bool(setting) {
        Some(b) => b,
        None => false,
    };
    Some(EntryHead { kind, name, host, port, allow_insecure })
}

/// `tls` where the entry switches TLS on, and the empty text where it
/// does not.
pub open spec fn tls_text(m: Seq<(Node, Node)>) -> Seq<char> {
    if flag_or(bool_of(lookup(m, "tls"@)), false) {
        "tls"@
    } else {
        ""@
    }
}

fn tls_of(m: &Vec<(Node, Node)>) -> (r: String)
    ensures
        r@ == tls_text(m@),
{
    let on = match y_bool(y_map_get(m, "tls")) {
        Some(b) => b,
        None => false,
    };
    if on {
        String::from_str("tls")
    } else {
        String::from_str("")
    }
}

/// The websocket host of an entry: `Host` under `headers` under
/// `ws-opts`.
pub open spec fn ws_host_text(m: Seq<(Node, Node)>) -> Seq<char> {
    str_of(field(field(lookup(m, "ws-opts"@), "headers"@), "Host"@))
}

/// The websocket path of an entry: `path` under `ws-opts`.
pub open spec fn ws_path_text(m: Seq<(Node, Node)>) -> Seq<char> {
    str_of(field(lookup(m, "ws-opts"@), "path"@))
}

/// The gRPC service of an entry: `grpc-service-name` under `grpc-opts`.
pub open spec fn grpc_text(m: Seq<(Node, Node)>) -> Seq<char> {
    str_of(field(lookup(m, "grpc-opts"@), "grpc-service-name"@))
}

fn ws_host_of(m: &Vec<(Node, Node)>) -> (r: String)
    ensures
        r@ == ws_host_text(m@),
{
    y_str(get_field(get_field(y_map_get(m, "ws-opts"), "headers"), "Host"))
}

fn ws_path_of(m: &Vec<(Node, Node)>) -> (r: String)
    ensures
        r@ == ws_path_text(m@),
{
    y_str(get_field(y_map_get(m, "ws-opts"), "path"))
}

fn grpc_of(m: &Vec<(Node, Node)>) -> (r: String)
    ensures
        r@ == grpc_text(m@),
{
    y_str(get_field(y_map_get(m, "grpc-opts"), "grpc-service-name"))
}

/// A node of the given type with nothing but its head filled in.
pub open spec fn bare_node(type_: Seq<char>, kind: Seq<char>, h: EntryHeadView) -> CanonicalNodeView {
    CanonicalNodeView {
        type_,
        tag: Some(either(h.name, tag_text(kind, h.host, h.port))),
        host: h.host,
        port: h.port,
        id: None,
        password: None,
        method: None,
        alterId: None,
        security: None,
        net: None,
        tls: None,
        sni: None,
        allowInsecure: None,
        encryption: None,
        flow: None,
        wsHost: None,
        wsPath: None,
        grpcServiceName: None,
        clash: None,
    }
}

fn bare(type_: &str, kind: &str, h: EntryHead) -> (r: CanonicalNode)
    ensures
        r@ == bare_node(type_@, kind@, h@),
{
    let tag = if h.name.as_str().is_empty() {
        default_tag(kind, h.host.as_str(), h.port)
    } else {
        h.name
    };
    CanonicalNode {
        type_: String::from_str(type_),
        tag: Some(tag),
        host: h.host,
        port: h.port,
        id: None,
        password: None,
        method: None,
        alterId: None,
        security: None,
        net: None,
        tls: None,
        sni: None,
        allowInsecure: None,
        encryption: None,
        flow: None,
        wsHost: None,
        wsPath: None,
        grpcServiceName: None,
        clash: None,
    }
}

/// The `alterId` of an entry: the integer that its text writes, and 0
/// where it writes none.
pub open spec fn alter_id_of(m: Seq<(Node, Node)>) -> i64 {
    match parsed_i64(entry_text(m, "alterId"@)) {
        Some(n) => n,
        None => 0,
    }
}

/// The node of a `vmess` entry, but for the entry itself.
pub open spec fn vmess_entry(m: Seq<(Node, Node)>, h: EntryHeadView) -> CanonicalNodeView {
    CanonicalNodeView {
        id: kept(entry_text(m, "uuid"@)),
        alterId: Some(alter_id_of(m)),
        security: kept(either(entry_text(m, "cipher"@), "auto"@)),
        net: kept(either(entry_text(m, "network"@), "tcp"@)),
        tls: Some(tls_text(m)),
        sni: kept(either(entry_text(m, "servername"@), entry_text(m, "sni"@))),
        allowInsecure: Some(h.allow_insecure),
        wsHost: kept(ws_host_text(m)),
        wsPath: kept(ws_path_text(m)),
        ..bare_node("vmess"@, "vmess"@, h)
    }
}

/// The node of a `vless` entry, but for the entry itself.
pub open spec fn vless_entry(m: Seq<(Node, Node)>, h: EntryHeadView) -> CanonicalNodeView {
    CanonicalNodeView {
        id: kept(entry_text(m, "uuid"@)),
        net: kept(either(entry_text(m, "network"@), "tcp"@)),
        tls: Some(tls_text(m)),
        sni: kept(either(entry_text(m, "servername"@), entry_text(m, "sni"@))),
        allowInsecure: Some(h.allow_insecure),
        encryption: kept(either(entry_text(m, "encryption"@), "none"@)),
        flow: kept(entry_text(m, "flow"@)),
        wsHost: kept(ws_host_text(m)),
        wsPath: kept(ws_path_text(m)),
        grpcServiceName: kept(grpc_text(m)),
        ..bare_node("vless"@, "vless"@, h)
    }
}

/// The node of a `trojan` entry, but for the entry itself. Its TLS is
/// always on.
pub open spec fn trojan_entry(m: Seq<(Node, Node)>, h: EntryHeadView) -> CanonicalNodeView {
    CanonicalNodeView {
        password: kept(entry_text(m, "password"@)),
        net: kept(either(entry_text(m, "network"@), "tcp"@)),
        tls: Some("tls"@),
        sni: kept(either(entry_text(m, "sni"@), entry_text(m, "servername"@))),
        allowInsecure: Some(h.allow_insecure),
        wsHost: kept(ws_host_text(m)),
        wsPath: kept(ws_path_text(m)),
        grpcServiceName: kept(grpc_text(m)),
        ..bare_node("trojan"@, "trojan"@, h)
    }
}

/// The node of an `ss` or `shadowsocks` entry, but for the entry itself.
pub open spec fn ss_entry(m: Seq<(Node, Node)>, h: EntryHeadView) -> CanonicalNodeView {
    CanonicalNodeView {
        password: kept(entry_text(m, "password"@)),
        method: kept(str_of(first_of(lookup(m, "cipher"@), lookup(m, "method"@)))),
        ..bare_node("ss"@, "ss"@, h)
    }
}

/// The node of a `hysteria2` or `hy2` entry, but for the entry itself.
pub open spec fn hysteria2_entry(m: Seq<(Node, Node)>, h: EntryHeadView) -> CanonicalNodeView {
    CanonicalNodeView {
        password: kept(
            str_of(
                first_of(
                    lookup(m, "password"@),
                    first_of(lookup(m, "auth"@), lookup(m, "auth-str"@)),
                ),
            ),
        ),
        tls: Some(tls_text(m)),
        sni: kept(either(entry_text(m, "sni"@), entry_text(m, "servername"@))),
        allowInsecure: Some(h.allow_insecure),
        ..bare_node("hysteria2"@, "hy2"@, h)
    }
}

/// The node of a `tuic` entry, but for the entry itself.
pub open spec fn tuic_entry(m: Seq<(Node, Node)>, h: EntryHeadView) -> CanonicalNodeView {
    CanonicalNodeView {
        id: kept(entry_text(m, "uuid"@)),
        password: kept(entry_text(m, "password"@)),
        tls: Some(tls_text(m)),
        sni: kept(either(entry_text(m, "sni"@), entry_text(m, "servername"@))),
        allowInsecure: Some(h.allow_insecure),
        ..bare_node("tuic"@, "tuic"@, h)
    }
}

/// The node that an entry with the given head describes, but for the
/// entry itself; `None` for a type that is not read.
pub open spec fn typed_entry(m: Seq<(Node, Node)>, h: EntryHeadView) -> Option<CanonicalNodeView> {
    if h.kind == "vmess"@ {
        Some(vmess_entry(m, h))
    } else if h.kind == "vless"@ {
        Some(vless_entry(m, h))
    } else if h.kind == "trojan"@ {
        Some(trojan_entry(m, h))
    } else if h.kind == "ss"@ || h.kind == "shadowsocks"@ {
        Some(ss_entry(m, h))
    } else if h.kind == "hysteria2"@ || h.kind == "hy2"@ {
        Some(hysteria2_entry(m, h))
    } else if h.kind == "tuic"@ {
        Some(tuic_entry(m, h))
    } else {
        None
    }
}

/// Whether a node names a type, a host and a port.
pub open spec fn usable(n: CanonicalNodeView) -> bool {
    trimmed(n.type_).len() > 0 && trimmed(n.host).len() > 0 && n.port > 0
}

/// The node that one entry of the proxy list describes, but for the
/// entry itself; `None` where the entry is no mapping, lacks a type, a
/// server or a port, or has a type that is not read.
pub open spec fn entry_fields(p: Node) -> Option<CanonicalNodeView> {
    match p.entries() {
        Some(m) => match entry_head(m) {
            Some(h) => match typed_entry(m, h) {
                Some(n) => if usable(n) {
                    Some(n)
                } else {
                    None
                },
                None => None,
            },
            None => None,
        },
        None => None,
    }
}

/// The node that one entry of the proxy list describes. It carries the
/// entry it was read from.
pub open spec fn entry_node(p: Node) -> Option<CanonicalNodeView> {
    match entry_fields(p) {
        Some(n) => Some(CanonicalNodeView { clash: Some(p), ..n }),
        None => None,
    }
}

fn either_text(a: String, b: String) -> (r: String)
    ensures
        r@ == either(a@, b@),
{
    if a.as_str().is_empty() {
        b
    } else {
        a
    }
}

fn vmess_of(m: &Vec<(Node, Node)>, h: EntryHead) -> (r: CanonicalNode)
    ensures
        r@ == vmess_entry(m@, h@),
{
    let allow_insecure = h.allow_insecure;
    let mut n = bare("vmess", "vmess", h);
    n.id = to_opt_string(text_at(m, "uuid").as_str());
    n.alterId = Some(
        match parse_i64(text_at(m, "alterId").as_str()) {
            Some(v) => v,
            None => 0,
        },
    );
    n.security = to_opt_string(
        either_text(text_at(m, "cipher"), String::from_str("auto")).as_str(),
    );
    n.net = to_opt_string(either_text(text_at(m, "network"), String::from_str("tcp")).as_str());
    n.tls = Some(tls_of(m));
    n.sni = to_opt_string(either_text(text_at(m, "servername"), text_at(m, "sni")).as_str());
    n.allowInsecure = Some(allow_insecure);
    n.wsHost = to_opt_string(ws_host_of(m).as_str());
    n.wsPath = to_opt_string(ws_path_of(m).as_str());
    n
}

fn vless_of(m: &Vec<(Node, Node)>, h: EntryHead) -> (r: CanonicalNode)
    ensures
        r@ == vless_entry(m@, h@),
{
    let allow_insecure = h.allow_insecure;
    let mut n = bare("vless", "vless", h);
    n.id = to_opt_string(text_at(m, "uuid").as_str());
    n.encryption = to_opt_string(
        either_text(text_at(m, "encryption"), String::from_str("none")).as_str(),
    );
    n.flow = to_opt_string(text_at(m, "flow").as_str());
    n.net = to_opt_string(either_text(text_at(m, "network"), String::from_str("tcp")).as_str());
    n.tls = Some(tls_of(m));
    n.sni = to_opt_string(either_text(text_at(m, "servername"), text_at(m, "sni")).as_str());
    n.allowInsecure = Some(allow_insecure);
    n.wsHost = to_opt_string(ws_host_of(m).as_str());
    n.wsPath = to_opt_string(ws_path_of(m).as_str());
    n.grpcServiceName = to_opt_string(grpc_of(m).as_str());
    n
}

fn trojan_of(m: &Vec<(Node, Node)>, h: EntryHead) -> (r: CanonicalNode)
    ensures
        r@ == trojan_entry(m@, h@),
{
    let allow_insecure = h.allow_insecure;
    let mut n = bare("trojan", "trojan", h);
    n.password = to_opt_string(text_at(m, "password").as_str());
    n.net = to_opt_string(either_text(text_at(m, "network"), String::from_str("tcp")).as_str());
    n.tls = Some(String::from_str("tls"));
    n.sni = to_opt_string(either_text(text_at(m, "sni"), text_at(m, "servername")).as_str());
    n.allowInsecure = Some(allow_insecure);
    n.wsHost = to_opt_string(ws_host_of(m).as_str());
    n.wsPath = to_opt_string(ws_path_of(m).as_str());
    n.grpcServiceName = to_opt_string(grpc_of(m).as_str());
    n
}

fn ss_of(m: &Vec<(Node, Node)>, h: EntryHead) -> (r: CanonicalNode)
    ensures
        r@ == ss_entry(m@, h@),
{
    let mut n = bare("ss", "ss", h);
    n.method = to_opt_string(y_str(first_entry(m, "cipher", "method")).as_str());
    n.password = to_opt_string(text_at(m, "password").as_str());
    n
}

fn hysteria2_of(m: &Vec<(Node, Node)>, h: EntryHead) -> (r: CanonicalNode)
    ensures
        r@ == hysteria2_entry(m@, h@),
{
    let allow_insecure = h.allow_insecure;
    let mut n = bare("hysteria2", "hy2", h);
    let secret = match y_map_get(m, "password") {
        Some(v) => Some(v),
        None => first_entry(m, "auth", "auth-str"),
    };
    n.password = to_opt_string(y_str(secret).as_str());
    n.tls = Some(tls_of(m));
    n.sni = to_opt_string(either_text(text_at(m, "sni"), text_at(m, "servername")).as_str());
    n.allowInsecure = Some(allow_insecure);
    n
}

fn tuic_of(m: &Vec<(Node, Node)>, h: EntryHead) -> (r: CanonicalNode)
    ensures
        r@ == tuic_entry(m@, h@),
{
    let allow_insecure = h.allow_insecure;
    let mut n = bare("tuic", "tuic", h);
    n.id = to_opt_string(text_at(m, "uuid").as_str());
    n.password = to_opt_string(text_at(m, "password").as_str());
    n.tls = Some(tls_of(m));
    n.sni = to_opt_string(either_text(text_at(m, "sni"), text_at(m, "servername")).as_str());
    n.allowInsecure = Some(allow_insecure);
    n
}

fn is_usable(n: &CanonicalNode) -> (r: bool)
    ensures
        r == usable(n@),
{
    !trim(n.type_.as_str()).as_str().is_empty() && !trim(n.host.as_str()).as_str().is_empty()
        && n.port > 0
}

/// Reads one entry of the proxy list into a node that does not yet carry
/// the entry.
pub fn read_entry(p: &Node) -> (r: Option<CanonicalNode>)
    ensures
        node_of(r) == entry_fields(*p),
{
    let m = p.as_mapping()?;
    let h = head_of(m)?;
    let n = if same_text(h.kind.as_str(), "vmess") {
        vmess_of(m, h)
    } else if same_text(h.kind.as_str(), "vless") {
        vless_of(m, h)
    } else if same_text(h.kind.as_str(), "trojan") {
        trojan_of(m, h)
    } else if same_text(h.kind.as_str(), "ss") || same_text(h.kind.as_str(), "shadowsocks") {
        ss_of(m, h)
    } else if same_text(h.kind.as_str(), "hysteria2") || same_text(h.kind.as_str(), "hy2") {
        hysteria2_of(m, h)
    } else if same_text(h.kind.as_str(), "tuic") {
        tuic_of(m, h)
    } else {
        return None;
    };
    if is_usable(&n) {
        Some(n)
    } else {
        None
    }
}

/// The nodes of the entries that describe one, in the order of the list.
pub open spec fn entry_nodes(proxies: Seq<Node>) -> Seq<CanonicalNodeView>
    decreases proxies.len(),
{
    if proxies.len() == 0 {
        Seq::empty()
    } else {
        let head = entry_nodes(proxies.drop_last());
        match entry_node(proxies.last()) {
            Some(n) => head.push(n),
            None => head,
        }
    }
}

/// The proxy list of a document: the sequence under `proxies` at its top.
pub open spec fn proxies_of(doc: Node) -> Option<Seq<Node>> {
    match field(Some(doc), "proxies"@) {
        Some(v) => v.items(),
        None => None,
    }
}

/// The nodes of a Clash document; none where the text is no YAML or the
/// document has no proxy list.
pub open spec fn clash_nodes(text: Seq<char>) -> Seq<CanonicalNodeView> {
    match yaml_document(text) {
        Some(doc) => match proxies_of(doc) {
            Some(proxies) => entry_nodes(proxies),
            None => Seq::empty(),
        },
        None => Seq::empty(),
    }
}

fn into_untagged(n: Node) -> (r: Node)
    ensures
        r == n.untag(),
    decreases n,
{
    match n {
        Node::Tagged(_, inner) => into_untagged(*inner),
        other => other,
    }
}

fn take_value(entries: Vec<(Node, Node)>, key: &str) -> (r: Option<Node>)
    ensures
        r == lookup(entries@, key@),
{
    assert(entries@.skip(0) =~= entries@);
    for entry in it: entries
        invariant
            it.seq() == entries@,
            lookup(entries@, key@) == lookup(entries@.skip(it.index() as int), key@),
    {
        let ghost rest = entries@.skip(it.index() as int);
        assert(rest[0] == entry);
        assert(rest.drop_first() =~= entries@.skip(it.index() + 1));
        let (k, v) = entry;
        let hit = match k.as_str() {
            Some(t) => same_text(t.as_str(), key),
            None => false,
        };
        if hit {
            return Some(v);
        }
    }
    None
}

/// Takes the proxy list out of a document.
pub fn take_proxies(doc: Node) -> (r: Option<Vec<Node>>)
    ensures
        match r {
            Some(items) => proxies_of(doc) == Some(items@),
            None => proxies_of(doc) is None,
        },
{
    match into_untagged(doc) {
        Node::Table(entries) => match take_value(entries, "proxies") {
            Some(v) => match into_untagged(v) {
                Node::List(items) => Some(items),
                _ => None,
            },
            None => None,
        },
        _ => None,
    }
}

/// Reads the entries of a proxy list into nodes, each carrying its entry.
pub fn read_entries(proxies: Vec<Node>) -> (r: Vec<CanonicalNode>)
    ensures
        views_of(r@) == entry_nodes(proxies@),
{
    let mut out: Vec<CanonicalNode> = Vec::new();
    assert(proxies@.take(0) =~= Seq::<Node>::empty());
    assert(views_of(out@) =~= Seq::<CanonicalNodeView>::empty());
    for p in it: proxies
        invariant
            it.seq() == proxies@,
            views_of(out@) == entry_nodes(proxies@.take(it.index() as int)),
    {
        let ghost i = it.index() as int;
        let ghost before = out@;
        assert(proxies@.take(i + 1).drop_last() =~= proxies@.take(i));
        assert(proxies@.take(i + 1).last() == p);
        match read_entry(&p) {
            Some(mut n) => {
                n.clash = Some(p);
                let ghost added = n@;
                out.push(n);
                assert(views_of(out@) =~= views_of(before).push(added));
            },
            None => {},
        }
    }
    assert(proxies@.take(proxies@.len() as int) =~= proxies@);
    out
}

/// Reads the nodes of a Clash document.
pub fn parse_clash_yaml(text: &str) -> (r: Vec<CanonicalNode>)
    ensures
        views_of(r@) == clash_nodes(text@),
{
    let empty: Vec<CanonicalNode> = Vec::new();
    assert(views_of(empty@) =~= Seq::<CanonicalNodeView>::empty());
    let doc = match parse_yaml(text) {
        Some(v) => v,
        None => {
            return empty;
        },
    };
    match take_proxies(doc) {
        Some(proxies) => read_entries(proxies),
        None => empty,
    }
}

} // verus!
