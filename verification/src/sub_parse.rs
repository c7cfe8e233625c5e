//! Reading of proxy subscriptions: share links and Clash documents, turned
//! into one canonical form of node.
pub mod clash;
pub mod codec;
pub mod node;
pub mod uri;

use vstd::prelude::*;
use crate::decimal::{
    decimal, i64_to_string, parse_i64, parse_u16, parsed_i64, parsed_u16, push_decimal,
    signed_decimal,
};
use vstd::utf8::{decode_utf8, encode_utf8, valid_utf8};
use crate::scan::{
    has_prefix, lines_of, starts_with, strip_space, text_lines, text_starts_with, without_space,
};
use crate::sub_parse::codec::{
    base64_standard, base64_url_safe, bytes_of, decode_standard, decode_url_safe,
    percent_decode_utf8, percent_decoded, text_from_utf8,
};
use crate::sub_parse::clash::{clash_nodes, parse_clash_yaml};
use crate::sub_parse::node::{field, get_field, pointee, Node};
use crate::sub_parse::uri::{line_node, parse_node_from_uri_line};
use crate::text::{
    chars_of, lowercased, same_text, text_of, to_lowercase, trim, trimmed, trimmed_start,
    is_whitespace, white_space,
};

verus! {

/// The options of a parse run.
#[derive(Debug, Clone)]
pub struct Args {
    /// The subscription arrives on standard input.
    pub stdin: bool,
    /// The subscription in one argument.
    pub text: Option<String>,
}

/// One proxy node in canonical form.
#[allow(non_snake_case)]
#[derive(Debug, Clone, PartialEq, Eq)]
pub struct CanonicalNode {
    pub type_: String,
    pub tag: Option<String>,
    pub host: String,
    pub port: u16,
    pub id: Option<String>,
    pub password: Option<String>,
    pub method: Option<String>,
    pub alterId: Option<i64>,
    pub security: Option<String>,
    pub net: Option<String>,
    pub tls: Option<String>,
    pub sni: Option<String>,
    pub allowInsecure: Option<bool>,
    pub encryption: Option<String>,
    pub flow: Option<String>,
    pub wsHost: Option<String>,
    pub wsPath: Option<String>,
    pub grpcServiceName: Option<String>,
    /// The entry of the Clash document that the node was read from.
    pub clash: Option<Node>,
}

/// A `CanonicalNode` with its texts as sequences of characters.
#[allow(non_snake_case)]
pub struct CanonicalNodeView {
    pub type_: Seq<char>,
    pub tag: Option<Seq<char>>,
    pub host: Seq<char>,
    pub port: u16,
    pub id: Option<Seq<char>>,
    pub password: Option<Seq<char>>,
    pub method: Option<Seq<char>>,
    pub alterId: Option<i64>,
    pub security: Option<Seq<char>>,
    pub net: Option<Seq<char>>,
    pub tls: Option<Seq<char>>,
    pub sni: Option<Seq<char>>,
    pub allowInsecure: Option<bool>,
    pub encryption: Option<Seq<char>>,
    pub flow: Option<Seq<char>>,
    pub wsHost: Option<Seq<char>>,
    pub wsPath: Option<Seq<char>>,
    pub grpcServiceName: Option<Seq<char>>,
    pub clash: Option<Node>,
}

impl View for CanonicalNode {
    type V = CanonicalNodeView;

    open spec fn view(&self) -> CanonicalNodeView {
        CanonicalNodeView {
            type_: self.type_@,
            tag: text_of(self.tag),
            host: self.host@,
            port: self.port,
            id: text_of(self.id),
            password: text_of(self.password),
            method: text_of(self.method),
            alterId: self.alterId,
            security: text_of(self.security),
            net: text_of(self.net),
            tls: text_of(self.tls),
            sni: text_of(self.sni),
            allowInsecure: self.allowInsecure,
            encryption: text_of(self.encryption),
            flow: text_of(self.flow),
            wsHost: text_of(self.wsHost),
            wsPath: text_of(self.wsPath),
            grpcServiceName: text_of(self.grpcServiceName),
            clash: self.clash,
        }
    }
}

/// A node that may be absent, by its view.
pub open spec fn node_of(n: Option<CanonicalNode>) -> Option<CanonicalNodeView> {
    match n {
        Some(node) => Some(node@),
        None => None,
    }
}

/// A text trimmed, and nothing where only white space stood.
pub open spec fn kept(s: Seq<char>) -> Option<Seq<char>> {
    let t = trimmed(s);
    if t.len() == 0 {
        None
    } else {
        Some(t)
    }
}

/// A text trimmed, and nothing where only white space stood.
pub fn to_opt_string(s: &str) -> (r: Option<String>)
    ensures
        text_of(r) == kept(s@),
{
    let t = trim(s);
    if t.as_str().is_empty() {
        None
    } else {
        Some(t)
    }
}

/// The words that stand for "yes".
pub open spec fn truthy_word(w: Seq<char>) -> bool {
    w == "1"@ || w == "true"@ || w == "yes"@ || w == "y"@ || w == "on"@
}

/// Whether a word, trimmed and in lower case, stands for "yes".
pub fn is_truthy_word(w: &str) -> (r: bool)
    ensures
        r == truthy_word(w@),
{
    same_text(w, "1") || same_text(w, "true") || same_text(w, "yes") || same_text(w, "y")
        || same_text(w, "on")
}

/// Whether a setting says "yes", whatever its case and padding.
pub open spec fn truthy(v: Seq<char>) -> bool {
    truthy_word(lowercased(trimmed(v)))
}

/// Whether a setting says "yes".
pub fn to_bool(v: &str) -> (r: bool)
    ensures
        r == truthy(v@),
{
    let s = to_lowercase(trim(v).as_str());
    is_truthy_word(s.as_str())
}

/// A text percent-decoded, and the text itself where the decoded bytes are
/// no UTF-8.
pub open spec fn percent_text(s: Seq<char>) -> Seq<char> {
    match percent_decoded(s) {
        Some(t) => t,
        None => s,
    }
}

/// Percent-decodes a text, and keeps it as it is where the decoded bytes
/// are no UTF-8.
pub fn percent_decode_to_string(s: &str) -> (r: String)
    ensures
        r@ == percent_text(s@),
{
    match percent_decode_utf8(s) {
        Some(t) => t,
        None => String::from_str(s),
    }
}

/// A line that opens the proxy list or the proxy groups of a Clash
/// document.
pub open spec fn clash_marker(line: Seq<char>) -> bool {
    let t = trimmed_start(line);
    has_prefix(t, "proxies:"@) || has_prefix(t, "proxy-groups:"@)
}

/// Whether a text holds a line that marks it as a Clash document.
pub open spec fn clash_like(raw: Seq<char>) -> bool {
    exists|i: int| 0 <= i < text_lines(raw).len() && clash_marker(#[trigger] text_lines(raw)[i])
}

fn is_clash_marker(line: &str) -> (r: bool)
    ensures
        r == clash_marker(line@),
{
    let chars = chars_of(line);
    let mut i: usize = 0;
    while i < chars.len() && is_whitespace(chars[i])
        invariant
            i <= chars.len(),
            forall|k: int| 0 <= k < i ==> white_space(#[trigger] chars@[k]),
        decreases chars.len() - i,
    {
        i += 1;
    }
    proof {
        crate::text::lemma_trimmed_start_is_skip(chars@, i as int);
    }
    starts_with(&chars, i, "proxies:") || starts_with(&chars, i, "proxy-groups:")
}

/// Whether a text holds a line that marks it as a Clash document.
pub fn looks_like_clash_yaml(raw: &str) -> (r: bool)
    ensures
        r == clash_like(raw@),
{
    let lines = lines_of(raw);
    let mut i: usize = 0;
    while i < lines.len()
        invariant
            i <= lines.len(),
            lines.deep_view() == text_lines(raw@),
            forall|k: int| 0 <= k < i ==> !clash_marker(#[trigger] text_lines(raw@)[k]),
        decreases lines.len() - i,
    {
        assert(lines.deep_view()[i as int] == lines[i as int]@);
        if is_clash_marker(lines[i].as_str()) {
            return true;
        }
        i += 1;
    }
    false
}

/// The ASCII letters and digits.
pub open spec fn ascii_alphanumeric(c: char) -> bool {
    ('0' <= c <= '9') || ('a' <= c <= 'z') || ('A' <= c <= 'Z')
}

/// The characters of base64 in either alphabet, its padding, and white
/// space.
pub open spec fn base64_char(c: char) -> bool {
    white_space(c) || ascii_alphanumeric(c) || c == '+' || c == '/' || c == '=' || c == '-' || c
        == '_'
}

/// The length of a text in bytes of UTF-8.
pub open spec fn byte_length(s: Seq<char>) -> nat {
    encode_utf8(s).len()
}

/// Whether a text may be one base64 blob: trimmed, it is no web address,
/// takes 16 bytes or more, and holds only base64 characters and white
/// space.
pub open spec fn base64_like(text: Seq<char>) -> bool {
    let s = trimmed(text);
    &&& s.len() > 0
    &&& !has_prefix(lowercased(s), "http://"@)
    &&& !has_prefix(lowercased(s), "https://"@)
    &&& byte_length(s) >= 16
    &&& forall|i: int| 0 <= i < s.len() ==> base64_char(#[trigger] s[i])
}

/// Whether a character may stand in a base64 blob.
pub fn is_base64_char(c: char) -> (r: bool)
    ensures
        r == base64_char(c),
{
    is_whitespace(c) || ('0' <= c && c <= '9') || ('a' <= c && c <= 'z') || ('A' <= c && c <= 'Z')
        || c == '+' || c == '/' || c == '=' || c == '-' || c == '_'
}

/// The length of a text in bytes, as `str::len` counts it.
pub fn byte_len(s: &str) -> (r: usize)
    ensures
        r == byte_length(s@),
{
    s.as_bytes().len()
}

/// Whether a text may be one base64 blob.
pub fn looks_like_base64(text: &str) -> (r: bool)
    ensures
        r == base64_like(text@),
{
    let s = trim(text);
    if s.as_str().is_empty() {
        return false;
    }
    let lower = to_lowercase(s.as_str());
    if text_starts_with(lower.as_str(), "http://") || text_starts_with(lower.as_str(), "https://") {
        return false;
    }
    if byte_len(s.as_str()) < 16 {
        return false;
    }
    let chars = chars_of(s.as_str());
    let mut i: usize = 0;
    while i < chars.len()
        invariant
            i <= chars.len(),
            chars@ == trimmed(text@),
            forall|k: int| 0 <= k < i ==> base64_char(#[trigger] chars@[k]),
        decreases chars.len() - i,
    {
        if !is_base64_char(chars[i]) {
            assert(!base64_char(trimmed(text@)[i as int]));
            return false;
        }
        i += 1;
    }
    true
}

/// Decoded bytes as text, where they are UTF-8 and hold more than white
/// space.
pub open spec fn readable(bytes: Option<Seq<u8>>) -> Option<Seq<char>> {
    match bytes {
        Some(b) => if valid_utf8(b) && trimmed(decode_utf8(b)).len() > 0 {
            Some(decode_utf8(b))
        } else {
            None
        },
        None => None,
    }
}

/// What one candidate decodes to: by the standard alphabet, else by the
/// URL-safe one.
pub open spec fn decoded_candidate(cand: Seq<char>) -> Option<Seq<char>> {
    match readable(base64_standard(cand)) {
        Some(t) => Some(t),
        None => readable(base64_url_safe(cand)),
    }
}

/// A text filled up with `=` to a length of a multiple of four bytes.
pub open spec fn padded(s: Seq<char>) -> Seq<char> {
    s + Seq::new((4 - byte_length(s) % 4) as nat, |i: int| '=')
}

/// The text that a base64 blob holds: the blob is read without its white
/// space, as it stands and then, where its length asks for it, with
/// padding added.
pub open spec fn base64_text(s: Seq<char>) -> Option<Seq<char>> {
    let cleaned = without_space(s);
    if cleaned.len() == 0 {
        None
    } else {
        match decoded_candidate(cleaned) {
            Some(t) => Some(t),
            None => if byte_length(cleaned) % 4 != 0 {
                decoded_candidate(padded(cleaned))
            } else {
                None
            },
        }
    }
}

/// Decoded bytes as text, where they are UTF-8 and hold more than white
/// space.
pub fn readable_text(bytes: Option<Vec<u8>>) -> (r: Option<String>)
    ensures
        text_of(r) == readable(bytes_of(bytes)),
{
    match bytes {
        Some(b) => match text_from_utf8(b) {
            Some(txt) => {
                if trim(txt.as_str()).as_str().is_empty() {
                    None
                } else {
                    Some(txt)
                }
            },
            None => None,
        },
        None => None,
    }
}

fn decode_candidate(cand: &str) -> (r: Option<String>)
    ensures
        text_of(r) == decoded_candidate(cand@),
{
    match readable_text(decode_standard(cand)) {
        Some(t) => Some(t),
        None => readable_text(decode_url_safe(cand)),
    }
}

/// The text that a base64 blob holds, if it holds one.
pub fn decode_base64_to_utf8(s: &str) -> (r: Option<String>)
    ensures
        text_of(r) == base64_text(s@),
{
    let cleaned = strip_space(s);
    if cleaned.as_str().is_empty() {
        return None;
    }
    if let Some(t) = decode_candidate(cleaned.as_str()) {
        return Some(t);
    }
    let rem = byte_len(cleaned.as_str()) % 4;
    if rem != 0 {
        let mut cand = String::from_str(cleaned.as_str());
        let mut k: usize = 0;
        while k < 4 - rem
            invariant
                0 < rem < 4,
                rem == byte_length(cleaned@) % 4,
                k <= 4 - rem,
                cand@ == cleaned@ + Seq::new(k as nat, |i: int| '='),
            decreases 4 - rem - k,
        {
            cand.append("=");
            proof {
                reveal_strlit("=");
                assert("="@ =~= seq!['=']);
            }
            k += 1;
            assert(cand@ =~= cleaned@ + Seq::new(k as nat, |i: int| '='));
        }
        assert(cand@ =~= padded(cleaned@));
        return decode_candidate(cand.as_str());
    }
    None
}

/// What tells two nodes of one type, host and port apart: the id, else
/// the password, else the method, whichever first holds more than white
/// space.
pub open spec fn identity_of(n: CanonicalNodeView) -> Seq<char> {
    if telling(n.id) {
        n.id->0
    } else if telling(n.password) {
        n.password->0
    } else if telling(n.method) {
        n.method->0
    } else {
        Seq::empty()
    }
}

/// Whether a text is there and holds more than white space.
pub open spec fn telling(s: Option<Seq<char>>) -> bool {
    s is Some && trimmed(s->0).len() > 0
}

/// The key by which two nodes count as the same.
pub open spec fn key_of(n: CanonicalNodeView) -> Seq<char> {
    n.type_ + "|"@ + n.host + "|"@ + decimal(n.port as nat) + "|"@ + identity_of(n)
}

fn holds_text(s: &Option<String>) -> (r: bool)
    ensures
        r == telling(text_of(*s)),
{
    match s {
        Some(t) => !trim(t.as_str()).as_str().is_empty(),
        None => false,
    }
}

/// The key by which two nodes count as the same.
pub fn node_key(n: &CanonicalNode) -> (r: String)
    ensures
        r@ == key_of(n@),
{
    let mut out = String::from_str(n.type_.as_str());
    out.append("|");
    out.append(n.host.as_str());
    out.append("|");
    push_decimal(&mut out, n.port as u64);
    out.append("|");
    let ghost head = out@;
    if holds_text(&n.id) {
        if let Some(s) = &n.id {
            out.append(s.as_str());
        }
    } else if holds_text(&n.password) {
        if let Some(s) = &n.password {
            out.append(s.as_str());
        }
    } else if holds_text(&n.method) {
        if let Some(s) = &n.method {
            out.append(s.as_str());
        }
    }
    assert(out@ =~= head + identity_of(n@));
    assert(head =~= n.type_@ + "|"@ + n.host@ + "|"@ + decimal(n.port as nat) + "|"@);
    out
}

/// The views of a sequence of nodes.
pub open spec fn views_of(nodes: Seq<CanonicalNode>) -> Seq<CanonicalNodeView> {
    nodes.map_values(|n: CanonicalNode| n@)
}

/// Whether one of `nodes` has the key `key`.
pub open spec fn has_key(nodes: Seq<CanonicalNodeView>, key: Seq<char>) -> bool {
    exists|j: int| 0 <= j < nodes.len() && key_of(#[trigger] nodes[j]) == key
}

/// The nodes in order, each kept where its key first stands.
pub open spec fn unique_nodes(nodes: Seq<CanonicalNodeView>) -> Seq<CanonicalNodeView>
    decreases nodes.len(),
{
    if nodes.len() == 0 {
        Seq::empty()
    } else {
        let head = unique_nodes(nodes.drop_last());
        let key = key_of(nodes.last());
        if key.len() == 0 || has_key(head, key) {
            head
        } else {
            head.push(nodes.last())
        }
    }
}

/// No two of the nodes that `unique_nodes` keeps have one key, and each
/// of them is one of the nodes given.
pub proof fn lemma_unique_nodes(nodes: Seq<CanonicalNodeView>)
    ensures
        forall|i: int, j: int|
            0 <= i < j < unique_nodes(nodes).len() ==> key_of(#[trigger] unique_nodes(nodes)[i])
                != key_of(#[trigger] unique_nodes(nodes)[j]),
        forall|i: int|
            0 <= i < unique_nodes(nodes).len() ==> nodes.contains(#[trigger] unique_nodes(nodes)[i]),
        unique_nodes(nodes).len() <= nodes.len(),
    decreases nodes.len(),
{
    if nodes.len() > 0 {
        let init = nodes.drop_last();
        let head = unique_nodes(init);
        lemma_unique_nodes(init);
        let kept = unique_nodes(nodes);
        assert forall|i: int| 0 <= i < kept.len() implies nodes.contains(#[trigger] kept[i]) by {
            if i < head.len() {
                assert(init.contains(head[i]));
                let k = choose|k: int| 0 <= k < init.len() && init[k] == head[i];
                assert(nodes[k] == kept[i]);
            } else {
                assert(nodes[nodes.len() - 1] == kept[i]);
            }
        }
        assert forall|i: int, j: int| 0 <= i < j < kept.len() implies key_of(#[trigger] kept[i])
            != key_of(#[trigger] kept[j]) by {
            if j == head.len() {
                assert(head[i] == kept[i]);
            } else {
                assert(head[i] == kept[i]);
                assert(head[j] == kept[j]);
            }
        }
    }
}

/// Drops every node whose key stood earlier in the list.
pub fn dedupe_nodes(nodes: Vec<CanonicalNode>) -> (r: Vec<CanonicalNode>)
    ensures
        views_of(r@) == unique_nodes(views_of(nodes@)),
{
    let mut seen: Vec<String> = Vec::new();
    let mut out: Vec<CanonicalNode> = Vec::new();
    let ghost all = views_of(nodes@);
    assert(all.take(0) =~= Seq::<CanonicalNodeView>::empty());
    assert(views_of(out@) =~= Seq::<CanonicalNodeView>::empty());
    for n in it: nodes
        invariant
            it.seq() == nodes@,
            all == views_of(nodes@),
            views_of(out@) == unique_nodes(all.take(it.index() as int)),
            seen.len() == out.len(),
            forall|j: int| 0 <= j < out.len() ==> (#[trigger] seen[j])@ == key_of(out[j]@),
    {
        let ghost i = it.index() as int;
        let ghost head = views_of(out@);
        assert(all.take(i + 1).drop_last() =~= all.take(i));
        assert(all.take(i + 1).last() == n@);
        let k = node_key(&n);
        let mut known = k.as_str().is_empty();
        let mut j: usize = 0;
        while j < seen.len() && !known
            invariant
                j <= seen.len(),
                seen.len() == out.len(),
                head == views_of(out@),
                k@ == key_of(n@),
                forall|x: int| 0 <= x < out.len() ==> (#[trigger] seen[x])@ == key_of(out[x]@),
                known ==> k@.len() == 0 || has_key(head, k@),
                !known ==> k@.len() > 0 && forall|x: int|
                    0 <= x < j ==> key_of(#[trigger] head[x]) != k@,
            decreases seen.len() - j + (if known { 0int } else { 1int }),
        {
            if seen[j] == k {
                assert(key_of(head[j as int]) == k@);
                known = true;
            } else {
                j += 1;
            }
        }
        if !known {
            seen.push(k);
            out.push(n);
            assert(views_of(out@) =~= head.push(n@));
        }
    }
    assert(all.take(nodes@.len() as int) =~= all);
    out
}

/// A value as text: a text trimmed, an integer in decimal, a boolean as
/// `true` or `false`, and the empty text for anything else.
pub open spec fn str_of(v: Option<Node>) -> Seq<char> {
    match v {
        Some(x) => if x.text() is Some {
            trimmed(x.text()->0)
        } else if x.signed() is Some {
            signed_decimal(x.signed()->0 as int)
        } else if x.boolean() is Some {
            if x.boolean()->0 {
                "true"@
            } else {
                "false"@
            }
        } else {
            Seq::empty()
        },
        None => Seq::empty(),
    }
}

/// A value as a port number: an integer within the range, or a text that
/// writes one.
pub open spec fn u16_of(v: Option<Node>) -> Option<u16> {
    match v {
        Some(x) => if x.unsigned() is Some {
            if x.unsigned()->0 <= u16::MAX {
                Some(x.unsigned()->0 as u16)
            } else {
                None
            }
        } else if x.signed() is Some {
            if 0 < x.signed()->0 <= u16::MAX {
                Some(x.signed()->0 as u16)
            } else {
                None
            }
        } else if x.text() is Some {
            parsed_u16(trimmed(x.text()->0))
        } else {
            None
        },
        None => None,
    }
}

/// A value as a signed integer: an integer that fits, or a text that
/// writes one.
pub open spec fn i64_of(v: Option<Node>) -> Option<i64> {
    match v {
        Some(x) => if x.signed() is Some {
            x.signed()
        } else if x.text() is Some {
            parsed_i64(trimmed(x.text()->0))
        } else {
            None
        },
        None => None,
    }
}

/// A value as a switch: a boolean, an integer other than zero, or a text
/// that says "yes"; nothing for an empty text or any other value.
pub open spec fn bool_of(v: Option<Node>) -> Option<bool> {
    match v {
        Some(x) => if x.boolean() is Some {
            x.boolean()
        } else if x.signed() is Some {
            Some(x.signed()->0 != 0)
        } else if x.text() is Some {
            if trimmed(x.text()->0).len() == 0 {
                None
            } else {
                Some(truthy(trimmed(x.text()->0)))
            }
        } else {
            None
        },
        None => None,
    }
}

/// A value as text.
pub fn y_str(v: Option<&Node>) -> (r: String)
    ensures
        r@ == str_of(pointee(v)),
{
    if let Some(x) = v {
        if let Some(s) = x.as_str() {
            return trim(s.as_str());
        }
        if let Some(n) = x.as_i64() {
            return i64_to_string(n);
        }
        if let Some(b) = x.as_bool() {
            return if b {
                String::from_str("true")
            } else {
                String::from_str("false")
            };
        }
    }
    let r = String::new();
    assert(r@ =~= Seq::<char>::empty());
    r
}

/// A value as a port number.
pub fn y_u16(v: Option<&Node>) -> (r: Option<u16>)
    ensures
        r == u16_of(pointee(v)),
{
    let x = v?;
    if let Some(n) = x.as_u64() {
        if n <= 65535 {
            return Some(n as u16);
        }
        return None;
    }
    if let Some(n) = x.as_i64() {
        if n > 0 && n <= 65535 {
            return Some(n as u16);
        }
        return None;
    }
    if let Some(s) = x.as_str() {
        return parse_u16(trim(s.as_str()).as_str());
    }
    None
}

/// A value as a switch.
pub fn y_bool(v: Option<&Node>) -> (r: Option<bool>)
    ensures
        r == bool_of(pointee(v)),
{
    let x = v?;
    if let Some(b) = x.as_bool() {
        return Some(b);
    }
    if let Some(n) = x.as_i64() {
        return Some(n != 0);
    }
    if let Some(s) = x.as_str() {
        let t = trim(s.as_str());
        if t.as_str().is_empty() {
            return None;
        }
        proof {
            crate::text::lemma_trimmed_twice(s@);
        }
        return Some(to_bool(t.as_str()));
    }
    None
}

/// A value as a signed integer.
pub fn y_i64(v: Option<&Node>) -> (r: Option<i64>)
    ensures
        r == i64_of(pointee(v)),
{
    let x = v?;
    if let Some(n) = x.as_i64() {
        return Some(n);
    }
    if let Some(s) = x.as_str() {
        return parse_i64(trim(s.as_str()).as_str());
    }
    None
}

/// The member `key` of an object, as text.
pub fn json_get_str(obj: &Node, key: &str) -> (r: String)
    ensures
        r@ == str_of(field(Some(*obj), key@)),
{
    y_str(get_field(Some(obj), key))
}

/// The member `key` of an object, as a signed integer.
pub fn json_get_i64(obj: &Node, key: &str) -> (r: Option<i64>)
    ensures
        r == i64_of(field(Some(*obj), key@)),
{
    y_i64(get_field(Some(obj), key))
}

/// The member `key` of an object, as a port number.
pub fn json_get_u16(obj: &Node, key: &str) -> (r: Option<u16>)
    ensures
        r == u16_of(field(Some(*obj), key@)),
{
    y_u16(get_field(Some(obj), key))
}

/// Whether `needle` stands somewhere in `s`.
pub open spec fn holds(s: Seq<char>, needle: Seq<char>) -> bool {
    exists|i: int| 0 <= i <= s.len() && has_prefix(#[trigger] s.skip(i), needle)
}

/// `str::contains` for a text.
pub fn text_contains(s: &str, needle: &str) -> (r: bool)
    ensures
        r == holds(s@, needle@),
{
    let chars = chars_of(s);
    let mut i: usize = 0;
    while i < chars.len()
        invariant
            i <= chars.len(),
            chars@ == s@,
            forall|k: int| 0 <= k < i ==> !has_prefix(#[trigger] s@.skip(k), needle@),
        decreases chars.len() - i,
    {
        if starts_with(&chars, i, needle) {
            return true;
        }
        i += 1;
    }
    starts_with(&chars, i, needle)
}

/// The text whose lines are read as share links: the subscription itself,
/// or what it decodes to where it is one base64 blob without a link in it.
pub open spec fn subscription_body(raw: Seq<char>) -> Seq<char> {
    if !holds(raw, "://"@) && base64_like(raw) {
        match base64_text(raw) {
            Some(decoded) => decoded,
            None => raw,
        }
    } else {
        raw
    }
}

/// The nodes of the lines that describe one, in the order of the lines.
pub open spec fn link_nodes(lines: Seq<Seq<char>>) -> Seq<CanonicalNodeView>
    decreases lines.len(),
{
    if lines.len() == 0 {
        Seq::empty()
    } else {
        let head = link_nodes(lines.drop_last());
        match line_node(trimmed(lines.last())) {
            Some(n) => head.push(n),
            None => head,
        }
    }
}

/// The nodes of a subscription: those of its proxy list where it is a
/// Clash document, else those of its share links; in either case each
/// kept where its key first stands.
pub open spec fn subscription_nodes(txt: Seq<char>) -> Seq<CanonicalNodeView> {
    let raw = trimmed(txt);
    if raw.len() == 0 {
        Seq::empty()
    } else if clash_like(raw) {
        unique_nodes(clash_nodes(raw))
    } else {
        unique_nodes(link_nodes(text_lines(subscription_body(raw))))
    }
}

/// Reads the nodes of a subscription.
pub fn parse_subscription_text(txt: &str) -> (r: Vec<CanonicalNode>)
    ensures
        views_of(r@) == subscription_nodes(txt@),
{
    let raw = trim(txt);
    if raw.as_str().is_empty() {
        let empty: Vec<CanonicalNode> = Vec::new();
        assert(views_of(empty@) =~= Seq::<CanonicalNodeView>::empty());
        return empty;
    }
    if looks_like_clash_yaml(raw.as_str()) {
        return dedupe_nodes(parse_clash_yaml(raw.as_str()));
    }
    let mut body = String::from_str(raw.as_str());
    if !text_contains(raw.as_str(), "://") && looks_like_base64(raw.as_str()) {
        if let Some(decoded) = decode_base64_to_utf8(raw.as_str()) {
            body = decoded;
        }
    }
    let lines = lines_of(body.as_str());
    let ghost texts = lines.deep_view();
    let mut out: Vec<CanonicalNode> = Vec::new();
    let mut i: usize = 0;
    assert(texts.take(0) =~= Seq::<Seq<char>>::empty());
    assert(views_of(out@) =~= Seq::<CanonicalNodeView>::empty());
    while i < lines.len()
        invariant
            i <= lines.len(),
            texts == lines.deep_view(),
            views_of(out@) == link_nodes(texts.take(i as int)),
        decreases lines.len() - i,
    {
        let ghost before = views_of(out@);
        assert(texts.take(i + 1).drop_last() =~= texts.take(i as int));
        assert(texts.take(i + 1).last() == lines[i as int]@);
        let s = trim(lines[i].as_str());
        if !s.as_str().is_empty() {
            if let Some(node) = parse_node_from_uri_line(s.as_str()) {
                let ghost added = node@;
                out.push(node);
                assert(views_of(out@) =~= before.push(added));
            }
        } else {
            proof {
                crate::text::lemma_trimmed_twice(lines[i as int]@);
            }
        }
        i += 1;
    }
    assert(texts.take(i as int) =~= texts);
    dedupe_nodes(out)
}

} // verus!
