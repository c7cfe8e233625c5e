//! Probing of proxy candidates: which candidates are probed, and what the
//! answer to a probe says of the proxy that carried it.
use vstd::prelude::*;
use vstd::slice::slice_subrange;
use crate::text::{
    chars_of, dedup_texts, first_occurrences, list_items, nonblank_lines, split_items, text_of,
    trim_bounds, trimmed, trimmed_nonblank,
};

verus! {

/// The options of a probe run.
#[derive(Debug, Clone)]
pub struct Args {
    /// The candidates in one argument, parted by commas, semicolons or
    /// white space.
    pub proxy_urls: Option<String>,
    /// Candidates arrive as lines on standard input.
    pub stdin: bool,
    /// The address that is fetched through each candidate.
    pub test_url: String,
    pub timeout_ms: u64,
    pub concurrency: usize,
    pub user_agent: Option<String>,
    pub accept: String,
    /// How much of a body is looked at.
    pub max_body_bytes: usize,
}

/// The report on one candidate.
#[derive(Debug, Clone, PartialEq, Eq)]
pub struct ProbeOut {
    pub proxy_url: String,
    pub ok: bool,
    pub status: Option<u16>,
    pub ms: u64,
    pub error: Option<String>,
}

/// How a probe ended.
#[derive(Debug, Clone, PartialEq, Eq)]
pub enum ProbeEvent {
    /// The candidate's address is no proxy address; holds the reason.
    InvalidProxy(String),
    /// No client could be set up; holds the reason.
    ClientFailed(String),
    /// The request failed; holds the reason.
    SendFailed(String),
    /// A response arrived, but its body could not be read: the status and
    /// the reason.
    BodyFailed(u16, String),
    /// A response with its status and the bytes of its body.
    Answered(u16, Vec<u8>),
}

/// The items of a list given in one argument.
pub fn split_list(s: &str) -> (r: Vec<String>)
    ensures
        r.deep_view() == list_items(s@),
{
    split_items(s)
}

/// The candidates of a run before any is dropped: the piped lines, where
/// the options ask for them, then the items of the list.
pub open spec fn named_candidates(args: Args, lines: Seq<Seq<char>>) -> Seq<Seq<char>> {
    let piped = if args.stdin {
        nonblank_lines(lines)
    } else {
        Seq::empty()
    };
    let listed = match args.proxy_urls {
        Some(list) => list_items(list@),
        None => Seq::empty(),
    };
    piped + listed
}

/// The candidates of a run, each probed once, in the order in which they
/// were first named. `stdin_lines` holds the lines that were piped in; it
/// is read only where the options ask for them.
pub fn read_proxy_urls(args: &Args, stdin_lines: &Vec<String>) -> (r: Vec<String>)
    ensures
        r.deep_view() == first_occurrences(named_candidates(*args, stdin_lines.deep_view())),
{
    let mut out: Vec<String> = if args.stdin {
        trimmed_nonblank(stdin_lines)
    } else {
        Vec::new()
    };
    let ghost piped = out.deep_view();
    assert(!args.stdin ==> piped =~= Seq::<Seq<char>>::empty());
    if let Some(list) = &args.proxy_urls {
        let mut listed = split_list(list.as_str());
        let ghost items = listed.deep_view();
        out.append(&mut listed);
        assert(out.deep_view() =~= piped + items);
    } else {
        assert(out.deep_view() =~= piped + Seq::<Seq<char>>::empty());
    }
    dedup_texts(&out)
}

/// How many probes run at a time: the number asked for, and one at least.
pub fn probe_permits(concurrency: usize) -> (r: usize)
    ensures
        r == if concurrency < 1 {
            1
        } else {
            concurrency
        },
{
    if concurrency < 1 {
        1
    } else {
        concurrency
    }
}

/// Names the text that `String::from_utf8_lossy` makes of a run of bytes.
pub uninterp spec fn lossy_text(bytes: Seq<u8>) -> Seq<char>;

/// `String::from_utf8_lossy`: the bytes as text, with the replacement
/// character wherever they are no UTF-8. The contract only names the
/// result.
#[verifier::external_body]
fn text_from_utf8_lossy(bytes: &[u8]) -> (r: String)
    ensures
        r@ == lossy_text(bytes@),
{
    String::from_utf8_lossy(bytes).into_owned()
}

/// The statuses with which the data source answers a request that reached
/// it.
pub open spec fn reached_status(status: u16) -> bool {
    status == 200 || status == 400 || status == 403 || status == 404 || status == 424
}

/// Whether a body, as text, speaks for a usable proxy: trimmed, it begins
/// like JSON and not like HTML.
pub open spec fn json_like(body: Seq<char>) -> bool {
    let t = trimmed(body);
    t.len() > 0 && t[0] != '<' && (t[0] == '{' || t[0] == '[')
}

/// The part of a body that is looked at.
pub open spec fn inspected(body: Seq<u8>, max_body_bytes: usize) -> Seq<u8> {
    if body.len() > max_body_bytes {
        body.take(max_body_bytes as int)
    } else {
        body
    }
}

/// Whether a status and the text of a body speak for a usable proxy.
pub fn probe_verdict(status: u16, body: &str) -> (r: bool)
    ensures
        r == (json_like(body@) && reached_status(status)),
{
    let chars = chars_of(body);
    let (a, b) = trim_bounds(&chars, 0, chars.len());
    assert(chars@.subrange(0, chars.len() as int) =~= body@);
    let is_html = a < b && chars[a] == '<';
    let is_json = a < b && (chars[a] == '{' || chars[a] == '[');
    let ok_status = status == 200 || status == 400 || status == 403 || status == 404 || status
        == 424;
    !is_html && is_json && ok_status
}

/// Whether an answer speaks for a usable proxy, judged by its status and
/// by the start of its body.
pub fn classify_answer(status: u16, body: &Vec<u8>, max_body_bytes: usize) -> (r: bool)
    ensures
        r == (json_like(lossy_text(inspected(body@, max_body_bytes))) && reached_status(status)),
{
    let n: usize = if body.len() > max_body_bytes {
        max_body_bytes
    } else {
        body.len()
    };
    let head = slice_subrange(body.as_slice(), 0, n);
    assert(head@ =~= inspected(body@, max_body_bytes));
    let text = text_from_utf8_lossy(head);
    probe_verdict(status, text.as_str())
}

/// The report that `probe_outcome` gives.
pub open spec fn report_of(
    proxy_url: String,
    event: ProbeEvent,
    max_body_bytes: usize,
    ms: u64,
    r: ProbeOut,
) -> bool {
    &&& r.proxy_url == proxy_url
    &&& r.ms == ms
    &&& match event {
        ProbeEvent::InvalidProxy(e) => !r.ok && r.status is None && text_of(r.error) == Some(
            "invalid proxy url: "@ + e@,
        ),
        ProbeEvent::ClientFailed(e) => !r.ok && r.status is None && text_of(r.error) == Some(
            "client build failed: "@ + e@,
        ),
        ProbeEvent::SendFailed(e) => !r.ok && r.status is None && text_of(r.error) == Some(e@),
        ProbeEvent::BodyFailed(status, e) => !r.ok && r.status == Some(status) && text_of(r.error)
            == Some(e@),
        ProbeEvent::Answered(status, body) => r.ok == (json_like(
            lossy_text(inspected(body@, max_body_bytes)),
        ) && reached_status(status)) && r.status == Some(status) && r.error is None,
    }
}

/// The report on a candidate whose probe ended with `event` after `ms`
/// milliseconds.
pub fn probe_outcome(proxy_url: String, event: ProbeEvent, max_body_bytes: usize, ms: u64) -> (r:
    ProbeOut)
    ensures
        report_of(proxy_url, event, max_body_bytes, ms, r),
{
    match event {
        ProbeEvent::InvalidProxy(e) => {
            let mut text = String::from_str("invalid proxy url: ");
            text.append(e.as_str());
            ProbeOut { proxy_url, ok: false, status: None, ms, error: Some(text) }
        },
        ProbeEvent::ClientFailed(e) => {
            let mut text = String::from_str("client build failed: ");
            text.append(e.as_str());
            ProbeOut { proxy_url, ok: false, status: None, ms, error: Some(text) }
        },
        ProbeEvent::SendFailed(e) => ProbeOut {
            proxy_url,
            ok: false,
            status: None,
            ms,
            error: Some(e),
        },
        ProbeEvent::BodyFailed(status, e) => ProbeOut {
            proxy_url,
            ok: false,
            status: Some(status),
            ms,
            error: Some(e),
        },
        ProbeEvent::Answered(status, body) => {
            let ok = classify_answer(status, &body, max_body_bytes);
            ProbeOut { proxy_url, ok, status: Some(status), ms, error: None }
        },
    }
}

} // verus!
