//! The exchange with the endpoint for one identifier: the candidate
//! addresses are tried in order, the first qualifying response ends the
//! attempt, and what was seen last is reported when none qualifies.
use vstd::prelude::*;
use crate::decimal::{decimal, push_decimal};
use crate::enka_fetch::{build_urls, candidate_urls, html_like, is_html_body};
use crate::text::{chars_of, string_from, text_of};

verus! {

/// The record of one identifier's fetch, as it is handed to the sink.
#[derive(Debug, Clone, PartialEq, Eq)]
pub struct FetchResult {
    pub uid: u64,
    pub ok: bool,
    pub status: Option<u16>,
    pub is_html: bool,
    pub body: Option<String>,
    pub error: Option<String>,
    /// Time the fetch took, in milliseconds.
    pub ms: u64,
    /// The proxy that carried the requests, if any.
    pub proxy: Option<String>,
    /// The address that gave the reported response.
    pub base: Option<String>,
    /// Advice on how long to stay away after a 429; never applied here.
    pub retry_after_ms: Option<u64>,
    pub proxy_disabled: Option<bool>,
}

/// A `FetchResult` with its texts as sequences of characters.
pub struct FetchResultView {
    pub uid: u64,
    pub ok: bool,
    pub status: Option<u16>,
    pub is_html: bool,
    pub body: Option<Seq<char>>,
    pub error: Option<Seq<char>>,
    pub ms: u64,
    pub proxy: Option<Seq<char>>,
    pub base: Option<Seq<char>>,
    pub retry_after_ms: Option<u64>,
    pub proxy_disabled: Option<bool>,
}

impl View for FetchResult {
    type V = FetchResultView;

    open spec fn view(&self) -> FetchResultView {
        FetchResultView {
            uid: self.uid,
            ok: self.ok,
            status: self.status,
            is_html: self.is_html,
            body: text_of(self.body),
            error: text_of(self.error),
            ms: self.ms,
            proxy: text_of(self.proxy),
            base: text_of(self.base),
            retry_after_ms: self.retry_after_ms,
            proxy_disabled: self.proxy_disabled,
        }
    }
}

/// What one request to one candidate address came to.
#[derive(Debug, Clone, PartialEq, Eq)]
pub enum Exchange {
    /// The request failed before a response arrived; holds the error's text.
    TransportError(String),
    /// No response came within the time allowed.
    Timeout,
    /// A response arrived, but its body could not be read: the status and
    /// the error's text.
    BodyError(u16, String),
    /// A response with its status and its whole body.
    Response(u16, String),
}

/// The longest body that is quoted whole in a diagnostic, in characters.
pub const EXCERPT_CHARS: usize = 300;

/// The shortest advisory stay-away after a 429, in milliseconds.
pub const RETRY_FLOOR_MS: u64 = 300_000;

/// The start of a body, marked with `...` where something was cut.
pub open spec fn excerpt(body: Seq<char>) -> Seq<char> {
    if body.len() > EXCERPT_CHARS {
        body.take(EXCERPT_CHARS as int) + "..."@
    } else {
        body
    }
}

/// The diagnostic for a response that does not qualify.
pub open spec fn anomaly_text(status: u16, html: bool, body: Seq<char>) -> Seq<char> {
    if html {
        "http "@ + decimal(status as nat) + " (html): "@ + excerpt(body)
    } else {
        "http "@ + decimal(status as nat) + ": "@ + excerpt(body)
    }
}

/// A response qualifies when its status is 200 and its body is no HTML.
pub open spec fn qualifies(exchange: Exchange) -> bool {
    exchange matches Exchange::Response(status, body) && status == 200 && !html_like(body@)
}

/// The advisory stay-away: ten base delays, and five minutes at least.
pub open spec fn retry_advice(status: Option<u16>, delay_ms: u64) -> Option<u64> {
    if status == Some(429u16) {
        let tenfold = if delay_ms * 10 > u64::MAX {
            u64::MAX
        } else {
            (delay_ms * 10) as u64
        };
        Some(if tenfold > RETRY_FLOOR_MS { tenfold } else { RETRY_FLOOR_MS })
    } else {
        None
    }
}

/// What is remembered of the candidates tried so far.
pub struct Observed {
    pub status: Option<u16>,
    pub is_html: bool,
    pub error: Option<Seq<char>>,
    pub base: Option<Seq<char>>,
}

/// What a non-qualifying exchange at `url` leaves behind.
pub open spec fn observed_after(exchange: Exchange, url: Seq<char>) -> Observed {
    match exchange {
        Exchange::TransportError(e) => Observed {
            status: None,
            is_html: false,
            error: Some(e@),
            base: Some(url),
        },
        Exchange::Timeout => Observed {
            status: None,
            is_html: false,
            error: Some("timeout"@),
            base: Some(url),
        },
        Exchange::BodyError(status, e) => Observed {
            status: Some(status),
            is_html: false,
            error: Some(e@),
            base: Some(url),
        },
        Exchange::Response(status, body) => Observed {
            status: Some(status),
            is_html: html_like(body@),
            error: Some(anomaly_text(status, html_like(body@), body@)),
            base: Some(url),
        },
    }
}

/// The record of a qualifying response.
pub open spec fn success_record(
    uid: u64,
    body: Seq<char>,
    ms: u64,
    proxy: Option<Seq<char>>,
    url: Seq<char>,
) -> FetchResultView {
    FetchResultView {
        uid,
        ok: true,
        status: Some(200u16),
        is_html: false,
        body: Some(body),
        error: None,
        ms,
        proxy,
        base: Some(url),
        retry_after_ms: None,
        proxy_disabled: None,
    }
}

/// The record of a fetch in which no candidate qualified.
pub open spec fn failure_record(
    uid: u64,
    last: Observed,
    ms: u64,
    proxy: Option<Seq<char>>,
    delay_ms: u64,
) -> FetchResultView {
    FetchResultView {
        uid,
        ok: false,
        status: last.status,
        is_html: last.is_html,
        body: None,
        error: Some(
            match last.error {
                Some(e) => e,
                None => "transport_error"@,
            },
        ),
        ms,
        proxy,
        base: last.base,
        retry_after_ms: retry_advice(last.status, delay_ms),
        proxy_disabled: None,
    }
}

/// The fetch of one identifier in progress.
pub struct Fetch {
    pub uid: u64,
    /// The candidate addresses, in the order in which they are tried.
    pub urls: Vec<String>,
    /// How many candidates have been tried.
    pub tried: usize,
    pub delay_ms: u64,
    pub proxy: Option<String>,
    pub last_status: Option<u16>,
    pub last_is_html: bool,
    pub last_error: Option<String>,
    pub last_base: Option<String>,
}

impl Fetch {
    /// What was seen at the candidate tried last.
    pub open spec fn last(&self) -> Observed {
        Observed {
            status: self.last_status,
            is_html: self.last_is_html,
            error: text_of(self.last_error),
            base: text_of(self.last_base),
        }
    }

    /// No more candidates were tried than there are.
    pub open spec fn wf(&self) -> bool {
        self.tried <= self.urls.len()
    }

    /// A fetch of `uid` with nothing tried yet.
    pub fn new(game: &str, base_url: &str, uid: u64, delay_ms: u64, proxy_url: Option<&str>) -> (r:
        Fetch)
        ensures
            r.wf(),
            r.uid == uid,
            r.urls.deep_view() == candidate_urls(game@, base_url@, uid),
            r.tried == 0,
            r.delay_ms == delay_ms,
            match proxy_url {
                Some(p) => text_of(r.proxy) == Some(p@),
                None => r.proxy is None,
            },
            r.last() == nothing_observed(),
    {
        let proxy = match proxy_url {
            Some(p) => Some(String::from_str(p)),
            None => None,
        };
        Fetch {
            uid,
            urls: build_urls(game, base_url, uid),
            tried: 0,
            delay_ms,
            proxy,
            last_status: None,
            last_is_html: false,
            last_error: None,
            last_base: None,
        }
    }

    /// The address to request next; `None` once every candidate was tried.
    pub fn current_url(&self) -> (r: Option<&String>)
        ensures
            match r {
                Some(url) => self.tried < self.urls.len() && *url == self.urls[self.tried as int],
                None => self.tried >= self.urls.len(),
            },
    {
        if self.tried < self.urls.len() {
            Some(&self.urls[self.tried])
        } else {
            None
        }
    }

    /// Takes in what the request to the current candidate came to, after
    /// `elapsed_ms` since the fetch began. A qualifying response ends the
    /// fetch with its record; anything else is remembered and the next
    /// candidate is due.
    pub fn observe(&mut self, exchange: Exchange, elapsed_ms: u64) -> (r: Option<FetchResult>)
        requires
            old(self).tried < old(self).urls.len(),
        ensures
            final(self).wf(),
            final(self).uid == old(self).uid,
            final(self).urls == old(self).urls,
            final(self).delay_ms == old(self).delay_ms,
            final(self).proxy == old(self).proxy,
            final(self).tried == old(self).tried + 1,
            if qualifies(exchange) {
                &&& r is Some
                &&& r->0@ == success_record(
                    old(self).uid,
                    exchange->Response_1@,
                    elapsed_ms,
                    text_of(old(self).proxy),
                    old(self).urls[old(self).tried as int]@,
                )
                &&& final(self).last() == old(self).last()
            } else {
                &&& r is None
                &&& final(self).last() == observed_after(
                    exchange,
                    old(self).urls[old(self).tried as int]@,
                )
            },
    {
        let url = self.urls[self.tried].clone();
        self.tried = self.tried + 1;
        match exchange {
            Exchange::TransportError(e) => {
                self.last_status = None;
                self.last_is_html = false;
                self.last_error = Some(e);
                self.last_base = Some(url);
                None
            },
            Exchange::Timeout => {
                self.last_status = None;
                self.last_is_html = false;
                self.last_error = Some(String::from_str("timeout"));
                self.last_base = Some(url);
                None
            },
            Exchange::BodyError(status, e) => {
                self.last_status = Some(status);
                self.last_is_html = false;
                self.last_error = Some(e);
                self.last_base = Some(url);
                None
            },
            Exchange::Response(status, body) => {
                let html = is_html_body(body.as_str());
                if status == 200 && !html {
                    Some(
                        FetchResult {
                            uid: self.uid,
                            ok: true,
                            status: Some(status),
                            is_html: false,
                            body: Some(body),
                            error: None,
                            ms: elapsed_ms,
                            proxy: self.proxy.clone(),
                            base: Some(url),
                            retry_after_ms: None,
                            proxy_disabled: None,
                        },
                    )
                } else {
                    self.last_status = Some(status);
                    self.last_is_html = html;
                    self.last_error = Some(anomaly(status, html, body.as_str()));
                    self.last_base = Some(url);
                    None
                }
            },
        }
    }

    /// The record of a fetch in which no candidate qualified, after
    /// `elapsed_ms` since it began.
    pub fn fail(self, elapsed_ms: u64) -> (r: FetchResult)
        ensures
            r@ == failure_record(self.uid, self.last(), elapsed_ms, text_of(self.proxy), self.delay_ms),
    {
        let retry_after_ms = retry_after(self.last_status, self.delay_ms);
        let error = match self.last_error {
            Some(e) => e,
            None => String::from_str("transport_error"),
        };
        FetchResult {
            uid: self.uid,
            ok: false,
            status: self.last_status,
            is_html: self.last_is_html,
            body: None,
            error: Some(error),
            ms: elapsed_ms,
            proxy: self.proxy,
            base: self.last_base,
            retry_after_ms,
            proxy_disabled: None,
        }
    }
}

/// The advisory stay-away that goes with the status seen last.
pub fn retry_after(status: Option<u16>, delay_ms: u64) -> (r: Option<u64>)
    ensures
        r == retry_advice(status, delay_ms),
{
    match status {
        Some(code) => {
            if code == 429 {
                let tenfold: u64 = if delay_ms > u64::MAX / 10 {
                    u64::MAX
                } else {
                    delay_ms * 10
                };
                if tenfold > RETRY_FLOOR_MS {
                    Some(tenfold)
                } else {
                    Some(RETRY_FLOOR_MS)
                }
            } else {
                None
            }
        },
        None => None,
    }
}

/// Writes the diagnostic for a response that does not qualify.
pub fn anomaly(status: u16, html: bool, body: &str) -> (r: String)
    ensures
        r@ == anomaly_text(status, html, body@),
{
    let mut out = String::from_str("http ");
    push_decimal(&mut out, status as u64);
    if html {
        out.append(" (html): ");
    } else {
        out.append(": ");
    }
    let chars = chars_of(body);
    if chars.len() > EXCERPT_CHARS {
        let head = string_from(&chars, 0, EXCERPT_CHARS);
        out.append(head.as_str());
        out.append("...");
        assert(chars@.subrange(0, EXCERPT_CHARS as int) =~= body@.take(EXCERPT_CHARS as int));
    } else {
        out.append(body);
    }
    assert(out@ =~= anomaly_text(status, html, body@));
    out
}

/// The place of the first exchange that qualifies, and the number of
/// exchanges where none does.
pub open spec fn first_qualifying(exchanges: Seq<Exchange>) -> int
    decreases exchanges.len(),
{
    if exchanges.len() == 0 || qualifies(exchanges[0]) {
        0
    } else {
        1 + first_qualifying(exchanges.drop_first())
    }
}

/// A place before which no exchange qualifies and at which one does, or
/// the end, is what `first_qualifying` gives.
pub proof fn lemma_first_qualifying(exchanges: Seq<Exchange>, n: int)
    requires
        0 <= n <= exchanges.len(),
        forall|i: int| 0 <= i < n ==> !qualifies(#[trigger] exchanges[i]),
        n == exchanges.len() || qualifies(exchanges[n]),
    ensures
        first_qualifying(exchanges) == n,
    decreases n,
{
    if n > 0 {
        let rest = exchanges.drop_first();
        assert forall|i: int| 0 <= i < n - 1 implies !qualifies(#[trigger] rest[i]) by {
            assert(rest[i] == exchanges[i + 1]);
        }
        lemma_first_qualifying(rest, n - 1);
    }
}

/// Nothing seen yet.
pub open spec fn nothing_observed() -> Observed {
    Observed { status: None, is_html: false, error: None, base: None }
}

/// The record of a fetch whose candidates `urls` answer with `answers`,
/// one each, in order: that of the first qualifying answer, with the
/// address that gave it; else the failure that reports the answer of the
/// candidate tried last. Answers beyond the candidates are not looked at.
pub open spec fn scripted_record(
    uid: u64,
    urls: Seq<Seq<char>>,
    answers: Seq<Exchange>,
    ms: u64,
    proxy: Option<Seq<char>>,
    delay_ms: u64,
) -> FetchResultView {
    let tried = if answers.len() < urls.len() {
        answers.len() as int
    } else {
        urls.len() as int
    };
    let k = first_qualifying(answers.take(tried));
    if k < tried {
        success_record(uid, answers[k]->Response_1@, ms, proxy, urls[k])
    } else if tried == 0 {
        failure_record(uid, nothing_observed(), ms, proxy, delay_ms)
    } else {
        failure_record(uid, observed_after(answers[tried - 1], urls[tried - 1]), ms, proxy, delay_ms)
    }
}

/// The fetch of one identifier, given what each candidate address answers
/// when it is asked: the candidates are gone through in order, and the
/// first qualifying answer ends the fetch.
#[verifier::loop_isolation(false)]
pub fn fetch_one(
    game: &str,
    base_url: &str,
    uid: u64,
    delay_ms: u64,
    proxy_url: Option<&str>,
    answers: Vec<Exchange>,
    elapsed_ms: u64,
) -> (r: FetchResult)
    ensures
        r@ == scripted_record(
            uid,
            candidate_urls(game@, base_url@, uid),
            answers@,
            elapsed_ms,
            match proxy_url {
                Some(p) => Some(p@),
                None => None,
            },
            delay_ms,
        ),
{
    let mut job = Fetch::new(game, base_url, uid, delay_ms, proxy_url);
    let ghost urls = candidate_urls(game@, base_url@, uid);
    let ghost proxy = text_of(job.proxy);
    assert(proxy == match proxy_url {
        Some(p) => Some(p@),
        None => None,
    });
    for answer in it: answers
        invariant
            it.seq() == answers@,
            job.wf(),
            job.uid == uid,
            job.delay_ms == delay_ms,
            text_of(job.proxy) == proxy,
            job.urls.deep_view() == urls,
            job.tried == it.index(),
            job.tried <= urls.len(),
            forall|k: int| 0 <= k < it.index() ==> !qualifies(#[trigger] answers@[k]),
            it.index() == 0 ==> job.last() == nothing_observed(),
            it.index() > 0 ==> job.last() == observed_after(
                answers@[it.index() - 1],
                urls[it.index() - 1],
            ),
    {
        let ghost i = it.index() as int;
        assert(i < answers@.len());
        assert(answers@[i] == answer);
        if job.current_url().is_none() {
            proof {
                let t = answers@.take(urls.len() as int);
                assert forall|k: int| 0 <= k < t.len() implies !qualifies(#[trigger] t[k]) by {
                    assert(t[k] == answers@[k]);
                }
                lemma_first_qualifying(t, t.len() as int);
            }
            return job.fail(elapsed_ms);
        }
        assert(job.urls.deep_view()[i] == job.urls[i]@);
        match job.observe(answer, elapsed_ms) {
            Some(done) => {
                proof {
                    let tried = if answers@.len() < urls.len() {
                        answers@.len() as int
                    } else {
                        urls.len() as int
                    };
                    let t = answers@.take(tried);
                    assert forall|k: int| 0 <= k < i implies !qualifies(#[trigger] t[k]) by {
                        assert(t[k] == answers@[k]);
                    }
                    assert(t[i] == answer);
                    lemma_first_qualifying(t, i);
                }
                return done;
            },
            None => {},
        }
    }
    proof {
        let t = answers@.take(answers@.len() as int);
        assert(t =~= answers@);
        lemma_first_qualifying(t, t.len() as int);
    }
    job.fail(elapsed_ms)
}

} // verus!
