//! Batch fetching of per-identifier records: the options of a run, where
//! its identifiers come from, the addresses that are tried for each of
//! them, and the settings that the worker pool runs with.
pub mod breaker;
pub mod pool;
pub mod protocol;
pub mod run;

use vstd::prelude::*;
use crate::decimal::{decimal, parse_u64, parsed_u64, push_decimal};
use crate::enka_fetch::pool::{clamped_threshold, fault_threshold};
use crate::text::{
    chars_of, dedup_texts, first_occurrences, is_whitespace, list_items, lowercased,
    nonblank_lines, same_text, split_items, to_lowercase, trim, trimmed, trimmed_nonblank,
    trimmed_start,
};

verus! {

/// The options of a fetch run.
#[derive(Debug, Clone)]
pub struct Args {
    pub game: String,
    /// Identifiers arrive as lines on standard input.
    pub uids_stdin: bool,
    /// Identifiers in one argument, parted by commas or white space.
    pub uids: Option<String>,
    /// First identifier of a range.
    pub uid_start: Option<u64>,
    /// Length of the range.
    pub count: Option<u64>,
    pub base_url: Option<String>,
    pub user_agent: Option<String>,
    pub timeout_ms: u64,
    pub delay_ms: u64,
    pub jitter_ms: u64,
    pub no_proxy_delay_ms: u64,
    pub concurrency: usize,
    pub proxy_urls: Option<String>,
    pub proxy_max_consecutive_fails: usize,
    pub breaker_max_consecutive_fails: usize,
    pub breaker_on_429: bool,
}

/// Why a run cannot start.
#[derive(Debug, Clone, PartialEq, Eq)]
pub enum ConfigError {
    /// The dataset selector names none of the known datasets.
    UnsupportedGame(String),
    /// A token that should be an identifier is not a number.
    InvalidUid(String),
    /// A range of length zero was asked for.
    ZeroCount,
    /// No source gave any identifier.
    MissingUids,
    /// A text in the proxy list is no address of a proxy.
    InvalidProxyUrl(String),
}

/// A `ConfigError` with its texts as sequences of characters.
pub enum ConfigErrorView {
    UnsupportedGame(Seq<char>),
    InvalidUid(Seq<char>),
    ZeroCount,
    MissingUids,
    InvalidProxyUrl(Seq<char>),
}

impl View for ConfigError {
    type V = ConfigErrorView;

    open spec fn view(&self) -> ConfigErrorView {
        match self {
            ConfigError::UnsupportedGame(g) => ConfigErrorView::UnsupportedGame(g@),
            ConfigError::InvalidUid(t) => ConfigErrorView::InvalidUid(t@),
            ConfigError::ZeroCount => ConfigErrorView::ZeroCount,
            ConfigError::MissingUids => ConfigErrorView::MissingUids,
            ConfigError::InvalidProxyUrl(p) => ConfigErrorView::InvalidProxyUrl(p@),
        }
    }
}

impl ConfigError {
    /// The text shown to the operator.
    pub open spec fn message_text(e: ConfigErrorView) -> Seq<char> {
        match e {
            ConfigErrorView::UnsupportedGame(g) => "unsupported game: "@ + g,
            ConfigErrorView::InvalidUid(t) => "invalid uid: "@ + t,
            ConfigErrorView::ZeroCount => "count must be > 0"@,
            ConfigErrorView::MissingUids =>
                "missing uids input (provide --uids-stdin, --uids, or --uid-start + --count)"@,
            ConfigErrorView::InvalidProxyUrl(p) => "invalid proxy url: "@ + p,
        }
    }

    /// The text shown to the operator.
    pub fn message(&self) -> (r: String)
        ensures
            r@ == Self::message_text(self@),
    {
        match self {
            ConfigError::UnsupportedGame(g) => {
                let mut out = String::from_str("unsupported game: ");
                out.append(g.as_str());
                out
            },
            ConfigError::InvalidUid(t) => {
                let mut out = String::from_str("invalid uid: ");
                out.append(t.as_str());
                out
            },
            ConfigError::ZeroCount => String::from_str("count must be > 0"),
            ConfigError::MissingUids => String::from_str(
                "missing uids input (provide --uids-stdin, --uids, or --uid-start + --count)",
            ),
            ConfigError::InvalidProxyUrl(p) => {
                let mut out = String::from_str("invalid proxy url: ");
                out.append(p.as_str());
                out
            },
        }
    }
}

/// The items of a list given in one argument.
pub fn parse_list(raw: &str) -> (r: Vec<String>)
    ensures
        r.deep_view() == list_items(raw@),
{
    split_items(raw)
}

/// The user agent of a common desktop browser.
pub open spec fn default_user_agent_text() -> Seq<char> {
    "Mozilla/5.0 (Windows NT 10.0; Win64; x64) AppleWebKit/537.36 (KHTML, like Gecko) Chrome/120.0.0.0 Safari/537.36"@
}

/// The user agent sent when the options name none.
pub fn default_user_agent() -> (r: &'static str)
    ensures
        r@ == default_user_agent_text(),
{
    "Mozilla/5.0 (Windows NT 10.0; Win64; x64) AppleWebKit/537.36 (KHTML, like Gecko) Chrome/120.0.0.0 Safari/537.36"
}

/// The base address used where the options name none.
pub open spec fn default_base_url() -> Seq<char> {
    "https://enka.network/"@
}

/// A base address in the form that the endpoint paths are appended to:
/// trimmed, the default where nothing is left, and ending in a slash.
pub open spec fn normalized_base_url(raw: Seq<char>) -> Seq<char> {
    let t = trimmed(raw);
    let s = if t.len() == 0 {
        default_base_url()
    } else {
        t
    };
    if s.len() > 0 && s.last() == '/' {
        s
    } else {
        s.push('/')
    }
}

/// Brings a base address into the form that the endpoint paths are
/// appended to.
pub fn normalize_base_url(raw: &str) -> (r: String)
    ensures
        r@ == normalized_base_url(raw@),
{
    let t = trim(raw);
    let mut s = if t.as_str().is_empty() {
        String::from_str("https://enka.network/")
    } else {
        t
    };
    let chars = chars_of(s.as_str());
    if chars.len() == 0 || chars[chars.len() - 1] != '/' {
        s.append("/");
        proof {
            reveal_strlit("/");
            assert("/"@ =~= seq!['/']);
            assert(s@ =~= chars@.push('/'));
        }
    }
    s
}

/// A body that, after leading white space, begins with `<`: the mark of a
/// block page or an interstitial in place of data.
pub open spec fn html_like(body: Seq<char>) -> bool {
    let t = trimmed_start(body);
    t.len() > 0 && t[0] == '<'
}

/// Whether a body looks like HTML.
pub fn is_html_body(body: &str) -> (r: bool)
    ensures
        r == html_like(body@),
{
    let chars = chars_of(body);
    let mut i: usize = 0;
    while i < chars.len() && is_whitespace(chars[i])
        invariant
            i <= chars.len(),
            forall|k: int| 0 <= k < i ==> crate::text::white_space(#[trigger] chars@[k]),
        decreases chars.len() - i,
    {
        i += 1;
    }
    proof {
        crate::text::lemma_trimmed_start_is_skip(chars@, i as int);
    }
    i < chars.len() && chars[i] == '<'
}

/// `fastrand::u64` over `0..bound`: some number below the bound. Which one
/// is a matter of chance, so nothing more is stated. The range must not be
/// empty.
#[verifier::external_body]
fn random_below(bound: u64) -> (r: u64)
    requires
        bound > 0,
    ensures
        r < bound,
{
    fastrand::u64(0..bound)
}

/// The bound that every jitter drawn for `max_jitter` respects.
pub open spec fn jitter_within(jitter: u64, max_jitter: u64) -> bool {
    if max_jitter == 0 {
        jitter == 0
    } else {
        jitter < max_jitter
    }
}

/// A random slack in `[0, max_jitter)`, and 0 where the bound is 0.
pub fn rand_jitter_ms(max_jitter: u64) -> (r: u64)
    ensures
        jitter_within(r, max_jitter),
{
    if max_jitter == 0 {
        0
    } else {
        random_below(max_jitter)
    }
}

/// The addresses to try for one identifier, in order: one endpoint under
/// the base address for most datasets, two fixed mirrors for `zzz`.
pub open spec fn candidate_urls(game: Seq<char>, base_url: Seq<char>, uid: u64) -> Seq<Seq<char>> {
    if game == "sr"@ {
        seq![base_url + "api/hsr/uid/"@ + decimal(uid as nat)]
    } else if game == "zzz"@ {
        seq![
            "https://enka.network/api/zzz/uid/"@ + decimal(uid as nat),
            "https://profile.microgg.cn/api/zzz/uid/"@ + decimal(uid as nat),
        ]
    } else {
        seq![base_url + "api/uid/"@ + decimal(uid as nat)]
    }
}

fn endpoint(prefix: &str, path: &str, uid: u64) -> (r: String)
    ensures
        r@ == prefix@ + path@ + decimal(uid as nat),
{
    let mut out = String::from_str(prefix);
    out.append(path);
    push_decimal(&mut out, uid);
    out
}

/// The addresses to try for one identifier, in order.
pub fn build_urls(game: &str, base_url: &str, uid: u64) -> (r: Vec<String>)
    ensures
        r.deep_view() == candidate_urls(game@, base_url@, uid),
{
    let mut out: Vec<String> = Vec::new();
    if same_text(game, "sr") {
        out.push(endpoint(base_url, "api/hsr/uid/", uid));
    } else if same_text(game, "zzz") {
        out.push(endpoint("", "https://enka.network/api/zzz/uid/", uid));
        out.push(endpoint("", "https://profile.microgg.cn/api/zzz/uid/", uid));
        proof {
            reveal_strlit("");
            assert(""@ + "https://enka.network/api/zzz/uid/"@ =~= "https://enka.network/api/zzz/uid/"@);
            assert(""@ + "https://profile.microgg.cn/api/zzz/uid/"@
                =~= "https://profile.microgg.cn/api/zzz/uid/"@);
        }
    } else {
        out.push(endpoint(base_url, "api/uid/", uid));
    }
    assert(out.deep_view() =~= candidate_urls(game@, base_url@, uid));
    out
}

/// Every token read as an identifier, or the first token that is none.
pub open spec fn parsed_uids(tokens: Seq<Seq<char>>) -> Result<Seq<u64>, Seq<char>>
    decreases tokens.len(),
{
    if tokens.len() == 0 {
        Ok(Seq::empty())
    } else {
        match parsed_uids(tokens.drop_last()) {
            Err(bad) => Err(bad),
            Ok(head) => match parsed_u64(tokens.last()) {
                Some(uid) => Ok(head.push(uid)),
                None => Err(tokens.last()),
            },
        }
    }
}

/// `start, start + 1, ..`, `count` identifiers in all, held at the largest
/// identifier once it is reached.
pub open spec fn range_uids(start: u64, count: u64) -> Seq<u64> {
    Seq::new(
        count as nat,
        |i: int|
            if start + i > u64::MAX {
                u64::MAX
            } else {
                (start + i) as u64
            },
    )
}

/// A range that ends at or below the largest identifier holds the
/// identifiers from `start` to `start + count - 1`, each once, in rising
/// order.
pub proof fn lemma_range_uids(start: u64, count: u64)
    requires
        start + count <= u64::MAX + 1,
    ensures
        range_uids(start, count).len() == count,
        forall|i: int| 0 <= i < count ==> #[trigger] range_uids(start, count)[i] == start + i,
        range_uids(start, count).no_duplicates(),
        forall|uid: u64|
            range_uids(start, count).contains(uid) <==> start <= uid < start + count,
{
    let r = range_uids(start, count);
    assert forall|uid: u64| r.contains(uid) <==> start <= uid < start + count by {
        if start <= uid < start + count {
            assert(r[uid - start] == uid);
        }
    }
}

/// The batch of a run. The sources are asked in turn and the first that
/// gives an identifier wins: the piped lines, the inline list, the range.
pub open spec fn resolved_uids(args: Args, lines: Seq<Seq<char>>) -> Result<
    Seq<u64>,
    ConfigErrorView,
> {
    let piped = if args.uids_stdin {
        parsed_uids(nonblank_lines(lines))
    } else {
        Ok(Seq::empty())
    };
    let listed = match args.uids {
        Some(raw) => parsed_uids(list_items(raw@)),
        None => Ok(Seq::empty()),
    };
    match piped {
        Err(bad) => Err(ConfigErrorView::InvalidUid(bad)),
        Ok(uids) => if uids.len() > 0 {
            Ok(uids)
        } else {
            match listed {
                Err(bad) => Err(ConfigErrorView::InvalidUid(bad)),
                Ok(uids) => if uids.len() > 0 {
                    Ok(uids)
                } else {
                    match (args.uid_start, args.count) {
                        (Some(start), Some(count)) => if count == 0 {
                            Err(ConfigErrorView::ZeroCount)
                        } else {
                            Ok(range_uids(start, count))
                        },
                        _ => Err(ConfigErrorView::MissingUids),
                    }
                },
            }
        },
    }
}

/// What `resolved_uids` asks of a result.
pub open spec fn uids_result_is(
    r: Result<Vec<u64>, ConfigError>,
    expected: Result<Seq<u64>, ConfigErrorView>,
) -> bool {
    match expected {
        Ok(uids) => r matches Ok(v) && v@ == uids,
        Err(e) => r matches Err(err) && err@ == e,
    }
}

fn parse_uids(tokens: &Vec<String>) -> (r: Result<Vec<u64>, String>)
    ensures
        match parsed_uids(tokens.deep_view()) {
            Ok(uids) => r matches Ok(v) && v@ == uids,
            Err(bad) => r matches Err(t) && t@ == bad,
        },
{
    let mut out: Vec<u64> = Vec::new();
    let mut i: usize = 0;
    assert(tokens.deep_view().take(0) =~= Seq::<Seq<char>>::empty());
    while i < tokens.len()
        invariant
            i <= tokens.len(),
            parsed_uids(tokens.deep_view().take(i as int)) == Ok::<Seq<u64>, Seq<char>>(out@),
        decreases tokens.len() - i,
    {
        let ghost texts = tokens.deep_view();
        proof {
            assert(texts.take(i + 1).drop_last() =~= texts.take(i as int));
            assert(texts.take(i + 1).last() == tokens[i as int]@);
        }
        match parse_u64(tokens[i].as_str()) {
            Some(uid) => {
                out.push(uid);
            },
            None => {
                proof {
                    lemma_parsed_uids_failure(texts, i + 1);
                }
                return Err(tokens[i].clone());
            },
        }
        i += 1;
    }
    assert(tokens.deep_view().take(i as int) =~= tokens.deep_view());
    Ok(out)
}

/// A failure among the first `k` tokens is the failure of the whole list.
proof fn lemma_parsed_uids_failure(tokens: Seq<Seq<char>>, k: int)
    requires
        0 <= k <= tokens.len(),
        parsed_uids(tokens.take(k)) is Err,
    ensures
        parsed_uids(tokens) == parsed_uids(tokens.take(k)),
    decreases tokens.len() - k,
{
    if k == tokens.len() {
        assert(tokens.take(k) =~= tokens);
    } else {
        assert(tokens.drop_last().take(k) =~= tokens.take(k));
        lemma_parsed_uids_failure(tokens.drop_last(), k);
    }
}

fn range_of(start: u64, count: u64) -> (r: Vec<u64>)
    ensures
        r@ == range_uids(start, count),
{
    let mut out: Vec<u64> = Vec::new();
    let mut i: u64 = 0;
    while i < count
        invariant
            i <= count,
            out@ == range_uids(start, i),
        decreases count - i,
    {
        out.push(start.saturating_add(i));
        i += 1;
        assert(out@ =~= range_uids(start, i));
    }
    out
}

/// Resolves the batch of identifiers. `stdin_lines` holds the lines that
/// were piped in; it is read only where the options ask for them.
pub fn read_uids(args: &Args, stdin_lines: &Vec<String>) -> (r: Result<Vec<u64>, ConfigError>)
    ensures
        uids_result_is(r, resolved_uids(*args, stdin_lines.deep_view())),
{
    if args.uids_stdin {
        let tokens = trimmed_nonblank(stdin_lines);
        match parse_uids(&tokens) {
            Err(bad) => {
                return Err(ConfigError::InvalidUid(bad));
            },
            Ok(uids) => {
                if uids.len() > 0 {
                    return Ok(uids);
                }
            },
        }
    }
    if let Some(raw) = &args.uids {
        let tokens = parse_list(raw.as_str());
        match parse_uids(&tokens) {
            Err(bad) => {
                return Err(ConfigError::InvalidUid(bad));
            },
            Ok(uids) => {
                if uids.len() > 0 {
                    return Ok(uids);
                }
            },
        }
    }
    match (args.uid_start, args.count) {
        (Some(start), Some(count)) => {
            if count == 0 {
                Err(ConfigError::ZeroCount)
            } else {
                Ok(range_of(start, count))
            }
        },
        _ => Err(ConfigError::MissingUids),
    }
}

/// The shortest and the longest time allowed for one request, in
/// milliseconds.
pub const MIN_TIMEOUT_MS: u64 = 1_000;

/// The longest time allowed for one request, in milliseconds.
pub const MAX_TIMEOUT_MS: u64 = 120_000;

/// The largest number of workers of a run.
pub const MAX_WORKERS: usize = 50;

/// The dataset selector in the form in which it is compared: trimmed and
/// in lower case.
pub open spec fn game_of(raw: Seq<char>) -> Seq<char> {
    lowercased(trimmed(raw))
}

/// The selectors of the known datasets.
pub open spec fn known_game(game: Seq<char>) -> bool {
    game == "gs"@ || game == "sr"@ || game == "zzz"@
}

/// Whether a selector, trimmed and in lower case, names a known dataset.
pub fn is_known_game(game: &str) -> (r: bool)
    ensures
        r == known_game(game@),
{
    same_text(game, "gs") || same_text(game, "sr") || same_text(game, "zzz")
}

/// A timeout as configured, brought into `[1000, 120000]` milliseconds.
pub open spec fn clamped_timeout(timeout_ms: u64) -> u64 {
    if timeout_ms < MIN_TIMEOUT_MS {
        MIN_TIMEOUT_MS
    } else if timeout_ms > MAX_TIMEOUT_MS {
        MAX_TIMEOUT_MS
    } else {
        timeout_ms
    }
}

/// How many workers a run has: one where there is no proxy; else the
/// concurrency asked for, brought into `[1, 50]` and never above the
/// number of proxies.
pub open spec fn worker_total(concurrency: usize, proxy_count: nat) -> nat {
    let asked: nat = if concurrency < 1 {
        1
    } else if concurrency > MAX_WORKERS {
        MAX_WORKERS as nat
    } else {
        concurrency as nat
    };
    if proxy_count == 0 {
        1
    } else if asked > proxy_count {
        proxy_count
    } else {
        asked
    }
}

/// How many workers a run has.
pub fn worker_count(concurrency: usize, proxy_count: usize) -> (r: usize)
    ensures
        r == worker_total(concurrency, proxy_count as nat),
        proxy_count == 0 ==> r == 1,
        1 <= r <= MAX_WORKERS,
        proxy_count > 0 ==> r <= proxy_count,
{
    let asked: usize = if concurrency < 1 {
        1
    } else if concurrency > MAX_WORKERS {
        MAX_WORKERS
    } else {
        concurrency
    };
    if proxy_count == 0 {
        1
    } else if asked > proxy_count {
        proxy_count
    } else {
        asked
    }
}

/// What a run works with, derived from its options.
#[derive(Debug, Clone, PartialEq, Eq)]
pub struct Settings {
    pub game: String,
    pub base_url: String,
    pub user_agent: String,
    pub timeout_ms: u64,
    pub delay_ms: u64,
    pub jitter_ms: u64,
    pub no_proxy_delay_ms: u64,
    /// The proxies of the run, each named once.
    pub proxy_urls: Vec<String>,
    pub concurrency: usize,
    pub proxy_max_consecutive_fails: usize,
    pub breaker_max_consecutive_fails: usize,
    pub breaker_on_429: bool,
}

/// The proxies that the options name: the items of the list, each kept
/// where it first stands.
pub open spec fn proxy_list(proxy_urls: Option<String>) -> Seq<Seq<char>> {
    match proxy_urls {
        Some(raw) => first_occurrences(list_items(raw@)),
        None => Seq::empty(),
    }
}

/// Whether `s` holds the settings that the options `args` give.
pub open spec fn settings_of(args: Args, s: Settings) -> bool {
    &&& s.game@ == game_of(args.game@)
    &&& s.base_url@ == normalized_base_url(
        match args.base_url {
            Some(b) => b@,
            None => default_base_url(),
        },
    )
    &&& s.user_agent@ == match args.user_agent {
        Some(ua) => ua@,
        None => default_user_agent_text(),
    }
    &&& s.timeout_ms == clamped_timeout(args.timeout_ms)
    &&& s.delay_ms == args.delay_ms
    &&& s.jitter_ms == args.jitter_ms
    &&& s.no_proxy_delay_ms == args.no_proxy_delay_ms
    &&& s.proxy_urls.deep_view() == proxy_list(args.proxy_urls)
    &&& s.concurrency == worker_total(args.concurrency, proxy_list(args.proxy_urls).len())
    &&& s.proxy_max_consecutive_fails == clamped_threshold(args.proxy_max_consecutive_fails)
    &&& s.breaker_max_consecutive_fails == clamped_threshold(args.breaker_max_consecutive_fails)
    &&& s.breaker_on_429 == args.breaker_on_429
}

/// Derives the settings of a run from its options. Fails where the
/// dataset selector names no known dataset.
pub fn settings(args: &Args) -> (r: Result<Settings, ConfigError>)
    ensures
        match r {
            Ok(s) => known_game(game_of(args.game@)) && settings_of(*args, s),
            Err(e) => !known_game(game_of(args.game@)) && e@ == ConfigErrorView::UnsupportedGame(
                args.game@,
            ),
        },
{
    let game = to_lowercase(trim(args.game.as_str()).as_str());
    if !is_known_game(game.as_str()) {
        return Err(ConfigError::UnsupportedGame(args.game.clone()));
    }
    let base_url = match &args.base_url {
        Some(b) => normalize_base_url(b.as_str()),
        None => normalize_base_url("https://enka.network/"),
    };
    let user_agent = match &args.user_agent {
        Some(ua) => ua.clone(),
        None => String::from_str(default_user_agent()),
    };
    let timeout_ms: u64 = if args.timeout_ms < MIN_TIMEOUT_MS {
        MIN_TIMEOUT_MS
    } else if args.timeout_ms > MAX_TIMEOUT_MS {
        MAX_TIMEOUT_MS
    } else {
        args.timeout_ms
    };
    let proxy_urls = match &args.proxy_urls {
        Some(raw) => dedup_texts(&parse_list(raw.as_str())),
        None => Vec::new(),
    };
    assert(proxy_urls.deep_view() =~= proxy_list(args.proxy_urls));
    let concurrency = worker_count(args.concurrency, proxy_urls.len());
    Ok(
        Settings {
            game,
            base_url,
            user_agent,
            timeout_ms,
            delay_ms: args.delay_ms,
            jitter_ms: args.jitter_ms,
            no_proxy_delay_ms: args.no_proxy_delay_ms,
            proxy_urls,
            concurrency,
            proxy_max_consecutive_fails: fault_threshold(args.proxy_max_consecutive_fails),
            breaker_max_consecutive_fails: fault_threshold(args.breaker_max_consecutive_fails),
            breaker_on_429: args.breaker_on_429,
        },
    )
}

/// Names whether `reqwest` takes a text for the address of a proxy.
pub uninterp spec fn proxy_url_accepted(url: Seq<char>) -> bool;

/// `reqwest::Proxy::all`: whether it accepts the text as the address of a
/// proxy for all traffic. The contract only names the answer.
#[verifier::external_body]
fn accepts_proxy_url(url: &str) -> (r: bool)
    ensures
        r == proxy_url_accepted(url@),
{
    reqwest::Proxy::all(url).is_ok()
}

/// The first text of the list that is no address of a proxy.
pub open spec fn first_rejected(urls: Seq<Seq<char>>) -> Option<Seq<char>>
    decreases urls.len(),
{
    if urls.len() == 0 {
        None
    } else if !proxy_url_accepted(urls[0]) {
        Some(urls[0])
    } else {
        first_rejected(urls.drop_first())
    }
}

/// Checks that every text of the list is the address of a proxy, and
/// names the first that is none.
pub fn check_proxy_urls(urls: &Vec<String>) -> (r: Result<(), ConfigError>)
    ensures
        match first_rejected(urls.deep_view()) {
            Some(bad) => r matches Err(e) && e@ == ConfigErrorView::InvalidProxyUrl(bad),
            None => r is Ok,
        },
{
    let ghost texts = urls.deep_view();
    let mut i: usize = 0;
    assert(texts.skip(0) =~= texts);
    while i < urls.len()
        invariant
            i <= urls.len(),
            texts == urls.deep_view(),
            first_rejected(texts) == first_rejected(texts.skip(i as int)),
        decreases urls.len() - i,
    {
        let ghost rest = texts.skip(i as int);
        assert(rest[0] == urls[i as int]@);
        assert(rest.drop_first() =~= texts.skip(i + 1));
        if !accepts_proxy_url(urls[i].as_str()) {
            return Err(ConfigError::InvalidProxyUrl(urls[i].clone()));
        }
        i += 1;
    }
    Ok(())
}

/// What a run starts with.
#[derive(Debug, Clone, PartialEq, Eq)]
pub struct Plan {
    pub settings: Settings,
    /// The batch.
    pub uids: Vec<u64>,
}

/// Why the options `args` with the piped lines `lines` give no run: an
/// unknown dataset, then a failure of the identifier source, then a text
/// in the proxy list that is no address of a proxy. `None` where they give
/// one.
pub open spec fn startup_error(args: Args, lines: Seq<Seq<char>>) -> Option<ConfigErrorView> {
    if !known_game(game_of(args.game@)) {
        Some(ConfigErrorView::UnsupportedGame(args.game@))
    } else {
        match resolved_uids(args, lines) {
            Err(e) => Some(e),
            Ok(_) => match first_rejected(proxy_list(args.proxy_urls)) {
                Some(bad) => Some(ConfigErrorView::InvalidProxyUrl(bad)),
                None => None,
            },
        }
    }
}

/// Works out what a run starts with, or why it cannot start. `stdin_lines`
/// holds the lines that were piped in; it is read only where the options
/// ask for them.
pub fn prepare(args: &Args, stdin_lines: &Vec<String>) -> (r: Result<Plan, ConfigError>)
    ensures
        match startup_error(*args, stdin_lines.deep_view()) {
            Some(e) => r matches Err(err) && err@ == e,
            None => r matches Ok(plan) && settings_of(*args, plan.settings) && Ok::<
                Seq<u64>,
                ConfigErrorView,
            >(plan.uids@) == resolved_uids(*args, stdin_lines.deep_view()),
        },
{
    let settings = match settings(args) {
        Ok(s) => s,
        Err(e) => {
            return Err(e);
        },
    };
    let uids = match read_uids(args, stdin_lines) {
        Ok(v) => v,
        Err(e) => {
            return Err(e);
        },
    };
    match check_proxy_urls(&settings.proxy_urls) {
        Ok(()) => Ok(Plan { settings, uids }),
        Err(e) => Err(e),
    }
}

} // verus!
