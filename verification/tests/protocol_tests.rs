use limitedpanel::enka_fetch::protocol::{
    anomaly, fetch_one, retry_after, Exchange, Fetch, FetchResult,
};

fn drive(mut job: Fetch, script: Vec<Exchange>) -> (FetchResult, usize) {
    let mut used: usize = 0;
    let mut script = script.into_iter();
    loop {
        if job.current_url().is_none() {
            return (job.fail(99), used);
        }
        let ex = script.next().unwrap();
        used += 1;
        if let Some(done) = job.observe(ex, 42) {
            return (done, used);
        }
    }
}

#[test]
fn second_mirror_answers_after_the_first_fails() {
    let job = Fetch::new("zzz", "https://enka.network/", 10000001, 20_000, None);
    let (r, used) = drive(
        job,
        vec![
            Exchange::Response(503, "{\"message\":\"unavailable\"}".to_string()),
            Exchange::Response(200, "{\"uid\":10000001}".to_string()),
        ],
    );
    assert_eq!(used, 2);
    assert_eq!(
        r,
        FetchResult {
            uid: 10000001,
            ok: true,
            status: Some(200),
            is_html: false,
            body: Some("{\"uid\":10000001}".to_string()),
            error: None,
            ms: 42,
            proxy: None,
            base: Some("https://profile.microgg.cn/api/zzz/uid/10000001".to_string()),
            retry_after_ms: None,
            proxy_disabled: None,
        }
    );
}

#[test]
fn first_qualifying_response_stops_the_attempt() {
    let job = Fetch::new("zzz", "x/", 5, 0, Some("http://proxy:1"));
    let (r, used) = drive(job, vec![Exchange::Response(200, " {\"a\":1}".to_string()), Exchange::Timeout]);
    assert_eq!(used, 1);
    assert!(r.ok);
    assert_eq!(r.base.as_deref(), Some("https://enka.network/api/zzz/uid/5"));
    assert_eq!(r.proxy.as_deref(), Some("http://proxy:1"));
    assert_eq!(r.body.as_deref(), Some(" {\"a\":1}"));
}

#[test]
fn failure_reports_what_was_seen_last() {
    let job = Fetch::new("zzz", "x/", 5, 1_000, Some("http://proxy:1"));
    let (r, used) = drive(
        job,
        vec![Exchange::Response(429, "slow down".to_string()), Exchange::TransportError("connection refused".to_string())],
    );
    assert_eq!(used, 2);
    assert_eq!(
        r,
        FetchResult {
            uid: 5,
            ok: false,
            status: None,
            is_html: false,
            body: None,
            error: Some("connection refused".to_string()),
            ms: 99,
            proxy: Some("http://proxy:1".to_string()),
            base: Some("https://profile.microgg.cn/api/zzz/uid/5".to_string()),
            retry_after_ms: None,
            proxy_disabled: None,
        }
    );
}

#[test]
fn html_with_status_200_does_not_qualify() {
    let job = Fetch::new("gs", "https://enka.network/", 7, 20_000, None);
    let (r, used) = drive(job, vec![Exchange::Response(200, "  <html>blocked</html>".to_string())]);
    assert_eq!(used, 1);
    assert!(!r.ok);
    assert_eq!(r.status, Some(200));
    assert!(r.is_html);
    assert_eq!(r.body, None);
    assert_eq!(r.error.as_deref(), Some("http 200 (html):   <html>blocked</html>"));
    assert_eq!(r.base.as_deref(), Some("https://enka.network/api/uid/7"));
    assert_eq!(r.retry_after_ms, None);
}

#[test]
fn a_429_carries_the_retry_advice() {
    let job = Fetch::new("sr", "https://enka.network/", 7, 20_000, None);
    let (r, _) = drive(job, vec![Exchange::Response(429, "{}".to_string())]);
    assert!(!r.ok);
    assert_eq!(r.status, Some(429));
    assert_eq!(r.error.as_deref(), Some("http 429: {}"));
    assert_eq!(r.retry_after_ms, Some(300_000));
    assert_eq!(r.base.as_deref(), Some("https://enka.network/api/hsr/uid/7"));
}

#[test]
fn retry_advice_is_ten_delays_and_five_minutes_at_least() {
    assert_eq!(retry_after(Some(429), 0), Some(300_000));
    assert_eq!(retry_after(Some(429), 30_000), Some(300_000));
    assert_eq!(retry_after(Some(429), 30_001), Some(300_010));
    assert_eq!(retry_after(Some(429), 60_000), Some(600_000));
    assert_eq!(retry_after(Some(429), u64::MAX / 10 + 1), Some(u64::MAX));
    assert_eq!(retry_after(Some(429), u64::MAX), Some(u64::MAX));
    assert_eq!(retry_after(Some(500), 60_000), None);
    assert_eq!(retry_after(Some(200), 60_000), None);
    assert_eq!(retry_after(None, 60_000), None);
}

#[test]
fn timeout_and_body_errors_are_recorded() {
    let job = Fetch::new("gs", "b/", 1, 0, None);
    let (r, _) = drive(job, vec![Exchange::Timeout]);
    assert_eq!(r.error.as_deref(), Some("timeout"));
    assert_eq!(r.status, None);
    assert!(!r.is_html);
    assert_eq!(r.base.as_deref(), Some("b/api/uid/1"));

    let job = Fetch::new("gs", "b/", 1, 0, None);
    let (r, _) = drive(job, vec![Exchange::BodyError(502, "body cut short".to_string())]);
    assert_eq!(r.error.as_deref(), Some("body cut short"));
    assert_eq!(r.status, Some(502));
    assert!(!r.is_html);
}

#[test]
fn a_fetch_with_nothing_tried_fails_as_a_transport_error() {
    let mut job = Fetch::new("gs", "b/", 1, 0, None);
    job.tried = job.urls.len();
    let r = job.fail(3);
    assert!(!r.ok);
    assert_eq!(r.error.as_deref(), Some("transport_error"));
    assert_eq!(r.base, None);
    assert_eq!(r.status, None);
    assert_eq!(r.ms, 3);
}

#[test]
fn diagnostic_quotes_short_bodies_whole() {
    assert_eq!(anomaly(404, false, "{\"message\":\"not found\"}"), "http 404: {\"message\":\"not found\"}");
    assert_eq!(anomaly(200, true, "<html>"), "http 200 (html): <html>");
    assert_eq!(anomaly(500, false, ""), "http 500: ");
    let exactly = "a".repeat(300);
    assert_eq!(anomaly(500, false, &exactly), format!("http 500: {}", exactly));
}

#[test]
fn diagnostic_cuts_long_bodies_after_300_characters() {
    let long = "b".repeat(301);
    assert_eq!(anomaly(503, false, &long), format!("http 503: {}...", "b".repeat(300)));
    let wide = "é".repeat(400);
    assert_eq!(anomaly(503, true, &wide), format!("http 503 (html): {}...", "é".repeat(300)));
    let mixed = "é".repeat(200);
    assert_eq!(anomaly(503, false, &mixed), format!("http 503: {}", mixed));
}

#[test]
fn observe_moves_to_the_next_candidate() {
    let mut job = Fetch::new("zzz", "b/", 9, 0, None);
    assert_eq!(job.current_url().map(|s| s.as_str()), Some("https://enka.network/api/zzz/uid/9"));
    assert_eq!(job.observe(Exchange::Timeout, 1), None);
    assert_eq!(job.tried, 1);
    assert_eq!(job.current_url().map(|s| s.as_str()), Some("https://profile.microgg.cn/api/zzz/uid/9"));
    assert_eq!(job.observe(Exchange::Response(500, "x".to_string()), 2), None);
    assert_eq!(job.current_url(), None);
    assert_eq!(job.last_status, Some(500));
    assert_eq!(job.last_error.as_deref(), Some("http 500: x"));
}

#[test]
fn two_mirrors_503_then_200_succeed_on_the_second() {
    let r = fetch_one(
        "zzz",
        "https://enka.network/",
        77,
        20_000,
        Some("http://127.0.0.1:17890"),
        vec![Exchange::Response(503, "upstream down".to_string()), Exchange::Response(200, "{\"ok\":true}".to_string())],
        1_234,
    );
    assert_eq!(
        r,
        FetchResult {
            uid: 77,
            ok: true,
            status: Some(200),
            is_html: false,
            body: Some("{\"ok\":true}".to_string()),
            error: None,
            ms: 1_234,
            proxy: Some("http://127.0.0.1:17890".to_string()),
            base: Some("https://profile.microgg.cn/api/zzz/uid/77".to_string()),
            retry_after_ms: None,
            proxy_disabled: None,
        }
    );
}

#[test]
fn scripted_fetch_stops_at_the_first_success_and_ignores_the_rest() {
    let r = fetch_one("zzz", "b/", 1, 0, None, vec![Exchange::Response(200, "[]".to_string()), Exchange::Response(200, "{}".to_string())], 5);
    assert_eq!(r.base.as_deref(), Some("https://enka.network/api/zzz/uid/1"));
    assert_eq!(r.body.as_deref(), Some("[]"));
    let one = fetch_one("gs", "b/", 1, 0, None, vec![Exchange::Timeout, Exchange::Response(200, "{}".to_string())], 5);
    assert!(!one.ok);
    assert_eq!(one.error.as_deref(), Some("timeout"));
    assert_eq!(one.base.as_deref(), Some("b/api/uid/1"));
}

#[test]
fn scripted_fetch_with_too_few_answers_reports_the_last_one() {
    let none = fetch_one("zzz", "b/", 1, 0, None, Vec::new(), 5);
    assert!(!none.ok);
    assert_eq!(none.error.as_deref(), Some("transport_error"));
    assert_eq!(none.base, None);
    let one = fetch_one("zzz", "b/", 1, 30_001, None, vec![Exchange::Response(429, "".to_string())], 5);
    assert_eq!(one.status, Some(429));
    assert_eq!(one.error.as_deref(), Some("http 429: "));
    assert_eq!(one.retry_after_ms, Some(300_010));
    assert_eq!(one.base.as_deref(), Some("https://enka.network/api/zzz/uid/1"));
}
