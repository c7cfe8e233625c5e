use limitedpanel::probe_pool::{
    classify_answer, probe_outcome, probe_permits, probe_verdict, read_proxy_urls, split_list,
    Args, ProbeEvent, ProbeOut,
};

fn args(list: Option<&str>, stdin: bool) -> Args {
    Args {
        proxy_urls: list.map(|s| s.to_string()),
        stdin,
        test_url: "https://enka.network/api/uid/100000001".to_string(),
        timeout_ms: 8_000,
        concurrency: 20,
        user_agent: None,
        accept: "application/json".to_string(),
        max_body_bytes: 65_536,
    }
}

fn lines(v: &[&str]) -> Vec<String> {
    v.iter().map(|s| s.to_string()).collect()
}

#[test]
fn split_list_splits_on_commas_semicolons_and_whitespace() {
    assert_eq!(split_list("http://a:1, http://b:2;http://c:3\thttp://d:4"), vec!["http://a:1", "http://b:2", "http://c:3", "http://d:4"]);
    assert_eq!(split_list(";, "), Vec::<String>::new());
}

#[test]
fn candidates_come_from_pipe_then_list_without_repeats() {
    let a = args(Some("http://b:2,http://c:3,http://a:1"), true);
    assert_eq!(
        read_proxy_urls(&a, &lines(&[" http://a:1 ", "", "http://b:2", "http://a:1"])),
        vec!["http://a:1", "http://b:2", "http://c:3"]
    );
}

#[test]
fn piped_candidates_are_ignored_unless_asked_for() {
    let a = args(Some("http://b:2 http://b:2"), false);
    assert_eq!(read_proxy_urls(&a, &lines(&["http://a:1"])), vec!["http://b:2"]);
    assert_eq!(read_proxy_urls(&args(None, false), &lines(&["http://a:1"])), Vec::<String>::new());
    assert_eq!(read_proxy_urls(&args(None, true), &lines(&["http://a:1"])), vec!["http://a:1"]);
}

#[test]
fn a_piped_line_is_one_candidate_even_with_spaces() {
    let a = args(None, true);
    assert_eq!(read_proxy_urls(&a, &lines(&["http://a:1 http://b:2"])), vec!["http://a:1 http://b:2"]);
}

#[test]
fn at_least_one_probe_runs_at_a_time() {
    assert_eq!(probe_permits(0), 1);
    assert_eq!(probe_permits(1), 1);
    assert_eq!(probe_permits(20), 20);
    assert_eq!(probe_permits(usize::MAX), usize::MAX);
}

#[test]
fn verdict_wants_json_and_a_reached_status() {
    assert!(probe_verdict(200, "{\"uid\":1}"));
    assert!(probe_verdict(404, "  [1,2]\n"));
    assert!(probe_verdict(400, "{}"));
    assert!(probe_verdict(403, "{}"));
    assert!(probe_verdict(424, "{}"));
    assert!(!probe_verdict(500, "{}"));
    assert!(!probe_verdict(429, "{}"));
    assert!(!probe_verdict(200, "<html>"));
    assert!(!probe_verdict(200, "  <!doctype html>"));
    assert!(!probe_verdict(200, "ok"));
    assert!(!probe_verdict(200, ""));
    assert!(!probe_verdict(200, "   "));
}

#[test]
fn only_the_start_of_a_body_is_looked_at() {
    let body = b"  {\"a\":1}".to_vec();
    assert!(classify_answer(200, &body, 65_536));
    assert!(classify_answer(200, &body, 3));
    assert!(!classify_answer(200, &body, 2));
    assert!(!classify_answer(200, &body, 0));
    assert!(!classify_answer(200, &Vec::new(), 10));
}

#[test]
fn bytes_that_are_no_utf8_are_read_lossily() {
    let mut body = b"{\"name\":\"".to_vec();
    body.extend_from_slice(&[0xff, 0xfe]);
    body.extend_from_slice(b"\"}");
    assert!(classify_answer(200, &body, 65_536));
    assert!(!classify_answer(200, &vec![0xff, b'{'], 65_536));
    let cut = "{\"k\":\"é\"}".as_bytes().to_vec();
    assert!(classify_answer(200, &cut, 7));
}

#[test]
fn reports_carry_the_reason_of_a_failure() {
    assert_eq!(
        probe_outcome("not a url".to_string(), ProbeEvent::InvalidProxy("relative URL without a base".to_string()), 10, 3),
        ProbeOut {
            proxy_url: "not a url".to_string(),
            ok: false,
            status: None,
            ms: 3,
            error: Some("invalid proxy url: relative URL without a base".to_string()),
        }
    );
    assert_eq!(
        probe_outcome("http://a:1".to_string(), ProbeEvent::ClientFailed("tls".to_string()), 10, 4).error.as_deref(),
        Some("client build failed: tls")
    );
    assert_eq!(
        probe_outcome("http://a:1".to_string(), ProbeEvent::SendFailed("connection refused".to_string()), 10, 5),
        ProbeOut { proxy_url: "http://a:1".to_string(), ok: false, status: None, ms: 5, error: Some("connection refused".to_string()) }
    );
    assert_eq!(
        probe_outcome("http://a:1".to_string(), ProbeEvent::BodyFailed(502, "reset".to_string()), 10, 6),
        ProbeOut { proxy_url: "http://a:1".to_string(), ok: false, status: Some(502), ms: 6, error: Some("reset".to_string()) }
    );
}

#[test]
fn reports_judge_an_answer() {
    assert_eq!(
        probe_outcome("http://a:1".to_string(), ProbeEvent::Answered(404, b"{\"message\":\"x\"}".to_vec()), 65_536, 7),
        ProbeOut { proxy_url: "http://a:1".to_string(), ok: true, status: Some(404), ms: 7, error: None }
    );
    assert_eq!(
        probe_outcome("http://a:1".to_string(), ProbeEvent::Answered(200, b"<html></html>".to_vec()), 65_536, 8),
        ProbeOut { proxy_url: "http://a:1".to_string(), ok: false, status: Some(200), ms: 8, error: None }
    );
}
