use limitedpanel::enka_fetch::protocol::FetchResult;
use limitedpanel::enka_fetch::run::{Run, Step, WorkerState};
use limitedpanel::enka_fetch::{read_uids, settings, Args, Settings};

fn args(proxies: Option<&str>, concurrency: usize) -> Args {
    Args {
        game: "gs".to_string(),
        uids_stdin: false,
        uids: None,
        uid_start: Some(100),
        count: Some(5),
        base_url: None,
        user_agent: None,
        timeout_ms: 15_000,
        delay_ms: 1_000,
        jitter_ms: 0,
        no_proxy_delay_ms: 2_000,
        concurrency,
        proxy_urls: proxies.map(|s| s.to_string()),
        proxy_max_consecutive_fails: 2,
        breaker_max_consecutive_fails: 3,
        breaker_on_429: true,
    }
}

fn plan(proxies: Option<&str>, concurrency: usize) -> Settings {
    settings(&args(proxies, concurrency)).unwrap()
}

fn ok(uid: u64) -> FetchResult {
    FetchResult {
        uid,
        ok: true,
        status: Some(200),
        is_html: false,
        body: Some("{}".to_string()),
        error: None,
        ms: 1,
        proxy: None,
        base: None,
        retry_after_ms: None,
        proxy_disabled: None,
    }
}

fn failed(uid: u64, status: Option<u16>, is_html: bool) -> FetchResult {
    FetchResult {
        uid,
        ok: false,
        status,
        is_html,
        body: None,
        error: Some("e".to_string()),
        ms: 1,
        proxy: None,
        base: None,
        retry_after_ms: None,
        proxy_disabled: None,
    }
}

/// Runs every worker to its end, the workers taking turns: each begins,
/// and the fetches in flight complete in the order given by `reverse`.
fn run_all(run: &mut Run, reverse: bool, outcome: &dyn Fn(u64) -> FetchResult) -> Vec<FetchResult> {
    let mut out = Vec::new();
    let mut now: u64 = 0;
    loop {
        let mut flying: Vec<(usize, u64)> = Vec::new();
        for w in 0..run.workers.len() {
            now += 10;
            if let Step::Dispatch { uid, wait_ms, .. } = run.begin(w, now) {
                now += wait_ms;
                flying.push((w, uid));
            }
        }
        if flying.is_empty() {
            break;
        }
        if reverse {
            flying.reverse();
        }
        for (w, uid) in flying {
            run.complete(w, outcome(uid));
        }
        while let Some(r) = run.emit() {
            out.push(r);
        }
    }
    out
}

#[test]
fn range_is_fetched_exactly_once_whatever_the_worker_count() {
    let uids = read_uids(&args(None, 1), &Vec::new()).unwrap();
    for (proxies, workers) in [
        (None, 1usize),
        (None, 8),
        (Some("http://a:1"), 4),
        (Some("http://a:1,http://b:2"), 2),
        (Some("http://a:1,http://b:2,http://c:3"), 3),
        (Some("http://a:1 http://b:2 http://c:3 http://d:4 http://e:5 http://f:6 http://g:7"), 50),
    ] {
        for reverse in [false, true] {
            let mut run = Run::new(&plan(proxies, workers), uids.clone(), 0);
            let out = run_all(&mut run, reverse, &ok);
            let mut seen: Vec<u64> = out.iter().map(|r| r.uid).collect();
            assert_eq!(seen.len(), 5);
            seen.sort();
            assert_eq!(seen, vec![100, 101, 102, 103, 104]);
            assert_eq!(run.cursor, 5);
            assert_eq!(run.pending(), 0);
        }
    }
}

#[test]
fn direct_run_has_one_worker_whatever_was_asked() {
    for c in [0usize, 1, 7, 50, 500] {
        let run = Run::new(&plan(None, c), vec![1, 2, 3], 0);
        assert_eq!(run.workers.len(), 1);
        assert!(!run.is_pooled());
    }
    let mut s = plan(None, 1);
    s.concurrency = 12;
    assert_eq!(Run::new(&s, vec![1], 0).workers.len(), 1);
}

#[test]
fn pooled_run_has_no_more_workers_than_proxies() {
    let run = Run::new(&plan(Some("http://a:1,http://b:2"), 9), vec![1, 2, 3], 0);
    assert_eq!(run.workers.len(), 2);
    assert!(run.is_pooled());
    assert_eq!(run.workers[1].hint, 1);
    assert_eq!(run.workers[1].state, WorkerState::Idle);
}

#[test]
fn direct_path_is_paced_by_the_larger_delay() {
    let mut run = Run::new(&plan(None, 1), vec![1, 2, 3], 500);
    assert_eq!(
        run.begin(0, 600),
        Step::Dispatch { uid: 1, proxy: None, proxy_url: None, wait_ms: 0, jitter_ms: 0 }
    );
    assert!(!run.is_idle(0));
    assert!(run.is_awaited(0, 1));
    assert!(!run.is_awaited(0, 2));
    assert!(!run.is_awaited(1, 1));
    run.complete(0, ok(1));
    assert!(run.is_idle(0));
    assert!(!run.is_idle(1));
    assert!(!run.is_awaited(0, 1));
    assert_eq!(
        run.begin(0, 700),
        Step::Dispatch { uid: 2, proxy: None, proxy_url: None, wait_ms: 1_900, jitter_ms: 0 }
    );
    run.complete(0, ok(2));
    assert_eq!(
        run.begin(0, 10_000),
        Step::Dispatch { uid: 3, proxy: None, proxy_url: None, wait_ms: 0, jitter_ms: 0 }
    );
    run.complete(0, ok(3));
    assert_eq!(run.begin(0, 10_001), Step::Exit);
    assert_eq!(run.begin(0, 10_002), Step::Exit);
    assert_eq!(run.workers[0].state, WorkerState::Exited);
}

#[test]
fn first_429_stops_a_direct_run() {
    let mut run = Run::new(&plan(None, 1), vec![1, 2, 3], 0);
    assert!(matches!(run.begin(0, 0), Step::Dispatch { uid: 1, .. }));
    run.complete(0, failed(1, Some(429), false));
    assert!(run.breaker.stop);
    assert_eq!(run.begin(0, 1), Step::Exit);
    assert_eq!(run.cursor, 1);
    let r = run.emit().unwrap();
    assert_eq!(r.uid, 1);
    assert_eq!(r.proxy_disabled, None);
    assert_eq!(run.emit(), None);
}

#[test]
fn breaker_stops_a_direct_run_after_the_threshold() {
    let mut run = Run::new(&plan(None, 1), vec![1, 2, 3, 4, 5], 0);
    let out = run_all(&mut run, false, &|uid| failed(uid, Some(500), false));
    assert_eq!(out.iter().map(|r| r.uid).collect::<Vec<_>>(), vec![1, 2, 3]);
    assert!(run.breaker.stop);
    assert_eq!(run.cursor, 3);
}

#[test]
fn a_429_without_the_option_does_not_stop_at_once() {
    let mut a = args(None, 1);
    a.breaker_on_429 = false;
    let mut run = Run::new(&settings(&a).unwrap(), vec![1, 2, 3, 4, 5], 0);
    assert!(matches!(run.begin(0, 0), Step::Dispatch { uid: 1, .. }));
    run.complete(0, failed(1, Some(429), false));
    assert!(!run.breaker.stop);
    assert!(matches!(run.begin(0, 1), Step::Dispatch { uid: 2, .. }));
}

#[test]
fn pooled_workers_rotate_over_the_proxies() {
    let mut run = Run::new(&plan(Some("http://a:1,http://b:2,http://c:3"), 2), vec![1, 2, 3, 4], 0);
    assert_eq!(
        run.begin(0, 5),
        Step::Dispatch { uid: 1, proxy: Some(0), proxy_url: Some("http://a:1".to_string()), wait_ms: 0, jitter_ms: 0 }
    );
    assert_eq!(
        run.begin(1, 6),
        Step::Dispatch { uid: 2, proxy: Some(1), proxy_url: Some("http://b:2".to_string()), wait_ms: 0, jitter_ms: 0 }
    );
    assert_eq!(run.workers[0].hint, 1);
    assert_eq!(run.workers[1].hint, 2);
    run.complete(0, ok(1));
    assert_eq!(
        run.begin(0, 7),
        Step::Dispatch { uid: 3, proxy: Some(1), proxy_url: Some("http://b:2".to_string()), wait_ms: 999, jitter_ms: 0 }
    );
    run.complete(1, ok(2));
    assert_eq!(
        run.begin(1, 8),
        Step::Dispatch { uid: 4, proxy: Some(2), proxy_url: Some("http://c:3".to_string()), wait_ms: 0, jitter_ms: 0 }
    );
    assert_eq!(run.workers[1].hint, 0);
}

#[test]
fn a_429_takes_the_proxy_out_and_marks_the_record() {
    let mut run = Run::new(&plan(Some("http://a:1,http://b:2"), 1), vec![1, 2, 3], 0);
    assert!(matches!(run.begin(0, 0), Step::Dispatch { uid: 1, proxy: Some(0), .. }));
    run.complete(0, failed(1, Some(429), false));
    assert!(run.pool.entries[0].disabled);
    assert_eq!(run.emit().unwrap().proxy_disabled, Some(true));
    assert!(matches!(run.begin(0, 1), Step::Dispatch { uid: 2, proxy: Some(1), .. }));
    run.complete(0, ok(2));
    assert_eq!(run.emit().unwrap().proxy_disabled, None);
    assert!(matches!(run.begin(0, 2), Step::Dispatch { uid: 3, proxy: Some(1), .. }));
}

#[test]
fn an_exhausted_pool_ends_the_run_and_keeps_what_was_produced() {
    let mut run = Run::new(&plan(Some("http://a:1"), 1), vec![1, 2, 3, 4, 5], 0);
    let out = run_all(&mut run, false, &|uid| failed(uid, None, false));
    assert_eq!(out.iter().map(|r| r.uid).collect::<Vec<_>>(), vec![1, 2]);
    assert_eq!(out[0].proxy_disabled, None);
    assert_eq!(out[1].proxy_disabled, Some(true));
    assert!(run.pool.entries[0].disabled);
    assert_eq!(run.cursor, 3);
    assert_eq!(run.workers[0].state, WorkerState::Exited);
    assert_eq!(run.begin(0, 1_000_000), Step::Exit);
    assert_eq!(run.cursor, 3);
}

#[test]
fn records_leave_the_queue_in_arrival_order() {
    let mut run = Run::new(&plan(Some("http://a:1,http://b:2"), 2), vec![10, 20], 0);
    assert!(matches!(run.begin(0, 0), Step::Dispatch { uid: 10, .. }));
    assert!(matches!(run.begin(1, 0), Step::Dispatch { uid: 20, .. }));
    run.complete(1, ok(20));
    run.complete(0, ok(10));
    assert_eq!(run.pending(), 2);
    assert_eq!(run.emit().unwrap().uid, 20);
    assert_eq!(run.emit().unwrap().uid, 10);
    assert_eq!(run.emit(), None);
}

#[test]
fn an_empty_batch_ends_at_once() {
    let mut run = Run::new(&plan(None, 1), Vec::new(), 0);
    assert_eq!(run.begin(0, 0), Step::Exit);
    assert_eq!(run.emit(), None);
}
