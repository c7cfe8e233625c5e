use limitedpanel::enka_fetch::breaker::{Breaker, DirectPace};
use limitedpanel::enka_fetch::pool::{fault_threshold, pick_proxy_index, ProxyPool, ProxyState};

fn states(disabled: &[bool]) -> Vec<ProxyState> {
    disabled
        .iter()
        .enumerate()
        .map(|(i, d)| {
            let mut s = ProxyState::new(format!("http://p{}", i), 0);
            s.disabled = *d;
            s
        })
        .collect()
}

fn pool(n: usize, delay_ms: u64, max_fails: usize) -> ProxyPool {
    let urls: Vec<String> = (0..n).map(|i| format!("http://p{}", i)).collect();
    ProxyPool::new(&urls, 0, delay_ms, 0, max_fails)
}

#[test]
fn threshold_is_clamped_to_1_200() {
    assert_eq!(fault_threshold(0), 1);
    assert_eq!(fault_threshold(1), 1);
    assert_eq!(fault_threshold(30), 30);
    assert_eq!(fault_threshold(200), 200);
    assert_eq!(fault_threshold(201), 200);
    assert_eq!(fault_threshold(usize::MAX), 200);
}

#[test]
fn selection_scans_forward_from_the_hint() {
    let s = states(&[false, false, false]);
    assert_eq!(pick_proxy_index(&s, 0), Some(0));
    assert_eq!(pick_proxy_index(&s, 1), Some(1));
    assert_eq!(pick_proxy_index(&s, 2), Some(2));
}

#[test]
fn selection_skips_disabled_entries_and_wraps() {
    let s = states(&[false, true, true]);
    assert_eq!(pick_proxy_index(&s, 1), Some(0));
    assert_eq!(pick_proxy_index(&s, 2), Some(0));
    let t = states(&[true, false, true, false]);
    assert_eq!(pick_proxy_index(&t, 0), Some(1));
    assert_eq!(pick_proxy_index(&t, 2), Some(3));
    assert_eq!(pick_proxy_index(&t, 3), Some(3));
}

#[test]
fn selection_holds_a_large_hint_at_the_last_entry() {
    let s = states(&[false, false, true]);
    assert_eq!(pick_proxy_index(&s, 2), Some(0));
    assert_eq!(pick_proxy_index(&s, 99), Some(0));
    assert_eq!(pick_proxy_index(&s, usize::MAX), Some(0));
    let t = states(&[false, false, false]);
    assert_eq!(pick_proxy_index(&t, 7), Some(2));
}

#[test]
fn selection_reports_exhaustion() {
    assert_eq!(pick_proxy_index(&states(&[]), 0), None);
    assert_eq!(pick_proxy_index(&states(&[true]), 0), None);
    assert_eq!(pick_proxy_index(&states(&[true, true, true]), 1), None);
}

#[test]
fn new_pool_is_all_in_use_and_free_at_once() {
    let urls = vec!["http://a".to_string(), "http://b".to_string()];
    let p = ProxyPool::new(&urls, 77, 20_000, 2_000, 0);
    assert_eq!(p.entries.len(), 2);
    assert_eq!(p.entries[1], ProxyState { url: "http://b".to_string(), disabled: false, consecutive_fails: 0, next_at: 77 });
    assert_eq!(p.delay_ms, 20_000);
    assert_eq!(p.jitter_ms, 2_000);
    assert_eq!(p.max_consecutive_fails, 1);
}

#[test]
fn reserve_returns_the_wait_and_moves_the_window() {
    let mut p = pool(2, 20_000, 30);
    assert_eq!(p.reserve(0, 1_000, 500), 0);
    assert_eq!(p.entries[0].next_at, 21_500);
    assert_eq!(p.entries[1].next_at, 0);
    assert_eq!(p.reserve(0, 1_500, 0), 20_000);
    assert_eq!(p.entries[0].next_at, 21_500);
    assert_eq!(p.reserve(0, 30_000, 7), 0);
    assert_eq!(p.entries[0].next_at, 50_007);
}

#[test]
fn reserve_saturates_at_the_end_of_the_clock() {
    let mut p = pool(1, u64::MAX, 30);
    assert_eq!(p.reserve(0, 5, 10), 0);
    assert_eq!(p.entries[0].next_at, u64::MAX);
    assert_eq!(p.reserve(0, 6, 0), u64::MAX - 6);
}

#[test]
fn repeated_reservations_are_spaced_by_the_base_delay() {
    let mut p = pool(1, 20_000, 30);
    let mut now: u64 = 0;
    let mut last_dispatch: Option<u64> = None;
    for jitter in [0u64, 1_999, 3, 250, 0, 1_000] {
        let wait = p.reserve(0, now, jitter);
        let dispatch = now + wait;
        if let Some(prev) = last_dispatch {
            assert!(dispatch - prev >= 20_000, "{} after {}", dispatch, prev);
        }
        last_dispatch = Some(dispatch);
        now = dispatch + 25_000;
    }
}

#[test]
fn acquire_selects_and_reserves_in_one_step() {
    let mut p = pool(3, 20_000, 30);
    p.entries[1].disabled = true;
    let lease = p.acquire(1, 100).unwrap();
    assert_eq!(lease.index, 2);
    assert_eq!(lease.url, "http://p2");
    assert_eq!(lease.wait_ms, 0);
    assert_eq!(lease.jitter_ms, 0);
    assert_eq!(p.entries[2].next_at, 20_100);
    let again = p.acquire(2, 150).unwrap();
    assert_eq!(again.index, 2);
    assert_eq!(again.wait_ms, 19_950);
    assert_eq!(p.entries[2].next_at, 20_150);
}

#[test]
fn acquire_draws_jitter_below_the_bound() {
    let urls = vec!["http://a".to_string()];
    for _ in 0..200 {
        let mut p = ProxyPool::new(&urls, 0, 1_000, 50, 30);
        let lease = p.acquire(0, 10).unwrap();
        assert!(lease.jitter_ms < 50);
        assert_eq!(p.entries[0].next_at, 1_010 + lease.jitter_ms);
    }
}

#[test]
fn acquire_on_an_exhausted_pool_changes_nothing() {
    let mut p = pool(2, 20_000, 30);
    p.entries[0].disabled = true;
    p.entries[1].disabled = true;
    let before = p.clone();
    assert_eq!(p.acquire(0, 5), None);
    assert_eq!(p, before);
}

#[test]
fn a_429_disables_the_proxy_at_once() {
    let mut p = pool(2, 20_000, 30);
    assert_eq!(p.settle(0, false, Some(429), false), Some(true));
    assert!(p.entries[0].disabled);
    assert_eq!(p.entries[0].consecutive_fails, 1);
    assert!(!p.entries[1].disabled);
    assert_eq!(pick_proxy_index(&p.entries, 0), Some(1));
}

#[test]
fn faults_accumulate_until_the_threshold_disables() {
    let mut p = pool(1, 20_000, 3);
    assert_eq!(p.settle(0, false, None, false), None);
    assert_eq!(p.settle(0, false, Some(200), true), None);
    assert_eq!(p.entries[0].consecutive_fails, 2);
    assert!(!p.entries[0].disabled);
    assert_eq!(p.settle(0, false, Some(503), true), Some(true));
    assert_eq!(p.entries[0].consecutive_fails, 3);
    assert!(p.entries[0].disabled);
    assert_eq!(pick_proxy_index(&p.entries, 0), None);
}

#[test]
fn success_resets_the_fault_count() {
    let mut p = pool(1, 20_000, 3);
    p.settle(0, false, None, false);
    p.settle(0, false, None, false);
    assert_eq!(p.settle(0, true, Some(200), false), None);
    assert_eq!(p.entries[0].consecutive_fails, 0);
    assert_eq!(p.settle(0, false, None, false), None);
    assert_eq!(p.settle(0, false, None, false), None);
    assert!(!p.entries[0].disabled);
}

#[test]
fn a_failure_that_is_no_fault_leaves_the_count() {
    let mut p = pool(1, 20_000, 2);
    p.settle(0, false, None, false);
    assert_eq!(p.settle(0, false, Some(500), false), None);
    assert_eq!(p.settle(0, false, Some(404), false), None);
    assert_eq!(p.entries[0].consecutive_fails, 1);
    assert!(!p.entries[0].disabled);
}

#[test]
fn a_disabled_proxy_stays_disabled() {
    let mut p = pool(1, 20_000, 5);
    p.settle(0, false, Some(429), false);
    assert_eq!(p.settle(0, true, Some(200), false), None);
    assert!(p.entries[0].disabled);
    assert_eq!(p.entries[0].consecutive_fails, 0);
    p.reserve(0, 10, 0);
    assert!(p.entries[0].disabled);
    assert_eq!(p.acquire(0, 20), None);
}

#[test]
fn fault_count_holds_at_the_largest_value() {
    let mut s = ProxyState::new("http://a".to_string(), 0);
    s.consecutive_fails = usize::MAX;
    s.disabled = true;
    assert_eq!(s.settle(false, None, false, 200), Some(true));
    assert_eq!(s.consecutive_fails, usize::MAX);
}

#[test]
fn breaker_trips_on_the_first_429_when_enabled() {
    let mut b = Breaker::new(5, true);
    assert!(!b.stop);
    b.record(false, Some(429));
    assert!(b.stop);
    assert_eq!(b.consecutive_fails, 1);
}

#[test]
fn breaker_ignores_429_when_disabled_until_the_threshold() {
    let mut b = Breaker::new(3, false);
    b.record(false, Some(429));
    assert!(!b.stop);
    b.record(false, Some(429));
    assert!(!b.stop);
    b.record(false, Some(429));
    assert!(b.stop);
}

#[test]
fn breaker_counts_any_failure_and_resets_on_success() {
    let mut b = Breaker::new(2, true);
    b.record(false, Some(500));
    assert_eq!(b.consecutive_fails, 1);
    b.record(true, Some(200));
    assert_eq!(b.consecutive_fails, 0);
    assert!(!b.stop);
    b.record(false, None);
    b.record(false, Some(404));
    assert!(b.stop);
    b.record(true, Some(200));
    assert!(b.stop);
}

#[test]
fn breaker_threshold_is_clamped() {
    assert_eq!(Breaker::new(0, true).max_consecutive_fails, 1);
    assert_eq!(Breaker::new(5, true).max_consecutive_fails, 5);
    assert_eq!(Breaker::new(9_999, false).max_consecutive_fails, 200);
    let mut b = Breaker::new(0, false);
    b.record(false, None);
    assert!(b.stop);
}

#[test]
fn direct_pace_uses_the_larger_delay() {
    let mut p = DirectPace::new(0, 5_000, 20_000, 0);
    assert_eq!(p.delay_ms, 20_000);
    assert_eq!(p.reserve(10, 0), 0);
    assert_eq!(p.next_at, 20_010);
    let mut q = DirectPace::new(0, 30_000, 20_000, 0);
    assert_eq!(q.delay_ms, 30_000);
    assert_eq!(q.reserve(10, 5), 0);
    assert_eq!(q.next_at, 30_015);
    assert_eq!(q.reserve(20, 0), 29_995);
}

#[test]
fn direct_pace_draws_jitter_below_the_bound() {
    for _ in 0..200 {
        let mut p = DirectPace::new(0, 1_000, 0, 10);
        let (wait, jitter) = p.pace(3);
        assert_eq!(wait, 0);
        assert!(jitter < 10);
        assert_eq!(p.next_at, 1_003 + jitter);
    }
}
