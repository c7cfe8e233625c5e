use limitedpanel::enka_fetch::{
    build_urls, check_proxy_urls, default_user_agent, is_html_body, is_known_game,
    normalize_base_url, parse_list, prepare, rand_jitter_ms, read_uids, settings, worker_count,
    Args, ConfigError,
};

fn args() -> Args {
    Args {
        game: "gs".to_string(),
        uids_stdin: false,
        uids: None,
        uid_start: None,
        count: None,
        base_url: None,
        user_agent: None,
        timeout_ms: 15_000,
        delay_ms: 20_000,
        jitter_ms: 2_000,
        no_proxy_delay_ms: 20_000,
        concurrency: 1,
        proxy_urls: None,
        proxy_max_consecutive_fails: 30,
        breaker_max_consecutive_fails: 5,
        breaker_on_429: true,
    }
}

fn lines(v: &[&str]) -> Vec<String> {
    v.iter().map(|s| s.to_string()).collect()
}

#[test]
fn html_body_is_recognised_after_leading_whitespace() {
    assert!(is_html_body("  <html><body>blocked</body></html>"));
    assert!(is_html_body("<!DOCTYPE html>"));
    assert!(is_html_body("\n\t\u{3000}<"));
    assert!(!is_html_body("{\"ok\":true}"));
    assert!(!is_html_body(""));
    assert!(!is_html_body("   "));
    assert!(!is_html_body("x<html>"));
    assert!(!is_html_body("{\"a\":\"<b>\"}"));
}

#[test]
fn base_url_is_trimmed_defaulted_and_slashed() {
    assert_eq!(normalize_base_url(""), "https://enka.network/");
    assert_eq!(normalize_base_url("   "), "https://enka.network/");
    assert_eq!(normalize_base_url("https://example.org"), "https://example.org/");
    assert_eq!(normalize_base_url(" https://example.org/ "), "https://example.org/");
    assert_eq!(normalize_base_url("https://example.org/api"), "https://example.org/api/");
    assert_eq!(normalize_base_url("/"), "/");
}

#[test]
fn default_user_agent_is_the_chrome_like_one() {
    assert_eq!(
        default_user_agent(),
        "Mozilla/5.0 (Windows NT 10.0; Win64; x64) AppleWebKit/537.36 (KHTML, like Gecko) Chrome/120.0.0.0 Safari/537.36"
    );
}

#[test]
fn parse_list_splits_on_commas_semicolons_and_whitespace() {
    assert_eq!(parse_list("1,2; 3\n4"), vec!["1", "2", "3", "4"]);
    assert_eq!(parse_list("  "), Vec::<String>::new());
}

#[test]
fn urls_for_each_dataset() {
    assert_eq!(build_urls("gs", "https://enka.network/", 100000001), vec!["https://enka.network/api/uid/100000001"]);
    assert_eq!(build_urls("sr", "https://enka.network/", 7), vec!["https://enka.network/api/hsr/uid/7"]);
    assert_eq!(
        build_urls("zzz", "https://ignored.example/", 12345),
        vec!["https://enka.network/api/zzz/uid/12345", "https://profile.microgg.cn/api/zzz/uid/12345"]
    );
    assert_eq!(build_urls("other", "http://h/", 0), vec!["http://h/api/uid/0"]);
    assert_eq!(build_urls("gs", "b/", u64::MAX), vec!["b/api/uid/18446744073709551615"]);
}

#[test]
fn jitter_stays_below_its_bound() {
    assert_eq!(rand_jitter_ms(0), 0);
    assert_eq!(rand_jitter_ms(1), 0);
    for _ in 0..1000 {
        assert!(rand_jitter_ms(2_000) < 2_000);
        assert!(rand_jitter_ms(3) < 3);
    }
}

#[test]
fn range_input_yields_consecutive_identifiers() {
    let mut a = args();
    a.uid_start = Some(100);
    a.count = Some(5);
    assert_eq!(read_uids(&a, &Vec::new()), Ok(vec![100, 101, 102, 103, 104]));
}

#[test]
fn range_saturates_at_the_largest_identifier() {
    let mut a = args();
    a.uid_start = Some(u64::MAX - 1);
    a.count = Some(4);
    assert_eq!(read_uids(&a, &Vec::new()), Ok(vec![u64::MAX - 1, u64::MAX, u64::MAX, u64::MAX]));
}

#[test]
fn zero_count_is_a_configuration_error() {
    let mut a = args();
    a.uid_start = Some(100);
    a.count = Some(0);
    let e = read_uids(&a, &Vec::new()).unwrap_err();
    assert_eq!(e, ConfigError::ZeroCount);
    assert_eq!(e.message(), "count must be > 0");
}

#[test]
fn missing_sources_are_a_configuration_error() {
    let e = read_uids(&args(), &Vec::new()).unwrap_err();
    assert_eq!(e, ConfigError::MissingUids);
    assert_eq!(e.message(), "missing uids input (provide --uids-stdin, --uids, or --uid-start + --count)");
    let mut a = args();
    a.uid_start = Some(5);
    assert_eq!(read_uids(&a, &Vec::new()), Err(ConfigError::MissingUids));
    let mut b = args();
    b.count = Some(5);
    assert_eq!(read_uids(&b, &Vec::new()), Err(ConfigError::MissingUids));
}

#[test]
fn piped_lines_win_over_the_other_sources() {
    let mut a = args();
    a.uids_stdin = true;
    a.uids = Some("7,8".to_string());
    a.uid_start = Some(100);
    a.count = Some(2);
    assert_eq!(read_uids(&a, &lines(&[" 1 ", "", "2", "   ", "+3"])), Ok(vec![1, 2, 3]));
}

#[test]
fn piped_lines_are_ignored_unless_asked_for() {
    let mut a = args();
    a.uids = Some("7, 8".to_string());
    assert_eq!(read_uids(&a, &lines(&["1", "2"])), Ok(vec![7, 8]));
}

#[test]
fn empty_pipe_falls_through_to_the_list_and_then_the_range() {
    let mut a = args();
    a.uids_stdin = true;
    a.uids = Some("7;8 9".to_string());
    assert_eq!(read_uids(&a, &lines(&["", "  "])), Ok(vec![7, 8, 9]));
    a.uids = Some(" , ".to_string());
    a.uid_start = Some(3);
    a.count = Some(2);
    assert_eq!(read_uids(&a, &Vec::new()), Ok(vec![3, 4]));
}

#[test]
fn unparseable_identifier_is_reported_with_its_text() {
    let mut a = args();
    a.uids = Some("1, x2, y3".to_string());
    let e = read_uids(&a, &Vec::new()).unwrap_err();
    assert_eq!(e, ConfigError::InvalidUid("x2".to_string()));
    assert_eq!(e.message(), "invalid uid: x2");
    let mut b = args();
    b.uids_stdin = true;
    b.uids = Some("5".to_string());
    assert_eq!(read_uids(&b, &lines(&["1", " -4 ", "zz"])), Err(ConfigError::InvalidUid("-4".to_string())));
}

#[test]
fn direct_mode_always_has_one_worker() {
    for c in [0usize, 1, 2, 50, 51, 1000, usize::MAX] {
        assert_eq!(worker_count(c, 0), 1);
    }
}

#[test]
fn worker_count_is_clamped_and_capped_by_the_pool() {
    assert_eq!(worker_count(0, 3), 1);
    assert_eq!(worker_count(2, 3), 2);
    assert_eq!(worker_count(8, 3), 3);
    assert_eq!(worker_count(50, 80), 50);
    assert_eq!(worker_count(51, 80), 50);
    assert_eq!(worker_count(usize::MAX, 80), 50);
    assert_eq!(worker_count(usize::MAX, usize::MAX), 50);
}

#[test]
fn known_games_are_gs_sr_zzz() {
    assert!(is_known_game("gs"));
    assert!(is_known_game("sr"));
    assert!(is_known_game("zzz"));
    assert!(!is_known_game("GS"));
    assert!(!is_known_game(""));
    assert!(!is_known_game("hsr"));
}

#[test]
fn settings_normalise_the_options() {
    let mut a = args();
    a.game = "  ZZZ ".to_string();
    a.base_url = Some(" https://mirror.example ".to_string());
    a.timeout_ms = 5;
    a.concurrency = 9;
    a.proxy_urls = Some("http://a:1, http://b:2;http://a:1".to_string());
    a.proxy_max_consecutive_fails = 0;
    a.breaker_max_consecutive_fails = 1000;
    a.breaker_on_429 = false;
    let s = settings(&a).unwrap();
    assert_eq!(s.game, "zzz");
    assert_eq!(s.base_url, "https://mirror.example/");
    assert_eq!(s.user_agent, default_user_agent());
    assert_eq!(s.timeout_ms, 1_000);
    assert_eq!(s.delay_ms, 20_000);
    assert_eq!(s.jitter_ms, 2_000);
    assert_eq!(s.no_proxy_delay_ms, 20_000);
    assert_eq!(s.proxy_urls, vec!["http://a:1", "http://b:2"]);
    assert_eq!(s.concurrency, 2);
    assert_eq!(s.proxy_max_consecutive_fails, 1);
    assert_eq!(s.breaker_max_consecutive_fails, 200);
    assert!(!s.breaker_on_429);
}

#[test]
fn settings_force_one_worker_without_proxies() {
    let mut a = args();
    a.concurrency = 32;
    a.timeout_ms = 500_000;
    a.user_agent = Some("probe/1".to_string());
    let s = settings(&a).unwrap();
    assert_eq!(s.concurrency, 1);
    assert_eq!(s.timeout_ms, 120_000);
    assert_eq!(s.user_agent, "probe/1");
    assert_eq!(s.base_url, "https://enka.network/");
    assert!(s.proxy_urls.is_empty());
}

#[test]
fn unsupported_game_is_a_configuration_error() {
    let mut a = args();
    a.game = " Minecraft".to_string();
    let e = settings(&a).unwrap_err();
    assert_eq!(e, ConfigError::UnsupportedGame(" Minecraft".to_string()));
    assert_eq!(e.message(), "unsupported game:  Minecraft");
}

#[test]
fn game_selector_ignores_case_and_padding() {
    for g in ["gs", "GS", " Gs ", "sR", "ZZZ\n"] {
        let mut a = args();
        a.game = g.to_string();
        assert!(settings(&a).is_ok(), "{:?}", g);
    }
}

#[test]
fn proxy_addresses_are_checked_in_order() {
    let good: Vec<String> = vec!["http://127.0.0.1:17890".to_string(), "socks5://10.0.0.1".to_string(), "127.0.0.1:8080".to_string()];
    assert_eq!(check_proxy_urls(&good), Ok(()));
    assert_eq!(check_proxy_urls(&Vec::new()), Ok(()));
    let bad: Vec<String> = vec!["http://127.0.0.1:17890".to_string(), "http://".to_string(), "http://[::".to_string()];
    let e = check_proxy_urls(&bad).unwrap_err();
    assert_eq!(e, ConfigError::InvalidProxyUrl("http://".to_string()));
    assert_eq!(e.message(), "invalid proxy url: http://");
}

#[test]
fn preparation_gives_settings_and_batch() {
    let mut a = args();
    a.uid_start = Some(100);
    a.count = Some(5);
    a.proxy_urls = Some("http://127.0.0.1:17890 http://127.0.0.1:17891".to_string());
    a.concurrency = 4;
    let plan = prepare(&a, &Vec::new()).unwrap();
    assert_eq!(plan.uids, vec![100, 101, 102, 103, 104]);
    assert_eq!(plan.settings, settings(&a).unwrap());
    assert_eq!(plan.settings.concurrency, 2);
}

#[test]
fn preparation_fails_on_the_first_cause() {
    let mut a = args();
    a.game = "x".to_string();
    a.uids = Some("oops".to_string());
    a.proxy_urls = Some("http://".to_string());
    assert_eq!(prepare(&a, &Vec::new()).unwrap_err(), ConfigError::UnsupportedGame("x".to_string()));
    a.game = "gs".to_string();
    assert_eq!(prepare(&a, &Vec::new()).unwrap_err(), ConfigError::InvalidUid("oops".to_string()));
    a.uids = Some("1".to_string());
    assert_eq!(prepare(&a, &Vec::new()).unwrap_err(), ConfigError::InvalidProxyUrl("http://".to_string()));
    a.proxy_urls = None;
    assert!(prepare(&a, &Vec::new()).is_ok());
}
