use github_exporter::config::Config;
use github_exporter::fetch::{backoff_delay_ms, classify_status, FetchError};
use github_exporter::metrics::{Metrics, RateLimitStatus, RepoStat};
use github_exporter::poller::{Action, Phase, Poller};

fn stat(repo: &str, stars: u64, forks: u64, open_issues: u64, watchers: u64) -> RepoStat {
    RepoStat {
        repo: repo.to_string(),
        stars,
        forks,
        open_issues,
        watchers,
        observed_at: 0,
    }
}

#[test]
fn classify_status_taxonomy() {
    assert_eq!(classify_status(200, None), None);
    assert_eq!(classify_status(204, Some(5)), None);
    assert_eq!(classify_status(404, None), Some(FetchError::NotFound));
    assert_eq!(classify_status(401, None), Some(FetchError::Auth));
    assert_eq!(
        classify_status(403, Some(900)),
        Some(FetchError::RateLimited { reset: 900 })
    );
    assert_eq!(
        classify_status(429, Some(901)),
        Some(FetchError::RateLimited { reset: 901 })
    );
    assert_eq!(classify_status(403, None), Some(FetchError::Transient));
    assert_eq!(classify_status(500, None), Some(FetchError::Transient));
    assert_eq!(classify_status(503, Some(1)), Some(FetchError::Transient));
}

#[test]
fn backoff_doubles_then_caps() {
    assert_eq!(backoff_delay_ms(0), 500);
    assert_eq!(backoff_delay_ms(1), 1000);
    assert_eq!(backoff_delay_ms(2), 2000);
    assert_eq!(backoff_delay_ms(7), 60000);
    assert_eq!(backoff_delay_ms(40), 60000);
}

/// The full happy cycle of the end-to-end scenario: one configured
/// repository, a one-second interval, and a remote that reports
/// stars=120, forks=40, open_issues=7, watchers=9.
#[test]
fn end_to_end_single_repo_cycle() {
    let cfg = Config::from_parts(
        None,
        None,
        Some("acme/widget".to_string()),
        None,
        None,
        None,
        Some("1".to_string()),
    )
    .unwrap();
    assert_eq!(cfg.scrape_interval_seconds, 1);

    let mut registry = Metrics::new();
    let mut poller = Poller::new(cfg.repos.clone(), cfg.scrape_interval_seconds, 100);

    let a = poller.on_tick(100);
    assert_eq!(a, Action::FetchRepo { idx: 0, delay_ms: 0 });
    let a = poller.on_fetch_result(&mut registry, Ok(stat("acme/widget", 120, 40, 7, 9)));
    assert_eq!(a, Action::FetchRateLimit);
    let a = poller.on_rate_limit_result(
        &mut registry,
        Ok(RateLimitStatus {
            remaining: 4990,
            reset: 1730000000,
        }),
    );
    assert_eq!(a, Action::SleepUntil { until: 101 });

    let text = registry.render_text();
    assert!(text.contains("github_repo_stars{repo=\"acme/widget\"} 120\n"));
    assert!(text.contains("github_repo_forks{repo=\"acme/widget\"} 40\n"));
    assert!(text.contains("github_repo_open_issues{repo=\"acme/widget\"} 7\n"));
    assert!(text.contains("github_repo_watchers{repo=\"acme/widget\"} 9\n"));
    assert!(text.contains("github_rate_limit_remaining 4990\n"));

    // The next cycle is due one interval after the previous start.
    let a = poller.on_tick(101);
    assert_eq!(a, Action::FetchRepo { idx: 0, delay_ms: 0 });
}

/// A repository that the remote reports missing is skipped: its
/// gauges stay absent rather than carrying a sentinel value.
#[test]
fn not_found_leaves_gauges_absent() {
    let mut registry = Metrics::new();
    let mut poller = Poller::new(vec!["ghost/repo".to_string()], 60, 0);
    poller.on_tick(0);
    let a = poller.on_fetch_result(&mut registry, Err(FetchError::NotFound));
    assert_eq!(a, Action::FetchRateLimit);
    assert_eq!(registry.rows.len(), 0);
    let text = registry.render_text();
    assert!(!text.contains("ghost/repo"));
    assert!(text.contains("# TYPE github_repo_stars gauge\n"));
}

/// A missing entity does not disturb the gauges of the other
/// entities polled in the same cycle.
#[test]
fn not_found_does_not_affect_other_entities() {
    let mut registry = Metrics::new();
    let entities = vec!["good/one".to_string(), "ghost/repo".to_string()];
    let mut poller = Poller::new(entities, 60, 0);
    poller.on_tick(0);
    let a = poller.on_fetch_result(&mut registry, Ok(stat("good/one", 8, 6, 4, 2)));
    assert_eq!(a, Action::FetchRepo { idx: 1, delay_ms: 0 });
    let a = poller.on_fetch_result(&mut registry, Err(FetchError::NotFound));
    assert_eq!(a, Action::FetchRateLimit);
    assert_eq!(registry.rows.len(), 1);
    assert_eq!(registry.rows[0].repo, "good/one");
    assert_eq!(registry.rows[0].stars, 8);
    let text = registry.render_text();
    assert!(text.contains("github_repo_stars{repo=\"good/one\"} 8\n"));
    assert!(!text.contains("ghost/repo"));
}

/// Rate limiting aborts the cycle and suspends all fetching until
/// the reported reset time, checked against a simulated clock.
#[test]
fn rate_limited_suspends_until_reset() {
    let mut registry = Metrics::new();
    let entities = vec!["a/a".to_string(), "b/b".to_string()];
    let mut poller = Poller::new(entities, 10, 0);
    poller.on_tick(0);
    let a = poller.on_fetch_result(&mut registry, Err(FetchError::RateLimited { reset: 500 }));
    // The rest of the cycle (b/b, rate-limit fetch) is abandoned.
    assert_eq!(a, Action::SleepUntil { until: 500 });
    assert_eq!(poller.phase, Phase::Idle);
    assert_eq!(registry.rows.len(), 0);

    // At every instant before the reset, a tick yields no fetch.
    for now in [1, 9, 10, 11, 250, 499] {
        let a = poller.on_tick(now);
        assert_eq!(a, Action::SleepUntil { until: 500 });
        assert_eq!(poller.phase, Phase::Idle);
    }
    // At the reset time fetching resumes.
    let a = poller.on_tick(500);
    assert_eq!(a, Action::FetchRepo { idx: 0, delay_ms: 0 });
}

/// A reset that lands inside the regular schedule defers to the
/// regular next tick instead.
#[test]
fn rate_limit_reset_before_next_interval_keeps_schedule() {
    let mut registry = Metrics::new();
    let mut poller = Poller::new(vec!["a/a".to_string()], 100, 0);
    poller.on_tick(0);
    let a = poller.on_fetch_result(&mut registry, Err(FetchError::RateLimited { reset: 30 }));
    assert_eq!(a, Action::SleepUntil { until: 100 });
}

/// Transient failures retry with exponential backoff, three attempts
/// in all, then the entity is skipped with its gauges untouched.
#[test]
fn transient_failures_retry_then_skip() {
    let mut registry = Metrics::new();
    let mut poller = Poller::new(vec!["flaky/one".to_string()], 60, 0);
    poller.on_tick(0);
    let a = poller.on_fetch_result(&mut registry, Err(FetchError::Transient));
    assert_eq!(a, Action::FetchRepo { idx: 0, delay_ms: 500 });
    let a = poller.on_fetch_result(&mut registry, Err(FetchError::Transient));
    assert_eq!(a, Action::FetchRepo { idx: 0, delay_ms: 1000 });
    let a = poller.on_fetch_result(&mut registry, Err(FetchError::Transient));
    assert_eq!(a, Action::FetchRateLimit);
    assert_eq!(registry.rows.len(), 0);
}

/// A rejected credential skips the entity but the cycle goes on.
#[test]
fn auth_failure_continues_cycle() {
    let mut registry = Metrics::new();
    let entities = vec!["secret/one".to_string(), "open/two".to_string()];
    let mut poller = Poller::new(entities, 60, 0);
    poller.on_tick(0);
    let a = poller.on_fetch_result(&mut registry, Err(FetchError::Auth));
    assert_eq!(a, Action::FetchRepo { idx: 1, delay_ms: 0 });
    let a = poller.on_fetch_result(&mut registry, Ok(stat("open/two", 1, 2, 3, 4)));
    assert_eq!(a, Action::FetchRateLimit);
    assert_eq!(registry.rows.len(), 1);
    assert_eq!(registry.rows[0].repo, "open/two");
}

/// A slow cycle re-arms from the cycle start: when the interval has
/// already passed, the next run is due immediately, not queued.
#[test]
fn slow_cycle_starts_next_run_immediately() {
    let mut registry = Metrics::new();
    let mut poller = Poller::new(vec!["a/a".to_string()], 5, 0);
    poller.on_tick(0);
    poller.on_fetch_result(&mut registry, Ok(stat("a/a", 1, 1, 1, 1)));
    // The cycle finishes at time 42, long after the interval.
    let a = poller.on_rate_limit_result(&mut registry, Err(FetchError::Transient));
    assert_eq!(a, Action::SleepUntil { until: 5 });
    let a = poller.on_tick(42);
    assert_eq!(a, Action::FetchRepo { idx: 0, delay_ms: 0 });
    assert_eq!(poller.cycle_start, 42);
}

/// A later poll overwrites a repository's gauges wholesale; the
/// rendered text keeps exactly one sample per metric, holding the
/// values of the last successful fetch.
#[test]
fn second_cycle_overwrites_values() {
    let mut registry = Metrics::new();
    let mut poller = Poller::new(vec!["a/a".to_string()], 1, 0);
    poller.on_tick(0);
    poller.on_fetch_result(&mut registry, Ok(stat("a/a", 1, 2, 3, 4)));
    poller.on_rate_limit_result(&mut registry, Err(FetchError::Transient));
    poller.on_tick(1);
    poller.on_fetch_result(&mut registry, Ok(stat("a/a", 2, 3, 4, 5)));
    poller.on_rate_limit_result(&mut registry, Err(FetchError::Transient));
    let text = registry.render_text();
    let star_lines: Vec<&str> = text
        .lines()
        .filter(|l| l.starts_with("github_repo_stars{"))
        .collect();
    assert_eq!(star_lines, vec!["github_repo_stars{repo=\"a/a\"} 2"]);
}

/// The shutdown signal stops the poller from any state.
#[test]
fn shutdown_halts() {
    let mut poller = Poller::new(vec!["a/a".to_string()], 5, 0);
    poller.on_shutdown();
    assert_eq!(poller.phase, Phase::Stopped);
    let a = poller.on_tick(1000);
    assert_eq!(a, Action::Halt);
}

/// An empty entity list still fetches the rate-limit status each
/// cycle.
#[test]
fn empty_entities_only_rate_limit() {
    let mut registry = Metrics::new();
    let mut poller = Poller::new(Vec::new(), 30, 7);
    let a = poller.on_tick(7);
    assert_eq!(a, Action::FetchRateLimit);
    let a = poller.on_rate_limit_result(
        &mut registry,
        Ok(RateLimitStatus {
            remaining: 60,
            reset: 99,
        }),
    );
    assert_eq!(a, Action::SleepUntil { until: 37 });
    assert!(registry
        .render_text()
        .contains("github_rate_limit_remaining 60\n"));
}
