use github_exporter::fetch::FetchError;
use github_exporter::metrics::{RateLimitStatus, RepoStat};
use github_exporter::poller::{Action, Poller};
use github_exporter::shared::SharedRegistry;

fn stat(repo: &str, stars: u64, forks: u64, open_issues: u64, watchers: u64) -> RepoStat {
    RepoStat {
        repo: repo.to_string(),
        stars,
        forks,
        open_issues,
        watchers,
        observed_at: 0,
    }
}

#[test]
fn shared_registry_starts_empty() {
    let shared = SharedRegistry::new();
    let text = shared.render_text();
    assert!(text.contains("# TYPE github_repo_stars gauge\n"));
    assert!(!text.contains("{repo="));
}

#[test]
fn shared_registry_writes_are_visible_to_readers() {
    let shared = SharedRegistry::new();
    shared.set_repo_stat(stat("acme/widget", 120, 40, 7, 9));
    shared.set_rate_limit(RateLimitStatus {
        remaining: 12,
        reset: 34,
    });
    let text = shared.render_text();
    assert!(text.contains("github_repo_stars{repo=\"acme/widget\"} 120\n"));
    assert!(text.contains("github_rate_limit_remaining 12\n"));
    assert!(text.contains("github_rate_limit_reset 34\n"));
}

#[test]
fn shared_registry_drives_a_cycle() {
    let shared = SharedRegistry::new();
    let mut poller = Poller::new(vec!["acme/widget".to_string()], 1, 0);
    let a = poller.on_tick(0);
    assert_eq!(a, Action::FetchRepo { idx: 0, delay_ms: 0 });
    let a = shared.on_fetch_result(&mut poller, Ok(stat("acme/widget", 120, 40, 7, 9)));
    assert_eq!(a, Action::FetchRateLimit);
    let a = shared.on_rate_limit_result(&mut poller, Err(FetchError::Transient));
    assert_eq!(a, Action::SleepUntil { until: 1 });
    let text = shared.render_text();
    assert!(text.contains("github_repo_forks{repo=\"acme/widget\"} 40\n"));
    // The failed rate-limit fetch left the gauges absent.
    assert!(!text
        .lines()
        .any(|l| l.starts_with("github_rate_limit_remaining ")));
}
