use github_exporter::metrics::{clamp_gauge, Metrics, RateLimitStatus, RepoStat};

fn stat(repo: &str, stars: u64, forks: u64, open_issues: u64, watchers: u64) -> RepoStat {
    RepoStat {
        repo: repo.to_string(),
        stars,
        forks,
        open_issues,
        watchers,
        observed_at: 0,
    }
}

#[test]
fn clamp_gauge_floors_at_zero() {
    assert_eq!(clamp_gauge(-1), 0);
    assert_eq!(clamp_gauge(i64::MIN), 0);
    assert_eq!(clamp_gauge(0), 0);
    assert_eq!(clamp_gauge(42), 42);
    assert_eq!(clamp_gauge(i64::MAX), i64::MAX as u64);
}

#[test]
fn from_raw_clamps_each_count() {
    let s = RepoStat::from_raw("a/b".to_string(), -3, 4, -1, 9, 17);
    assert_eq!(s.repo, "a/b");
    assert_eq!(s.stars, 0);
    assert_eq!(s.forks, 4);
    assert_eq!(s.open_issues, 0);
    assert_eq!(s.watchers, 9);
    assert_eq!(s.observed_at, 17);
}

#[test]
fn empty_registry_renders_headers_only() {
    let m = Metrics::new();
    let text = m.render_text();
    let expected = "# HELP github_repo_stars Number of stars for a repo\n\
                    # TYPE github_repo_stars gauge\n\
                    # HELP github_repo_forks Number of forks for a repo\n\
                    # TYPE github_repo_forks gauge\n\
                    # HELP github_repo_open_issues Number of open issues for a repo\n\
                    # TYPE github_repo_open_issues gauge\n\
                    # HELP github_repo_watchers Number of watchers for a repo\n\
                    # TYPE github_repo_watchers gauge\n\
                    # HELP github_rate_limit_remaining Remaining API requests for the current rate limit window\n\
                    # TYPE github_rate_limit_remaining gauge\n\
                    # HELP github_rate_limit_reset Unix timestamp when the GitHub API rate limit resets\n\
                    # TYPE github_rate_limit_reset gauge\n";
    assert_eq!(text, expected);
}

#[test]
fn render_contains_one_sample_per_repo_per_metric() {
    let mut m = Metrics::new();
    m.set_repo_stat(stat("acme/widget", 120, 40, 7, 9));
    m.set_repo_stat(stat("acme/gadget", 5, 1, 0, 2));
    m.set_rate_limit(RateLimitStatus {
        remaining: 4990,
        reset: 1730000000,
    });
    let text = m.render_text();
    let lines: Vec<&str> = text.lines().collect();
    for needle in [
        "github_repo_stars{repo=\"acme/widget\"} 120",
        "github_repo_stars{repo=\"acme/gadget\"} 5",
        "github_repo_forks{repo=\"acme/widget\"} 40",
        "github_repo_forks{repo=\"acme/gadget\"} 1",
        "github_repo_open_issues{repo=\"acme/widget\"} 7",
        "github_repo_open_issues{repo=\"acme/gadget\"} 0",
        "github_repo_watchers{repo=\"acme/widget\"} 9",
        "github_repo_watchers{repo=\"acme/gadget\"} 2",
        "github_rate_limit_remaining 4990",
        "github_rate_limit_reset 1730000000",
    ] {
        let count = lines.iter().filter(|l| **l == needle).count();
        assert_eq!(count, 1, "{needle}");
    }
}

#[test]
fn set_repo_stat_replaces_in_place_and_keeps_order() {
    let mut m = Metrics::new();
    m.set_repo_stat(stat("first/one", 1, 1, 1, 1));
    m.set_repo_stat(stat("second/two", 2, 2, 2, 2));
    m.set_repo_stat(stat("first/one", 10, 11, 12, 13));
    assert_eq!(m.rows.len(), 2);
    assert_eq!(m.rows[0].repo, "first/one");
    assert_eq!(m.rows[0].stars, 10);
    assert_eq!(m.rows[0].watchers, 13);
    assert_eq!(m.rows[1].repo, "second/two");
    assert_eq!(m.rows[1].stars, 2);
}

#[test]
fn one_update_leaves_other_rows_untouched() {
    let mut m = Metrics::new();
    m.set_repo_stat(stat("a/a", 1, 2, 3, 4));
    m.set_repo_stat(stat("b/b", 5, 6, 7, 8));
    m.set_repo_stat(stat("a/a", 100, 200, 300, 400));
    assert_eq!(m.rows[1].stars, 5);
    assert_eq!(m.rows[1].forks, 6);
    assert_eq!(m.rows[1].open_issues, 7);
    assert_eq!(m.rows[1].watchers, 8);
}

#[test]
fn rate_limit_overwritten_wholesale() {
    let mut m = Metrics::new();
    assert!(m.rate_limit.is_none());
    m.set_rate_limit(RateLimitStatus {
        remaining: 10,
        reset: 100,
    });
    m.set_rate_limit(RateLimitStatus {
        remaining: 9,
        reset: 100,
    });
    assert_eq!(
        m.rate_limit,
        Some(RateLimitStatus {
            remaining: 9,
            reset: 100
        })
    );
    let text = m.render_text();
    assert_eq!(
        text.lines()
            .filter(|l| l.starts_with("github_rate_limit_remaining "))
            .count(),
        1
    );
}

#[test]
fn gather_text_matches_render_text() {
    let mut m = Metrics::new();
    m.set_repo_stat(stat("x/y", 3, 2, 1, 0));
    assert_eq!(m.gather_text(), m.render_text());
}

#[test]
fn render_escapes_label_values() {
    let mut m = Metrics::new();
    m.set_repo_stat(stat("a\"b\\c\nd", 1, 2, 3, 4));
    let text = m.render_text();
    assert!(text.contains("github_repo_stars{repo=\"a\\\"b\\\\c\\nd\"} 1\n"));
    // The raw quote or newline never reaches the output inside the
    // label delimiters.
    let stars_line = text
        .lines()
        .find(|l| l.starts_with("github_repo_stars{"))
        .unwrap();
    assert_eq!(stars_line, "github_repo_stars{repo=\"a\\\"b\\\\c\\nd\"} 1");
}

#[test]
fn render_large_values_exact() {
    let mut m = Metrics::new();
    m.set_repo_stat(stat("big/one", u64::MAX, 0, 10, 1000000007));
    let text = m.render_text();
    assert!(text.contains("github_repo_stars{repo=\"big/one\"} 18446744073709551615\n"));
    assert!(text.contains("github_repo_forks{repo=\"big/one\"} 0\n"));
    assert!(text.contains("github_repo_open_issues{repo=\"big/one\"} 10\n"));
    assert!(text.contains("github_repo_watchers{repo=\"big/one\"} 1000000007\n"));
}
