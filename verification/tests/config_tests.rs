use github_exporter::config::{Config, ConfigError};
use github_exporter::num::parse_u64;
use github_exporter::text::{dedup_strings, parse_list};

fn strings(items: &[&str]) -> Vec<String> {
    items.iter().map(|s| s.to_string()).collect()
}

#[test]
fn parse_list_trims_and_drops_empty() {
    assert_eq!(parse_list("a, b ,,c"), strings(&["a", "b", "c"]));
}

#[test]
fn parse_list_empty_input() {
    assert_eq!(parse_list(""), strings(&[]));
    assert_eq!(parse_list("   "), strings(&[]));
    assert_eq!(parse_list(",,,"), strings(&[]));
}

#[test]
fn parse_list_single_entry() {
    assert_eq!(parse_list("acme/widget"), strings(&["acme/widget"]));
    assert_eq!(parse_list("  acme/widget  "), strings(&["acme/widget"]));
}

#[test]
fn parse_list_preserves_order() {
    assert_eq!(
        parse_list("zeta, alpha , mid"),
        strings(&["zeta", "alpha", "mid"])
    );
}

#[test]
fn parse_list_is_idempotent_entrywise() {
    let once = parse_list("a, b ,,c , a ");
    for entry in &once {
        assert_eq!(parse_list(entry), vec![entry.clone()]);
    }
}

#[test]
fn parse_list_round_trip() {
    let once = parse_list(" a, b ,,c ,a ");
    let joined = once.join(",");
    assert_eq!(parse_list(&joined), once);
}

#[test]
fn parse_list_tabs_and_newlines_trimmed() {
    assert_eq!(parse_list("\ta\n,\r b"), strings(&["a", "b"]));
}

#[test]
fn parse_list_trims_all_unicode_whitespace() {
    // Form feed, vertical tab, NEL, NBSP, ideographic space: all in
    // the White_Space set that trimming removes.
    assert_eq!(parse_list("\u{000C}x\u{000C}"), strings(&["x"]));
    assert_eq!(
        parse_list("\u{00A0}a\u{00A0}, \u{0085}b\u{3000},\u{000B}"),
        strings(&["a", "b"])
    );
    // An entry that is nothing but whitespace is dropped.
    assert_eq!(parse_list("\u{000B}\u{000C}\u{2028}"), strings(&[]));
    // Matches str::trim on every entry.
    let raw = "\u{2000}first\u{202F}, sec\u{00A0}ond \u{205F},\u{1680}";
    let expected: Vec<String> = raw
        .split(',')
        .map(|s| s.trim().to_string())
        .filter(|s| !s.is_empty())
        .collect();
    assert_eq!(parse_list(raw), expected);
}

#[test]
fn dedup_keeps_first_occurrence_in_order() {
    let v = strings(&["a", "b", "a", "c", "b"]);
    assert_eq!(dedup_strings(&v), strings(&["a", "b", "c"]));
}

#[test]
fn parse_u64_accepts_digits() {
    assert_eq!(parse_u64("0"), Some(0));
    assert_eq!(parse_u64("300"), Some(300));
    assert_eq!(parse_u64("007"), Some(7));
    assert_eq!(parse_u64("18446744073709551615"), Some(u64::MAX));
}

#[test]
fn parse_u64_rejects_bad_input() {
    assert_eq!(parse_u64(""), None);
    assert_eq!(parse_u64("12x"), None);
    assert_eq!(parse_u64("-5"), None);
    assert_eq!(parse_u64(" 5"), None);
    assert_eq!(parse_u64("18446744073709551616"), None);
}

#[test]
fn config_defaults_apply() {
    let cfg = Config::from_parts(None, None, None, None, None, None, None).unwrap();
    assert_eq!(cfg.github_token, None);
    assert_eq!(cfg.api_url, "https://api.github.com");
    assert_eq!(cfg.repos, strings(&[]));
    assert_eq!(cfg.orgs, strings(&[]));
    assert_eq!(cfg.users, strings(&[]));
    assert_eq!(cfg.listen_addr, "0.0.0.0:9100");
    assert_eq!(cfg.scrape_interval_seconds, 300);
}

#[test]
fn config_parses_lists_and_interval() {
    let cfg = Config::from_parts(
        Some("tok".to_string()),
        Some("https://example.test".to_string()),
        Some("acme/widget, acme/gadget ,acme/widget".to_string()),
        Some("acme".to_string()),
        Some(" alice ,bob".to_string()),
        Some("127.0.0.1:8000".to_string()),
        Some("60".to_string()),
    )
    .unwrap();
    assert_eq!(cfg.github_token, Some("tok".to_string()));
    assert_eq!(cfg.api_url, "https://example.test");
    assert_eq!(cfg.repos, strings(&["acme/widget", "acme/gadget"]));
    assert_eq!(cfg.orgs, strings(&["acme"]));
    assert_eq!(cfg.users, strings(&["alice", "bob"]));
    assert_eq!(cfg.listen_addr, "127.0.0.1:8000");
    assert_eq!(cfg.scrape_interval_seconds, 60);
}

#[test]
fn config_accepts_leading_plus_interval() {
    let cfg =
        Config::from_parts(None, None, None, None, None, None, Some("+60".to_string())).unwrap();
    assert_eq!(cfg.scrape_interval_seconds, 60);
}

#[test]
fn config_rejects_bad_interval() {
    let bad = ["0", "abc", "-1", "", "1e3", "+", "++60", "+0", " 60"];
    for raw in bad {
        let res = Config::from_parts(None, None, None, None, None, None, Some(raw.to_string()));
        assert!(matches!(res, Err(ConfigError::InvalidInterval)), "{raw}");
    }
}
