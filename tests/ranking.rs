use acdc::ranking::{compare_tag_importance_desc, compare_version_desc, filter_tags, is_prerelease, parse_version_prefix};
use std::cmp::Ordering;

fn tags(list: &[&str]) -> Vec<String> {
    list.iter().map(|s| s.to_string()).collect()
}

#[test]
fn blank_query_orders_by_importance() {
    let input = tags(&["latest", "1.10", "1.2", "1.2-alpine", "2.0-rc1"]);
    let out = filter_tags(&input, "", 10);
    assert_eq!(out, tags(&["latest", "1.10", "1.2", "1.2-alpine", "2.0-rc1"]));
}

#[test]
fn blank_query_reorders_shuffled_input() {
    let input = tags(&["2.0-rc1", "1.2-alpine", "1.2", "latest", "1.10"]);
    let out = filter_tags(&input, "   ", 10);
    assert_eq!(out, tags(&["latest", "1.10", "1.2", "1.2-alpine", "2.0-rc1"]));
}

#[test]
fn limit_is_at_least_one() {
    let input = tags(&["1.0", "2.0", "3.0"]);
    assert_eq!(filter_tags(&input, "", 0), tags(&["3.0"]));
    assert_eq!(filter_tags(&input, "", 2), tags(&["3.0", "2.0"]));
    assert!(filter_tags(&[], "", 5).is_empty());
}

#[test]
fn blank_query_ranking_is_idempotent() {
    let input = tags(&["v2", "beta", "1.0.1", "latest", "stable", "1.0", "1.0-slim", "3.1.4"]);
    let once = filter_tags(&input, "", input.len());
    let twice = filter_tags(&once, "", input.len());
    assert_eq!(once.len(), input.len());
    assert_eq!(once, twice);
}

#[test]
fn latest_first_in_any_case() {
    let input = tags(&["99.0", "LaTeSt", "100.1"]);
    let out = filter_tags(&input, "", 3);
    assert_eq!(out[0], "LaTeSt");
}

#[test]
fn versions_compare_numerically() {
    assert_eq!(parse_version_prefix("1.10"), Some(vec![1, 10]));
    assert_eq!(parse_version_prefix("1.2"), Some(vec![1, 2]));
    assert_eq!(compare_version_desc("1.10", "1.2"), Ordering::Less);
    assert_eq!(compare_version_desc("1.2", "1.10"), Ordering::Greater);
    assert_eq!(compare_version_desc("1.2", "1.2.0"), Ordering::Equal);
}

#[test]
fn version_prefix_rules() {
    assert_eq!(parse_version_prefix("v1.2.3"), Some(vec![1, 2, 3]));
    assert_eq!(parse_version_prefix("V7"), Some(vec![7]));
    assert_eq!(parse_version_prefix("1.2.3_build5"), Some(vec![1, 2, 3]));
    assert_eq!(parse_version_prefix("1."), Some(vec![1]));
    assert_eq!(parse_version_prefix("1..2"), None);
    assert_eq!(parse_version_prefix(".5"), None);
    assert_eq!(parse_version_prefix("latest"), None);
    assert_eq!(parse_version_prefix(""), None);
    assert_eq!(parse_version_prefix("4294967295"), Some(vec![4294967295]));
    assert_eq!(parse_version_prefix("4294967296"), None);
}

#[test]
fn versioned_before_unversioned() {
    assert_eq!(compare_version_desc("1.0", "stable"), Ordering::Less);
    assert_eq!(compare_version_desc("stable", "1.0"), Ordering::Greater);
    assert_eq!(compare_version_desc("stable", "mainline"), Ordering::Equal);
}

#[test]
fn prerelease_detection() {
    assert!(is_prerelease("2.0-rc1"));
    assert!(is_prerelease("1.0-Alpha"));
    assert!(is_prerelease("3.0b2"));
    assert!(is_prerelease("nightly-dev"));
    assert!(is_prerelease("5-preview"));
    assert!(!is_prerelease("1.2-alpine"));
    assert!(!is_prerelease("latest"));
}

#[test]
fn importance_tie_breaks() {
    assert_eq!(compare_tag_importance_desc("1.2", "1.2-alpine"), Ordering::Less);
    assert_eq!(compare_tag_importance_desc("1.2-alpine", "1.2-bookworm"), Ordering::Less);
    assert_eq!(compare_tag_importance_desc("stable", "2.0-rc1"), Ordering::Less);
    assert_eq!(compare_tag_importance_desc("same", "same"), Ordering::Equal);
}

#[test]
fn fuzzy_query_keeps_only_matches() {
    let input = tags(&["latest", "1.2-alpine", "alpine", "bookworm"]);
    let out = filter_tags(&input, "alp", 10);
    assert_eq!(out.len(), 2);
    assert!(out.contains(&"alpine".to_string()));
    assert!(out.contains(&"1.2-alpine".to_string()));
    assert!(filter_tags(&input, "zzz", 10).is_empty());
}

#[test]
fn fuzzy_query_respects_limit() {
    let input = tags(&["a1", "a2", "a3", "b"]);
    let out = filter_tags(&input, "a", 2);
    assert_eq!(out.len(), 2);
}
