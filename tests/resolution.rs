use acdc::resolution::{pick_best_repository, resolve_start, score_repo_candidate, RepoSearchResult, Resolution};

fn pull_points(pulls: u64) -> u32 {
    ((pulls as f64).ln_1p() * 10.0) as u32
}

fn candidate(name: &str, official: bool, stars: u64, pulls: u64) -> RepoSearchResult {
    RepoSearchResult {
        repo_name: name.to_string(),
        pull_points: pull_points(pulls),
        star_count: stars,
        is_official: official,
    }
}

#[test]
fn official_nginx_wins() {
    let results = vec![
        candidate("library/nginx", true, 2000, 1_000_000_000),
        candidate("bitnami/nginx", false, 100, 10_000_000),
    ];
    let best = pick_best_repository(&results, "nginx").unwrap();
    assert_eq!(best.namespace, "library");
    assert_eq!(best.repo, "nginx");
}

#[test]
fn score_components() {
    let official = candidate("library/nginx", true, 2000, 1_000_000_000);
    assert_eq!(official.pull_points, 207);
    assert_eq!(score_repo_candidate(&official, "nginx"), 2000 + 1500 + 268 + 207);
    let other = candidate("bitnami/nginx", false, 100, 10_000_000);
    assert_eq!(score_repo_candidate(&other, "nginx"), 2000 + 60 + 161);
    let prefix = candidate("someone/nginx-proxy", false, 0, 0);
    assert_eq!(score_repo_candidate(&prefix, "NGINX"), 1200);
    let inner = candidate("someone/my-nginx", false, 0, 0);
    assert_eq!(score_repo_candidate(&inner, "nginx"), 600);
    let bare = candidate("redis", true, 0, 0);
    assert_eq!(score_repo_candidate(&bare, "nginx"), 1500);
    let unusable = candidate("redis", false, 0, 0);
    assert_eq!(score_repo_candidate(&unusable, "nginx"), i64::MIN / 2);
}

#[test]
fn first_of_equal_scores_wins() {
    let results = vec![candidate("a/tool", false, 0, 0), candidate("b/tool", false, 0, 0)];
    let best = pick_best_repository(&results, "tool").unwrap();
    assert_eq!(best.namespace, "a");
}

#[test]
fn no_results_no_repository() {
    assert!(pick_best_repository(&vec![], "x").is_none());
    assert!(pick_best_repository(&vec![candidate("lonely", false, 5, 5)], "x").is_none());
}

#[test]
fn resolve_start_cases() {
    assert!(matches!(resolve_start("   "), Resolution::Empty));
    match resolve_start(" bitnami / redis ") {
        Resolution::Direct(r) => {
            assert_eq!(r.namespace, "bitnami");
            assert_eq!(r.repo, "redis");
        }
        other => panic!("unexpected {:?}", other),
    }
    match resolve_start("  my app ") {
        Resolution::Search(term) => assert_eq!(term, "my app"),
        other => panic!("unexpected {:?}", other),
    }
    assert!(matches!(resolve_start("/redis"), Resolution::Search(_)));
}

#[test]
fn slash_with_empty_half_never_parses() {
    let bad = candidate("/nginx", true, 5000, 1_000_000_000);
    assert_eq!(score_repo_candidate(&bad, "nginx"), i64::MIN / 2);
    let good = candidate("someone/nginx", false, 0, 0);
    let best = pick_best_repository(&vec![bad, good], "nginx").unwrap();
    assert_eq!(best.namespace, "someone");
}
