use portunus_extensions::gh::api::{
    api_get, api_post, is_rate_limited, merge_repo_cache, notif_html_url, repo_from_api_url, token,
    CachedRepo, NotifSubject, RepoItem, Source, ACCEPT_JSON,
};

fn repo(name: &str, stars: u64) -> CachedRepo {
    CachedRepo {
        full_name: name.to_string(),
        description: None,
        stars,
        language: None,
        private: false,
    }
}

fn subject(url: Option<&str>) -> NotifSubject {
    NotifSubject {
        title: "t".to_string(),
        kind: "Issue".to_string(),
        url: url.map(str::to_string),
    }
}

#[test]
fn blank_tokens_do_not_count() {
    assert_eq!(token(Some("abc".to_string())), Some("abc".to_string()));
    assert_eq!(token(Some(" \n".to_string())), None);
    assert_eq!(token(None), None);
}

#[test]
fn get_requests_carry_headers() {
    let r = api_get("/rate_limit", ACCEPT_JSON, &None);
    assert_eq!(r.url, "https://api.github.com/rate_limit");
    assert_eq!(r.method, None);
    assert_eq!(r.body, None);
    let names: Vec<&str> = r.headers.iter().map(|h| h.0.as_str()).collect();
    assert_eq!(names, vec!["User-Agent", "Accept", "X-GitHub-Api-Version"]);
    assert_eq!(r.headers[0].1, "portunus-gh-ext");
    assert_eq!(r.headers[2].1, "2022-11-28");
    let with = api_get("/x", "text/plain", &Some("tok".to_string()));
    assert_eq!(with.headers[1].1, "text/plain");
    assert_eq!(with.headers[3], ("Authorization".to_string(), "Bearer tok".to_string()));
}

#[test]
fn post_requests_are_never_anonymous() {
    let r = api_post("/repos/o/r/issues", "{}", "tok");
    assert_eq!(r.method.as_deref(), Some("POST"));
    assert_eq!(r.body.as_deref(), Some("{}"));
    assert_eq!(r.headers.len(), 5);
    assert_eq!(r.headers[2], ("Content-Type".to_string(), "application/json".to_string()));
    assert_eq!(r.headers[4], ("Authorization".to_string(), "Bearer tok".to_string()));
}

#[test]
fn rate_limit_statuses() {
    assert!(is_rate_limited(403));
    assert!(is_rate_limited(429));
    assert!(!is_rate_limited(200));
    assert!(!is_rate_limited(404));
}

#[test]
fn keys_of_the_caches() {
    assert_eq!(Source::Repos.key(), Some("repos"));
    assert_eq!(Source::Starred.key(), Some("starred"));
    assert_eq!(Source::MyPrs.key(), Some("my_prs"));
    assert_eq!(Source::MyIssues.key(), Some("my_issues"));
    assert_eq!(Source::Notifs.key(), Some("notifs"));
    assert_eq!(Source::Nothing.key(), None);
}

#[test]
fn cached_repo_from_item() {
    let item = RepoItem {
        full_name: "o/r".to_string(),
        description: Some("d".to_string()),
        stargazers_count: 7,
        language: Some("Rust".to_string()),
        private: true,
    };
    let c = CachedRepo::from(&item);
    assert_eq!(c.full_name, "o/r");
    assert_eq!(c.description.as_deref(), Some("d"));
    assert_eq!(c.stars, 7);
    assert_eq!(c.language.as_deref(), Some("Rust"));
    assert!(c.private);
}

#[test]
fn merging_puts_fresh_rows_first() {
    let merged = merge_repo_cache(
        &vec![repo("b/b", 2), repo("a/a", 9)],
        vec![repo("a/a", 1), repo("c/c", 3), repo("c/c", 4)],
    );
    let names: Vec<(&str, u64)> = merged.iter().map(|r| (r.full_name.as_str(), r.stars)).collect();
    assert_eq!(names, vec![("b/b", 2), ("a/a", 9), ("c/c", 3)]);
}

#[test]
fn merging_keeps_each_name_once() {
    let fresh = vec![repo("a/a", 1), repo("b/b", 2), repo("a/a", 3)];
    let merged = merge_repo_cache(&fresh, vec![repo("b/b", 4), repo("c/c", 5)]);
    let names: Vec<(&str, u64)> = merged.iter().map(|r| (r.full_name.as_str(), r.stars)).collect();
    assert_eq!(names, vec![("a/a", 1), ("b/b", 2), ("c/c", 5)]);
    assert_eq!(merge_repo_cache(&fresh, merged).len(), 3);
    let many: Vec<CachedRepo> = (0..400).map(|i| repo(&format!("o/{}", i / 2), i)).collect();
    let merged = merge_repo_cache(&many, vec![repo("x/x", 0)]);
    assert_eq!(merged.len(), 200);
    assert_eq!((merged[199].full_name.as_str(), merged[199].stars), ("o/199", 398));
}

#[test]
fn merging_keeps_two_hundred() {
    let old: Vec<CachedRepo> = (0..250).map(|i| repo(&format!("o/{i}"), i)).collect();
    let merged = merge_repo_cache(&vec![repo("x/x", 0)], old);
    assert_eq!(merged.len(), 200);
    assert_eq!(merged[0].full_name, "x/x");
    assert_eq!(merged[199].full_name, "o/198");
}

#[test]
fn merging_again_changes_nothing() {
    let fresh = vec![repo("a/a", 1), repo("b/b", 2)];
    let once = merge_repo_cache(&fresh, vec![repo("c/c", 3), repo("a/a", 0)]);
    let again = merge_repo_cache(&fresh, merge_repo_cache(&fresh, vec![repo("c/c", 3), repo("a/a", 0)]));
    assert_eq!(once, again);
}

#[test]
fn repo_names_in_api_addresses() {
    assert_eq!(repo_from_api_url("https://api.github.com/repos/o/r"), Some("o/r".to_string()));
    assert_eq!(
        repo_from_api_url("https://api.github.com/repos/o/r/issues/3"),
        Some("o/r".to_string())
    );
    assert_eq!(repo_from_api_url("https://api.github.com/repos/o"), None);
    assert_eq!(repo_from_api_url("https://api.github.com/users/o"), None);
}

#[test]
fn notifications_lead_to_pages() {
    let page = |tail: &str| {
        notif_html_url(&subject(Some(&format!("https://api.github.com/repos/o/r/{tail}"))), "p/q")
    };
    assert_eq!(page("pulls/12"), "https://github.com/o/r/pull/12");
    assert_eq!(page("issues/12"), "https://github.com/o/r/issues/12");
    assert_eq!(page("commits/abc"), "https://github.com/o/r/commit/abc");
    assert_eq!(page("releases/9"), "https://github.com/o/r/releases");
    assert_eq!(page("discussions/4"), "https://github.com/o/r/discussions/4");
    assert_eq!(page("checks/4"), "https://github.com/p/q");
    assert_eq!(page("pulls"), "https://github.com/p/q");
    assert_eq!(notif_html_url(&subject(None), "p/q"), "https://github.com/p/q");
    assert_eq!(notif_html_url(&subject(Some("x")), "p/q"), "https://github.com/p/q");
}
