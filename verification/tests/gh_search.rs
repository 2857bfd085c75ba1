use portunus_extensions::gh::api::{CachedIssue, CachedNotif, CachedRepo, Kept, Source};
use portunus_extensions::gh::search::{
    cached_issues, cached_repos, command_title, matches_lowered, score_lowered, search,
    search_repos_cache, search_scored, search_source, without_qualifiers,
};
use portunus_extensions::host::Relevance;

fn repo(name: &str, description: Option<&str>) -> CachedRepo {
    CachedRepo {
        full_name: name.to_string(),
        description: description.map(str::to_string),
        stars: 0,
        language: None,
        private: false,
    }
}

fn issue(title: &str) -> CachedIssue {
    CachedIssue {
        repo: "o/r".to_string(),
        number: 1,
        title: title.to_string(),
        state: "open".to_string(),
        is_pr: false,
        merged: false,
        draft: false,
        comments: 0,
        badge: String::new(),
    }
}

#[test]
fn matching_ignores_case() {
    assert!(portunus_extensions::gh::search::matches("", "a", "b"));
    assert!(portunus_extensions::gh::search::matches("RuSt", "x", "trusty"));
    assert!(portunus_extensions::gh::search::matches("\u{c9}", "caf\u{e9}", ""));
    assert!(!portunus_extensions::gh::search::matches("go", "x", "y"));
}

#[test]
fn repo_hits_come_best_first() {
    let cache = vec![
        repo("a/none", Some("uses rust")),
        repo("a/trusty", None),
        repo("b/other", None),
        repo("c/Rustup", None),
        repo("rust-lang/rust", None),
    ];
    let rows = search_repos_cache("Rust sort:stars", &cache);
    let ids: Vec<&str> = rows.iter().map(|r| r.id.as_str()).collect();
    assert_eq!(ids, vec!["repo:c/Rustup", "repo:rust-lang/rust", "repo:a/trusty", "repo:a/none"]);
    assert_eq!(rows[0].relevance, Relevance::Fixed(90));
    assert_eq!(rows[2].relevance, Relevance::Fixed(70));
    assert_eq!(rows[3].relevance, Relevance::Fixed(40));
}

#[test]
fn repo_search_without_hits_leads_to_live_search() {
    let cache = vec![repo("a/b", None)];
    assert_eq!(search_repos_cache("zzz", &cache)[0].id, "gh:searching:repo:zzz");
    assert_eq!(search_repos_cache("sort:stars", &cache)[0].id, "gh:searching:repo:sort:stars");
    assert_eq!(search_repos_cache("a", &vec![])[0].id, "gh:searching:repo:a");
}

#[test]
fn repo_search_shows_twenty() {
    let cache: Vec<CachedRepo> = (0..30).map(|i| repo(&format!("a/{i}"), None)).collect();
    assert_eq!(search_repos_cache("a", &cache).len(), 20);
}

#[test]
fn dashboards_filter_and_rank_what_is_kept() {
    let cache = vec![repo("a/x", None), repo("b/y", Some("X-ray")), repo("c/z", None)];
    let rows = cached_repos(&cache, "x", false);
    assert_eq!(rows.len(), 2);
    assert_eq!(rows[1].id, "repo:b/y");
    assert_eq!(rows[1].relevance, Relevance::Ranked { index: 1, count: 3, top: 90, span: 40 });
    assert_eq!(rows[1].badge.as_deref(), Some("mine"));
    let rows = cached_repos(&cache, "", true);
    assert_eq!(rows.len(), 3);
    assert_eq!(rows[0].badge.as_deref(), Some("starred"));
    let many: Vec<CachedIssue> = (0..50).map(|i| issue(&format!("t{i}"))).collect();
    assert_eq!(cached_issues(&many, "").len(), 40);
    assert_eq!(cached_issues(&many, "O/R").len(), 40);
    assert_eq!(cached_issues(&many, "t49").len(), 1);
}

#[test]
fn gated_commands_without_token() {
    for (cmd, title) in [
        ("code", "Search Code"),
        ("my-prs", "My Pull Requests"),
        ("my-issues", "My Issues"),
        ("my-repos", "My Repositories"),
        ("starred", "Starred Repositories"),
        ("notifications", "Notifications"),
    ] {
        assert_eq!(command_title(cmd), title);
        let rows = search(cmd, "x", false, &Kept::Nothing, None);
        assert_eq!(rows.len(), 1);
        assert_eq!(rows[0].id, "gh:notoken");
        assert!(rows[0].subtitle.as_deref().unwrap().contains(title));
        assert_eq!(search_source(cmd, false), Source::Nothing);
    }
    assert_eq!(command_title("repos"), "repos");
}

#[test]
fn commands_read_their_caches() {
    assert_eq!(search_source("my-prs", true), Source::MyPrs);
    assert_eq!(search_source("my-issues", true), Source::MyIssues);
    assert_eq!(search_source("my-repos", true), Source::Repos);
    assert_eq!(search_source("starred", true), Source::Starred);
    assert_eq!(search_source("notifications", true), Source::Notifs);
    assert_eq!(search_source("repos", false), Source::Repos);
    assert_eq!(search_source("whatever", false), Source::Repos);
    assert_eq!(search_source("issues", true), Source::Nothing);
}

#[test]
fn live_scopes_show_a_placeholder() {
    for (cmd, mode) in [("issues", "issue"), ("prs", "pr"), ("code", "code"), ("users", "user")] {
        let rows = search(cmd, " bug ", true, &Kept::Nothing, None);
        assert_eq!(rows.len(), 1);
        assert_eq!(rows[0].id, format!("gh:searching:{mode}:bug"));
    }
}

#[test]
fn search_dispatches_on_the_command() {
    let repos = Kept::Repos(vec![repo("a/b", None)]);
    assert_eq!(search("repos", "a", false, &repos, None)[0].id, "repo:a/b");
    assert_eq!(search("my-repos", "", true, &repos, None)[0].badge.as_deref(), Some("mine"));
    assert_eq!(search("starred", "", true, &repos, None)[0].badge.as_deref(), Some("starred"));
    let issues = Kept::Issues(vec![issue("T")]);
    assert_eq!(search("my-prs", "t", true, &issues, None).len(), 1);
    assert!(search("my-issues", "", true, &Kept::Nothing, None).is_empty());
    let notifs = Kept::Notifs(vec![CachedNotif {
        repo: "o/r".to_string(),
        title: "N".to_string(),
        kind: "Issue".to_string(),
        reason: "mention".to_string(),
        html_url: "u".to_string(),
        updated_at: None,
    }]);
    assert_eq!(search("notifications", "n", true, &notifs, None)[0].title, "N");
    assert!(search("notifications", "zzz", true, &notifs, None).is_empty());
}

#[test]
fn live_repo_is_found_again() {
    let old: Vec<CachedRepo> = (0..300).map(|i| repo(&format!("old/{i}"), None)).collect();
    let kept = portunus_extensions::gh::api::merge_repo_cache(&vec![repo("new/thing", None)], old);
    assert_eq!(search_repos_cache("thing", &kept)[0].id, "repo:new/thing");
}

#[test]
fn lowered_names_are_scored() {
    let text = Some("a fast tool".to_string());
    assert_eq!(score_lowered("own/repo", &text, "own"), Some(90));
    assert_eq!(score_lowered("own/repo", &text, "rep"), Some(90));
    assert_eq!(score_lowered("own/repo", &text, "epo"), Some(70));
    assert_eq!(score_lowered("own/repo", &text, "tool"), Some(40));
    assert_eq!(score_lowered("own/repo", &None, "tool"), None);
    assert_eq!(score_lowered("Own/repo", &None, "own"), None);
    assert_eq!(without_qualifiers("  cli language:rust  fast "), "cli fast");
    assert!(matches_lowered("b", "abc", ""));
    assert!(matches_lowered("b", "", "abc"));
    assert!(!matches_lowered("b", "ABC", "x"));
}

#[test]
fn scored_repos_come_best_first() {
    let cache = vec![repo("a/a", None), repo("b/b", None), repo("c/c", None), repo("d/d", None)];
    let rows = search_scored("t", &cache, &vec![Some(40), Some(90), None, Some(70)]);
    let ids: Vec<&str> = rows.iter().map(|r| r.id.as_str()).collect();
    assert_eq!(ids, vec!["repo:b/b", "repo:d/d", "repo:a/a"]);
    let none = search_scored("t", &cache, &vec![None, None, None, None]);
    assert_eq!(none, search_repos_cache("t", &vec![]));
}
