use portunus_extensions::gh::api::{
    CachedRepo, CodeItem, IssueItem, Kept, NotifSubject, NotificationItem, RepoItem, RepoRef,
    Reply, SearchResp, UserItem,
};
use portunus_extensions::gh::query::{
    keep_shown_repos, max_per_endpoint, query, query_code, query_issue_search, query_my_issues,
    query_my_repos, query_notifications, query_repos, query_starred, query_users, refresh,
    refresh_repos, refresh_starred, QueryPlan,
};
use portunus_extensions::host::Relevance;

fn item(name: &str) -> RepoItem {
    RepoItem {
        full_name: name.to_string(),
        description: None,
        stargazers_count: 1,
        language: None,
        private: false,
    }
}

fn cached(name: &str) -> CachedRepo {
    CachedRepo::from(&item(name))
}

fn issue(repo: &str, number: u64) -> IssueItem {
    IssueItem {
        title: format!("{repo} {number}"),
        number,
        state: "open".to_string(),
        comments: 0,
        repository_url: format!("https://api.github.com/repos/{repo}"),
        pull_request: None,
        draft: false,
    }
}

fn ok<T>(value: T) -> Reply<T> {
    Reply::Answered { status: 200, value: Ok(value) }
}

fn status<T>(status: u16) -> Reply<T> {
    Reply::Answered { status, value: Err("no body".to_string()) }
}

#[test]
fn results_per_endpoint_are_clamped() {
    assert_eq!(max_per_endpoint(None), 6);
    assert_eq!(max_per_endpoint(Some(0)), 1);
    assert_eq!(max_per_endpoint(Some(9)), 9);
    assert_eq!(max_per_endpoint(Some(99)), 15);
}

#[test]
fn plans_name_their_paths() {
    assert_eq!(
        query("repos", " a b ", false, 6),
        QueryPlan::Repos("/search/repositories?q=a%20b&per_page=6".to_string())
    );
    assert_eq!(
        query("issues", "x", false, 6),
        QueryPlan::Issues("/search/issues?q=x%20in%3Atitle%20is%3Aissue&per_page=6".to_string())
    );
    assert_eq!(
        query("prs", "x", false, 15),
        QueryPlan::Issues("/search/issues?q=x%20in%3Atitle%20is%3Apr&per_page=15".to_string())
    );
    assert_eq!(
        query("code", "x", true, 6),
        QueryPlan::Code("/search/code?q=x&per_page=6".to_string())
    );
    assert_eq!(
        query("users", "x", false, 6),
        QueryPlan::Users("/search/users?q=x&per_page=6".to_string())
    );
    assert_eq!(
        query("my-repos", "", true, 6),
        QueryPlan::MyRepos("/user/repos?sort=pushed&per_page=100".to_string())
    );
    assert_eq!(
        query("starred", "", true, 6),
        QueryPlan::Starred("/user/starred?sort=updated&per_page=100".to_string())
    );
    assert_eq!(
        query("notifications", "", true, 6),
        QueryPlan::Notifications("/notifications?per_page=50".to_string())
    );
}

#[test]
fn dashboards_ask_three_times() {
    match query("my-prs", "", true, 6) {
        QueryPlan::MyPrs(paths) => {
            assert_eq!(paths.len(), 3);
            assert_eq!(paths[1].0, "review");
            assert_eq!(
                paths[1].1,
                "/search/issues?q=is%3Apr%20is%3Aopen%20review-requested%3A%40me&sort=updated&order=desc&per_page=25"
            );
        }
        other => panic!("{other:?}"),
    }
    match query("my-issues", "", true, 6) {
        QueryPlan::MyIssues(paths) => {
            let badges: Vec<&str> = paths.iter().map(|p| p.0.as_str()).collect();
            assert_eq!(badges, vec!["mine", "assigned", "mentioned"]);
        }
        other => panic!("{other:?}"),
    }
}

#[test]
fn nothing_is_asked_without_term_or_token() {
    assert_eq!(query("repos", "  ", true, 6), QueryPlan::Nothing);
    assert_eq!(query("code", "x", false, 6), QueryPlan::Nothing);
    assert_eq!(query("starred", "", false, 6), QueryPlan::Nothing);
    assert_eq!(query("unknown", "x", true, 6), QueryPlan::Nothing);
}

#[test]
fn live_repos_are_shown_and_kept() {
    let live = query_repos(&ok(SearchResp { items: vec![item("a/b"), item("c/d")] }), true);
    let rows = live.emit.unwrap();
    assert_eq!(rows[1].id, "repo:c/d");
    assert_eq!(rows[1].relevance, Relevance::Ranked { index: 1, count: 2, top: 95, span: 30 });
    assert_eq!(rows[1].badge.as_deref(), Some("live"));
    let fresh = match live.keep {
        Kept::Repos(rows) => rows,
        other => panic!("{other:?}"),
    };
    let kept = keep_shown_repos(&fresh, vec![cached("e/f"), cached("a/b")], true).unwrap();
    let names: Vec<&str> = kept.iter().map(|r| r.full_name.as_str()).collect();
    assert_eq!(names, vec!["a/b", "c/d", "e/f"]);
    assert!(keep_shown_repos(&fresh, vec![], false).is_none());
}

#[test]
fn failures_are_logged_and_keep_nothing() {
    let limited = query_repos(&status(403), false);
    assert_eq!(limited.log, vec!["repo search rate limited (403)"]);
    assert_eq!(limited.emit.unwrap()[0].id, "gh:ratelimit");
    assert_eq!(limited.keep, Kept::Nothing);
    let failed = query_users(&status(500), false);
    assert_eq!(failed.log, vec!["user search failed (500)"]);
    assert_eq!(failed.emit, None);
    let error = query_code(&Reply::Failed("timeout".to_string()), true);
    assert_eq!(error.log, vec!["code search error: timeout"]);
    let unread = query_issue_search(&status(200), true);
    assert!(unread.log.is_empty() && unread.emit.is_none());
}

#[test]
fn issue_search_leaves_out_what_has_no_repo() {
    let mut bad = issue("o/r", 2);
    bad.repository_url = "nowhere".to_string();
    let live = query_issue_search(
        &ok(SearchResp { items: vec![issue("o/r", 1), bad, issue("o/r", 3)] }),
        true,
    );
    let rows = live.emit.unwrap();
    assert_eq!(rows.len(), 2);
    assert_eq!(rows[1].id, "issue:o/r#3");
    assert_eq!(rows[1].relevance, Relevance::Ranked { index: 2, count: 3, top: 80, span: 30 });
}

#[test]
fn code_and_users_are_shown() {
    let code = query_code(
        &ok(SearchResp {
            items: vec![CodeItem {
                name: "n".to_string(),
                path: "p".to_string(),
                html_url: "u".to_string(),
                repository: RepoRef { full_name: "o/r".to_string() },
            }],
        }),
        true,
    );
    assert_eq!(code.emit.unwrap()[0].id, "code:u");
    let users = query_users(
        &ok(SearchResp {
            items: vec![UserItem { login: "l".to_string(), kind: "User".to_string() }],
        }),
        true,
    );
    assert_eq!(users.emit.unwrap()[0].id, "user:l");
}

#[test]
fn overlapping_dashboard_searches_show_each_issue_once() {
    let replies = vec![
        ("mine".to_string(), ok(SearchResp { items: vec![issue("o/r", 1), issue("o/r", 2)] })),
        ("assigned".to_string(), status(500)),
        ("mentioned".to_string(), ok(SearchResp { items: vec![issue("o/r", 2), issue("x/y", 2)] })),
    ];
    let live = query_my_issues(&replies, "", true);
    assert_eq!(live.log, vec!["my issues failed (500)"]);
    let rows = match live.keep {
        Kept::Issues(rows) => rows,
        other => panic!("{other:?}"),
    };
    let found: Vec<(String, u64, String)> =
        rows.into_iter().map(|r| (r.repo, r.number, r.badge)).collect();
    assert_eq!(
        found,
        vec![
            ("o/r".to_string(), 1, "mine".to_string()),
            ("o/r".to_string(), 2, "mine".to_string()),
            ("x/y".to_string(), 2, "mentioned".to_string()),
        ]
    );
    assert_eq!(live.emit.unwrap().len(), 3);
}

#[test]
fn empty_dashboards_say_so() {
    let nothing = query_my_issues(&vec![("mine".to_string(), ok(SearchResp { items: vec![] }))], "", true);
    assert_eq!(nothing.emit.unwrap()[0].title, "Nothing open right now");
    let limited = query_my_issues(&vec![("mine".to_string(), status(429))], "", true);
    assert!(limited.log.is_empty());
    assert_eq!(limited.emit.unwrap()[0].id, "gh:ratelimit");
    let repos = query_my_repos(&ok(vec![]), vec![], "", true);
    assert_eq!(repos.emit.unwrap()[0].title, "No repositories");
    let starred = query_starred(&ok(vec![]), "", true);
    assert_eq!(starred.emit.unwrap()[0].title, "No starred repositories");
    let notifs = query_notifications(&ok(vec![]), "", true, None);
    assert_eq!(notifs.emit.unwrap()[0].title, "You're all caught up");
}

#[test]
fn dashboards_never_show_more_than_forty() {
    let many: Vec<RepoItem> = (0..60).map(|i| item(&format!("o/{i}"))).collect();
    let live = query_starred(&ok(many), "", true);
    let rows = live.emit.unwrap();
    assert_eq!(rows.len(), 40);
    assert_eq!(rows[39].relevance, Relevance::Ranked { index: 39, count: 40, top: 90, span: 40 });
    match live.keep {
        Kept::Repos(kept) => assert_eq!(kept.len(), 60),
        other => panic!("{other:?}"),
    }
}

#[test]
fn my_repos_are_merged_and_shown() {
    let live = query_my_repos(&ok(vec![item("a/b")]), vec![cached("z/z")], "B", true);
    assert_eq!(live.emit.unwrap()[0].badge.as_deref(), Some("mine"));
    match live.keep {
        Kept::Repos(kept) => assert_eq!(kept.len(), 2),
        other => panic!("{other:?}"),
    }
    assert_eq!(query_my_repos(&status(404), vec![], "", true).log, vec!["my repos failed (404)"]);
}

#[test]
fn notifications_are_kept_with_their_page() {
    let n = NotificationItem {
        reason: "mention".to_string(),
        subject: NotifSubject {
            title: "T".to_string(),
            kind: "PullRequest".to_string(),
            url: Some("https://api.github.com/repos/o/r/pulls/7".to_string()),
        },
        repository: RepoRef { full_name: "o/r".to_string() },
        updated_at: None,
    };
    let live = query_notifications(&ok(vec![n]), "", true, None);
    match live.keep {
        Kept::Notifs(rows) => assert_eq!(rows[0].html_url, "https://github.com/o/r/pull/7"),
        other => panic!("{other:?}"),
    }
    assert_eq!(
        live.emit.unwrap()[0].id,
        "notif|https://github.com/o/r/pull/7|PullRequest|mention|o/r"
    );
}

#[test]
fn refreshing_warms_the_caches() {
    assert_eq!(refresh(false), None);
    let (repos, starred) = refresh(true).unwrap();
    assert_eq!(repos, "/user/repos?sort=pushed&per_page=100");
    assert_eq!(starred, "/user/starred?sort=updated&per_page=100");
    let live = refresh_repos(&ok(vec![item("a/b")]), vec![cached("c/d")]);
    assert_eq!(live.log, vec!["warmed 1 repos"]);
    assert!(live.emit.is_none());
    let live = refresh_starred(&ok(vec![item("a/b")]));
    assert_eq!(live.log, vec!["warmed 1 starred"]);
    assert_eq!(refresh_repos(&status(500), vec![]).keep, Kept::Nothing);
    assert!(refresh_starred(&Reply::Failed("x".to_string())).log.is_empty());
}
