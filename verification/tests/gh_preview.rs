use portunus_extensions::gh::api::{
    CachedRepo, GitRef, IssueDetail, Label, License, Login, PrDetail, RepoDetail, Reply,
    UserDetail,
};
use portunus_extensions::gh::preview::{
    degraded_preview, issue_answered, issue_described, pr_answered, pr_described, preview,
    preview_issue, preview_notif, preview_pr, preview_repo, preview_user, repo_answered,
    repo_described, repo_painted, repo_readme, user_answered, PreviewStep, Target,
};
use portunus_extensions::host::PreviewContent;

fn kept() -> Vec<CachedRepo> {
    vec![CachedRepo {
        full_name: "o/r".to_string(),
        description: Some("about".to_string()),
        stars: 5,
        language: None,
        private: false,
    }]
}

fn lines(content: &PreviewContent) -> Vec<(String, String)> {
    match content {
        PreviewContent::Metadata { items } => {
            items.iter().map(|i| (i.label.clone(), i.value.clone())).collect()
        }
        other => panic!("{other:?}"),
    }
}

fn pair(label: &str, value: &str) -> (String, String) {
    (label.to_string(), value.to_string())
}

fn repo_detail() -> RepoDetail {
    RepoDetail {
        full_name: "o/r".to_string(),
        description: Some("about".to_string()),
        stargazers_count: 1_000,
        forks_count: 2,
        open_issues_count: 3,
        language: Some("Rust".to_string()),
        license: Some(License {
            spdx_id: Some("NOASSERTION".to_string()),
            name: "Other".to_string(),
        }),
        default_branch: "main".to_string(),
        pushed_at: Some("never".to_string()),
        homepage: Some(" ".to_string()),
        topics: vec!["a".to_string(), "b".to_string()],
    }
}

fn issue_detail(body: Option<&str>) -> IssueDetail {
    IssueDetail {
        title: "T".to_string(),
        state: "open".to_string(),
        body: body.map(str::to_string),
        comments: 4,
        user: Some(Login { login: "me".to_string() }),
        labels: vec![Label { name: "bug".to_string() }, Label { name: "ui".to_string() }],
        assignees: vec![],
        created_at: None,
        updated_at: Some("2024-05-01T12:30:00Z".to_string()),
    }
}

fn pr_detail() -> PrDetail {
    PrDetail {
        title: "P".to_string(),
        state: "open".to_string(),
        body: Some(" text ".to_string()),
        comments: 0,
        user: None,
        labels: vec![],
        merged: false,
        draft: false,
        mergeable_state: Some("clean".to_string()),
        additions: 10,
        deletions: 2,
        changed_files: 1,
        commits: 3,
        head: Some(GitRef { name: "fix".to_string() }),
        base: Some(GitRef { name: "main".to_string() }),
        created_at: None,
        updated_at: None,
    }
}

#[test]
fn ids_name_what_is_previewed() {
    assert_eq!(preview("repo:o/r"), Target::Repo("o/r".to_string()));
    assert_eq!(
        preview("pr:o/r#4"),
        Target::Pr { repo: "o/r".to_string(), number: "4".to_string() }
    );
    assert_eq!(
        preview("issue:o/r#4"),
        Target::Issue { repo: "o/r".to_string(), number: "4".to_string() }
    );
    assert_eq!(preview("user:u"), Target::User("u".to_string()));
    match preview("gh:empty") {
        Target::Known(c) => {
            assert_eq!(lines(&c), vec![pair("GitHub", "select a result to preview it")])
        }
        other => panic!("{other:?}"),
    }
}

#[test]
fn notification_preview_is_in_the_id() {
    let c = preview_notif("https://x|Issue|review_requested|o/r");
    assert_eq!(
        lines(&c),
        vec![
            pair("Type", "Issue"),
            pair("Reason", "review requested"),
            pair("Repository", "o/r"),
            pair("Link", "https://x"),
        ]
    );
    assert_eq!(lines(&preview_notif("u"))[2], pair("Repository", ""));
}

#[test]
fn repo_preview_paints_what_is_kept_first() {
    let shown = match preview_repo("o/r", &kept()) {
        PreviewStep::Emit(c) => c,
        other => panic!("{other:?}"),
    };
    assert_eq!(
        lines(&shown),
        vec![pair("Stars", "5"), pair("Language", "-"), pair("About", "about")]
    );
    let ask = PreviewStep::Ask {
        path: "/repos/x/y".to_string(),
        accept: "application/vnd.github+json".to_string(),
    };
    assert_eq!(preview_repo("x/y", &kept()), ask);
    assert!(matches!(repo_painted("o/r", shown, false), PreviewStep::Show(_)));
    assert_eq!(
        repo_painted("x/y", PreviewContent::Metadata { items: vec![] }, true),
        ask
    );
}

#[test]
fn repo_preview_describes_then_asks_for_the_readme() {
    let reply = Reply::Answered { status: 200, value: Ok(repo_detail()) };
    let shown = match repo_answered("o/r", &reply, &kept(), true, None) {
        PreviewStep::Emit(c) => c,
        other => panic!("{other:?}"),
    };
    assert_eq!(
        lines(&shown),
        vec![
            pair("Stars", "1.0k"),
            pair("Forks", "2"),
            pair("Open issues", "3"),
            pair("Language", "Rust"),
            pair("License", "Other"),
            pair("Topics", "a, b"),
            pair("Default branch", "main"),
            pair("Last push", "never"),
            pair("About", "about"),
        ]
    );
    match repo_described("o/r", shown, true) {
        PreviewStep::Ask { path, accept } => {
            assert_eq!(path, "/repos/o/r/readme");
            assert_eq!(accept, "application/vnd.github.raw+json");
        }
        other => panic!("{other:?}"),
    }
    assert!(matches!(
        repo_described("o/r", PreviewContent::Metadata { items: vec![] }, false),
        PreviewStep::Show(_)
    ));
}

#[test]
fn repo_preview_ends_with_the_readme() {
    let blank = || PreviewContent::Metadata { items: vec![] };
    let reply = Reply::Answered { status: 200, value: Ok("[d](doc.md)".to_string()) };
    assert_eq!(
        repo_readme("o/r", &repo_detail(), blank(), &reply),
        PreviewContent::Markdown {
            content: "# o/r\n\n[d](https://github.com/o/r/blob/main/doc.md)".to_string()
        }
    );
    let empty = Reply::Answered { status: 200, value: Ok(" \n".to_string()) };
    assert_eq!(repo_readme("o/r", &repo_detail(), blank(), &empty), blank());
    let missing = Reply::Answered { status: 404, value: Ok("Not Found".to_string()) };
    assert_eq!(repo_readme("o/r", &repo_detail(), blank(), &missing), blank());
    assert_eq!(
        repo_readme("o/r", &repo_detail(), blank(), &Reply::Failed("x".to_string())),
        blank()
    );
}

#[test]
fn failed_previews_say_why() {
    assert_eq!(
        lines(&degraded_preview(Some("o/r"), 403, &kept(), false)),
        vec![
            pair("Stars", "5"),
            pair("About", "about"),
            pair(
                "Rate limited",
                "GitHub rate limit - add a token in extension settings for 5000 req/h"
            ),
        ]
    );
    assert_eq!(
        lines(&degraded_preview(None, 429, &kept(), true)),
        vec![pair("Rate limited", "GitHub rate limit exhausted - try again in a few minutes")]
    );
    assert_eq!(
        lines(&degraded_preview(Some("x/y"), 404, &kept(), true)),
        vec![pair("Error", "HTTP 404")]
    );
    let reply: Reply<RepoDetail> = Reply::Answered { status: 404, value: Err(String::new()) };
    assert!(matches!(repo_answered("o/r", &reply, &kept(), true, None), PreviewStep::Show(_)));
    let unread: Reply<RepoDetail> = Reply::Answered { status: 200, value: Err("bad".to_string()) };
    assert_eq!(
        repo_answered("o/r", &unread, &kept(), true, None),
        PreviewStep::Fail("bad".to_string())
    );
    assert_eq!(
        user_answered(&Reply::Failed("down".to_string()), true),
        PreviewStep::Fail("down".to_string())
    );
}

#[test]
fn issue_preview_shows_lines_then_text() {
    assert_eq!(
        preview_issue("o/r", "4"),
        PreviewStep::Ask {
            path: "/repos/o/r/issues/4".to_string(),
            accept: "application/vnd.github+json".to_string(),
        }
    );
    let reply = Reply::Answered { status: 200, value: Ok(issue_detail(Some(" body\n"))) };
    let shown = match issue_answered(&reply, true, Some((1_714_566_600 + 3_600) * 1_000)) {
        PreviewStep::Emit(c) => c,
        other => panic!("{other:?}"),
    };
    assert_eq!(
        lines(&shown),
        vec![
            pair("State", "open"),
            pair("Comments", "4"),
            pair("Author", "me"),
            pair("Labels", "bug, ui"),
            pair("Updated", "1 hour ago"),
        ]
    );
    let d = issue_detail(Some(" body\n"));
    assert_eq!(
        issue_described(&d, shown, true),
        PreviewContent::Markdown { content: "# T (open)\n\nbody".to_string() }
    );
    let blank = PreviewContent::Metadata { items: vec![] };
    assert_eq!(
        issue_described(&d, PreviewContent::Metadata { items: vec![] }, false),
        blank
    );
    let bare = Reply::Answered { status: 200, value: Ok(issue_detail(None)) };
    assert!(matches!(issue_answered(&bare, true, None), PreviewStep::Show(_)));
}

#[test]
fn pr_preview_shows_diff_and_branch() {
    assert_eq!(
        preview_pr("o/r", "4"),
        PreviewStep::Ask {
            path: "/repos/o/r/pulls/4".to_string(),
            accept: "application/vnd.github+json".to_string(),
        }
    );
    let reply = Reply::Answered { status: 200, value: Ok(pr_detail()) };
    let shown = match pr_answered(&reply, true, None) {
        PreviewStep::Emit(c) => c,
        other => panic!("{other:?}"),
    };
    assert_eq!(
        lines(&shown),
        vec![
            pair("State", "open"),
            pair("Diff", "+10 \u{2212}2 in 1 file"),
            pair("Commits", "3"),
            pair("Comments", "0"),
            pair("Branch", "main \u{2190} fix"),
            pair("Mergeable", "clean"),
        ]
    );
    assert_eq!(
        pr_described(&pr_detail(), shown, true),
        PreviewContent::Markdown { content: "# P (open)\n\ntext".to_string() }
    );
    let mut merged = pr_detail();
    merged.merged = true;
    merged.changed_files = 2;
    let reply = Reply::Answered { status: 200, value: Ok(merged) };
    match pr_answered(&reply, true, None) {
        PreviewStep::Emit(c) => {
            let l = lines(&c);
            assert_eq!(l[0], pair("State", "merged"));
            assert_eq!(l[1], pair("Diff", "+10 \u{2212}2 in 2 files"));
            assert!(!l.iter().any(|i| i.0 == "Mergeable"));
        }
        other => panic!("{other:?}"),
    }
}

#[test]
fn user_preview_shows_what_is_known() {
    assert_eq!(
        preview_user("u"),
        PreviewStep::Ask {
            path: "/users/u".to_string(),
            accept: "application/vnd.github+json".to_string(),
        }
    );
    let d = UserDetail {
        login: "u".to_string(),
        name: Some("U".to_string()),
        bio: Some(String::new()),
        company: None,
        location: Some("here".to_string()),
        followers: 1,
        following: 2,
        public_repos: 3,
        blog: Some(" ".to_string()),
        kind: "ORGANIZATION".to_string(),
    };
    match user_answered(&Reply::Answered { status: 200, value: Ok(d) }, true) {
        PreviewStep::Show(c) => assert_eq!(
            lines(&c),
            vec![
                pair("Login", "u"),
                pair("Type", "Organization"),
                pair("Followers", "1"),
                pair("Following", "2"),
                pair("Public repos", "3"),
                pair("Name", "U"),
                pair("Location", "here"),
            ]
        ),
        other => panic!("{other:?}"),
    }
}
