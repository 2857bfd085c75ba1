use portunus_extensions::gh::api::{
    CachedIssue, CachedNotif, CachedRepo, CodeItem, IssueItem, PullRequestRef, RepoRef, UserItem,
};
use portunus_extensions::gh::render::{
    code_result, empty_row, icon_bell, icon_code, icon_issue_or_pr, icon_repo, icon_star,
    icon_user, issue_item_to_cached, issue_result, notif_result, notoken_result, png_icon,
    pr_state, rate_limit_result, repo_actions, repo_result, searching_row, starred_result,
    user_result,
};
use portunus_extensions::host::{IconAsset, Relevance, ResultIcon};

fn repo() -> CachedRepo {
    CachedRepo {
        full_name: "o/r".to_string(),
        description: Some("about".to_string()),
        stars: 1_234,
        language: Some("Rust".to_string()),
        private: false,
    }
}

fn issue(is_pr: bool) -> CachedIssue {
    CachedIssue {
        repo: "o/r".to_string(),
        number: 42,
        title: "Crash".to_string(),
        state: "open".to_string(),
        is_pr,
        merged: false,
        draft: is_pr,
        comments: 1_500,
        badge: String::new(),
    }
}

#[test]
fn icons_name_their_assets() {
    assert_eq!(icon_repo(), ResultIcon::Asset(IconAsset::Repo));
    assert_eq!(icon_star(), ResultIcon::Asset(IconAsset::Star));
    assert_eq!(icon_bell(), ResultIcon::Asset(IconAsset::Bell));
    assert_eq!(icon_code(), ResultIcon::Asset(IconAsset::Code));
    assert_eq!(icon_user(), ResultIcon::Asset(IconAsset::User));
    assert_eq!(icon_issue_or_pr(true), ResultIcon::Asset(IconAsset::PullRequest));
    assert_eq!(icon_issue_or_pr(false), ResultIcon::Asset(IconAsset::Issue));
    assert_eq!(
        png_icon(" QUJD\n"),
        ResultIcon::Inline { mime: "image/png".to_string(), data_base64: "QUJD".to_string() }
    );
}

#[test]
fn states_of_pull_requests() {
    assert_eq!(pr_state(true, false, false), "open");
    assert_eq!(pr_state(true, false, true), "draft");
    assert_eq!(pr_state(false, false, true), "closed");
    assert_eq!(pr_state(false, true, false), "merged");
}

#[test]
fn repo_rows_say_stars_language_and_about() {
    let row = repo_result(&repo(), Relevance::Fixed(90), "cached");
    assert_eq!(row.id, "repo:o/r");
    assert_eq!(row.subtitle.as_deref(), Some("\u{2605} 1.2k \u{b7} Rust \u{b7} about"));
    assert_eq!(row.badge.as_deref(), Some("cached"));
    assert_eq!(row.actions.len(), 10);
    let mut private = repo();
    private.private = true;
    private.language = None;
    private.description = Some(String::new());
    let row = repo_result(&private, Relevance::Fixed(1), "cached");
    assert_eq!(row.badge.as_deref(), Some("private"));
    assert_eq!(row.subtitle.as_deref(), Some("\u{2605} 1.2k"));
    let star = starred_result(&private, Relevance::Fixed(1));
    assert_eq!(star.badge.as_deref(), Some("starred"));
    assert_eq!(star.icon, Some(ResultIcon::Asset(IconAsset::Star)));
}

#[test]
fn only_new_issue_opens_a_form() {
    let forms: Vec<String> =
        repo_actions().into_iter().filter(|a| a.opens_form).map(|a| a.label).collect();
    assert_eq!(forms, vec!["New Issue\u{2026}"]);
}

#[test]
fn issue_rows_say_state_and_comments() {
    let row = issue_result(&issue(false), Relevance::Fixed(1));
    assert_eq!(row.id, "issue:o/r#42");
    assert_eq!(row.subtitle.as_deref(), Some("open issue \u{b7} o/r#42 \u{b7} 1.5k comments"));
    assert_eq!(row.badge.as_deref(), Some("open"));
    assert_eq!(row.actions[2].label, "Copy issue number");
    let pr = issue_result(&issue(true), Relevance::Fixed(1));
    assert_eq!(pr.id, "pr:o/r#42");
    assert_eq!(pr.badge.as_deref(), Some("draft"));
    assert_eq!(pr.actions[2].label, "Copy PR number");
    let mut mine = issue(true);
    mine.badge = "review".to_string();
    assert_eq!(issue_result(&mine, Relevance::Fixed(1)).badge.as_deref(), Some("review"));
}

#[test]
fn issue_items_are_projected() {
    let item = IssueItem {
        title: "T".to_string(),
        number: 3,
        state: "closed".to_string(),
        comments: 2,
        repository_url: "https://api.github.com/repos/o/r".to_string(),
        pull_request: Some(PullRequestRef { merged_at: Some("x".to_string()) }),
        draft: false,
    };
    let c = issue_item_to_cached(&item, "mine").unwrap();
    assert_eq!(c.repo, "o/r");
    assert!(c.is_pr && c.merged);
    assert_eq!(c.badge, "mine");
    let bad = IssueItem { repository_url: "nowhere".to_string(), pull_request: None, ..item };
    assert!(issue_item_to_cached(&bad, "mine").is_none());
}

#[test]
fn user_and_code_rows() {
    let org = user_result(
        &UserItem { login: "rust-lang".to_string(), kind: "Organization".to_string() },
        Relevance::Fixed(1),
    );
    assert_eq!(org.id, "user:rust-lang");
    assert_eq!(org.subtitle.as_deref(), Some("GitHub organization"));
    assert_eq!(org.badge.as_deref(), Some("organization"));
    let user = user_result(
        &UserItem { login: "u".to_string(), kind: String::new() },
        Relevance::Fixed(1),
    );
    assert_eq!(user.badge.as_deref(), Some("user"));
    let code = code_result(
        &CodeItem {
            name: "lib.rs".to_string(),
            path: "src/lib.rs".to_string(),
            html_url: "https://github.com/o/r/blob/x/src/lib.rs".to_string(),
            repository: RepoRef { full_name: "o/r".to_string() },
        },
        Relevance::Fixed(1),
    );
    assert_eq!(code.id, "code:https://github.com/o/r/blob/x/src/lib.rs");
    assert_eq!(code.subtitle.as_deref(), Some("o/r \u{b7} src/lib.rs"));
}

#[test]
fn notification_rows() {
    let mut n = CachedNotif {
        repo: "o/r".to_string(),
        title: "T".to_string(),
        kind: "Issue".to_string(),
        reason: "review_requested".to_string(),
        html_url: "https://github.com/o/r/issues/1".to_string(),
        updated_at: Some("2024-05-01T12:30:00Z".to_string()),
    };
    let row = notif_result(&n, Relevance::Fixed(1), Some((1_714_566_600 + 120) * 1_000));
    assert_eq!(row.id, "notif|https://github.com/o/r/issues/1|Issue|review_requested|o/r");
    assert_eq!(
        row.subtitle.as_deref(),
        Some("Issue \u{b7} review requested \u{b7} o/r \u{b7} 2 minutes ago")
    );
    assert_eq!(row.badge.as_deref(), Some("review requested"));
    n.updated_at = None;
    let row = notif_result(&n, Relevance::Fixed(1), None);
    assert_eq!(row.subtitle.as_deref(), Some("Issue \u{b7} review requested \u{b7} o/r"));
}

#[test]
fn status_rows() {
    let row = notoken_result("My Issues");
    assert_eq!(row.id, "gh:notoken");
    assert_eq!(
        row.subtitle.as_deref(),
        Some("\u{201c}My Issues\u{201d} needs a personal access token - add one in extension settings")
    );
    assert_eq!(row.relevance, Relevance::Fixed(100));
    assert_eq!(
        rate_limit_result(true).subtitle.as_deref(),
        Some("rate limit exhausted - try again in a minute")
    );
    assert_eq!(
        rate_limit_result(false).subtitle.as_deref(),
        Some("add a GitHub token in extension settings for higher limits")
    );
    let searching = searching_row("a:b", "repo");
    assert_eq!(searching.id, "gh:searching:repo:a:b");
    assert_eq!(searching.title, "Search GitHub for \u{201c}a:b\u{201d}");
    assert_eq!(empty_row("No repositories").title, "No repositories");
}
