use portunus_extensions::gh::activate::{
    activate, activate_effects, create_issue, issue_answered, issue_failed, issue_payload,
    new_issue_form, own_repos, show_created, ActivateStep,
};
use portunus_extensions::gh::api::{CachedIssue, CachedRepo, Kept, RepoItem, Reply};
use portunus_extensions::gh::render::{issue_result, searching_row};
use portunus_extensions::host::{ActivateEffect, Relevance, ToastLevel};
use portunus_extensions::json::Json;

fn open(url: &str) -> Vec<ActivateEffect> {
    vec![ActivateEffect::OpenUrl { url: url.to_string() }]
}

fn copied(text: &str, message: &str) -> Vec<ActivateEffect> {
    vec![
        ActivateEffect::CopyText { text: text.to_string() },
        ActivateEffect::ShowToast { message: message.to_string(), level: ToastLevel::Success },
    ]
}

fn error(message: &str) -> Vec<ActivateEffect> {
    vec![ActivateEffect::ShowToast { message: message.to_string(), level: ToastLevel::Error }]
}

fn act(id: &str, action: &str) -> Vec<ActivateEffect> {
    activate_effects(id, action, "The title", &None)
}

fn values(pairs: &[(&str, &str)]) -> Option<Json> {
    Some(Json::Object(
        pairs.iter().map(|(k, v)| (k.to_string(), Json::Text(v.to_string()))).collect(),
    ))
}

#[test]
fn repo_actions_lead_to_pages() {
    let page = "https://github.com/o/r";
    assert_eq!(act("repo:o/r", "open"), open(page));
    assert_eq!(act("repo:o/r", "anything"), open(page));
    assert_eq!(act("repo:o/r", "open-issues"), open("https://github.com/o/r/issues"));
    assert_eq!(act("repo:o/r", "open-prs"), open("https://github.com/o/r/pulls"));
    assert_eq!(act("repo:o/r", "open-releases"), open("https://github.com/o/r/releases"));
    assert_eq!(act("repo:o/r", "open-actions"), open("https://github.com/o/r/actions"));
    assert_eq!(act("repo:o/r", "copy-url"), copied(page, "Copied repo URL"));
    assert_eq!(
        act("repo:o/r", "copy-clone"),
        copied("https://github.com/o/r.git", "Copied clone URL")
    );
    assert_eq!(
        activate_effects("repo:o/r", "copy-clone", "", &Some("ssh".to_string())),
        copied("git@github.com:o/r.git", "Copied clone URL")
    );
    assert_eq!(
        act("repo:o/r", "copy-ssh"),
        copied("git@github.com:o/r.git", "Copied SSH clone URL")
    );
    assert_eq!(
        act("repo:o/r", "copy-gh"),
        copied("gh repo clone o/r", "Copied gh clone command")
    );
}

#[test]
fn issue_rows_lead_to_their_page() {
    let mut row = CachedIssue {
        repo: "o/r".to_string(),
        number: 5,
        title: "T".to_string(),
        state: "open".to_string(),
        is_pr: true,
        merged: false,
        draft: false,
        comments: 0,
        badge: String::new(),
    };
    let id = issue_result(&row, Relevance::Fixed(1)).id;
    assert_eq!(act(&id, "open"), open("https://github.com/o/r/pull/5"));
    row.is_pr = false;
    let id = issue_result(&row, Relevance::Fixed(1)).id;
    assert_eq!(act(&id, "open"), open("https://github.com/o/r/issues/5"));
    assert_eq!(act(&id, "copy-url"), copied("https://github.com/o/r/issues/5", "Copied URL"));
    assert_eq!(act(&id, "copy-number"), copied("#5", "Copied number"));
    assert_eq!(act(&id, "copy-title"), copied("The title", "Copied title"));
    assert_eq!(
        act(&id, "copy-md"),
        copied("[The title](https://github.com/o/r/issues/5)", "Copied Markdown link")
    );
}

#[test]
fn user_code_and_notification_rows() {
    assert_eq!(act("user:me", "open"), open("https://github.com/me"));
    assert_eq!(act("user:me", "copy-url"), copied("https://github.com/me", "Copied profile URL"));
    assert_eq!(act("code:https://x/y", "open"), open("https://x/y"));
    assert_eq!(act("code:https://x/y", "copy-url"), copied("https://x/y", "Copied URL"));
    assert_eq!(act("notif|https://x|Issue|mention|o/r", "open"), open("https://x"));
    assert_eq!(
        act("notif|https://x|Issue|mention|o/r", "open-inbox"),
        open("https://github.com/notifications")
    );
    assert_eq!(act("notif|https://x|I|m|o/r", "copy-url"), copied("https://x", "Copied URL"));
}

#[test]
fn status_rows_lead_to_settings_or_nowhere() {
    assert_eq!(act("gh:notoken", "open"), open("https://github.com/settings/tokens"));
    assert_eq!(act("gh:ratelimit", "open"), open("https://github.com/settings/tokens"));
    assert!(act("gh:empty", "open").is_empty());
}

#[test]
fn placeholders_lead_to_the_site_search() {
    let id = searching_row("a:b c", "pr").id;
    assert_eq!(act(&id, "open"), open("https://github.com/search?q=a%3Ab%20c&type=pullrequests"));
    assert_eq!(act("gh:searching:issue:x", "open"), open("https://github.com/search?q=x&type=issues"));
    assert_eq!(act("gh:searching:code:x", "open"), open("https://github.com/search?q=x&type=code"));
    assert_eq!(act("gh:searching:user:x", "open"), open("https://github.com/search?q=x&type=users"));
    assert_eq!(act("gh:searching:repo:x", "open"), open("https://github.com/search?q=x"));
    assert_eq!(act("gh:searching:x", "open"), open("https://github.com/search?q=x"));
    assert_eq!(act("something", "open"), open("https://github.com/search?q="));
    assert_eq!(act("issue:no-number", "open"), open("https://github.com/search?q="));
}

#[test]
fn form_asks_for_the_repository_only_where_needed() {
    let none: Vec<CachedRepo> = vec![];
    assert_eq!(
        new_issue_form(None, false, &none),
        error("Set a GitHub token first (gh settings)")
    );
    match &new_issue_form(Some("o/r"), true, &none)[0] {
        ActivateEffect::ShowForm { title, fields, submit_action, submit_label } => {
            assert_eq!(title, "New issue in o/r");
            assert_eq!(fields.len(), 2);
            assert_eq!(fields[0].id, "title");
            assert!(fields[0].required);
            assert_eq!(fields[1].kind, "textarea");
            assert_eq!(fields[1].placeholder.as_deref(), Some("Describe the issue (Markdown)\u{2026}"));
            assert_eq!(submit_action, "create-issue");
            assert_eq!(submit_label.as_deref(), Some("Create issue"));
        }
        other => panic!("{other:?}"),
    }
    match &new_issue_form(None, true, &none)[0] {
        ActivateEffect::ShowForm { title, fields, .. } => {
            assert_eq!(title, "New GitHub issue");
            assert_eq!(fields[0].kind, "text");
            assert_eq!(fields[0].placeholder.as_deref(), Some("owner/repo"));
        }
        other => panic!("{other:?}"),
    }
    let repos = vec![CachedRepo {
        full_name: "o/r".to_string(),
        description: None,
        stars: 0,
        language: None,
        private: false,
    }];
    match &new_issue_form(None, true, &repos)[0] {
        ActivateEffect::ShowForm { fields, .. } => {
            assert_eq!(fields[0].kind, "select");
            assert_eq!(fields[0].options[0].value, "o/r");
        }
        other => panic!("{other:?}"),
    }
}

#[test]
fn own_repos_fall_back_to_what_is_kept() {
    let kept = || {
        vec![CachedRepo {
            full_name: "k/k".to_string(),
            description: None,
            stars: 0,
            language: None,
            private: false,
        }]
    };
    let item = RepoItem {
        full_name: "o/r".to_string(),
        description: None,
        stargazers_count: 0,
        language: None,
        private: false,
    };
    let (repos, live) = own_repos(&Reply::Answered { status: 200, value: Ok(vec![item]) }, kept());
    assert_eq!(repos[0].full_name, "o/r");
    match live.keep {
        Kept::Repos(rows) => assert_eq!(rows.len(), 2),
        other => panic!("{other:?}"),
    }
    let (repos, live) =
        own_repos(&Reply::Answered { status: 200, value: Err("bad json".to_string()) }, kept());
    assert_eq!(repos[0].full_name, "k/k");
    assert_eq!(live.log, vec!["own repos error: bad json"]);
    let (_, live) = own_repos(&Reply::Answered { status: 403, value: Err(String::new()) }, kept());
    assert_eq!(live.log, vec!["own repos failed (403)"]);
    let (repos, live) = own_repos(&Reply::Failed("down".to_string()), kept());
    assert_eq!(repos.len(), 1);
    assert_eq!(live.log, vec!["own repos error: down"]);
}

#[test]
fn payload_holds_title_and_text() {
    let payload = issue_payload("A \"b\"\n".to_string(), "c\u{1F980}".to_string());
    let read: serde_json::Value = serde_json::from_str(&payload).unwrap();
    assert_eq!(read["title"], "A \"b\"\n");
    assert_eq!(read["body"], "c\u{1F980}");
}

#[test]
fn creating_an_issue_posts_the_form() {
    let v = values(&[("repo", " o/r "), ("title", "T"), ("body", "B")]);
    match create_issue(None, &v, true) {
        ActivateStep::Post { path, payload } => {
            assert_eq!(path, "/repos/o/r/issues");
            let read: serde_json::Value = serde_json::from_str(&payload).unwrap();
            assert_eq!(read["title"], "T");
        }
        other => panic!("{other:?}"),
    }
    assert_eq!(
        create_issue(Some("o"), &v, true),
        ActivateStep::Effects(error("Repository must be owner/repo"))
    );
    assert_eq!(
        create_issue(None, &None, true),
        ActivateStep::Effects(error("Repository must be owner/repo"))
    );
    assert_eq!(
        create_issue(None, &v, false),
        ActivateStep::Effects(error("Set a GitHub token first (gh settings)"))
    );
}

#[test]
fn answers_to_a_posted_issue() {
    let created = issue_answered(201, "{\"html_url\":\"https://github.com/o/r/issues/9\"}");
    assert_eq!(created.len(), 2);
    assert_eq!(
        created[0],
        ActivateEffect::ShowToast { message: "Issue created".to_string(), level: ToastLevel::Success }
    );
    assert_eq!(
        created[1],
        ActivateEffect::OpenUrl { url: "https://github.com/o/r/issues/9".to_string() }
    );
    assert_eq!(issue_answered(201, "not json").len(), 1);
    assert_eq!(issue_answered(201, "{\"html_url\":3}").len(), 1);
    assert_eq!(issue_answered(422, "{}"), error("GitHub refused the issue (422)"));
    assert_eq!(issue_failed("down"), error("Create failed: down"));
    assert_eq!(show_created(201, None).len(), 1);
}

#[test]
fn activation_routes_forms() {
    let step = |cmd: &str, id: &str, action: Option<&str>, token: bool| {
        activate(cmd, id, "T", action, &None, token, &None)
    };
    assert_eq!(
        step("new-issue", "x", None, true),
        ActivateStep::OfferRepos("/user/repos?sort=pushed&per_page=100".to_string())
    );
    assert_eq!(
        step("new-issue", "x", None, false),
        ActivateStep::Effects(error("Set a GitHub token first (gh settings)"))
    );
    assert_eq!(
        step("new-issue", "x", Some("create-issue"), true),
        ActivateStep::Effects(error("Repository must be owner/repo"))
    );
    match step("repos", "repo:o/r", Some("new-issue"), true) {
        ActivateStep::Effects(e) => assert!(matches!(e[0], ActivateEffect::ShowForm { .. })),
        other => panic!("{other:?}"),
    }
    assert!(matches!(
        step("repos", "repo:o/r", Some("create-issue"), true),
        ActivateStep::Post { .. }
    ));
    assert_eq!(
        step("repos", "repo:o/r", None, false),
        ActivateStep::Effects(open("https://github.com/o/r"))
    );
    assert_eq!(
        step("users", "user:u", Some("create-issue"), true),
        ActivateStep::Effects(open("https://github.com/u"))
    );
}

#[test]
fn results_only_open_copy_and_toast() {
    for id in [
        "repo:o/r", "pr:o/r#1", "issue:o/r#1", "user:u", "code:x", "notif|u|t|r|o/r", "gh:notoken",
        "gh:ratelimit", "gh:empty", "gh:searching:repo:x", "anything",
    ] {
        for action in ["open", "copy-url", "copy-md", "new-issue", "create-issue", "delete"] {
            for effect in act(id, action) {
                assert!(matches!(
                    effect,
                    ActivateEffect::OpenUrl { .. }
                        | ActivateEffect::CopyText { .. }
                        | ActivateEffect::ShowToast { .. }
                ));
            }
        }
    }
}
