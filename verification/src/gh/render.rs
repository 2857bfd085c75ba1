//! Presentation: icons, numbers, action menus, and the rows that are made of
//! what the API answered or of what is kept. The id of a row holds all that
//! activating or previewing it needs:
//!
//! ```text
//! repo:owner/name    issue:owner/name#N    pr:owner/name#N
//! user:login         code:address          notif|address|type|reason|repo
//! ```
use vstd::prelude::*;
use vstd::string::*;

use crate::gh::api::{
    repo_from_api_url, repo_in_url, CachedIssue, CachedNotif, CachedRepo, CodeItem, IssueItem,
    IssueModel, NotifModel, RepoModel, UserItem,
};
use crate::gh::time::{humanize, humanized};
use crate::host::{
    hinted_action, plain_action, Action, ActionModel, ExtensionResult, IconAsset, Relevance,
    ResultIcon, ResultIconModel, ResultModel,
};
use crate::number::{
    law_tenths_nearest, nearest_double, one_decimal, one_decimal_text, tenths, tenths_of, to_double,
};
use crate::text::{
    decimal, decimal_text, digit, eq_ignore_ascii_case, join, joined, replace, replaced, same,
    same_ignoring_ascii_case, trim, trimmed,
};

verus! {

// ---------------------------------------------------------------------------
// Icons
// ---------------------------------------------------------------------------

/// A PNG icon from its data in base 64.
pub fn png_icon(b64: &str) -> (r: ResultIcon)
    ensures
        r.deep_view() == (ResultIconModel::Inline {
            mime: "image/png"@,
            data_base64: trimmed(b64@),
        }),
{
    ResultIcon::Inline { mime: "image/png".to_owned(), data_base64: trim(b64) }
}

pub fn icon_repo() -> (r: ResultIcon)
    ensures
        r.deep_view() == ResultIconModel::Asset(IconAsset::Repo),
{
    ResultIcon::Asset(IconAsset::Repo)
}

pub fn icon_star() -> (r: ResultIcon)
    ensures
        r.deep_view() == ResultIconModel::Asset(IconAsset::Star),
{
    ResultIcon::Asset(IconAsset::Star)
}

pub fn icon_bell() -> (r: ResultIcon)
    ensures
        r.deep_view() == ResultIconModel::Asset(IconAsset::Bell),
{
    ResultIcon::Asset(IconAsset::Bell)
}

pub fn icon_code() -> (r: ResultIcon)
    ensures
        r.deep_view() == ResultIconModel::Asset(IconAsset::Code),
{
    ResultIcon::Asset(IconAsset::Code)
}

pub fn icon_user() -> (r: ResultIcon)
    ensures
        r.deep_view() == ResultIconModel::Asset(IconAsset::User),
{
    ResultIcon::Asset(IconAsset::User)
}

/// The icon of an issue, or of a pull request.
pub open spec fn issue_or_pr_icon(is_pr: bool) -> ResultIconModel {
    if is_pr {
        ResultIconModel::Asset(IconAsset::PullRequest)
    } else {
        ResultIconModel::Asset(IconAsset::Issue)
    }
}

pub fn icon_issue_or_pr(is_pr: bool) -> (r: ResultIcon)
    ensures
        r.deep_view() == issue_or_pr_icon(is_pr),
{
    if is_pr {
        ResultIcon::Asset(IconAsset::PullRequest)
    } else {
        ResultIcon::Asset(IconAsset::Issue)
    }
}

// ---------------------------------------------------------------------------
// Numbers and states
// ---------------------------------------------------------------------------

/// A count in short: as it is under a thousand, else in thousands or millions
/// with one digit after the point.
pub open spec fn count_text(n: u64) -> Seq<char> {
    if n <= 999 {
        decimal(n as nat)
    } else if n <= 999_949 {
        one_decimal(tenths_of(n as int, 1_000)) + "k"@
    } else {
        one_decimal(tenths_of(nearest_double(n as int), 1_000_000)) + "M"@
    }
}

/// A count in short.
pub fn fmt_count(n: u64) -> (r: String)
    ensures
        r@ == count_text(n),
{
    if n <= 999 {
        decimal_text(n)
    } else if n <= 999_949 {
        one_decimal_text(tenths(n as u128, 1_000) as u64).concat("k")
    } else {
        one_decimal_text(tenths(to_double(n), 1_000_000) as u64).concat("M")
    }
}

/// The state of a pull request.
pub open spec fn pr_state_text(is_open: bool, merged: bool, draft: bool) -> Seq<char> {
    if merged {
        "merged"@
    } else if !is_open {
        "closed"@
    } else if draft {
        "draft"@
    } else {
        "open"@
    }
}

/// The state of a pull request.
pub fn pr_state(is_open: bool, merged: bool, draft: bool) -> (r: &'static str)
    ensures
        r@ == pr_state_text(is_open, merged, draft),
{
    if merged {
        "merged"
    } else if !is_open {
        "closed"
    } else if draft {
        "draft"
    } else {
        "open"
    }
}

/// What is said of a repository in one line: its stars, language and
/// description, as far as there are any.
pub open spec fn repo_line(
    stars: u64,
    language: Option<Seq<char>>,
    description: Option<Seq<char>>,
) -> Seq<char> {
    joined(
        seq!["\u{2605} "@ + count_text(stars)] + (match language {
            Some(l) => seq![l],
            None => seq![],
        }) + (match description {
            Some(d) if d.len() > 0 => seq![d],
            _ => seq![],
        }),
        " \u{b7} "@,
    )
}

fn repo_subtitle(r: &CachedRepo) -> (line: String)
    ensures
        line@ == repo_line(r.stars, r.language.deep_view(), r.description.deep_view()),
{
    let count = fmt_count(r.stars);
    let mut parts: Vec<String> = vec!["\u{2605} ".to_owned().concat(count.as_str())];
    assert(parts.deep_view() =~= seq!["\u{2605} "@ + count_text(r.stars)]);
    if let Some(l) = &r.language {
        let ghost before = parts.deep_view();
        parts.push(l.clone());
        assert(parts.deep_view() =~= before.push(l@));
    }
    if let Some(d) = &r.description {
        if !d.as_str().is_empty() {
            let ghost before = parts.deep_view();
            parts.push(d.clone());
            assert(parts.deep_view() =~= before.push(d@));
        }
    }
    assert(parts.deep_view() =~= seq!["\u{2605} "@ + count_text(r.stars)] + (
    match r.language.deep_view() {
        Some(l) => seq![l],
        None => seq![],
    }) + (match r.description.deep_view() {
        Some(d) if d.len() > 0 => seq![d],
        _ => seq![],
    }));
    join(&parts, " \u{b7} ")
}

// ---------------------------------------------------------------------------
// Action menus. The first action is what Enter does.
// ---------------------------------------------------------------------------

/// What can be done with a repository.
pub open spec fn repo_menu() -> Seq<ActionModel> {
    seq![
        hinted_action("open"@, "Open on GitHub"@, "in browser"@),
        plain_action("open-issues"@, "Open Issues"@),
        plain_action("open-prs"@, "Open Pull Requests"@),
        plain_action("open-releases"@, "Open Releases"@),
        plain_action("open-actions"@, "Open Actions"@),
        ActionModel {
            id: "new-issue"@,
            label: "New Issue\u{2026}"@,
            hint: Some("opens a form"@),
            opens_form: true,
            shortcut: None,
        },
        hinted_action("copy-clone"@, "Copy clone URL"@, "respects protocol setting"@),
        plain_action("copy-ssh"@, "Copy SSH clone URL"@),
        hinted_action("copy-gh"@, "Copy gh clone command"@, "gh repo clone"@),
        plain_action("copy-url"@, "Copy repo URL"@),
    ]
}

/// What can be done with a repository.
pub fn repo_actions() -> (r: Vec<Action>)
    ensures
        r.deep_view() == repo_menu(),
{
    let r = vec![
        Action::hinted("open", "Open on GitHub", "in browser"),
        Action::plain("open-issues", "Open Issues"),
        Action::plain("open-prs", "Open Pull Requests"),
        Action::plain("open-releases", "Open Releases"),
        Action::plain("open-actions", "Open Actions"),
        Action {
            id: "new-issue".to_owned(),
            label: "New Issue\u{2026}".to_owned(),
            hint: Some("opens a form".to_owned()),
            opens_form: true,
            shortcut: None,
        },
        Action::hinted("copy-clone", "Copy clone URL", "respects protocol setting"),
        Action::plain("copy-ssh", "Copy SSH clone URL"),
        Action::hinted("copy-gh", "Copy gh clone command", "gh repo clone"),
        Action::plain("copy-url", "Copy repo URL"),
    ];
    assert(r.deep_view() =~= repo_menu());
    r
}

/// "PR" or "issue".
pub open spec fn issue_kind(is_pr: bool) -> Seq<char> {
    if is_pr {
        "PR"@
    } else {
        "issue"@
    }
}

/// What can be done with an issue or a pull request.
pub open spec fn issue_menu(is_pr: bool) -> Seq<ActionModel> {
    seq![
        hinted_action("open"@, "Open on GitHub"@, "in browser"@),
        plain_action("copy-url"@, "Copy URL"@),
        plain_action("copy-number"@, "Copy "@ + issue_kind(is_pr) + " number"@),
        plain_action("copy-title"@, "Copy title"@),
        hinted_action("copy-md"@, "Copy Markdown link"@, "[title](url)"@),
    ]
}

fn issue_actions(is_pr: bool) -> (r: Vec<Action>)
    ensures
        r.deep_view() == issue_menu(is_pr),
{
    let kind = if is_pr {
        "PR"
    } else {
        "issue"
    };
    let number = "Copy ".to_owned().concat(kind).concat(" number");
    let r = vec![
        Action::hinted("open", "Open on GitHub", "in browser"),
        Action::plain("copy-url", "Copy URL"),
        Action::plain("copy-number", number.as_str()),
        Action::plain("copy-title", "Copy title"),
        Action::hinted("copy-md", "Copy Markdown link", "[title](url)"),
    ];
    assert(r.deep_view() =~= issue_menu(is_pr));
    r
}

/// What can be done with a user.
pub open spec fn user_menu() -> Seq<ActionModel> {
    seq![
        hinted_action("open"@, "Open profile"@, "in browser"@),
        plain_action("copy-url"@, "Copy profile URL"@),
    ]
}

fn user_actions() -> (r: Vec<Action>)
    ensures
        r.deep_view() == user_menu(),
{
    let r = vec![
        Action::hinted("open", "Open profile", "in browser"),
        Action::plain("copy-url", "Copy profile URL"),
    ];
    assert(r.deep_view() =~= user_menu());
    r
}

/// What can be done with a notification.
pub open spec fn notif_menu() -> Seq<ActionModel> {
    seq![
        hinted_action("open"@, "Open on GitHub"@, "in browser"@),
        plain_action("open-inbox"@, "Open notification inbox"@),
        plain_action("copy-url"@, "Copy URL"@),
    ]
}

fn notif_actions() -> (r: Vec<Action>)
    ensures
        r.deep_view() == notif_menu(),
{
    let r = vec![
        Action::hinted("open", "Open on GitHub", "in browser"),
        Action::plain("open-inbox", "Open notification inbox"),
        Action::plain("copy-url", "Copy URL"),
    ];
    assert(r.deep_view() =~= notif_menu());
    r
}

// ---------------------------------------------------------------------------
// Rows
// ---------------------------------------------------------------------------

/// The row of a repository.
pub open spec fn repo_row(r: RepoModel, relevance: Relevance, badge: Seq<char>) -> ResultModel {
    ResultModel {
        id: "repo:"@ + r.full_name,
        title: r.full_name,
        subtitle: Some(repo_line(r.stars, r.language, r.description)),
        relevance,
        actions: repo_menu(),
        icon: Some(ResultIconModel::Asset(IconAsset::Repo)),
        badge: Some(
            if r.private {
                "private"@
            } else {
                badge
            },
        ),
    }
}

/// The row of a repository.
pub fn repo_result(r: &CachedRepo, relevance: Relevance, badge: &str) -> (row: ExtensionResult)
    ensures
        row.deep_view() == repo_row(r.deep_view(), relevance, badge@),
{
    let shown = if r.private {
        "private"
    } else {
        badge
    };
    let row = ExtensionResult {
        id: "repo:".to_owned().concat(r.full_name.as_str()),
        title: r.full_name.clone(),
        subtitle: Some(repo_subtitle(r)),
        relevance,
        actions: repo_actions(),
        icon: Some(icon_repo()),
        badge: Some(shown.to_owned()),
    };
    assert(row.deep_view() =~= repo_row(r.deep_view(), relevance, badge@));
    row
}

/// The row of a starred repository.
pub open spec fn starred_row(r: RepoModel, relevance: Relevance) -> ResultModel {
    ResultModel {
        id: "repo:"@ + r.full_name,
        title: r.full_name,
        subtitle: Some(repo_line(r.stars, r.language, r.description)),
        relevance,
        actions: repo_menu(),
        icon: Some(ResultIconModel::Asset(IconAsset::Star)),
        badge: Some("starred"@),
    }
}

/// The row of a starred repository.
pub fn starred_result(r: &CachedRepo, relevance: Relevance) -> (row: ExtensionResult)
    ensures
        row.deep_view() == starred_row(r.deep_view(), relevance),
{
    let row = ExtensionResult {
        id: "repo:".to_owned().concat(r.full_name.as_str()),
        title: r.full_name.clone(),
        subtitle: Some(repo_subtitle(r)),
        relevance,
        actions: repo_actions(),
        icon: Some(icon_star()),
        badge: Some("starred".to_owned()),
    };
    assert(row.deep_view() =~= starred_row(r.deep_view(), relevance));
    row
}

/// The state of an issue or a pull request, in a word.
pub open spec fn issue_state(i: IssueModel) -> Seq<char> {
    if i.is_pr {
        pr_state_text(i.state == "open"@, i.merged, i.draft)
    } else {
        i.state
    }
}

/// "owner/name#N".
pub open spec fn numbered(repo: Seq<char>, number: u64) -> Seq<char> {
    repo + "#"@ + decimal(number as nat)
}

/// The row of an issue or a pull request.
pub open spec fn issue_row(i: IssueModel, relevance: Relevance) -> ResultModel {
    ResultModel {
        id: (if i.is_pr {
            "pr:"@
        } else {
            "issue:"@
        }) + numbered(i.repo, i.number),
        title: i.title,
        subtitle: Some(
            issue_state(i) + " "@ + issue_kind(i.is_pr) + " \u{b7} "@ + numbered(i.repo, i.number)
                + " \u{b7} "@ + count_text(i.comments) + " comments"@,
        ),
        relevance,
        actions: issue_menu(i.is_pr),
        icon: Some(issue_or_pr_icon(i.is_pr)),
        badge: Some(
            if i.badge.len() == 0 {
                issue_state(i)
            } else {
                i.badge
            },
        ),
    }
}

/// The row of an issue or a pull request.
pub fn issue_result(i: &CachedIssue, relevance: Relevance) -> (row: ExtensionResult)
    ensures
        row.deep_view() == issue_row(i.deep_view(), relevance),
{
    let kind = if i.is_pr {
        "PR"
    } else {
        "issue"
    };
    let prefix = if i.is_pr {
        "pr:"
    } else {
        "issue:"
    };
    let state = if i.is_pr {
        pr_state(same(i.state.as_str(), "open"), i.merged, i.draft)
    } else {
        i.state.as_str()
    };
    let badge = if i.badge.as_str().is_empty() {
        state.to_owned()
    } else {
        i.badge.clone()
    };
    let number = decimal_text(i.number);
    let name = i.repo.clone().concat("#").concat(number.as_str());
    let comments = fmt_count(i.comments);
    let subtitle = state.to_owned().concat(" ").concat(kind).concat(" \u{b7} ").concat(
        name.as_str(),
    ).concat(" \u{b7} ").concat(comments.as_str()).concat(" comments");
    let row = ExtensionResult {
        id: prefix.to_owned().concat(name.as_str()),
        title: i.title.clone(),
        subtitle: Some(subtitle),
        relevance,
        actions: issue_actions(i.is_pr),
        icon: Some(icon_issue_or_pr(i.is_pr)),
        badge: Some(badge),
    };
    assert(row.deep_view() =~= issue_row(i.deep_view(), relevance));
    row
}

/// The row that is kept of an answer to an issue search; none where the address
/// of its repository names none.
pub open spec fn issue_kept(i: IssueItem, badge: Seq<char>) -> Option<IssueModel> {
    match repo_in_url(i.repository_url@) {
        Some(repo) => Some(
            IssueModel {
                repo,
                number: i.number,
                title: i.title@,
                state: i.state@,
                is_pr: i.pull_request is Some,
                merged: i.pull_request matches Some(p) && p.merged_at is Some,
                draft: i.draft,
                comments: i.comments,
                badge,
            },
        ),
        None => None,
    }
}

/// The row that is kept of an answer to an issue search.
pub fn issue_item_to_cached(i: &IssueItem, badge: &str) -> (r: Option<CachedIssue>)
    ensures
        r.deep_view() == issue_kept(*i, badge@),
{
    let repo = match repo_from_api_url(i.repository_url.as_str()) {
        Some(repo) => repo,
        None => return None,
    };
    let merged = match &i.pull_request {
        Some(p) => p.merged_at.is_some(),
        None => false,
    };
    let r = CachedIssue {
        repo,
        number: i.number,
        title: i.title.clone(),
        state: i.state.clone(),
        is_pr: i.pull_request.is_some(),
        merged,
        draft: i.draft,
        comments: i.comments,
        badge: badge.to_owned(),
    };
    Some(r)
}

/// "organization" or "user".
pub open spec fn user_kind(kind: Seq<char>) -> Seq<char> {
    if same_ignoring_ascii_case(kind, "organization"@) {
        "organization"@
    } else {
        "user"@
    }
}

/// The row of a user or an organization.
pub open spec fn user_row(login: Seq<char>, kind: Seq<char>, relevance: Relevance) -> ResultModel {
    ResultModel {
        id: "user:"@ + login,
        title: login,
        subtitle: Some("GitHub "@ + user_kind(kind)),
        relevance,
        actions: user_menu(),
        icon: Some(ResultIconModel::Asset(IconAsset::User)),
        badge: Some(user_kind(kind)),
    }
}

/// The row of a user or an organization.
pub fn user_result(u: &UserItem, relevance: Relevance) -> (row: ExtensionResult)
    ensures
        row.deep_view() == user_row(u.login@, u.kind@, relevance),
{
    let kind = if eq_ignore_ascii_case(u.kind.as_str(), "organization") {
        "organization"
    } else {
        "user"
    };
    let row = ExtensionResult {
        id: "user:".to_owned().concat(u.login.as_str()),
        title: u.login.clone(),
        subtitle: Some("GitHub ".to_owned().concat(kind)),
        relevance,
        actions: user_actions(),
        icon: Some(icon_user()),
        badge: Some(kind.to_owned()),
    };
    assert(row.deep_view() =~= user_row(u.login@, u.kind@, relevance));
    row
}

/// The row of a file. Its address leads to the file, and is the row's id.
pub open spec fn code_row(c: CodeItem, relevance: Relevance) -> ResultModel {
    ResultModel {
        id: "code:"@ + c.html_url@,
        title: c.name@,
        subtitle: Some(c.repository.full_name@ + " \u{b7} "@ + c.path@),
        relevance,
        actions: seq![
            hinted_action("open"@, "Open file"@, "in browser"@),
            plain_action("copy-url"@, "Copy URL"@),
        ],
        icon: Some(ResultIconModel::Asset(IconAsset::Code)),
        badge: Some("code"@),
    }
}

/// The row of a file.
pub fn code_result(c: &CodeItem, relevance: Relevance) -> (row: ExtensionResult)
    ensures
        row.deep_view() == code_row(*c, relevance),
{
    let row = ExtensionResult {
        id: "code:".to_owned().concat(c.html_url.as_str()),
        title: c.name.clone(),
        subtitle: Some(
            c.repository.full_name.clone().concat(" \u{b7} ").concat(c.path.as_str()),
        ),
        relevance,
        actions: vec![
            Action::hinted("open", "Open file", "in browser"),
            Action::plain("copy-url", "Copy URL"),
        ],
        icon: Some(icon_code()),
        badge: Some("code".to_owned()),
    };
    assert(row.deep_view() =~= code_row(*c, relevance));
    row
}

/// What is said of a notification in one line.
pub open spec fn notif_line(n: NotifModel, now_ms: Option<u64>) -> Seq<char> {
    n.kind + " \u{b7} "@ + replaced(n.reason, '_', " "@) + " \u{b7} "@ + n.repo + (
    match n.updated_at {
        Some(ts) if humanized(ts, now_ms).len() > 0 => " \u{b7} "@ + humanized(ts, now_ms),
        _ => ""@,
    })
}

/// The row of a notification.
pub open spec fn notif_row(n: NotifModel, relevance: Relevance, now_ms: Option<u64>) -> ResultModel {
    ResultModel {
        id: "notif|"@ + n.html_url + "|"@ + n.kind + "|"@ + n.reason + "|"@ + n.repo,
        title: n.title,
        subtitle: Some(notif_line(n, now_ms)),
        relevance,
        actions: notif_menu(),
        icon: Some(ResultIconModel::Asset(IconAsset::Bell)),
        badge: Some(replaced(n.reason, '_', " "@)),
    }
}

/// The row of a notification.
pub fn notif_result(n: &CachedNotif, relevance: Relevance, now_ms: Option<u64>) -> (row:
    ExtensionResult)
    ensures
        row.deep_view() == notif_row(n.deep_view(), relevance, now_ms),
{
    let reason = replace(n.reason.as_str(), '_', " ");
    let mut sub = n.kind.clone().concat(" \u{b7} ").concat(reason.as_str()).concat(
        " \u{b7} ",
    ).concat(n.repo.as_str());
    proof {
        reveal_strlit("");
        assert(sub@ + ""@ =~= sub@);
    }
    if let Some(ts) = &n.updated_at {
        let when = humanize(ts.as_str(), now_ms);
        if !when.as_str().is_empty() {
            let ghost before = sub@;
            sub.append(" \u{b7} ");
            sub.append(when.as_str());
            assert(sub@ =~= before + (" \u{b7} "@ + when@));
        }
    }
    assert(sub@ == notif_line(n.deep_view(), now_ms));
    let id = "notif|".to_owned().concat(n.html_url.as_str()).concat("|").concat(
        n.kind.as_str(),
    ).concat("|").concat(n.reason.as_str()).concat("|").concat(n.repo.as_str());
    let row = ExtensionResult {
        id,
        title: n.title.clone(),
        subtitle: Some(sub),
        relevance,
        actions: notif_actions(),
        icon: Some(icon_bell()),
        badge: Some(reason),
    };
    assert(row.deep_view() =~= notif_row(n.deep_view(), relevance, now_ms));
    row
}

// ---------------------------------------------------------------------------
// Rows that say how things stand
// ---------------------------------------------------------------------------

/// The action that leads to the token settings.
pub open spec fn token_menu() -> Seq<ActionModel> {
    seq![hinted_action("open"@, "Open token settings"@, "github.com/settings/tokens"@)]
}

/// The row of a command that needs a token where there is none.
pub open spec fn notoken_row(cmd: Seq<char>) -> ResultModel {
    ResultModel {
        id: "gh:notoken"@,
        title: "GitHub token required"@,
        subtitle: Some(
            "\u{201c}"@ + cmd
                + "\u{201d} needs a personal access token - add one in extension settings"@,
        ),
        relevance: Relevance::Fixed(100),
        actions: token_menu(),
        icon: None,
        badge: Some("setup"@),
    }
}

/// The row of a command that needs a token where there is none.
pub fn notoken_result(cmd: &str) -> (row: ExtensionResult)
    ensures
        row.deep_view() == notoken_row(cmd@),
{
    let row = ExtensionResult {
        id: "gh:notoken".to_owned(),
        title: "GitHub token required".to_owned(),
        subtitle: Some(
            "\u{201c}".to_owned().concat(cmd).concat(
                "\u{201d} needs a personal access token - add one in extension settings",
            ),
        ),
        relevance: Relevance::Fixed(100),
        actions: vec![Action::hinted("open", "Open token settings", "github.com/settings/tokens")],
        icon: None,
        badge: Some("setup".to_owned()),
    };
    assert(row.deep_view() =~= notoken_row(cmd@));
    row
}

/// The row that says that the rate limit is hit, and what helps.
pub open spec fn rate_limit_row(has_token: bool) -> ResultModel {
    ResultModel {
        id: "gh:ratelimit"@,
        title: "GitHub rate limit hit"@,
        subtitle: Some(
            if has_token {
                "rate limit exhausted - try again in a minute"@
            } else {
                "add a GitHub token in extension settings for higher limits"@
            },
        ),
        relevance: Relevance::Fixed(1),
        actions: token_menu(),
        icon: None,
        badge: Some("rate limited"@),
    }
}

/// The row that says that the rate limit is hit, and what helps.
pub fn rate_limit_result(has_token: bool) -> (row: ExtensionResult)
    ensures
        row.deep_view() == rate_limit_row(has_token),
{
    let hint = if has_token {
        "rate limit exhausted - try again in a minute"
    } else {
        "add a GitHub token in extension settings for higher limits"
    };
    let row = ExtensionResult {
        id: "gh:ratelimit".to_owned(),
        title: "GitHub rate limit hit".to_owned(),
        subtitle: Some(hint.to_owned()),
        relevance: Relevance::Fixed(1),
        actions: vec![Action::hinted("open", "Open token settings", "github.com/settings/tokens")],
        icon: None,
        badge: Some("rate limited".to_owned()),
    };
    assert(row.deep_view() =~= rate_limit_row(has_token));
    row
}

/// The row that stands until live results come in. `mode` says which search of
/// the site it leads to.
pub open spec fn searching(term: Seq<char>, mode: Seq<char>) -> ResultModel {
    ResultModel {
        id: "gh:searching:"@ + mode + ":"@ + term,
        title: "Search GitHub for \u{201c}"@ + term + "\u{201d}"@,
        subtitle: Some("live results stream in"@),
        relevance: Relevance::Fixed(10),
        actions: seq![],
        icon: None,
        badge: Some("live"@),
    }
}

/// The row that stands until live results come in.
pub fn searching_row(term: &str, mode: &str) -> (row: ExtensionResult)
    ensures
        row.deep_view() == searching(term@, mode@),
{
    let row = ExtensionResult {
        id: "gh:searching:".to_owned().concat(mode).concat(":").concat(term),
        title: "Search GitHub for \u{201c}".to_owned().concat(term).concat("\u{201d}"),
        subtitle: Some("live results stream in".to_owned()),
        relevance: Relevance::Fixed(10),
        actions: Vec::new(),
        icon: None,
        badge: Some("live".to_owned()),
    };
    assert(row.deep_view() =~= searching(term@, mode@));
    row
}

/// The row of a dashboard that has nothing to show.
pub open spec fn empty(label: Seq<char>) -> ResultModel {
    ResultModel {
        id: "gh:empty"@,
        title: label,
        subtitle: Some("nothing to show"@),
        relevance: Relevance::Fixed(5),
        actions: seq![],
        icon: None,
        badge: None,
    }
}

/// The row of a dashboard that has nothing to show, so that it is never blank.
pub fn empty_row(label: &str) -> (row: ExtensionResult)
    ensures
        row.deep_view() == empty(label@),
{
    let row = ExtensionResult {
        id: "gh:empty".to_owned(),
        title: label.to_owned(),
        subtitle: Some("nothing to show".to_owned()),
        relevance: Relevance::Fixed(5),
        actions: Vec::new(),
        icon: None,
        badge: None,
    };
    assert(row.deep_view() =~= empty(label@));
    row
}

// ---------------------------------------------------------------------------
// What the rows say
// ---------------------------------------------------------------------------

/// A count in short is as near to it as its one digit behind the point allows:
/// whole under a thousand, then in thousands, then in millions.
pub proof fn law_count_in_short_is_near(n: u64)
    ensures
        n <= 999 ==> count_text(n) == decimal(n as nat),
        1_000 <= n <= 999_949 ==> exists|t: nat|
            count_text(n) == #[trigger] decimal(t / 10) + "."@ + decimal(t % 10) + "k"@ && -1_000
                <= 2 * (t * 1_000 - 10 * n) <= 1_000,
        999_950 <= n < 8_000_000_000_000_000 ==> exists|t: nat|
            count_text(n) == #[trigger] decimal(t / 10) + "."@ + decimal(t % 10) + "M"@
                && -1_000_000 <= 2 * (t * 1_000_000 - 10 * n) <= 1_000_000,
{
    if 1_000 <= n <= 999_949 {
        law_tenths_nearest(n as int, 1_000);
        let t = tenths_of(n as int, 1_000);
        lemma_one_decimal(t as nat);
        assert(t >= 0);
        assert(count_text(n) == decimal((t as nat) / 10) + "."@ + decimal((t as nat) % 10) + "k"@);
    } else if 999_950 <= n < 8_000_000_000_000_000 {
        assert(nearest_double(n as int) == n as int);
        law_tenths_nearest(n as int, 1_000_000);
        let t = tenths_of(n as int, 1_000_000);
        lemma_one_decimal(t as nat);
        assert(t >= 0);
        assert(count_text(n) == decimal((t as nat) / 10) + "."@ + decimal((t as nat) % 10) + "M"@);
    }
}

proof fn lemma_one_decimal(t: nat)
    ensures
        one_decimal(t as int) == decimal(t / 10) + "."@ + decimal(t % 10),
{
    assert(decimal(t % 10) =~= seq![digit(t % 10)]);
}

/// A merged pull request is merged, whatever else is said of it; a closed one is
/// closed though it was a draft; only an open one is a draft or open.
pub proof fn law_state_of_pull_request(is_open: bool, merged: bool, draft: bool)
    ensures
        pr_state_text(is_open, true, draft) == "merged"@,
        pr_state_text(false, false, draft) == "closed"@,
        pr_state_text(true, false, true) == "draft"@,
        pr_state_text(true, false, false) == "open"@,
{
}

/// The row of an issue or a pull request says its title, state, kind, number and
/// comments; its badge is that of the search that brought it, or else its state.
pub proof fn law_issue_row_says_what_it_is(i: IssueModel, relevance: Relevance)
    ensures
        ({
            let row = issue_row(i, relevance);
            let state = if i.is_pr {
                pr_state_text(i.state == "open"@, i.merged, i.draft)
            } else {
                i.state
            };
            let kind = if i.is_pr {
                "PR"@
            } else {
                "issue"@
            };
            &&& row.title == i.title
            &&& row.relevance == relevance
            &&& row.subtitle == Some(
                state + " "@ + kind + " \u{b7} "@ + (i.repo + "#"@ + decimal(i.number as nat))
                    + " \u{b7} "@ + count_text(i.comments) + " comments"@,
            )
            &&& row.badge == Some(
                if i.badge.len() > 0 {
                    i.badge
                } else {
                    state
                },
            )
            &&& row.icon == Some(
                ResultIconModel::Asset(
                    if i.is_pr {
                        IconAsset::PullRequest
                    } else {
                        IconAsset::Issue
                    },
                ),
            )
        }),
{
}

/// What is kept of an item of a search says what the item said: a pull request is
/// what has a part for one, and merged where that names a time.
pub proof fn law_item_is_kept_as_it_came(i: IssueItem, badge: Seq<char>)
    ensures
        issue_kept(i, badge) is Some <==> repo_in_url(i.repository_url@) is Some,
        issue_kept(i, badge) matches Some(c) ==> ({
            &&& Some(c.repo) == repo_in_url(i.repository_url@)
            &&& c.number == i.number
            &&& c.title == i.title@
            &&& c.state == i.state@
            &&& c.comments == i.comments
            &&& c.draft == i.draft
            &&& c.badge == badge
            &&& c.is_pr <==> i.pull_request is Some
            &&& c.merged <==> (i.pull_request matches Some(p) && p.merged_at is Some)
        }),
{
}

/// The row of a repository says its stars, language and description, as far as
/// there are any; a private one is told, a starred one too.
pub proof fn law_repo_row_says_what_it_is(
    r: RepoModel,
    relevance: Relevance,
    badge: Seq<char>,
    language: Seq<char>,
    description: Seq<char>,
)
    requires
        description.len() > 0,
    ensures
        ({
            let row = repo_row(r, relevance, badge);
            let star = starred_row(r, relevance);
            &&& row.title == r.full_name && star.title == r.full_name
            &&& row.relevance == relevance && star.relevance == relevance
            &&& row.subtitle == star.subtitle
            &&& row.badge == Some(
                if r.private {
                    "private"@
                } else {
                    badge
                },
            )
            &&& star.badge == Some("starred"@)
            &&& row.subtitle == Some(repo_line(r.stars, r.language, r.description))
        }),
        ({
            let stars = "\u{2605} "@ + count_text(r.stars);
            let dot = " \u{b7} "@;
            &&& repo_line(r.stars, None, None) == stars
            &&& repo_line(r.stars, Some(language), None) == stars + dot + language
            &&& repo_line(r.stars, None, Some(description)) == stars + dot + description
            &&& repo_line(r.stars, Some(language), Some(description)) == stars + dot + language
                + dot + description
        }),
{
    let stars = "\u{2605} "@ + count_text(r.stars);
    let dot = " \u{b7} "@;
    reveal_with_fuel(joined, 4);
    let none: Seq<Seq<char>> = seq![];
    let one = seq![stars];
    let two = seq![stars, language];
    let other = seq![stars, description];
    let three = seq![stars, language, description];
    assert(one + none + none =~= one);
    assert(one + seq![language] + none =~= two);
    assert(one + none + seq![description] =~= other);
    assert(one + seq![language] + seq![description] =~= three);
    assert(two.drop_last() =~= one);
    assert(other.drop_last() =~= one);
    assert(three.drop_last() =~= two);
}

/// The rows of users and notifications say what they are: an organization is told
/// from a user whatever the case; a reason is read without underscores.
pub proof fn law_user_and_notif_rows_say_what_they_are(
    login: Seq<char>,
    relevance: Relevance,
    n: NotifModel,
    now_ms: Option<u64>,
)
    ensures
        user_row(login, "Organization"@, relevance).badge == Some("organization"@),
        user_row(login, "organization"@, relevance).badge == Some("organization"@),
        user_row(login, "User"@, relevance).badge == Some("user"@),
        user_row(login, "User"@, relevance).title == login,
        user_row(login, "Organization"@, relevance).subtitle == Some("GitHub "@ + "organization"@),
        notif_row(n, relevance, now_ms).title == n.title,
        notif_row(n, relevance, now_ms).badge == Some(replaced(n.reason, '_', " "@)),
        n.updated_at is None ==> notif_row(n, relevance, now_ms).subtitle == Some(
            n.kind + " \u{b7} "@ + replaced(n.reason, '_', " "@) + " \u{b7} "@ + n.repo,
        ),
        n.updated_at matches Some(ts) ==> humanized(ts, now_ms).len() > 0 ==> notif_row(
            n,
            relevance,
            now_ms,
        ).subtitle == Some(
            n.kind + " \u{b7} "@ + replaced(n.reason, '_', " "@) + " \u{b7} "@ + n.repo + (
            " \u{b7} "@ + humanized(ts, now_ms)),
        ),
{
    reveal_strlit("Organization");
    reveal_strlit("organization");
    reveal_strlit("User");
    reveal_strlit("");
    assert(same_ignoring_ascii_case("Organization"@, "organization"@));
    assert(same_ignoring_ascii_case("organization"@, "organization"@));
    assert("User"@.len() != "organization"@.len());
    let line = n.kind + " \u{b7} "@ + replaced(n.reason, '_', " "@) + " \u{b7} "@ + n.repo;
    assert(line + ""@ =~= line);
}

/// What is offered with a file: to open it or copy its address.
pub proof fn law_file_is_opened_or_its_address_copied(c: CodeItem, relevance: Relevance)
    ensures
        ({
            let menu = code_row(c, relevance).actions;
            &&& menu.len() == 2
            &&& menu[0].id == "open"@ && menu[0].label == "Open file"@
            &&& menu[1].id == "copy-url"@ && menu[1].label == "Copy URL"@
        }),
        code_row(c, relevance).relevance == relevance,
        code_row(c, relevance).badge == Some("code"@),
{
}

/// How the rows that say how things stand rank: that a token is needed comes first,
/// and a search under way comes above an empty dashboard, which comes above a rate
/// limit. Those that a token helps lead to the token settings.
pub proof fn law_status_rows_rank(cmd: Seq<char>, mode: Seq<char>, has_token: bool)
    ensures
        notoken_row(cmd).relevance == Relevance::Fixed(100),
        searching(cmd, mode).relevance == Relevance::Fixed(10),
        empty(cmd).relevance == Relevance::Fixed(5),
        rate_limit_row(has_token).relevance == Relevance::Fixed(1),
        notoken_row(cmd).id == "gh:notoken"@ && rate_limit_row(has_token).id == "gh:ratelimit"@,
        empty(cmd).id == "gh:empty"@ && searching(cmd, mode).id == "gh:searching:"@ + mode + ":"@
            + cmd,
        notoken_row(cmd).actions == rate_limit_row(has_token).actions,
        notoken_row(cmd).actions.len() == 1 && notoken_row(cmd).actions[0].id == "open"@,
        notoken_row(cmd).subtitle == Some(
            "\u{201c}"@ + cmd
                + "\u{201d} needs a personal access token - add one in extension settings"@,
        ),
        empty(cmd).subtitle == Some("nothing to show"@),
        searching(cmd, mode).subtitle == Some("live results stream in"@),
{
}

/// What helps where a token is missing leads to the token settings, and says so.
pub proof fn law_token_menu_leads_to_settings()
    ensures
        token_menu().len() == 1,
        token_menu()[0].id == "open"@ && token_menu()[0].label == "Open token settings"@,
        token_menu()[0].hint == Some("github.com/settings/tokens"@),
{
}

} // verus!
