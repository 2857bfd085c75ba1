//! The live tier: what is asked of the API for a command, and what is shown and
//! kept of each answer.
use vstd::prelude::*;
use vstd::string::*;
use vstd::utf8::*;

use crate::encode::{law_urlencode_reversible, law_urlencode_safe, percent_decoded, query_char, urlencode, urlencoded};
use crate::gh::api::{
    is_rate_limited, merge_repo_cache, merged_repos, notif_html_url, notif_page, rate_limited,
    repo_in_url,
    CachedIssue, CachedNotif, CachedRepo, CodeItem, IssueItem, IssueModel, Kept, KeptModel,
    NotifModel, NotificationItem, RepoItem, RepoModel, Reply, SearchResp, UserItem,
};
use crate::gh::render::{
    code_result, code_row, empty, empty_row, issue_item_to_cached, issue_kept, issue_result,
    issue_row, rate_limit_result, rate_limit_row, repo_result, repo_row, user_result, user_row,
};
use crate::gh::search::{
    is_token_gated, issue_rows, law_blank_term_shows_all, matching_issues, matching_notifs, matching_repos, notif_rows,
    ranked, repo_rows, rows_of_issues, rows_of_notifs, rows_of_repos, shown_issues, shown_notifs,
    shown_repos, token_gated,
};
use crate::host::{law_ranked_descending, ExtensionResult, Relevance, ResultModel};
use crate::text::{at_most, copy_option, decimal, decimal_text, same, trim, trimmed};

verus! {

/// How many results are asked for: the setting, within 1 and 15; 6 where there
/// is none.
pub open spec fn endpoint_max(setting: Option<u32>) -> u32 {
    match setting {
        Some(n) => if n < 1 {
            1
        } else if n > 15 {
            15
        } else {
            n
        },
        None => 6,
    }
}

/// How many results are asked for.
pub fn max_per_endpoint(setting: Option<u32>) -> (r: u32)
    ensures
        r == endpoint_max(setting),
        1 <= r <= 15,
{
    match setting {
        Some(n) => if n < 1 {
            1
        } else if n > 15 {
            15
        } else {
            n
        },
        None => 6,
    }
}

// ---------------------------------------------------------------------------
// What is asked
// ---------------------------------------------------------------------------

/// What is asked of the API for a command: the path of a request, or for a
/// dashboard of issues the badge and path of each.
#[derive(Debug, PartialEq, Eq)]
pub enum QueryPlan {
    Nothing,
    Repos(String),
    Issues(String),
    Code(String),
    Users(String),
    MyPrs(Vec<(String, String)>),
    MyIssues(Vec<(String, String)>),
    MyRepos(String),
    Starred(String),
    Notifications(String),
}

#[verifier::ext_equal]
pub enum PlanModel {
    Nothing,
    Repos(Seq<char>),
    Issues(Seq<char>),
    Code(Seq<char>),
    Users(Seq<char>),
    MyPrs(Seq<(Seq<char>, Seq<char>)>),
    MyIssues(Seq<(Seq<char>, Seq<char>)>),
    MyRepos(Seq<char>),
    Starred(Seq<char>),
    Notifications(Seq<char>),
}

impl DeepView for QueryPlan {
    type V = PlanModel;

    open spec fn deep_view(&self) -> PlanModel {
        match self {
            QueryPlan::Nothing => PlanModel::Nothing,
            QueryPlan::Repos(path) => PlanModel::Repos(path@),
            QueryPlan::Issues(path) => PlanModel::Issues(path@),
            QueryPlan::Code(path) => PlanModel::Code(path@),
            QueryPlan::Users(path) => PlanModel::Users(path@),
            QueryPlan::MyPrs(paths) => PlanModel::MyPrs(paths.deep_view()),
            QueryPlan::MyIssues(paths) => PlanModel::MyIssues(paths.deep_view()),
            QueryPlan::MyRepos(path) => PlanModel::MyRepos(path@),
            QueryPlan::Starred(path) => PlanModel::Starred(path@),
            QueryPlan::Notifications(path) => PlanModel::Notifications(path@),
        }
    }
}

/// The path of a search in one kind of things.
pub open spec fn search_path(kind: Seq<char>, q: Seq<char>, max: u32) -> Seq<char> {
    "/search/"@ + kind + "?q="@ + urlencoded(q) + "&per_page="@ + decimal(max as nat)
}

/// The path of a dashboard's search, what changed last first.
pub open spec fn dashboard_path(qualifiers: Seq<char>) -> Seq<char> {
    "/search/issues?q="@ + urlencoded(qualifiers) + "&sort=updated&order=desc&per_page=25"@
}

/// A search among issues by title. The API asks for a type, so that one of
/// "is:issue" and "is:pr" has to be there.
pub open spec fn titled(term: Seq<char>, kind_qual: Seq<char>) -> Seq<char> {
    term + " in:title "@ + kind_qual
}

/// The searches of the dashboard of pull requests, each with its badge.
pub open spec fn my_pr_paths() -> Seq<(Seq<char>, Seq<char>)> {
    seq![
        ("mine"@, dashboard_path("is:pr is:open author:@me"@)),
        ("review"@, dashboard_path("is:pr is:open review-requested:@me"@)),
        ("assigned"@, dashboard_path("is:pr is:open assignee:@me"@)),
    ]
}

/// The searches of the dashboard of issues, each with its badge.
pub open spec fn my_issue_paths() -> Seq<(Seq<char>, Seq<char>)> {
    seq![
        ("mine"@, dashboard_path("is:issue is:open author:@me"@)),
        ("assigned"@, dashboard_path("is:issue is:open assignee:@me"@)),
        ("mentioned"@, dashboard_path("is:issue is:open mentions:@me"@)),
    ]
}

/// What is asked for a command. Nothing is asked without the token that it
/// needs, nor for a blank search.
pub open spec fn plan_of(cmd: Seq<char>, query: Seq<char>, has_token: bool, max: u32) -> PlanModel {
    let term = trimmed(query);
    if token_gated(cmd) && !has_token {
        PlanModel::Nothing
    } else if cmd == "issues"@ && term.len() > 0 {
        PlanModel::Issues(search_path("issues"@, titled(term, "is:issue"@), max))
    } else if cmd == "prs"@ && term.len() > 0 {
        PlanModel::Issues(search_path("issues"@, titled(term, "is:pr"@), max))
    } else if cmd == "code"@ && term.len() > 0 {
        PlanModel::Code(search_path("code"@, term, max))
    } else if cmd == "users"@ && term.len() > 0 {
        PlanModel::Users(search_path("users"@, term, max))
    } else if cmd == "repos"@ && term.len() > 0 {
        PlanModel::Repos(search_path("repositories"@, term, max))
    } else if cmd == "my-prs"@ {
        PlanModel::MyPrs(my_pr_paths())
    } else if cmd == "my-issues"@ {
        PlanModel::MyIssues(my_issue_paths())
    } else if cmd == "my-repos"@ {
        PlanModel::MyRepos("/user/repos?sort=pushed&per_page=100"@)
    } else if cmd == "starred"@ {
        PlanModel::Starred("/user/starred?sort=updated&per_page=100"@)
    } else if cmd == "notifications"@ {
        PlanModel::Notifications("/notifications?per_page=50"@)
    } else {
        PlanModel::Nothing
    }
}

fn path_of_search(kind: &str, q: &str, max: u32) -> (r: String)
    ensures
        r@ == search_path(kind@, q@, max),
{
    let q = urlencode(q);
    let max = decimal_text(max as u64);
    "/search/".to_owned().concat(kind).concat("?q=").concat(q.as_str()).concat("&per_page=").concat(
        max.as_str(),
    )
}

fn path_of_dashboard(qualifiers: &str) -> (r: String)
    ensures
        r@ == dashboard_path(qualifiers@),
{
    let q = urlencode(qualifiers);
    "/search/issues?q=".to_owned().concat(q.as_str()).concat(
        "&sort=updated&order=desc&per_page=25",
    )
}

fn title_query(term: &str, kind_qual: &str) -> (r: String)
    ensures
        r@ == titled(term@, kind_qual@),
{
    term.to_owned().concat(" in:title ").concat(kind_qual)
}

/// What is asked of the API for a command.
pub fn query(cmd: &str, input: &str, has_token: bool, max: u32) -> (r: QueryPlan)
    ensures
        r.deep_view() == plan_of(cmd@, input@, has_token, max),
{
    let term = trim(input);
    let term = term.as_str();
    let blank = term.is_empty();
    if is_token_gated(cmd) && !has_token {
        return QueryPlan::Nothing;
    }
    if same(cmd, "issues") && !blank {
        let q = title_query(term, "is:issue");
        QueryPlan::Issues(path_of_search("issues", q.as_str(), max))
    } else if same(cmd, "prs") && !blank {
        let q = title_query(term, "is:pr");
        QueryPlan::Issues(path_of_search("issues", q.as_str(), max))
    } else if same(cmd, "code") && !blank {
        QueryPlan::Code(path_of_search("code", term, max))
    } else if same(cmd, "users") && !blank {
        QueryPlan::Users(path_of_search("users", term, max))
    } else if same(cmd, "repos") && !blank {
        QueryPlan::Repos(path_of_search("repositories", term, max))
    } else if same(cmd, "my-prs") {
        let paths = vec![
            ("mine".to_owned(), path_of_dashboard("is:pr is:open author:@me")),
            ("review".to_owned(), path_of_dashboard("is:pr is:open review-requested:@me")),
            ("assigned".to_owned(), path_of_dashboard("is:pr is:open assignee:@me")),
        ];
        assert(paths.deep_view() =~= my_pr_paths());
        QueryPlan::MyPrs(paths)
    } else if same(cmd, "my-issues") {
        let paths = vec![
            ("mine".to_owned(), path_of_dashboard("is:issue is:open author:@me")),
            ("assigned".to_owned(), path_of_dashboard("is:issue is:open assignee:@me")),
            ("mentioned".to_owned(), path_of_dashboard("is:issue is:open mentions:@me")),
        ];
        assert(paths.deep_view() =~= my_issue_paths());
        QueryPlan::MyIssues(paths)
    } else if same(cmd, "my-repos") {
        QueryPlan::MyRepos("/user/repos?sort=pushed&per_page=100".to_owned())
    } else if same(cmd, "starred") {
        QueryPlan::Starred("/user/starred?sort=updated&per_page=100".to_owned())
    } else if same(cmd, "notifications") {
        QueryPlan::Notifications("/notifications?per_page=50".to_owned())
    } else {
        QueryPlan::Nothing
    }
}

// ---------------------------------------------------------------------------
// What becomes of an answer
// ---------------------------------------------------------------------------

/// What becomes of an answer: lines for the log, what is shown, what is kept.
#[derive(Debug, PartialEq, Eq)]
pub struct Live {
    pub log: Vec<String>,
    pub emit: Option<Vec<ExtensionResult>>,
    pub keep: Kept,
}

#[verifier::ext_equal]
pub struct LiveModel {
    pub log: Seq<Seq<char>>,
    pub emit: Option<Seq<ResultModel>>,
    pub keep: KeptModel,
}

impl DeepView for Live {
    type V = LiveModel;

    open spec fn deep_view(&self) -> LiveModel {
        LiveModel {
            log: self.log.deep_view(),
            emit: self.emit.deep_view(),
            keep: self.keep.deep_view(),
        }
    }
}

/// Nothing comes of it.
pub open spec fn no_outcome() -> LiveModel {
    LiveModel { log: seq![], emit: None, keep: KeptModel::Nothing }
}

/// The line for a status that is no success.
pub open spec fn status_line(ctx: Seq<char>, status: u16) -> Seq<char> {
    ctx + " failed ("@ + decimal(status as nat) + ")"@
}

/// The line for a request that failed.
pub open spec fn error_line(ctx: Seq<char>, error: Seq<char>) -> Seq<char> {
    ctx + " error: "@ + error
}

/// What becomes of an answer that brings nothing: a rate limit is shown, other
/// failures go to the log, and a body that cannot be read is passed over.
pub open spec fn unanswered<T>(ctx: Seq<char>, reply: Reply<T>, has_token: bool) -> LiveModel {
    match reply {
        Reply::Failed(e) => LiveModel {
            log: seq![error_line(ctx, e@)],
            emit: None,
            keep: KeptModel::Nothing,
        },
        Reply::Answered { status, .. } => if status == 200 {
            no_outcome()
        } else if rate_limited(status) {
            LiveModel {
                log: seq![ctx + " rate limited ("@ + decimal(status as nat) + ")"@],
                emit: Some(seq![rate_limit_row(has_token)]),
                keep: KeptModel::Nothing,
            }
        } else {
            LiveModel {
                log: seq![status_line(ctx, status)],
                emit: None,
                keep: KeptModel::Nothing,
            }
        },
    }
}

pub(crate) fn log_status(ctx: &str, status: u16) -> (r: String)
    ensures
        r@ == status_line(ctx@, status),
{
    let n = decimal_text(status as u64);
    ctx.to_owned().concat(" failed (").concat(n.as_str()).concat(")")
}

pub(crate) fn log_err(ctx: &str, e: &str) -> (r: String)
    ensures
        r@ == error_line(ctx@, e@),
{
    ctx.to_owned().concat(" error: ").concat(e)
}

fn emit_one(row: ExtensionResult) -> (r: Vec<ExtensionResult>)
    ensures
        r.deep_view() == seq![row.deep_view()],
{
    let r = vec![row];
    assert(r.deep_view() =~= seq![row.deep_view()]);
    r
}

fn outcome_without<T>(ctx: &str, reply: &Reply<T>, has_token: bool) -> (r: Live)
    ensures
        r.deep_view() == unanswered(ctx@, *reply, has_token),
{
    match reply {
        Reply::Failed(e) => Live {
            log: vec![log_err(ctx, e.as_str())],
            emit: None,
            keep: Kept::Nothing,
        },
        Reply::Answered { status, .. } => if *status == 200 {
            Live { log: Vec::new(), emit: None, keep: Kept::Nothing }
        } else if is_rate_limited(*status) {
            let n = decimal_text(*status as u64);
            Live {
                log: vec![ctx.to_owned().concat(" rate limited (").concat(n.as_str()).concat(")")],
                emit: Some(emit_one(rate_limit_result(has_token))),
                keep: Kept::Nothing,
            }
        } else {
            Live { log: vec![log_status(ctx, *status)], emit: None, keep: Kept::Nothing }
        },
    }
}

// ---------------------------------------------------------------------------
// Searches
// ---------------------------------------------------------------------------

/// The score of a row of a live search.
pub open spec fn live_rank(i: int, n: int, top: u32) -> Relevance {
    Relevance::Ranked { index: i as usize, count: n as usize, top, span: 30 }
}

/// The rows of a search for repositories.
pub open spec fn live_repo_rows(items: Seq<RepoModel>) -> Seq<ResultModel> {
    Seq::new(items.len(), |i: int| repo_row(items[i], live_rank(i, items.len() as int, 95), "live"@))
}

/// What becomes of an answer to a search for repositories: they are shown, and
/// kept if they were wanted.
pub open spec fn repos_outcome(reply: Reply<SearchResp<RepoItem>>, has_token: bool) -> LiveModel {
    match reply {
        Reply::Answered { status, value: Ok(resp) } if status == 200 => LiveModel {
            log: seq![],
            emit: Some(live_repo_rows(resp.items.deep_view())),
            keep: KeptModel::Repos(resp.items.deep_view()),
        },
        _ => unanswered("repo search"@, reply, has_token),
    }
}

pub(crate) fn repos_of_items(items: &Vec<RepoItem>) -> (r: Vec<CachedRepo>)
    ensures
        r.deep_view() == items.deep_view(),
{
    let ghost all = items.deep_view();
    let mut out: Vec<CachedRepo> = Vec::new();
    let mut i: usize = 0;
    while i < items.len()
        invariant
            i <= items.len(),
            all == items.deep_view(),
            out.deep_view() == all.take(i as int),
        decreases items.len() - i,
    {
        let ghost before = out.deep_view();
        out.push(CachedRepo::from(&items[i]));
        assert(out.deep_view() =~= before.push(all[i as int]));
        assert(all.take(i + 1) =~= before.push(all[i as int]));
        i = i + 1;
    }
    assert(all.take(i as int) =~= all);
    out
}

/// What becomes of an answer to a search for repositories.
pub fn query_repos(reply: &Reply<SearchResp<RepoItem>>, has_token: bool) -> (r: Live)
    ensures
        r.deep_view() == repos_outcome(*reply, has_token),
{
    match reply {
        Reply::Answered { status, value: Ok(resp) } if *status == 200 => {
            let cached = repos_of_items(&resp.items);
            let ghost all = live_repo_rows(cached.deep_view());
            let n = cached.len();
            let mut out: Vec<ExtensionResult> = Vec::new();
            let mut i: usize = 0;
            while i < n
                invariant
                    i <= n,
                    n == cached.len(),
                    all == live_repo_rows(cached.deep_view()),
                    out.deep_view() == all.take(i as int),
                decreases n - i,
            {
                let ghost before = out.deep_view();
                let row = repo_result(&cached[i], ranked(i, n, 95, 30), "live");
                assert(row.deep_view() == all[i as int]);
                out.push(row);
                assert(out.deep_view() =~= before.push(all[i as int]));
                assert(all.take(i + 1) =~= before.push(all[i as int]));
                i = i + 1;
            }
            assert(all.take(i as int) =~= all);
            Live { log: Vec::new(), emit: Some(out), keep: Kept::Repos(cached) }
        },
        _ => outcome_without("repo search", reply, has_token),
    }
}

/// What is kept once live repositories were shown.
pub open spec fn kept_after(fresh: Seq<RepoModel>, kept: Seq<RepoModel>, wanted: bool) -> Option<
    Seq<RepoModel>,
> {
    if wanted {
        Some(merged_repos(fresh, kept))
    } else {
        None
    }
}

/// What is kept once live repositories were shown: they go before those that are
/// kept, unless the launcher no longer wanted them.
pub fn keep_shown_repos(fresh: &Vec<CachedRepo>, kept: Vec<CachedRepo>, wanted: bool) -> (r: Option<
    Vec<CachedRepo>,
>)
    ensures
        r.deep_view() == kept_after(fresh.deep_view(), kept.deep_view(), wanted),
{
    if wanted {
        Some(merge_repo_cache(fresh, kept))
    } else {
        None
    }
}

/// The rows of a search for issues or pull requests among `n` answers. What names
/// no repository is left out, and keeps its place in the scores.
pub open spec fn live_issue_rows(items: Seq<IssueItem>, n: int) -> Seq<ResultModel>
    decreases items.len(),
{
    if items.len() == 0 {
        seq![]
    } else {
        let head = live_issue_rows(items.drop_last(), n);
        match issue_kept(items.last(), ""@) {
            Some(c) => head.push(issue_row(c, live_rank(items.len() - 1, n, 80))),
            None => head,
        }
    }
}

/// What becomes of an answer to a search for issues or pull requests.
pub open spec fn issues_outcome(reply: Reply<SearchResp<IssueItem>>, has_token: bool) -> LiveModel {
    match reply {
        Reply::Answered { status, value: Ok(resp) } if status == 200 => LiveModel {
            log: seq![],
            emit: Some(live_issue_rows(resp.items@, resp.items@.len() as int)),
            keep: KeptModel::Nothing,
        },
        _ => unanswered("issue search"@, reply, has_token),
    }
}

/// What becomes of an answer to a search for issues or pull requests.
pub fn query_issue_search(reply: &Reply<SearchResp<IssueItem>>, has_token: bool) -> (r: Live)
    ensures
        r.deep_view() == issues_outcome(*reply, has_token),
{
    match reply {
        Reply::Answered { status, value: Ok(resp) } if *status == 200 => {
            let items = &resp.items;
            let n = items.len();
            let mut out: Vec<ExtensionResult> = Vec::new();
            let mut i: usize = 0;
            assert(items@.take(0) =~= Seq::<IssueItem>::empty());
            assert(out.deep_view() =~= live_issue_rows(items@.take(0), n as int));
            while i < n
                invariant
                    i <= n,
                    n == items.len(),
                    out.deep_view() == live_issue_rows(items@.take(i as int), n as int),
                decreases n - i,
            {
                let ghost before = out.deep_view();
                assert(items@.take(i + 1).drop_last() =~= items@.take(i as int));
                assert(items@.take(i + 1).last() == items[i as int]);
                if let Some(c) = issue_item_to_cached(&items[i], "") {
                    let row = issue_result(&c, ranked(i, n, 80, 30));
                    out.push(row);
                    assert(out.deep_view() =~= before.push(row.deep_view()));
                }
                i = i + 1;
            }
            assert(items@.take(i as int) =~= items@);
            Live { log: Vec::new(), emit: Some(out), keep: Kept::Nothing }
        },
        _ => outcome_without("issue search", reply, has_token),
    }
}

/// The rows of a search for code.
pub open spec fn live_code_rows(items: Seq<CodeItem>) -> Seq<ResultModel> {
    Seq::new(items.len(), |i: int| code_row(items[i], live_rank(i, items.len() as int, 80)))
}

/// What becomes of an answer to a search for code.
pub open spec fn code_outcome(reply: Reply<SearchResp<CodeItem>>, has_token: bool) -> LiveModel {
    match reply {
        Reply::Answered { status, value: Ok(resp) } if status == 200 => LiveModel {
            log: seq![],
            emit: Some(live_code_rows(resp.items@)),
            keep: KeptModel::Nothing,
        },
        _ => unanswered("code search"@, reply, has_token),
    }
}

/// What becomes of an answer to a search for code.
pub fn query_code(reply: &Reply<SearchResp<CodeItem>>, has_token: bool) -> (r: Live)
    ensures
        r.deep_view() == code_outcome(*reply, has_token),
{
    match reply {
        Reply::Answered { status, value: Ok(resp) } if *status == 200 => {
            let items = &resp.items;
            let ghost all = live_code_rows(items@);
            let n = items.len();
            let mut out: Vec<ExtensionResult> = Vec::new();
            let mut i: usize = 0;
            while i < n
                invariant
                    i <= n,
                    n == items.len(),
                    all == live_code_rows(items@),
                    out.deep_view() == all.take(i as int),
                decreases n - i,
            {
                let ghost before = out.deep_view();
                let row = code_result(&items[i], ranked(i, n, 80, 30));
                assert(row.deep_view() == all[i as int]);
                out.push(row);
                assert(out.deep_view() =~= before.push(all[i as int]));
                assert(all.take(i + 1) =~= before.push(all[i as int]));
                i = i + 1;
            }
            assert(all.take(i as int) =~= all);
            Live { log: Vec::new(), emit: Some(out), keep: Kept::Nothing }
        },
        _ => outcome_without("code search", reply, has_token),
    }
}

/// The rows of a search for users.
pub open spec fn live_user_rows(items: Seq<UserItem>) -> Seq<ResultModel> {
    Seq::new(
        items.len(),
        |i: int| user_row(items[i].login@, items[i].kind@, live_rank(i, items.len() as int, 80)),
    )
}

/// What becomes of an answer to a search for users.
pub open spec fn users_outcome(reply: Reply<SearchResp<UserItem>>, has_token: bool) -> LiveModel {
    match reply {
        Reply::Answered { status, value: Ok(resp) } if status == 200 => LiveModel {
            log: seq![],
            emit: Some(live_user_rows(resp.items@)),
            keep: KeptModel::Nothing,
        },
        _ => unanswered("user search"@, reply, has_token),
    }
}

/// What becomes of an answer to a search for users.
pub fn query_users(reply: &Reply<SearchResp<UserItem>>, has_token: bool) -> (r: Live)
    ensures
        r.deep_view() == users_outcome(*reply, has_token),
{
    match reply {
        Reply::Answered { status, value: Ok(resp) } if *status == 200 => {
            let items = &resp.items;
            let ghost all = live_user_rows(items@);
            let n = items.len();
            let mut out: Vec<ExtensionResult> = Vec::new();
            let mut i: usize = 0;
            while i < n
                invariant
                    i <= n,
                    n == items.len(),
                    all == live_user_rows(items@),
                    out.deep_view() == all.take(i as int),
                decreases n - i,
            {
                let ghost before = out.deep_view();
                let row = user_result(&items[i], ranked(i, n, 80, 30));
                assert(row.deep_view() == all[i as int]);
                out.push(row);
                assert(out.deep_view() =~= before.push(all[i as int]));
                assert(all.take(i + 1) =~= before.push(all[i as int]));
                i = i + 1;
            }
            assert(all.take(i as int) =~= all);
            Live { log: Vec::new(), emit: Some(out), keep: Kept::Nothing }
        },
        _ => outcome_without("user search", reply, has_token),
    }
}

// ---------------------------------------------------------------------------
// Dashboards
// ---------------------------------------------------------------------------

/// A dashboard of repositories: those that a term matches, or the row that says
/// that there are none.
pub open spec fn repo_dashboard(rows: Seq<RepoModel>, term: Seq<char>, starred: bool) -> Seq<
    ResultModel,
> {
    let list = at_most(matching_repos(rows, term), 40);
    if list.len() == 0 {
        seq![
            empty(
                if starred {
                    "No starred repositories"@
                } else {
                    "No repositories"@
                },
            ),
        ]
    } else {
        repo_rows(list, list.len() as int, starred)
    }
}

/// A dashboard of repositories.
pub fn emit_dashboard_repos(rows: &Vec<CachedRepo>, term: &str, starred: bool) -> (r: Vec<
    ExtensionResult,
>)
    ensures
        r.deep_view() == repo_dashboard(rows.deep_view(), term@, starred),
{
    let shown = shown_repos(rows, term);
    assert(shown.deep_view().len() == shown.len());
    if shown.len() == 0 {
        let label = if starred {
            "No starred repositories"
        } else {
            "No repositories"
        };
        return emit_one(empty_row(label));
    }
    rows_of_repos(&shown, shown.len(), starred)
}

/// A dashboard of issues or pull requests: those that a term matches, or a row
/// that says that there are none, or that the rate limit is hit.
pub open spec fn issue_dashboard(
    rows: Seq<IssueModel>,
    term: Seq<char>,
    limited: bool,
    has_token: bool,
) -> Seq<ResultModel> {
    let list = at_most(matching_issues(rows, term), 40);
    if list.len() > 0 {
        issue_rows(list, list.len() as int)
    } else if limited {
        seq![rate_limit_row(has_token)]
    } else {
        seq![empty("Nothing open right now"@)]
    }
}

/// A dashboard of issues or pull requests.
pub fn emit_dashboard_issues(
    rows: &Vec<CachedIssue>,
    term: &str,
    rate_limited: bool,
    has_token: bool,
) -> (r: Vec<ExtensionResult>)
    ensures
        r.deep_view() == issue_dashboard(rows.deep_view(), term@, rate_limited, has_token),
{
    let shown = shown_issues(rows, term);
    assert(shown.deep_view().len() == shown.len());
    if shown.len() == 0 {
        return if rate_limited {
            emit_one(rate_limit_result(has_token))
        } else {
            emit_one(empty_row("Nothing open right now"))
        };
    }
    rows_of_issues(&shown, shown.len())
}

/// A dashboard of notifications: those that a term matches, or the row that says
/// that there are none.
pub open spec fn notif_dashboard(
    rows: Seq<NotifModel>,
    term: Seq<char>,
    now_ms: Option<u64>,
) -> Seq<ResultModel> {
    let list = at_most(matching_notifs(rows, term), 40);
    if list.len() == 0 {
        seq![empty("You're all caught up"@)]
    } else {
        notif_rows(list, list.len() as int, now_ms)
    }
}

/// Whether a row for that issue or pull request is there.
pub open spec fn knows_issue(rows: Seq<IssueModel>, repo: Seq<char>, number: u64) -> bool {
    exists|i: int| 0 <= i < rows.len() && #[trigger] rows[i].repo == repo && rows[i].number == number
}

/// The rows with those of one more search behind them. What an earlier search
/// brought keeps its badge.
pub open spec fn with_issues(
    rows: Seq<IssueModel>,
    items: Seq<IssueItem>,
    badge: Seq<char>,
) -> Seq<IssueModel>
    decreases items.len(),
{
    if items.len() == 0 {
        rows
    } else {
        let head = with_issues(rows, items.drop_last(), badge);
        match issue_kept(items.last(), badge) {
            Some(c) if !knows_issue(head, c.repo, c.number) => head.push(c),
            _ => head,
        }
    }
}

fn has_issue(rows: &Vec<CachedIssue>, repo: &str, number: u64) -> (r: bool)
    ensures
        r == knows_issue(rows.deep_view(), repo@, number),
{
    let mut i: usize = 0;
    while i < rows.len()
        invariant
            i <= rows.len(),
            forall|k: int|
                0 <= k < i ==> (#[trigger] rows.deep_view()[k].repo != repo@
                    || rows.deep_view()[k].number != number),
        decreases rows.len() - i,
    {
        if rows[i].number == number && same(rows[i].repo.as_str(), repo) {
            assert(rows.deep_view()[i as int].repo == repo@);
            return true;
        }
        assert(rows.deep_view()[i as int].repo == rows[i as int].repo@);
        i = i + 1;
    }
    false
}

/// What the searches of a dashboard bring together: rows, lines for the log, and
/// whether the rate limit was hit.
#[verifier::ext_equal]
pub struct Collected {
    pub rows: Seq<IssueModel>,
    pub log: Seq<Seq<char>>,
    pub limited: bool,
}

impl Collected {
    /// With the answer to one more search.
    pub open spec fn and(self, badge: Seq<char>, reply: Reply<SearchResp<IssueItem>>) -> Collected {
        match reply {
            Reply::Failed(e) => Collected {
                log: self.log.push(error_line("my issues"@, e@)),
                ..self
            },
            Reply::Answered { status, value } => if status == 200 {
                match value {
                    Ok(resp) => Collected {
                        rows: with_issues(self.rows, resp.items@, badge),
                        ..self
                    },
                    Err(_) => self,
                }
            } else if rate_limited(status) {
                Collected { limited: true, ..self }
            } else {
                Collected { log: self.log.push(status_line("my issues"@, status)), ..self }
            },
        }
    }
}

/// What the answers to the searches of a dashboard bring together, each with the
/// badge of its search.
pub open spec fn collected(replies: Seq<(String, Reply<SearchResp<IssueItem>>)>) -> Collected
    decreases replies.len(),
{
    if replies.len() == 0 {
        Collected { rows: seq![], log: seq![], limited: false }
    } else {
        collected(replies.drop_last()).and(replies.last().0@, replies.last().1)
    }
}

/// What becomes of the answers to the searches of a dashboard: the first rows
/// are kept, and shown as far as a term matches them.
pub open spec fn my_issues_outcome(
    replies: Seq<(String, Reply<SearchResp<IssueItem>>)>,
    term: Seq<char>,
    has_token: bool,
) -> LiveModel {
    let all = collected(replies);
    let rows = at_most(all.rows, 40);
    LiveModel {
        log: all.log,
        emit: Some(issue_dashboard(rows, term, all.limited, has_token)),
        keep: KeptModel::Issues(rows),
    }
}

fn push_issues(rows: &mut Vec<CachedIssue>, items: &Vec<IssueItem>, badge: &str)
    ensures
        final(rows).deep_view() == with_issues(old(rows).deep_view(), items@, badge@),
{
    let ghost start = rows.deep_view();
    let mut i: usize = 0;
    assert(items@.take(0) =~= Seq::<IssueItem>::empty());
    while i < items.len()
        invariant
            i <= items.len(),
            rows.deep_view() == with_issues(start, items@.take(i as int), badge@),
        decreases items.len() - i,
    {
        let ghost before = rows.deep_view();
        assert(items@.take(i + 1).drop_last() =~= items@.take(i as int));
        assert(items@.take(i + 1).last() == items[i as int]);
        if let Some(c) = issue_item_to_cached(&items[i], badge) {
            if !has_issue(rows, c.repo.as_str(), c.number) {
                let ghost row = c.deep_view();
                rows.push(c);
                assert(rows.deep_view() =~= before.push(row));
            }
        }
        i = i + 1;
    }
    assert(items@.take(i as int) =~= items@);
}

fn push_line(log: &mut Vec<String>, line: String)
    ensures
        final(log).deep_view() == old(log).deep_view().push(line@),
{
    log.push(line);
    assert(log.deep_view() =~= old(log).deep_view().push(line@));
}

/// What becomes of the answers to the searches of a dashboard, each with the
/// badge of its search.
pub fn query_my_issues(
    replies: &Vec<(String, Reply<SearchResp<IssueItem>>)>,
    term: &str,
    has_token: bool,
) -> (r: Live)
    ensures
        r.deep_view() == my_issues_outcome(replies@, term@, has_token),
{
    let mut rows: Vec<CachedIssue> = Vec::new();
    let mut log: Vec<String> = Vec::new();
    let mut limited = false;
    let mut i: usize = 0;
    assert(replies@.take(0) =~= seq![]);
    assert(rows.deep_view() =~= seq![]);
    assert(log.deep_view() =~= seq![]);
    while i < replies.len()
        invariant
            i <= replies.len(),
            collected(replies@.take(i as int)) == (Collected {
                rows: rows.deep_view(),
                log: log.deep_view(),
                limited,
            }),
        decreases replies.len() - i,
    {
        assert(replies@.take(i + 1).drop_last() =~= replies@.take(i as int));
        assert(replies@.take(i + 1).last() == replies@[i as int]);
        let (badge, reply) = &replies[i];
        match reply {
            Reply::Failed(e) => {
                push_line(&mut log, log_err("my issues", e.as_str()));
            },
            Reply::Answered { status, value } => {
                if *status == 200 {
                    if let Ok(resp) = value {
                        push_issues(&mut rows, &resp.items, badge.as_str());
                    }
                } else if is_rate_limited(*status) {
                    limited = true;
                } else {
                    push_line(&mut log, log_status("my issues", *status));
                }
            },
        }
        i = i + 1;
    }
    assert(replies@.take(i as int) =~= replies@);
    let ghost all = rows.deep_view();
    if rows.len() > 40 {
        rows.truncate(40);
    }
    assert(rows.deep_view() =~= at_most(all, 40));
    let shown = emit_dashboard_issues(&rows, term, limited, has_token);
    Live { log, emit: Some(shown), keep: Kept::Issues(rows) }
}

/// What becomes of an answer with the user's repositories: they go before those
/// that are kept, and are shown.
pub open spec fn my_repos_outcome(
    reply: Reply<Vec<RepoItem>>,
    kept: Seq<RepoModel>,
    term: Seq<char>,
    has_token: bool,
) -> LiveModel {
    match reply {
        Reply::Answered { status, value: Ok(items) } if status == 200 => LiveModel {
            log: seq![],
            emit: Some(repo_dashboard(items.deep_view(), term, false)),
            keep: KeptModel::Repos(merged_repos(items.deep_view(), kept)),
        },
        _ => unanswered("my repos"@, reply, has_token),
    }
}

/// What becomes of an answer with the user's repositories.
pub fn query_my_repos(
    reply: &Reply<Vec<RepoItem>>,
    kept: Vec<CachedRepo>,
    term: &str,
    has_token: bool,
) -> (r: Live)
    ensures
        r.deep_view() == my_repos_outcome(*reply, kept.deep_view(), term@, has_token),
{
    match reply {
        Reply::Answered { status, value: Ok(items) } if *status == 200 => {
            let cached = repos_of_items(items);
            let shown = emit_dashboard_repos(&cached, term, false);
            let merged = merge_repo_cache(&cached, kept);
            Live { log: Vec::new(), emit: Some(shown), keep: Kept::Repos(merged) }
        },
        _ => outcome_without("my repos", reply, has_token),
    }
}

/// What becomes of an answer with the starred repositories: they are kept and
/// shown.
pub open spec fn starred_outcome(
    reply: Reply<Vec<RepoItem>>,
    term: Seq<char>,
    has_token: bool,
) -> LiveModel {
    match reply {
        Reply::Answered { status, value: Ok(items) } if status == 200 => LiveModel {
            log: seq![],
            emit: Some(repo_dashboard(items.deep_view(), term, true)),
            keep: KeptModel::Repos(items.deep_view()),
        },
        _ => unanswered("starred"@, reply, has_token),
    }
}

/// What becomes of an answer with the starred repositories.
pub fn query_starred(reply: &Reply<Vec<RepoItem>>, term: &str, has_token: bool) -> (r: Live)
    ensures
        r.deep_view() == starred_outcome(*reply, term@, has_token),
{
    match reply {
        Reply::Answered { status, value: Ok(items) } if *status == 200 => {
            let cached = repos_of_items(items);
            let shown = emit_dashboard_repos(&cached, term, true);
            Live { log: Vec::new(), emit: Some(shown), keep: Kept::Repos(cached) }
        },
        _ => outcome_without("starred", reply, has_token),
    }
}

/// The row that is kept of a thread of the inbox.
pub open spec fn notif_kept(n: NotificationItem) -> NotifModel {
    NotifModel {
        repo: n.repository.full_name@,
        title: n.subject.title@,
        kind: n.subject.kind@,
        reason: n.reason@,
        html_url: notif_page(n.subject.url.deep_view(), n.repository.full_name@),
        updated_at: n.updated_at.deep_view(),
    }
}

/// The rows that are kept of the inbox.
pub open spec fn notifs_kept(items: Seq<NotificationItem>) -> Seq<NotifModel> {
    Seq::new(items.len(), |i: int| notif_kept(items[i]))
}

/// What becomes of an answer with the inbox: it is kept and shown.
pub open spec fn notifs_outcome(
    reply: Reply<Vec<NotificationItem>>,
    term: Seq<char>,
    has_token: bool,
    now_ms: Option<u64>,
) -> LiveModel {
    match reply {
        Reply::Answered { status, value: Ok(items) } if status == 200 => LiveModel {
            log: seq![],
            emit: Some(notif_dashboard(notifs_kept(items@), term, now_ms)),
            keep: KeptModel::Notifs(notifs_kept(items@)),
        },
        _ => unanswered("notifications"@, reply, has_token),
    }
}

fn notifs_of_items(items: &Vec<NotificationItem>) -> (r: Vec<CachedNotif>)
    ensures
        r.deep_view() == notifs_kept(items@),
{
    let ghost all = notifs_kept(items@);
    let mut out: Vec<CachedNotif> = Vec::new();
    let mut i: usize = 0;
    while i < items.len()
        invariant
            i <= items.len(),
            all == notifs_kept(items@),
            out.deep_view() == all.take(i as int),
        decreases items.len() - i,
    {
        let ghost before = out.deep_view();
        let n = &items[i];
        let row = CachedNotif {
            repo: n.repository.full_name.clone(),
            title: n.subject.title.clone(),
            kind: n.subject.kind.clone(),
            reason: n.reason.clone(),
            html_url: notif_html_url(&n.subject, n.repository.full_name.as_str()),
            updated_at: copy_option(&n.updated_at),
        };
        assert(row.deep_view() == all[i as int]);
        out.push(row);
        assert(out.deep_view() =~= before.push(all[i as int]));
        assert(all.take(i + 1) =~= before.push(all[i as int]));
        i = i + 1;
    }
    assert(all.take(i as int) =~= all);
    out
}

/// What becomes of an answer with the inbox.
pub fn query_notifications(
    reply: &Reply<Vec<NotificationItem>>,
    term: &str,
    has_token: bool,
    now_ms: Option<u64>,
) -> (r: Live)
    ensures
        r.deep_view() == notifs_outcome(*reply, term@, has_token, now_ms),
{
    match reply {
        Reply::Answered { status, value: Ok(items) } if *status == 200 => {
            let rows = notifs_of_items(items);
            let shown = shown_notifs(&rows, term);
            assert(shown.deep_view().len() == shown.len());
            let out = if shown.len() == 0 {
                emit_one(empty_row("You're all caught up"))
            } else {
                rows_of_notifs(&shown, shown.len(), now_ms)
            };
            Live { log: Vec::new(), emit: Some(out), keep: Kept::Notifs(rows) }
        },
        _ => outcome_without("notifications", reply, has_token),
    }
}

// ---------------------------------------------------------------------------
// Refreshing what is kept
// ---------------------------------------------------------------------------

/// What is asked for in the background: the path of the user's repositories and
/// that of the starred ones; nothing without a token.
pub open spec fn refresh_paths(has_token: bool) -> Option<(Seq<char>, Seq<char>)> {
    if has_token {
        Some(("/user/repos?sort=pushed&per_page=100"@, "/user/starred?sort=updated&per_page=100"@))
    } else {
        None
    }
}

/// What is asked for in the background, so that dashboards have rows at once.
pub fn refresh(has_token: bool) -> (r: Option<(String, String)>)
    ensures
        r.deep_view() == refresh_paths(has_token),
{
    if has_token {
        Some(
            (
                "/user/repos?sort=pushed&per_page=100".to_owned(),
                "/user/starred?sort=updated&per_page=100".to_owned(),
            ),
        )
    } else {
        None
    }
}

/// What becomes of the user's repositories that come in the background. A
/// failure is passed over.
pub open spec fn refreshed_repos(reply: Reply<Vec<RepoItem>>, kept: Seq<RepoModel>) -> LiveModel {
    match reply {
        Reply::Answered { status, value: Ok(items) } if status == 200 => LiveModel {
            log: seq!["warmed "@ + decimal(items@.len()) + " repos"@],
            emit: None,
            keep: KeptModel::Repos(merged_repos(items.deep_view(), kept)),
        },
        _ => no_outcome(),
    }
}

/// What becomes of the user's repositories that come in the background.
pub fn refresh_repos(reply: &Reply<Vec<RepoItem>>, kept: Vec<CachedRepo>) -> (r: Live)
    ensures
        r.deep_view() == refreshed_repos(*reply, kept.deep_view()),
{
    match reply {
        Reply::Answered { status, value: Ok(items) } if *status == 200 => {
            let cached = repos_of_items(items);
            let n = decimal_text(items.len() as u64);
            Live {
                log: vec!["warmed ".to_owned().concat(n.as_str()).concat(" repos")],
                emit: None,
                keep: Kept::Repos(merge_repo_cache(&cached, kept)),
            }
        },
        _ => Live { log: Vec::new(), emit: None, keep: Kept::Nothing },
    }
}

/// What becomes of the starred repositories that come in the background. A
/// failure is passed over.
pub open spec fn refreshed_starred(reply: Reply<Vec<RepoItem>>) -> LiveModel {
    match reply {
        Reply::Answered { status, value: Ok(items) } if status == 200 => LiveModel {
            log: seq!["warmed "@ + decimal(items@.len()) + " starred"@],
            emit: None,
            keep: KeptModel::Repos(items.deep_view()),
        },
        _ => no_outcome(),
    }
}

/// What becomes of the starred repositories that come in the background.
pub fn refresh_starred(reply: &Reply<Vec<RepoItem>>) -> (r: Live)
    ensures
        r.deep_view() == refreshed_starred(*reply),
{
    match reply {
        Reply::Answered { status, value: Ok(items) } if *status == 200 => {
            let cached = repos_of_items(items);
            let n = decimal_text(items.len() as u64);
            Live {
                log: vec!["warmed ".to_owned().concat(n.as_str()).concat(" starred")],
                emit: None,
                keep: Kept::Repos(cached),
            }
        },
        _ => Live { log: Vec::new(), emit: None, keep: Kept::Nothing },
    }
}

// ---------------------------------------------------------------------------
// What holds of the live tier
// ---------------------------------------------------------------------------

/// Whether no issue or pull request stands in two rows.
pub open spec fn all_distinct(rows: Seq<IssueModel>) -> bool {
    forall|i: int, j: int|
        0 <= i < j < rows.len() ==> (#[trigger] rows[i]).repo != (#[trigger] rows[j]).repo
            || rows[i].number != rows[j].number
}

proof fn lemma_with_issues(rows: Seq<IssueModel>, items: Seq<IssueItem>, badge: Seq<char>)
    requires
        all_distinct(rows),
    ensures
        all_distinct(with_issues(rows, items, badge)),
        rows.len() <= with_issues(rows, items, badge).len(),
        with_issues(rows, items, badge).take(rows.len() as int) == rows,
        forall|i: int|
            rows.len() <= i < with_issues(rows, items, badge).len() ==> (#[trigger] with_issues(
                rows,
                items,
                badge,
            )[i]).badge == badge,
    decreases items.len(),
{
    if items.len() == 0 {
        assert(rows.take(rows.len() as int) =~= rows);
    } else {
        lemma_with_issues(rows, items.drop_last(), badge);
        let head = with_issues(rows, items.drop_last(), badge);
        let all = with_issues(rows, items, badge);
        assert(all.take(rows.len() as int) =~= head.take(rows.len() as int));
        match issue_kept(items.last(), badge) {
            Some(c) if !knows_issue(head, c.repo, c.number) => {
                assert forall|i: int, j: int| 0 <= i < j < all.len() implies (
                #[trigger] all[i]).repo != (#[trigger] all[j]).repo || all[i].number
                    != all[j].number by {
                    if j == head.len() {
                        assert(head[i] == all[i]);
                        assert(all[j] == c);
                    } else {
                        assert(head[i] == all[i] && head[j] == all[j]);
                    }
                }
            },
            _ => {},
        }
    }
}

/// The searches of a dashboard overlap; no issue is shown twice, and one more
/// search leaves the rows and badges of those before it as they are.
pub proof fn law_dashboard_shows_each_once(replies: Seq<(String, Reply<SearchResp<IssueItem>>)>)
    ensures
        all_distinct(collected(replies).rows),
        replies.len() > 0 ==> ({
            let before = collected(replies.drop_last()).rows;
            let after = collected(replies).rows;
            before.len() <= after.len() && after.take(before.len() as int) == before
        }),
    decreases replies.len(),
{
    if replies.len() > 0 {
        law_dashboard_shows_each_once(replies.drop_last());
        let before = collected(replies.drop_last()).rows;
        assert(before.take(before.len() as int) =~= before);
        match replies.last().1 {
            Reply::Answered { status, value: Ok(resp) } if status == 200 => {
                lemma_with_issues(before, resp.items@, replies.last().0@);
            },
            _ => {},
        }
    }
}

/// A dashboard that is shown is never blank and never has more than forty rows.
pub proof fn law_dashboard_never_blank(
    repos: Seq<RepoModel>,
    issues: Seq<IssueModel>,
    notifs: Seq<NotifModel>,
    term: Seq<char>,
    starred: bool,
    limited: bool,
    has_token: bool,
    now_ms: Option<u64>,
)
    ensures
        1 <= repo_dashboard(repos, term, starred).len() <= 40,
        1 <= issue_dashboard(issues, term, limited, has_token).len() <= 40,
        1 <= notif_dashboard(notifs, term, now_ms).len() <= 40,
{
}

/// An answer that is no success changes nothing that is kept, whatever was asked.
pub proof fn law_failure_keeps_what_is_kept<T>(ctx: Seq<char>, reply: Reply<T>, has_token: bool)
    ensures
        unanswered(ctx, reply, has_token).keep == KeptModel::Nothing,
        reply matches Reply::Answered { status, .. } && rate_limited(status) ==> unanswered(
            ctx,
            reply,
            has_token,
        ).emit == Some(seq![rate_limit_row(has_token)]),
{
}

/// Without the token that it needs a command asks nothing of the API.
pub proof fn law_gated_asks_nothing(cmd: Seq<char>, query: Seq<char>, max: u32)
    requires
        token_gated(cmd),
    ensures
        plan_of(cmd, query, false, max) == PlanModel::Nothing,
{
}

/// Whether a path of the API puts a query between a start and an end: it stands
/// there encoded, and decoding it gives the query back.
pub open spec fn asks(path: Seq<char>, start: Seq<char>, q: Seq<char>, end: Seq<char>) -> bool {
    exists|e: Seq<char>|
        path == #[trigger] (start + e + end) && decode_utf8(percent_decoded(e)) == q && (forall|
            i: int,
        |
            0 <= i < e.len() ==> query_char(#[trigger] e[i]))
}

/// What a badge of a dashboard says of the user, as a qualifier.
pub open spec fn badge_qualifier(badge: Seq<char>) -> Seq<char> {
    if badge == "mine"@ {
        "author:@me"@
    } else if badge == "review"@ {
        "review-requested:@me"@
    } else if badge == "assigned"@ {
        "assignee:@me"@
    } else {
        "mentions:@me"@
    }
}

/// Whether the searches of a dashboard are those of the badges, in order: each
/// asks for what is open, of one kind, and for what its badge says, what changed
/// last first.
pub open spec fn searches_of(
    paths: Seq<(Seq<char>, Seq<char>)>,
    kind: Seq<char>,
    badges: Seq<Seq<char>>,
) -> bool {
    paths.len() == badges.len() && forall|k: int|
        0 <= k < badges.len() ==> (#[trigger] paths[k]).0 == badges[k] && asks(
            paths[k].1,
            "/search/issues?q="@,
            kind + " is:open "@ + badge_qualifier(badges[k]),
            "&sort=updated&order=desc&per_page=25"@,
        )
}

proof fn lemma_asks(start: Seq<char>, q: Seq<char>, end: Seq<char>)
    ensures
        asks(start + urlencoded(q) + end, start, q, end),
{
    law_urlencode_reversible(q);
    law_urlencode_safe(q);
}

/// The dashboards ask for what is open and the user's: pull requests of the user,
/// up for the user's review, and assigned to the user; issues of the user,
/// assigned to the user, and that mention the user.
pub proof fn law_dashboards_ask_for_what_is_open(query: Seq<char>, max: u32)
    ensures
        plan_of("my-prs"@, query, true, max) matches PlanModel::MyPrs(paths) && searches_of(
            paths,
            "is:pr"@,
            seq!["mine"@, "review"@, "assigned"@],
        ),
        plan_of("my-issues"@, query, true, max) matches PlanModel::MyIssues(paths) && searches_of(
            paths,
            "is:issue"@,
            seq!["mine"@, "assigned"@, "mentioned"@],
        ),
{
    lemma_commands();
    reveal_strlit("mine");
    reveal_strlit("review");
    reveal_strlit("assigned");
    reveal_strlit("mentioned");
    reveal_strlit("is:pr");
    reveal_strlit("is:issue");
    reveal_strlit(" is:open ");
    reveal_strlit("author:@me");
    reveal_strlit("review-requested:@me");
    reveal_strlit("assignee:@me");
    reveal_strlit("mentions:@me");
    reveal_strlit("is:pr is:open author:@me");
    reveal_strlit("is:pr is:open review-requested:@me");
    reveal_strlit("is:pr is:open assignee:@me");
    reveal_strlit("is:issue is:open author:@me");
    reveal_strlit("is:issue is:open assignee:@me");
    reveal_strlit("is:issue is:open mentions:@me");
    assert("mine"@.len() == 4 && "review"@.len() == 6 && "assigned"@.len() == 8
        && "mentioned"@.len() == 9);
    let start = "/search/issues?q="@;
    let end = "&sort=updated&order=desc&per_page=25"@;
    let pr = "is:pr"@ + " is:open "@;
    let issue = "is:issue"@ + " is:open "@;
    assert(pr + "author:@me"@ =~= "is:pr is:open author:@me"@);
    assert(pr + "review-requested:@me"@ =~= "is:pr is:open review-requested:@me"@);
    assert(pr + "assignee:@me"@ =~= "is:pr is:open assignee:@me"@);
    assert(issue + "author:@me"@ =~= "is:issue is:open author:@me"@);
    assert(issue + "assignee:@me"@ =~= "is:issue is:open assignee:@me"@);
    assert(issue + "mentions:@me"@ =~= "is:issue is:open mentions:@me"@);
    lemma_asks(start, pr + "author:@me"@, end);
    lemma_asks(start, pr + "review-requested:@me"@, end);
    lemma_asks(start, pr + "assignee:@me"@, end);
    lemma_asks(start, issue + "author:@me"@, end);
    lemma_asks(start, issue + "assignee:@me"@, end);
    lemma_asks(start, issue + "mentions:@me"@, end);
}

proof fn lemma_commands()
    ensures
        "issues"@.len() == 6 && "prs"@.len() == 3 && "code"@.len() == 4,
        "users"@.len() == 5 && "repos"@.len() == 5 && "my-prs"@.len() == 6,
        "my-issues"@.len() == 9 && "my-repos"@.len() == 8 && "starred"@.len() == 7,
        "notifications"@.len() == 13,
        "users"@[0] == 'u' && "repos"@[0] == 'r',
        "issues"@[0] == 'i' && "my-prs"@[0] == 'm',
{
    reveal_strlit("issues");
    reveal_strlit("prs");
    reveal_strlit("code");
    reveal_strlit("users");
    reveal_strlit("repos");
    reveal_strlit("my-prs");
    reveal_strlit("my-issues");
    reveal_strlit("my-repos");
    reveal_strlit("starred");
    reveal_strlit("notifications");
}

/// A search asks for what was typed, without the blanks around it, in the kind of
/// things that the command names: issues and pull requests by title, each told
/// from the other. As many results are asked for as the setting says. Only code
/// needs a token.
pub proof fn law_searches_ask_for_the_term(query: Seq<char>, has_token: bool, max: u32)
    requires
        trimmed(query).len() > 0,
    ensures
        ({
            let term = trimmed(query);
            let end = "&per_page="@ + decimal(max as nat);
            &&& plan_of("issues"@, query, has_token, max) matches PlanModel::Issues(path) && asks(
                path,
                "/search/issues?q="@,
                term + " in:title is:issue"@,
                end,
            )
            &&& plan_of("prs"@, query, has_token, max) matches PlanModel::Issues(path) && asks(
                path,
                "/search/issues?q="@,
                term + " in:title is:pr"@,
                end,
            )
            &&& plan_of("users"@, query, has_token, max) matches PlanModel::Users(path) && asks(
                path,
                "/search/users?q="@,
                term,
                end,
            )
            &&& plan_of("repos"@, query, has_token, max) matches PlanModel::Repos(path) && asks(
                path,
                "/search/repositories?q="@,
                term,
                end,
            )
            &&& plan_of("code"@, query, true, max) matches PlanModel::Code(path) && asks(
                path,
                "/search/code?q="@,
                term,
                end,
            )
            &&& plan_of("code"@, query, false, max) == PlanModel::Nothing
        }),
{
    lemma_commands();
    reveal_strlit("/search/");
    reveal_strlit("?q=");
    reveal_strlit("repositories");
    reveal_strlit("/search/issues?q=");
    reveal_strlit("/search/users?q=");
    reveal_strlit("/search/repositories?q=");
    reveal_strlit("/search/code?q=");
    reveal_strlit(" in:title ");
    reveal_strlit("is:issue");
    reveal_strlit("is:pr");
    reveal_strlit(" in:title is:issue");
    reveal_strlit(" in:title is:pr");
    reveal_strlit("issues");
    reveal_strlit("users");
    reveal_strlit("code");
    let term = trimmed(query);
    let n = decimal(max as nat);
    let end = "&per_page="@ + n;
    assert(" in:title "@ + "is:issue"@ =~= " in:title is:issue"@);
    assert(" in:title "@ + "is:pr"@ =~= " in:title is:pr"@);
    assert(titled(term, "is:issue"@) =~= term + " in:title is:issue"@);
    assert(titled(term, "is:pr"@) =~= term + " in:title is:pr"@);
    lemma_search_path("issues"@, "/search/issues?q="@, term + " in:title is:issue"@, max);
    lemma_search_path("issues"@, "/search/issues?q="@, term + " in:title is:pr"@, max);
    lemma_search_path("users"@, "/search/users?q="@, term, max);
    lemma_search_path("repositories"@, "/search/repositories?q="@, term, max);
    lemma_search_path("code"@, "/search/code?q="@, term, max);
}

proof fn lemma_search_path(kind: Seq<char>, start: Seq<char>, q: Seq<char>, max: u32)
    requires
        start =~= "/search/"@ + kind + "?q="@,
    ensures
        asks(search_path(kind, q, max), start, q, "&per_page="@ + decimal(max as nat)),
{
    let end = "&per_page="@ + decimal(max as nat);
    lemma_asks(start, q, end);
    assert(search_path(kind, q, max) =~= start + urlencoded(q) + end);
}

/// The other dashboards ask for what they are named after, with a token only; a
/// blank search asks for nothing.
pub proof fn law_dashboards_ask_for_their_lists(query: Seq<char>, has_token: bool, max: u32)
    ensures
        plan_of("my-repos"@, query, true, max) == PlanModel::MyRepos(
            "/user/repos"@ + "?sort=pushed&per_page=100"@,
        ),
        plan_of("starred"@, query, true, max) == PlanModel::Starred(
            "/user/starred"@ + "?sort=updated&per_page=100"@,
        ),
        plan_of("notifications"@, query, true, max) == PlanModel::Notifications(
            "/notifications"@ + "?per_page=50"@,
        ),
        plan_of("my-prs"@, query, false, max) == PlanModel::Nothing,
        plan_of("my-issues"@, query, false, max) == PlanModel::Nothing,
        plan_of("my-repos"@, query, false, max) == PlanModel::Nothing,
        plan_of("starred"@, query, false, max) == PlanModel::Nothing,
        plan_of("notifications"@, query, false, max) == PlanModel::Nothing,
        trimmed(query).len() == 0 ==> ({
            &&& plan_of("issues"@, query, has_token, max) == PlanModel::Nothing
            &&& plan_of("prs"@, query, has_token, max) == PlanModel::Nothing
            &&& plan_of("code"@, query, has_token, max) == PlanModel::Nothing
            &&& plan_of("users"@, query, has_token, max) == PlanModel::Nothing
            &&& plan_of("repos"@, query, has_token, max) == PlanModel::Nothing
        }),
{
    lemma_commands();
    reveal_strlit("/user/repos");
    reveal_strlit("?sort=pushed&per_page=100");
    reveal_strlit("/user/repos?sort=pushed&per_page=100");
    reveal_strlit("/user/starred");
    reveal_strlit("?sort=updated&per_page=100");
    reveal_strlit("/user/starred?sort=updated&per_page=100");
    reveal_strlit("/notifications");
    reveal_strlit("?per_page=50");
    reveal_strlit("/notifications?per_page=50");
    assert("/user/repos"@ + "?sort=pushed&per_page=100"@
        =~= "/user/repos?sort=pushed&per_page=100"@);
    assert("/user/starred"@ + "?sort=updated&per_page=100"@
        =~= "/user/starred?sort=updated&per_page=100"@);
    assert("/notifications"@ + "?per_page=50"@ =~= "/notifications?per_page=50"@);
}

/// A live search shows what came, one row each and in order, scored in that order;
/// repositories are kept too. Each row is that of its own thing.
pub proof fn law_live_rows_follow_the_answer(
    repos: SearchResp<RepoItem>,
    code: SearchResp<CodeItem>,
    users: SearchResp<UserItem>,
    has_token: bool,
    i: usize,
    j: usize,
)
    requires
        i < j,
    ensures
        ({
            let out = repos_outcome(Reply::Answered { status: 200, value: Ok(repos) }, has_token);
            let items = repos.items.deep_view();
            &&& out.keep == KeptModel::Repos(items)
            &&& out.emit matches Some(rows) && rows.len() == items.len() && (j < items.len() ==> {
                &&& rows[i as int].id == "repo:"@ + items[i as int].full_name
                &&& rows[i as int].title == items[i as int].full_name
                &&& rows[i as int].relevance.above(rows[j as int].relevance)
            })
        }),
        ({
            let out = code_outcome(Reply::Answered { status: 200, value: Ok(code) }, has_token);
            let items = code.items@;
            &&& out.keep == KeptModel::Nothing
            &&& out.emit matches Some(rows) && rows.len() == items.len() && (j < items.len() ==> {
                &&& rows[i as int].id == "code:"@ + items[i as int].html_url@
                &&& rows[i as int].title == items[i as int].name@
                &&& rows[i as int].subtitle == Some(
                    items[i as int].repository.full_name@ + " \u{b7} "@ + items[i as int].path@,
                )
                &&& rows[i as int].relevance.above(rows[j as int].relevance)
            })
        }),
        ({
            let out = users_outcome(Reply::Answered { status: 200, value: Ok(users) }, has_token);
            let items = users.items@;
            &&& out.keep == KeptModel::Nothing
            &&& out.emit matches Some(rows) && rows.len() == items.len() && (j < items.len() ==> {
                &&& rows[i as int].id == "user:"@ + items[i as int].login@
                &&& rows[i as int].title == items[i as int].login@
                &&& rows[i as int].relevance.above(rows[j as int].relevance)
            })
        }),
{
    law_ranked_descending(i, j, repos.items.deep_view().len() as usize, 95, 30);
    law_ranked_descending(i, j, code.items@.len() as usize, 80, 30);
    law_ranked_descending(i, j, users.items@.len() as usize, 80, 30);
}

/// A search for issues shows a row for every item that names a repository, with
/// its number and title, and no other.
pub proof fn law_live_issues_are_all_shown(items: Seq<IssueItem>, n: int)
    ensures
        ({
            let named = items.filter(|i: IssueItem| repo_in_url(i.repository_url@) is Some);
            let rows = live_issue_rows(items, n);
            &&& rows.len() == named.len()
            &&& forall|k: int|
                0 <= k < rows.len() ==> (#[trigger] rows[k]).title == named[k].title@ && rows[k].id
                    == (if named[k].pull_request is Some {
                    "pr:"@
                } else {
                    "issue:"@
                }) + (repo_in_url(named[k].repository_url@)->0 + "#"@ + decimal(
                    named[k].number as nat,
                ))
        }),
    decreases items.len(),
{
    reveal(Seq::filter);
    if items.len() > 0 {
        law_live_issues_are_all_shown(items.drop_last(), n);
        let p = |i: IssueItem| repo_in_url(i.repository_url@) is Some;
        let named = items.filter(p);
        let before = items.drop_last().filter(p);
        let rows = live_issue_rows(items, n);
        let head = live_issue_rows(items.drop_last(), n);
        assert forall|k: int| 0 <= k < rows.len() implies (#[trigger] rows[k]).title
            == named[k].title@ && rows[k].id == (if named[k].pull_request is Some {
            "pr:"@
        } else {
            "issue:"@
        }) + (repo_in_url(named[k].repository_url@)->0 + "#"@ + decimal(
            named[k].number as nat,
        )) by {
            if k < head.len() {
                assert(rows[k] == head[k]);
                assert(named[k] == before[k]);
            }
        }
    }
}

/// No answer is lost: what a search of a dashboard brings, and names a repository,
/// is in the list behind it, under its own number.
pub proof fn law_dashboard_loses_no_issue(
    rows: Seq<IssueModel>,
    items: Seq<IssueItem>,
    badge: Seq<char>,
    k: int,
)
    requires
        0 <= k < items.len(),
    ensures
        repo_in_url(items[k].repository_url@) matches Some(repo) ==> knows_issue(
            with_issues(rows, items, badge),
            repo,
            items[k].number,
        ),
    decreases items.len(),
{
    let head = with_issues(rows, items.drop_last(), badge);
    let all = with_issues(rows, items, badge);
    match repo_in_url(items[k].repository_url@) {
        Some(repo) => {
            let number = items[k].number;
            if k < items.len() - 1 {
                law_dashboard_loses_no_issue(rows, items.drop_last(), badge, k);
                let i = choose|i: int|
                    0 <= i < head.len() && #[trigger] head[i].repo == repo && head[i].number
                        == number;
                assert(all[i] == head[i]);
                assert(all[i].repo == repo);
            } else if !knows_issue(head, repo, number) {
                assert(all[all.len() - 1].repo == repo);
            }
        },
        None => {},
    }
}

/// What is kept and what is shown of a dashboard of issues are the first forty of
/// the collected; a rate limit or a blank is told only where nothing is shown.
pub proof fn law_dashboard_shows_what_it_keeps(
    replies: Seq<(String, Reply<SearchResp<IssueItem>>)>,
    has_token: bool,
)
    ensures
        ({
            let out = my_issues_outcome(replies, seq![], has_token);
            let rows = collected(replies).rows;
            &&& out.keep matches KeptModel::Issues(kept) && kept.len() <= 40 && (forall|i: int|
                0 <= i < kept.len() ==> #[trigger] kept[i] == rows[i]) && (rows.len() <= 40 ==> kept
                == rows)
            &&& rows.len() > 0 ==> (out.emit matches Some(shown) && (
            out.keep matches KeptModel::Issues(kept) && shown.len() == kept.len() && (forall|i: int|
                0 <= i < kept.len() ==> (#[trigger] shown[i]).title == kept[i].title)))
            &&& rows.len() == 0 && collected(replies).limited ==> out.emit == Some(
                seq![rate_limit_row(has_token)],
            )
            &&& rows.len() == 0 && !collected(replies).limited ==> out.emit == Some(
                seq![empty("Nothing open right now"@)],
            )
        }),
{
    let kept = at_most(collected(replies).rows, 40);
    law_blank_term_shows_all(seq![], kept, seq![]);
}

/// The inbox is kept and shown as it came: each thread with its own title, kind,
/// reason and repository, and the page that was worked out for it.
pub proof fn law_inbox_is_kept_as_it_came(
    items: Seq<NotificationItem>,
    list: Vec<NotificationItem>,
    term: Seq<char>,
    has_token: bool,
    now_ms: Option<u64>,
    i: int,
)
    requires
        0 <= i < items.len(),
    ensures
        notifs_kept(items).len() == items.len(),
        notifs_kept(items)[i].title == items[i].subject.title@,
        notifs_kept(items)[i].kind == items[i].subject.kind@,
        notifs_kept(items)[i].reason == items[i].reason@,
        notifs_kept(items)[i].repo == items[i].repository.full_name@,
        notifs_kept(items)[i].html_url == notif_page(
            items[i].subject.url.deep_view(),
            items[i].repository.full_name@,
        ),
        notifs_kept(items)[i].updated_at == items[i].updated_at.deep_view(),
        notifs_outcome(
            Reply::Answered { status: 200, value: Ok(list) },
            term,
            has_token,
            now_ms,
        ).keep == KeptModel::Notifs(notifs_kept(list@)),
{
}

/// The user's repositories go before those that are kept; the starred ones replace
/// what is kept of them. Both are kept whole, whatever the term narrows down.
pub proof fn law_own_and_starred_repos_are_kept(
    items: Vec<RepoItem>,
    kept: Seq<RepoModel>,
    term: Seq<char>,
    has_token: bool,
)
    ensures
        ({
            let reply = Reply::Answered { status: 200, value: Ok(items) };
            &&& my_repos_outcome(reply, kept, term, has_token).keep == KeptModel::Repos(
                merged_repos(items.deep_view(), kept),
            )
            &&& starred_outcome(reply, term, has_token).keep == KeptModel::Repos(items.deep_view())
            &&& refreshed_repos(reply, kept).keep == my_repos_outcome(
                reply,
                kept,
                term,
                has_token,
            ).keep
            &&& refreshed_starred(reply).keep == starred_outcome(reply, term, has_token).keep
            &&& refreshed_repos(reply, kept).emit is None && refreshed_starred(reply).emit is None
        }),
        refresh_paths(false) is None,
        refresh_paths(true) matches Some((own, starred)) && plan_of("my-repos"@, term, true, 1)
            == PlanModel::MyRepos(own) && plan_of("starred"@, term, true, 1) == PlanModel::Starred(
            starred,
        ),
{
    lemma_commands();
}

/// How many results are asked for lies within 1 and 15, and is the setting where
/// that does.
pub proof fn law_setting_is_kept_within_bounds(n: u32)
    ensures
        1 <= endpoint_max(Some(n)) <= 15,
        1 <= n <= 15 ==> endpoint_max(Some(n)) == n,
        n == 0 ==> endpoint_max(Some(n)) == 1,
        n > 15 ==> endpoint_max(Some(n)) == 15,
        endpoint_max(None) == 6,
{
}

/// What was shown live is kept where it was wanted; what was not wanted changes
/// nothing.
pub proof fn law_wanted_repos_are_kept(fresh: Seq<RepoModel>, kept: Seq<RepoModel>)
    ensures
        kept_after(fresh, kept, true) == Some(merged_repos(fresh, kept)),
        kept_after(fresh, kept, false) is None,
{
}

/// A request that failed and a status that is no success are told in the log, in
/// the name of what was asked; only a rate limit is shown.
pub proof fn law_failures_are_told<T>(ctx: Seq<char>, error: String, value: T, status: u16, has_token: bool)
    requires
        status != 200,
    ensures
        ({
            let failed = unanswered::<T>(ctx, Reply::Failed(error), has_token);
            let refused = unanswered(ctx, Reply::Answered { status, value: Ok(value) }, has_token);
            &&& failed.log == seq![ctx + " error: "@ + error@] && failed.emit is None
            &&& status != 403 && status != 429 ==> refused.log == seq![
                ctx + " failed ("@ + decimal(status as nat) + ")"@,
            ] && refused.emit is None
            &&& status == 403 || status == 429 ==> refused.log == seq![
                ctx + " rate limited ("@ + decimal(status as nat) + ")"@,
            ] && refused.emit == Some(seq![rate_limit_row(has_token)])
        }),
{
}

/// A dashboard that came live shows all that the term leaves, in order, up to forty
/// rows, and one row that says so where that is none.
pub proof fn law_live_dashboards_show_up_to_forty(
    repos: Seq<RepoModel>,
    issues: Seq<IssueModel>,
    notifs: Seq<NotifModel>,
    term: Seq<char>,
    starred: bool,
    limited: bool,
    has_token: bool,
    now_ms: Option<u64>,
    i: int,
)
    ensures
        ({
            let list = matching_repos(repos, term);
            let rows = repo_dashboard(repos, term, starred);
            &&& 0 < list.len() <= 40 ==> rows.len() == list.len()
            &&& list.len() > 40 ==> rows.len() == 40
            &&& 0 <= i < rows.len() && list.len() > 0 ==> rows[i].id == "repo:"@ + list[i].full_name
            &&& list.len() == 0 ==> rows == seq![
                empty(
                    if starred {
                        "No starred repositories"@
                    } else {
                        "No repositories"@
                    },
                ),
            ]
        }),
        ({
            let list = matching_issues(issues, term);
            let rows = issue_dashboard(issues, term, limited, has_token);
            &&& 0 < list.len() <= 40 ==> rows.len() == list.len()
            &&& list.len() > 40 ==> rows.len() == 40
            &&& 0 <= i < rows.len() && list.len() > 0 ==> rows[i].title == list[i].title
            &&& list.len() == 0 && limited ==> rows == seq![rate_limit_row(has_token)]
            &&& list.len() == 0 && !limited ==> rows == seq![empty("Nothing open right now"@)]
        }),
        ({
            let list = matching_notifs(notifs, term);
            let rows = notif_dashboard(notifs, term, now_ms);
            &&& 0 < list.len() <= 40 ==> rows.len() == list.len()
            &&& list.len() > 40 ==> rows.len() == 40
            &&& 0 <= i < rows.len() && list.len() > 0 ==> rows[i].title == list[i].title
            &&& list.len() == 0 ==> rows == seq![empty("You're all caught up"@)]
        }),
{
}

/// Whether an outcome tells of a refusal with that status and does no more: a rate
/// limit is shown, any other goes to the log alone.
pub open spec fn tells_refusal(out: LiveModel, ctx: Seq<char>, status: u16, has_token: bool) -> bool {
    let limited = status == 403 || status == 429;
    &&& out.keep == KeptModel::Nothing
    &&& limited ==> out.emit == Some(seq![rate_limit_row(has_token)]) && out.log == seq![
        ctx + " rate limited ("@ + decimal(status as nat) + ")"@,
    ]
    &&& !limited ==> out.emit is None && out.log == seq![
        ctx + " failed ("@ + decimal(status as nat) + ")"@,
    ]
}

/// What a search brings counts with status 200 and with no other, whatever stands
/// in the body; a refusal is told under the name of the search.
pub proof fn law_searches_count_with_success(
    status: u16,
    repos: SearchResp<RepoItem>,
    issues: SearchResp<IssueItem>,
    code: SearchResp<CodeItem>,
    users: SearchResp<UserItem>,
    has_token: bool,
)
    ensures
        ({
            let r = repos_outcome(Reply::Answered { status, value: Ok(repos) }, has_token);
            let i = issues_outcome(Reply::Answered { status, value: Ok(issues) }, has_token);
            let c = code_outcome(Reply::Answered { status, value: Ok(code) }, has_token);
            let u = users_outcome(Reply::Answered { status, value: Ok(users) }, has_token);
            &&& status == 200 ==> r.emit is Some && i.emit is Some && c.emit is Some
                && u.emit is Some
            &&& status == 200 ==> r.log.len() == 0 && i.log.len() == 0 && c.log.len() == 0
                && u.log.len() == 0
            &&& status == 200 ==> i.emit == Some(
                live_issue_rows(issues.items@, issues.items@.len() as int),
            ) && i.keep == KeptModel::Nothing
            &&& status != 200 ==> tells_refusal(r, "repo search"@, status, has_token)
            &&& status != 200 ==> tells_refusal(i, "issue search"@, status, has_token)
            &&& status != 200 ==> tells_refusal(c, "code search"@, status, has_token)
            &&& status != 200 ==> tells_refusal(u, "user search"@, status, has_token)
        }),
{
}

/// What a list brings counts with status 200 and with no other, whatever stands in
/// the body; a refusal is told under the name of the list.
pub proof fn law_lists_count_with_success(
    status: u16,
    repos: Vec<RepoItem>,
    notifs: Vec<NotificationItem>,
    kept: Seq<RepoModel>,
    term: Seq<char>,
    has_token: bool,
    now_ms: Option<u64>,
)
    ensures
        ({
            let m = my_repos_outcome(
                Reply::Answered { status, value: Ok(repos) },
                kept,
                term,
                has_token,
            );
            let s = starred_outcome(Reply::Answered { status, value: Ok(repos) }, term, has_token);
            let n = notifs_outcome(
                Reply::Answered { status, value: Ok(notifs) },
                term,
                has_token,
                now_ms,
            );
            &&& status == 200 ==> m.emit is Some && s.emit is Some && n.emit is Some
            &&& status == 200 ==> m.log.len() == 0 && s.log.len() == 0 && n.log.len() == 0
            &&& status == 200 ==> m.keep is Repos && s.keep == KeptModel::Repos(repos.deep_view())
                && n.keep is Notifs
            &&& status != 200 ==> tells_refusal(m, "my repos"@, status, has_token)
            &&& status != 200 ==> tells_refusal(s, "starred"@, status, has_token)
            &&& status != 200 ==> tells_refusal(n, "notifications"@, status, has_token)
        }),
{
}

/// What comes in the background is kept without being shown, and its number is
/// told; a refusal is passed over.
pub proof fn law_background_lists_are_only_kept(
    status: u16,
    repos: Vec<RepoItem>,
    kept: Seq<RepoModel>,
)
    ensures
        ({
            let m = refreshed_repos(Reply::Answered { status, value: Ok(repos) }, kept);
            let s = refreshed_starred(Reply::Answered { status, value: Ok(repos) });
            &&& m.emit is None && s.emit is None
            &&& status == 200 ==> m.log == seq!["warmed "@ + decimal(repos@.len()) + " repos"@]
            &&& status == 200 ==> s.log == seq!["warmed "@ + decimal(repos@.len()) + " starred"@]
            &&& status == 200 ==> m.keep == KeptModel::Repos(
                merged_repos(repos.deep_view(), kept),
            ) && s.keep == KeptModel::Repos(repos.deep_view())
            &&& status != 200 ==> m.keep == KeptModel::Nothing && s.keep == KeptModel::Nothing
                && m.log.len() == 0 && s.log.len() == 0
        }),
{
}

/// The rows of a live search rank by their place in the answer, thirty apart at most:
/// repositories from ninety-five down, all else from eighty down.
pub proof fn law_live_rows_rank_by_place(
    repos: Seq<RepoModel>,
    issues: Seq<IssueItem>,
    code: Seq<CodeItem>,
    users: Seq<UserItem>,
    i: int,
    n: int,
)
    ensures
        0 <= i < repos.len() ==> live_repo_rows(repos)[i].relevance == (Relevance::Ranked {
            index: i as usize,
            count: repos.len() as usize,
            top: 95,
            span: 30,
        }),
        0 <= i < code.len() ==> live_code_rows(code)[i].relevance == (Relevance::Ranked {
            index: i as usize,
            count: code.len() as usize,
            top: 80,
            span: 30,
        }),
        0 <= i < users.len() ==> live_user_rows(users)[i].relevance == (Relevance::Ranked {
            index: i as usize,
            count: users.len() as usize,
            top: 80,
            span: 30,
        }),
        issues.len() > 0 && issue_kept(issues.last(), ""@) is Some ==> live_issue_rows(
            issues,
            n,
        ).last().relevance == (Relevance::Ranked {
            index: (issues.len() - 1) as usize,
            count: n as usize,
            top: 80,
            span: 30,
        }),
{
}

} // verus!
