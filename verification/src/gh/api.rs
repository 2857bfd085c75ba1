//! What is asked of the GitHub API and what it answers, and the rows that are
//! kept between sessions.
use vstd::prelude::*;
use vstd::string::*;

use crate::host::{Request, RequestModel};
use crate::text::{
    at_most, copy_option, cut_once, has_prefix, lemma_pieces_more, lemma_pieces_one,
    lemma_position_is, occurs_at, pieces, same, split, split_once, trim, trimmed,
};

verus! {

pub const API: &'static str = "https://api.github.com";

/// The keys under which rows are kept.
pub const CACHE_REPOS: &'static str = "repos";

pub const CACHE_STARRED: &'static str = "starred";

pub const CACHE_MY_PRS: &'static str = "my_prs";

pub const CACHE_MY_ISSUES: &'static str = "my_issues";

pub const CACHE_NOTIFS: &'static str = "notifs";

/// How many repositories are kept.
pub const CACHE_CAP: usize = 200;

/// The media type of the API's JSON.
pub const ACCEPT_JSON: &'static str = "application/vnd.github+json";

// ---------------------------------------------------------------------------
// Requests
// ---------------------------------------------------------------------------

/// The token in a setting, unless it is blank.
pub open spec fn token_in(setting: Option<Seq<char>>) -> Option<Seq<char>> {
    match setting {
        Some(t) if trimmed(t).len() > 0 => Some(t),
        _ => None,
    }
}

/// The stored access token, or `None` where it is unset or blank. Public search
/// works without one; the user's own data and code search do not.
pub fn token(setting: Option<String>) -> (r: Option<String>)
    ensures
        r.deep_view() == token_in(setting.deep_view()),
{
    match setting {
        Some(t) => {
            let blank = trim(t.as_str());
            if blank.as_str().is_empty() {
                None
            } else {
                Some(t)
            }
        },
        None => None,
    }
}

/// The header that carries a token, if there is one.
pub open spec fn authorization(token: Option<Seq<char>>) -> Seq<(Seq<char>, Seq<char>)> {
    match token {
        Some(t) => seq![("Authorization"@, "Bearer "@ + t)],
        None => seq![],
    }
}

/// The request for a path of the API.
pub open spec fn get_request(
    path: Seq<char>,
    accept: Seq<char>,
    token: Option<Seq<char>>,
) -> RequestModel {
    RequestModel {
        method: None,
        url: API@ + path,
        headers: seq![
            ("User-Agent"@, "portunus-gh-ext"@),
            ("Accept"@, accept),
            ("X-GitHub-Api-Version"@, "2022-11-28"@),
        ] + authorization(token),
        body: None,
    }
}

/// The request that posts JSON to a path of the API.
pub open spec fn post_request(
    path: Seq<char>,
    json: Seq<char>,
    token: Seq<char>,
) -> RequestModel {
    RequestModel {
        method: Some("POST"@),
        url: API@ + path,
        headers: seq![
            ("User-Agent"@, "portunus-gh-ext"@),
            ("Accept"@, ACCEPT_JSON@),
            ("Content-Type"@, "application/json"@),
            ("X-GitHub-Api-Version"@, "2022-11-28"@),
            ("Authorization"@, "Bearer "@ + token),
        ],
        body: Some(json),
    }
}

fn push_header(headers: &mut Vec<(String, String)>, name: &str, value: String)
    ensures
        final(headers).deep_view() == old(headers).deep_view().push((name@, value@)),
{
    headers.push((name.to_owned(), value));
    assert(headers.deep_view() =~= old(headers).deep_view().push((name@, value@)));
}

fn push_authorization(headers: &mut Vec<(String, String)>, token: &Option<String>)
    ensures
        final(headers).deep_view() == old(headers).deep_view() + authorization(token.deep_view()),
{
    match token {
        Some(t) => {
            push_header(headers, "Authorization", "Bearer ".to_owned().concat(t.as_str()));
            assert(headers.deep_view() =~= old(headers).deep_view() + authorization(
                token.deep_view(),
            ));
        },
        None => {
            assert(headers.deep_view() =~= old(headers).deep_view() + authorization(
                token.deep_view(),
            ));
        },
    }
}

/// Asks for a path of the API. Requests without a User-Agent are rejected; the
/// token is attached only where one is stored.
pub fn api_get(path: &str, accept: &str, token: &Option<String>) -> (r: Request)
    ensures
        r.deep_view() == get_request(path@, accept@, token.deep_view()),
{
    let mut headers: Vec<(String, String)> = Vec::new();
    push_header(&mut headers, "User-Agent", "portunus-gh-ext".to_owned());
    push_header(&mut headers, "Accept", accept.to_owned());
    push_header(&mut headers, "X-GitHub-Api-Version", "2022-11-28".to_owned());
    push_authorization(&mut headers, token);
    let r = Request { method: None, url: API.to_owned().concat(path), headers, body: None };
    assert(r.deep_view() =~= get_request(path@, accept@, token.deep_view()));
    r
}

/// Posts JSON to a path of the API. What changes something is never anonymous,
/// so there has to be a token.
pub fn api_post(path: &str, json_body: &str, token: &str) -> (r: Request)
    ensures
        r.deep_view() == post_request(path@, json_body@, token@),
{
    let mut headers: Vec<(String, String)> = Vec::new();
    push_header(&mut headers, "User-Agent", "portunus-gh-ext".to_owned());
    push_header(&mut headers, "Accept", ACCEPT_JSON.to_owned());
    push_header(&mut headers, "Content-Type", "application/json".to_owned());
    push_header(&mut headers, "X-GitHub-Api-Version", "2022-11-28".to_owned());
    push_header(&mut headers, "Authorization", "Bearer ".to_owned().concat(token));
    let r = Request {
        method: Some("POST".to_owned()),
        url: API.to_owned().concat(path),
        headers,
        body: Some(json_body.to_owned()),
    };
    assert(r.deep_view() =~= post_request(path@, json_body@, token@));
    r
}

/// Whether a status says that the rate limit is hit.
pub open spec fn rate_limited(status: u16) -> bool {
    status == 403 || status == 429
}

/// Whether a status says that the rate limit is hit.
pub fn is_rate_limited(status: u16) -> (r: bool)
    ensures
        r == rate_limited(status),
{
    status == 403 || status == 429
}

// ---------------------------------------------------------------------------
// Replies: the fields of each endpoint that are read
// ---------------------------------------------------------------------------

/// What comes back on a request: that it failed and why, or a status with what
/// the body was read as, or why it could not be.
#[derive(Debug, PartialEq, Eq)]
pub enum Reply<T> {
    Failed(String),
    Answered { status: u16, value: Result<T, String> },
}

#[derive(Debug, PartialEq, Eq)]
pub struct SearchResp<T> {
    pub items: Vec<T>,
}

#[derive(Debug, PartialEq, Eq)]
pub struct RepoItem {
    pub full_name: String,
    pub description: Option<String>,
    pub stargazers_count: u64,
    pub language: Option<String>,
    pub private: bool,
}

#[derive(Debug, PartialEq, Eq)]
pub struct IssueItem {
    pub title: String,
    pub number: u64,
    pub state: String,
    pub comments: u64,
    pub repository_url: String,
    pub pull_request: Option<PullRequestRef>,
    pub draft: bool,
}

/// Stands on the rows of an issue search that are pull requests. `merged_at`
/// tells a merged one from one that was closed.
#[derive(Debug, PartialEq, Eq)]
pub struct PullRequestRef {
    pub merged_at: Option<String>,
}

#[derive(Debug, PartialEq, Eq)]
pub struct UserItem {
    pub login: String,
    pub kind: String,
}

#[derive(Debug, PartialEq, Eq)]
pub struct CodeItem {
    pub name: String,
    pub path: String,
    pub html_url: String,
    pub repository: RepoRef,
}

#[derive(Debug, PartialEq, Eq)]
pub struct RepoRef {
    pub full_name: String,
}

#[derive(Debug, PartialEq, Eq)]
pub struct RepoDetail {
    pub full_name: String,
    pub description: Option<String>,
    pub stargazers_count: u64,
    pub forks_count: u64,
    pub open_issues_count: u64,
    pub language: Option<String>,
    pub license: Option<License>,
    pub default_branch: String,
    pub pushed_at: Option<String>,
    pub homepage: Option<String>,
    pub topics: Vec<String>,
}

#[derive(Debug, PartialEq, Eq)]
pub struct License {
    pub spdx_id: Option<String>,
    pub name: String,
}

#[derive(Debug, PartialEq, Eq)]
pub struct IssueDetail {
    pub title: String,
    pub state: String,
    pub body: Option<String>,
    pub comments: u64,
    pub user: Option<Login>,
    pub labels: Vec<Label>,
    pub assignees: Vec<Login>,
    pub created_at: Option<String>,
    pub updated_at: Option<String>,
}

#[derive(Debug, PartialEq, Eq)]
pub struct PrDetail {
    pub title: String,
    pub state: String,
    pub body: Option<String>,
    pub comments: u64,
    pub user: Option<Login>,
    pub labels: Vec<Label>,
    pub merged: bool,
    pub draft: bool,
    pub mergeable_state: Option<String>,
    pub additions: u64,
    pub deletions: u64,
    pub changed_files: u64,
    pub commits: u64,
    pub head: Option<GitRef>,
    pub base: Option<GitRef>,
    pub created_at: Option<String>,
    pub updated_at: Option<String>,
}

#[derive(Debug, PartialEq, Eq)]
pub struct GitRef {
    pub name: String,
}

#[derive(Debug, PartialEq, Eq)]
pub struct Login {
    pub login: String,
}

#[derive(Debug, PartialEq, Eq)]
pub struct Label {
    pub name: String,
}

#[derive(Debug, PartialEq, Eq)]
pub struct UserDetail {
    pub login: String,
    pub name: Option<String>,
    pub bio: Option<String>,
    pub company: Option<String>,
    pub location: Option<String>,
    pub followers: u64,
    pub following: u64,
    pub public_repos: u64,
    pub blog: Option<String>,
    pub kind: String,
}

/// One thread of the inbox.
#[derive(Debug, PartialEq, Eq)]
pub struct NotificationItem {
    pub reason: String,
    pub subject: NotifSubject,
    pub repository: RepoRef,
    pub updated_at: Option<String>,
}

/// What a thread is about. `url` is a resource of the API.
#[derive(Debug, PartialEq, Eq)]
pub struct NotifSubject {
    pub title: String,
    pub kind: String,
    pub url: Option<String>,
}

impl DeepView for Login {
    type V = Seq<char>;

    open spec fn deep_view(&self) -> Seq<char> {
        self.login@
    }
}

impl DeepView for Label {
    type V = Seq<char>;

    open spec fn deep_view(&self) -> Seq<char> {
        self.name@
    }
}

// ---------------------------------------------------------------------------
// Rows that are kept
// ---------------------------------------------------------------------------

#[derive(Debug, PartialEq, Eq)]
pub struct CachedRepo {
    pub full_name: String,
    pub description: Option<String>,
    pub stars: u64,
    pub language: Option<String>,
    pub private: bool,
}

#[verifier::ext_equal]
pub struct RepoModel {
    pub full_name: Seq<char>,
    pub description: Option<Seq<char>>,
    pub stars: u64,
    pub language: Option<Seq<char>>,
    pub private: bool,
}

impl DeepView for CachedRepo {
    type V = RepoModel;

    open spec fn deep_view(&self) -> RepoModel {
        RepoModel {
            full_name: self.full_name@,
            description: self.description.deep_view(),
            stars: self.stars,
            language: self.language.deep_view(),
            private: self.private,
        }
    }
}

impl DeepView for RepoItem {
    type V = RepoModel;

    open spec fn deep_view(&self) -> RepoModel {
        RepoModel {
            full_name: self.full_name@,
            description: self.description.deep_view(),
            stars: self.stargazers_count,
            language: self.language.deep_view(),
            private: self.private,
        }
    }
}

/// The row that is kept of a repository.
impl<'a> From<&'a RepoItem> for CachedRepo {
    fn from(r: &'a RepoItem) -> (c: CachedRepo)
        ensures
            c.deep_view() == r.deep_view(),
    {
        CachedRepo {
            full_name: r.full_name.clone(),
            description: copy_option(&r.description),
            stars: r.stargazers_count,
            language: copy_option(&r.language),
            private: r.private,
        }
    }
}

/// What `from` gives is fixed by its own contract, up to the texts in it; the two
/// are not claimed to be one value.
impl<'a> vstd::std_specs::convert::FromSpecImpl<&'a RepoItem> for CachedRepo {
    open spec fn obeys_from_spec() -> bool {
        false
    }

    open spec fn from_spec(r: &'a RepoItem) -> CachedRepo {
        arbitrary()
    }
}

impl CachedRepo {
    /// A copy of the row.
    pub fn copy(&self) -> (r: CachedRepo)
        ensures
            r.deep_view() == self.deep_view(),
    {
        CachedRepo {
            full_name: self.full_name.clone(),
            description: copy_option(&self.description),
            stars: self.stars,
            language: copy_option(&self.language),
            private: self.private,
        }
    }
}

/// A row for an issue or a pull request. `repo` and `number` name it; `badge`
/// says which dashboard query brought it.
#[derive(Debug, PartialEq, Eq)]
pub struct CachedIssue {
    pub repo: String,
    pub number: u64,
    pub title: String,
    pub state: String,
    pub is_pr: bool,
    pub merged: bool,
    pub draft: bool,
    pub comments: u64,
    pub badge: String,
}

#[verifier::ext_equal]
pub struct IssueModel {
    pub repo: Seq<char>,
    pub number: u64,
    pub title: Seq<char>,
    pub state: Seq<char>,
    pub is_pr: bool,
    pub merged: bool,
    pub draft: bool,
    pub comments: u64,
    pub badge: Seq<char>,
}

impl DeepView for CachedIssue {
    type V = IssueModel;

    open spec fn deep_view(&self) -> IssueModel {
        IssueModel {
            repo: self.repo@,
            number: self.number,
            title: self.title@,
            state: self.state@,
            is_pr: self.is_pr,
            merged: self.merged,
            draft: self.draft,
            comments: self.comments,
            badge: self.badge@,
        }
    }
}

impl CachedIssue {
    /// A copy of the row.
    pub fn copy(&self) -> (r: CachedIssue)
        ensures
            r.deep_view() == self.deep_view(),
    {
        CachedIssue {
            repo: self.repo.clone(),
            number: self.number,
            title: self.title.clone(),
            state: self.state.clone(),
            is_pr: self.is_pr,
            merged: self.merged,
            draft: self.draft,
            comments: self.comments,
            badge: self.badge.clone(),
        }
    }
}

/// A row for a thread of the inbox.
#[derive(Debug, PartialEq, Eq)]
pub struct CachedNotif {
    pub repo: String,
    pub title: String,
    pub kind: String,
    pub reason: String,
    pub html_url: String,
    pub updated_at: Option<String>,
}

#[verifier::ext_equal]
pub struct NotifModel {
    pub repo: Seq<char>,
    pub title: Seq<char>,
    pub kind: Seq<char>,
    pub reason: Seq<char>,
    pub html_url: Seq<char>,
    pub updated_at: Option<Seq<char>>,
}

impl DeepView for CachedNotif {
    type V = NotifModel;

    open spec fn deep_view(&self) -> NotifModel {
        NotifModel {
            repo: self.repo@,
            title: self.title@,
            kind: self.kind@,
            reason: self.reason@,
            html_url: self.html_url@,
            updated_at: self.updated_at.deep_view(),
        }
    }
}

impl CachedNotif {
    /// A copy of the row.
    pub fn copy(&self) -> (r: CachedNotif)
        ensures
            r.deep_view() == self.deep_view(),
    {
        CachedNotif {
            repo: self.repo.clone(),
            title: self.title.clone(),
            kind: self.kind.clone(),
            reason: self.reason.clone(),
            html_url: self.html_url.clone(),
            updated_at: copy_option(&self.updated_at),
        }
    }
}

/// The places where rows are kept.
#[derive(Debug, Clone, Copy, PartialEq, Eq)]
pub enum Source {
    Nothing,
    Repos,
    Starred,
    MyPrs,
    MyIssues,
    Notifs,
}

impl Source {
    /// The key of the place.
    pub open spec fn key_text(self) -> Option<Seq<char>> {
        match self {
            Source::Nothing => None,
            Source::Repos => Some(CACHE_REPOS@),
            Source::Starred => Some(CACHE_STARRED@),
            Source::MyPrs => Some(CACHE_MY_PRS@),
            Source::MyIssues => Some(CACHE_MY_ISSUES@),
            Source::Notifs => Some(CACHE_NOTIFS@),
        }
    }

    /// The key of the place.
    pub fn key(self) -> (r: Option<&'static str>)
        ensures
            match r {
                Some(k) => self.key_text() == Some(k@),
                None => self.key_text() is None,
            },
    {
        match self {
            Source::Nothing => None,
            Source::Repos => Some(CACHE_REPOS),
            Source::Starred => Some(CACHE_STARRED),
            Source::MyPrs => Some(CACHE_MY_PRS),
            Source::MyIssues => Some(CACHE_MY_ISSUES),
            Source::Notifs => Some(CACHE_NOTIFS),
        }
    }
}

/// What is kept under one key.
#[derive(Debug, PartialEq, Eq)]
pub enum Kept {
    Nothing,
    Repos(Vec<CachedRepo>),
    Issues(Vec<CachedIssue>),
    Notifs(Vec<CachedNotif>),
}

#[verifier::ext_equal]
pub enum KeptModel {
    Nothing,
    Repos(Seq<RepoModel>),
    Issues(Seq<IssueModel>),
    Notifs(Seq<NotifModel>),
}

impl DeepView for Kept {
    type V = KeptModel;

    open spec fn deep_view(&self) -> KeptModel {
        match self {
            Kept::Nothing => KeptModel::Nothing,
            Kept::Repos(rows) => KeptModel::Repos(rows.deep_view()),
            Kept::Issues(rows) => KeptModel::Issues(rows.deep_view()),
            Kept::Notifs(rows) => KeptModel::Notifs(rows.deep_view()),
        }
    }
}

impl KeptModel {
    /// The repositories among it.
    pub open spec fn repos(self) -> Seq<RepoModel> {
        match self {
            KeptModel::Repos(rows) => rows,
            _ => seq![],
        }
    }

    /// The issues and pull requests among it.
    pub open spec fn issues(self) -> Seq<IssueModel> {
        match self {
            KeptModel::Issues(rows) => rows,
            _ => seq![],
        }
    }

    /// The notifications among it.
    pub open spec fn notifs(self) -> Seq<NotifModel> {
        match self {
            KeptModel::Notifs(rows) => rows,
            _ => seq![],
        }
    }
}

// ---------------------------------------------------------------------------
// The repositories that are kept
// ---------------------------------------------------------------------------

/// Whether one of the rows has that name.
pub open spec fn knows(rows: Seq<RepoModel>, name: Seq<char>) -> bool {
    exists|i: int| 0 <= i < rows.len() && #[trigger] rows[i].full_name == name
}

/// `fresh`, then each row of `old` whose name is not there yet.
pub open spec fn with_others(fresh: Seq<RepoModel>, old: Seq<RepoModel>) -> Seq<RepoModel>
    decreases old.len(),
{
    if old.len() == 0 {
        fresh
    } else {
        let rows = with_others(fresh, old.drop_last());
        if knows(rows, old.last().full_name) {
            rows
        } else {
            rows.push(old.last())
        }
    }
}

/// The rows, but each name once: the first row of a name stays.
pub open spec fn once_each(rows: Seq<RepoModel>) -> Seq<RepoModel> {
    with_others(seq![], rows)
}

/// What is kept when `fresh` rows come to the `old` ones.
pub open spec fn merged_repos(fresh: Seq<RepoModel>, old: Seq<RepoModel>) -> Seq<RepoModel> {
    at_most(with_others(once_each(fresh), old), 200)
}

fn has_repo(rows: &Vec<CachedRepo>, name: &str) -> (r: bool)
    ensures
        r == knows(rows.deep_view(), name@),
{
    let mut i: usize = 0;
    while i < rows.len()
        invariant
            i <= rows.len(),
            forall|k: int| 0 <= k < i ==> #[trigger] rows.deep_view()[k].full_name != name@,
        decreases rows.len() - i,
    {
        if same(rows[i].full_name.as_str(), name) {
            assert(rows.deep_view()[i as int].full_name == name@);
            return true;
        }
        i = i + 1;
    }
    false
}

/// Puts each of `more` behind `rows` whose name is not there yet.
fn add_others(rows: &mut Vec<CachedRepo>, more: &Vec<CachedRepo>)
    ensures
        final(rows).deep_view() == with_others(old(rows).deep_view(), more.deep_view()),
{
    let ghost start = rows.deep_view();
    let ghost all = more.deep_view();
    let mut i: usize = 0;
    assert(all.take(0) =~= Seq::<RepoModel>::empty());
    while i < more.len()
        invariant
            i <= more.len(),
            all == more.deep_view(),
            rows.deep_view() == with_others(start, all.take(i as int)),
        decreases more.len() - i,
    {
        let ghost before = rows.deep_view();
        assert(all.take(i + 1).drop_last() =~= all.take(i as int));
        assert(all.take(i + 1).last() == more[i as int].deep_view());
        if !has_repo(rows, more[i].full_name.as_str()) {
            rows.push(more[i].copy());
            assert(rows.deep_view() =~= before.push(all[i as int]));
        }
        i = i + 1;
    }
    assert(all.take(i as int) =~= all);
}

/// Puts `fresh` repositories before those that are kept, each name once, and
/// keeps the first ones, so that what was searched for is found at once next
/// time.
pub fn merge_repo_cache(fresh: &Vec<CachedRepo>, kept: Vec<CachedRepo>) -> (r: Vec<CachedRepo>)
    ensures
        r.deep_view() == merged_repos(fresh.deep_view(), kept.deep_view()),
{
    let mut merged: Vec<CachedRepo> = Vec::new();
    assert(merged.deep_view() =~= seq![]);
    add_others(&mut merged, fresh);
    add_others(&mut merged, &kept);
    let ghost whole = merged.deep_view();
    if merged.len() > CACHE_CAP {
        merged.truncate(CACHE_CAP);
    }
    assert(merged.deep_view() =~= at_most(whole, 200));
    merged
}

proof fn lemma_with_others(fresh: Seq<RepoModel>, old: Seq<RepoModel>)
    ensures
        fresh.len() <= with_others(fresh, old).len(),
        with_others(fresh, old).take(fresh.len() as int) == fresh,
        forall|i: int, j: int|
            fresh.len() <= j < with_others(fresh, old).len() && 0 <= i < j ==> (
            #[trigger] with_others(fresh, old)[i]).full_name != (
            #[trigger] with_others(fresh, old)[j]).full_name,
        forall|j: int|
            fresh.len() <= j < with_others(fresh, old).len() ==> old.contains(
                #[trigger] with_others(fresh, old)[j],
            ),
        forall|i: int|
            0 <= i < old.len() ==> knows(with_others(fresh, old), (#[trigger] old[i]).full_name),
    decreases old.len(),
{
    if old.len() == 0 {
        assert(fresh.take(fresh.len() as int) =~= fresh);
    } else {
        let head = old.drop_last();
        lemma_with_others(fresh, head);
        let rows = with_others(fresh, head);
        let all = with_others(fresh, old);
        assert(all.take(fresh.len() as int) =~= rows.take(fresh.len() as int));
        assert forall|j: int| fresh.len() <= j < all.len() implies old.contains(
            #[trigger] all[j],
        ) by {
            if j < rows.len() {
                let k = choose|k: int| 0 <= k < head.len() && head[k] == rows[j];
                assert(old[k] == all[j]);
            } else {
                assert(old[old.len() - 1] == all[j]);
            }
        }
        assert forall|i: int| 0 <= i < old.len() implies knows(
            all,
            (#[trigger] old[i]).full_name,
        ) by {
            if i < head.len() {
                assert(old[i] == head[i]);
                assert(knows(rows, head[i].full_name));
                let k = choose|k: int|
                    0 <= k < rows.len() && #[trigger] rows[k].full_name == head[i].full_name;
                assert(all[k] == rows[k]);
            } else if !knows(rows, old.last().full_name) {
                assert(all[all.len() - 1].full_name == old[i].full_name);
            } else {
                assert(all == rows);
            }
        }
    }
}

/// Of several rows of one name the first stays: what is left of the rows has
/// each of their names, each once, and holds no other row.
pub proof fn law_each_name_once(rows: Seq<RepoModel>)
    ensures
        ({
            let left = once_each(rows);
            &&& left.len() <= rows.len()
            &&& forall|i: int, j: int|
                0 <= i < j < left.len() ==> (#[trigger] left[i]).full_name != (
                #[trigger] left[j]).full_name
            &&& forall|i: int| 0 <= i < rows.len() ==> knows(left, (#[trigger] rows[i]).full_name)
            &&& forall|j: int| 0 <= j < left.len() ==> rows.contains(#[trigger] left[j])
            &&& forall|k: int|
                0 <= k < rows.len() && !knows(rows.take(k), (#[trigger] rows[k]).full_name)
                    ==> left.contains(rows[k])
        }),
{
    let left = once_each(rows);
    lemma_with_others(seq![], rows);
    lemma_with_others_len(seq![], rows);
    assert forall|k: int|
        0 <= k < rows.len() && !knows(rows.take(k), (#[trigger] rows[k]).full_name) implies left
        .contains(rows[k]) by {
        lemma_first_stays(rows, k);
    }
}

proof fn lemma_first_stays(rows: Seq<RepoModel>, k: int)
    requires
        0 <= k < rows.len(),
        !knows(rows.take(k), rows[k].full_name),
    ensures
        once_each(rows).contains(rows[k]),
    decreases rows.len(),
{
    let head = rows.drop_last();
    let left = once_each(head);
    let all = once_each(rows);
    if k < head.len() {
        assert(head.take(k) =~= rows.take(k));
        lemma_first_stays(head, k);
        let j = choose|j: int| 0 <= j < left.len() && left[j] == head[k];
        assert(all[j] == rows[k]);
    } else {
        assert(head =~= rows.take(k));
        if knows(left, rows[k].full_name) {
            lemma_with_others(seq![], head);
            let j = choose|j: int|
                0 <= j < left.len() && #[trigger] left[j].full_name == rows[k].full_name;
            assert(head.contains(left[j]));
            let i = choose|i: int| 0 <= i < head.len() && head[i] == left[j];
            assert(rows.take(k)[i].full_name == rows[k].full_name);
        }
        assert(all[all.len() - 1] == rows[k]);
    }
}

/// No two of the rows that are kept have the same name, and there are never more
/// than two hundred.
pub proof fn law_kept_names_differ(fresh: Seq<RepoModel>, old: Seq<RepoModel>)
    ensures
        ({
            let kept = merged_repos(fresh, old);
            &&& kept.len() <= 200
            &&& forall|i: int, j: int|
                0 <= i < j < kept.len() ==> (#[trigger] kept[i]).full_name != (
                #[trigger] kept[j]).full_name
        }),
{
    let first = once_each(fresh);
    let all = with_others(first, old);
    lemma_with_others(seq![], fresh);
    lemma_with_others(first, old);
    assert forall|i: int, j: int| 0 <= i < j < all.len() implies (#[trigger] all[i]).full_name != (
    #[trigger] all[j]).full_name by {
        if j < first.len() {
            assert(all.take(first.len() as int)[i] == all[i]);
            assert(all.take(first.len() as int)[j] == all[j]);
            assert(first[i].full_name != first[j].full_name);
        }
    }
}

/// Of the rows that are kept the fresh ones come first, each name once; the
/// others were kept before. Where there is room, no known name is lost.
pub proof fn law_merge_keeps_fresh_first(fresh: Seq<RepoModel>, old: Seq<RepoModel>)
    ensures
        ({
            let kept = merged_repos(fresh, old);
            let first = once_each(fresh);
            &&& at_most(first, 200).len() <= kept.len()
            &&& at_most(first, 200) == kept.take(at_most(first, 200).len() as int)
            &&& forall|j: int| first.len() <= j < kept.len() ==> old.contains(#[trigger] kept[j])
            &&& first.len() + old.len() <= 200 ==> forall|i: int|
                0 <= i < old.len() ==> knows(kept, (#[trigger] old[i]).full_name)
        }),
{
    let first = once_each(fresh);
    lemma_with_others(first, old);
    lemma_with_others_len(first, old);
    let all = with_others(first, old);
    let kept = merged_repos(fresh, old);
    let n = at_most(first, 200).len() as int;
    assert(at_most(first, 200) =~= kept.take(n)) by {
        assert forall|i: int| 0 <= i < n implies at_most(first, 200)[i] == kept.take(n)[i] by {
            assert(all.take(first.len() as int)[i] == all[i]);
        }
    }
}

proof fn lemma_with_others_len(fresh: Seq<RepoModel>, old: Seq<RepoModel>)
    ensures
        with_others(fresh, old).len() <= fresh.len() + old.len(),
    decreases old.len(),
{
    if old.len() > 0 {
        lemma_with_others_len(fresh, old.drop_last());
    }
}

/// Rows that come again change nothing: what is kept is the same the second
/// time.
pub proof fn law_merge_again_is_same(fresh: Seq<RepoModel>, old: Seq<RepoModel>)
    ensures
        merged_repos(fresh, merged_repos(fresh, old)) == merged_repos(fresh, old),
{
    let first = once_each(fresh);
    let kept = merged_repos(fresh, old);
    lemma_with_others(first, old);
    law_kept_names_differ(fresh, old);
    let all = with_others(first, old);
    assert forall|i: int| 0 <= i < first.len() && i < kept.len() implies first[i] == kept[i] by {
        assert(all.take(first.len() as int)[i] == all[i]);
    }
    lemma_merge_prefix(first, kept, kept.len() as int);
    assert(kept.take(kept.len() as int) =~= kept);
}

proof fn lemma_merge_prefix(fresh: Seq<RepoModel>, kept: Seq<RepoModel>, n: int)
    requires
        0 <= n <= kept.len() <= 200,
        forall|i: int| 0 <= i < fresh.len() && i < kept.len() ==> fresh[i] == kept[i],
        kept.len() < 200 ==> fresh.len() <= kept.len(),
        forall|i: int, j: int|
            0 <= i < j < kept.len() ==> (#[trigger] kept[i]).full_name != (
            #[trigger] kept[j]).full_name,
    ensures
        with_others(fresh, kept.take(n)) == (if n <= fresh.len() {
            fresh
        } else {
            kept.take(n)
        }),
        n == kept.len() ==> at_most(with_others(fresh, kept), 200) == kept,
    decreases n,
{
    if n > 0 {
        lemma_merge_prefix(fresh, kept, n - 1);
        let head = kept.take(n);
        assert(head.drop_last() =~= kept.take(n - 1));
        let rows = with_others(fresh, kept.take(n - 1));
        if n <= fresh.len() {
            assert(rows[n - 1].full_name == head.last().full_name);
        } else {
            if n - 1 <= fresh.len() {
                assert(fresh =~= kept.take(n - 1));
            }
            assert(rows =~= kept.take(n - 1));
            if knows(rows, head.last().full_name) {
                let k = choose|k: int|
                    0 <= k < rows.len() && #[trigger] rows[k].full_name == head.last().full_name;
                assert(kept[k].full_name == kept[n - 1].full_name);
            }
            assert(rows.push(head.last()) =~= kept.take(n));
        }
    }
    if n == kept.len() {
        assert(kept.take(n) =~= kept);
        if n <= fresh.len() {
            if fresh.len() > 200 {
                assert(fresh.take(200) =~= kept);
            } else {
                assert(fresh =~= kept);
            }
        }
    }
}

// ---------------------------------------------------------------------------
// Addresses
// ---------------------------------------------------------------------------

/// "owner/name" in the address of an API resource: the first two segments
/// behind "/repos/".
pub open spec fn repo_in_url(url: Seq<char>) -> Option<Seq<char>> {
    match cut_once(url, "/repos/"@) {
        Some((_, rest)) => {
            let p = pieces(rest, '/');
            if p.len() >= 2 {
                Some(p[0] + "/"@ + p[1])
            } else {
                None
            }
        },
        None => None,
    }
}

/// "owner/name" from an address like ".../repos/owner/name" or
/// ".../repos/owner/name/issues/3".
pub fn repo_from_api_url(url: &str) -> (r: Option<String>)
    ensures
        r.deep_view() == repo_in_url(url@),
{
    match split_once(url, "/repos/") {
        Some((_, rest)) => {
            let p = split(rest.as_str(), '/');
            assert(p.deep_view().len() == p.len());
            if p.len() >= 2 {
                assert(p.deep_view()[0] == p[0]@ && p.deep_view()[1] == p[1]@);
                Some(p[0].clone().concat("/").concat(p[1].as_str()))
            } else {
                None
            }
        },
        None => None,
    }
}

/// The page of a repository.
pub open spec fn repo_page(repo: Seq<char>) -> Seq<char> {
    "https://github.com/"@ + repo
}

/// The page of the API resource `tail`, the segments behind "/repos/"; the page
/// of `repo` where it is of no known kind. The number of a release is no tag, so
/// it leads to the list of releases.
pub open spec fn resource_page(tail: Seq<char>, repo: Seq<char>) -> Seq<char> {
    let p = pieces(tail, '/');
    if p.len() < 4 {
        repo_page(repo)
    } else {
        let base = repo_page(p[0] + "/"@ + p[1]);
        if p[2] == "pulls"@ {
            base + "/pull/"@ + p[3]
        } else if p[2] == "issues"@ {
            base + "/issues/"@ + p[3]
        } else if p[2] == "commits"@ {
            base + "/commit/"@ + p[3]
        } else if p[2] == "releases"@ {
            base + "/releases"@
        } else if p[2] == "discussions"@ {
            base + "/discussions/"@ + p[3]
        } else {
            repo_page(repo)
        }
    }
}

/// The page that a notification leads to.
pub open spec fn notif_page(url: Option<Seq<char>>, repo: Seq<char>) -> Seq<char> {
    match url {
        Some(u) => match cut_once(u, "/repos/"@) {
            Some((_, tail)) => resource_page(tail, repo),
            None => repo_page(repo),
        },
        None => repo_page(repo),
    }
}

/// The page that a notification leads to. What has no page of its own leads to
/// the repository, so that there is always somewhere to go.
pub fn notif_html_url(subject: &NotifSubject, repo: &str) -> (r: String)
    ensures
        r@ == notif_page(subject.url.deep_view(), repo@),
{
    let page = "https://github.com/".to_owned().concat(repo);
    let url = match &subject.url {
        Some(u) => u,
        None => return page,
    };
    let tail = match split_once(url.as_str(), "/repos/") {
        Some((_, tail)) => tail,
        None => return page,
    };
    let p = split(tail.as_str(), '/');
    assert(p.deep_view().len() == p.len());
    if p.len() < 4 {
        return page;
    }
    assert(p.deep_view()[0] == p[0]@ && p.deep_view()[1] == p[1]@ && p.deep_view()[2] == p[2]@
        && p.deep_view()[3] == p[3]@);
    let name = p[0].clone().concat("/").concat(p[1].as_str());
    let base = "https://github.com/".to_owned().concat(name.as_str());
    let kind = p[2].as_str();
    let number = p[3].as_str();
    if same(kind, "pulls") {
        base.concat("/pull/").concat(number)
    } else if same(kind, "issues") {
        base.concat("/issues/").concat(number)
    } else if same(kind, "commits") {
        base.concat("/commit/").concat(number)
    } else if same(kind, "releases") {
        base.concat("/releases")
    } else if same(kind, "discussions") {
        base.concat("/discussions/").concat(number)
    } else {
        page
    }
}

/// The address of a resource of a repository.
pub open spec fn resource_url(repo: Seq<char>, path: Seq<char>) -> Seq<char> {
    API@ + "/repos/"@ + repo + path
}

proof fn lemma_resource_url(repo: Seq<char>, path: Seq<char>)
    ensures
        cut_once(resource_url(repo, path), "/repos/"@) == Some((API@, repo + path)),
{
    let url = resource_url(repo, path);
    let p = "/repos/"@;
    reveal_strlit("https://api.github.com");
    reveal_strlit("/repos/");
    assert(API@ == "https://api.github.com"@);
    assert forall|i: int| 0 <= i < 22 implies !#[trigger] occurs_at(url, p, i) by {
        assert(url.subrange(i, i + 7)[0] == url[i]);
        assert(url.subrange(i, i + 7)[1] == url[i + 1]);
        assert(url.subrange(i, i + 7)[6] == url[i + 6]);
        if i < 22 && API@[i] == '/' {
            assert(i == 6 || i == 7);
        }
    }
    assert(url.subrange(22, 29) =~= p);
    lemma_position_is(url, p, 22);
    assert(url.take(22) =~= API@);
    assert(url.skip(29) =~= repo + path);
}

/// The name of a repository is read from the address of each of its resources.
pub proof fn law_repo_of_its_resources(owner: Seq<char>, name: Seq<char>, path: Seq<char>)
    requires
        !owner.contains('/'),
        !name.contains('/'),
        path.len() == 0 || path[0] == '/',
    ensures
        repo_in_url(resource_url(owner + "/"@ + name, path)) == Some(owner + "/"@ + name),
{
    reveal_strlit("/");
    lemma_resource_url(owner + "/"@ + name, path);
    lemma_two_segments(owner, name, path);
}

proof fn lemma_two_segments(owner: Seq<char>, name: Seq<char>, path: Seq<char>)
    requires
        !owner.contains('/'),
        !name.contains('/'),
        path.len() == 0 || path[0] == '/',
    ensures
        pieces(owner + "/"@ + name + path, '/') == seq![owner, name] + (if path.len() == 0 {
            seq![]
        } else {
            pieces(path.skip(1), '/')
        }),
{
    reveal_strlit("/");
    let rest = owner + "/"@ + name + path;
    assert(rest =~= owner.push('/') + (name + path));
    lemma_pieces_more(owner, '/', name + path);
    if path.len() == 0 {
        assert(name + path =~= name);
        lemma_pieces_one(name, '/');
    } else {
        assert(name + path =~= name.push('/') + path.skip(1));
        lemma_pieces_more(name, '/', path.skip(1));
    }
}

/// A notification about a pull request, an issue, a commit or a discussion leads
/// to its page, and one about a release to the list of releases.
pub proof fn law_notification_leads_to_its_page(
    owner: Seq<char>,
    name: Seq<char>,
    number: Seq<char>,
    repo: Seq<char>,
)
    requires
        !owner.contains('/'),
        !name.contains('/'),
        !number.contains('/'),
    ensures
        notif_page(Some(resource_url(owner + "/"@ + name, "/pulls/"@ + number)), repo) == repo_page(
            owner + "/"@ + name,
        ) + "/pull/"@ + number,
        notif_page(Some(resource_url(owner + "/"@ + name, "/issues/"@ + number)), repo)
            == repo_page(owner + "/"@ + name) + "/issues/"@ + number,
        notif_page(Some(resource_url(owner + "/"@ + name, "/commits/"@ + number)), repo)
            == repo_page(owner + "/"@ + name) + "/commit/"@ + number,
        notif_page(Some(resource_url(owner + "/"@ + name, "/releases/"@ + number)), repo)
            == repo_page(owner + "/"@ + name) + "/releases"@,
        notif_page(Some(resource_url(owner + "/"@ + name, "/discussions/"@ + number)), repo)
            == repo_page(owner + "/"@ + name) + "/discussions/"@ + number,
{
    reveal_strlit("pulls");
    reveal_strlit("/pulls/");
    reveal_strlit("issues");
    reveal_strlit("/issues/");
    reveal_strlit("commits");
    reveal_strlit("/commits/");
    reveal_strlit("releases");
    reveal_strlit("/releases/");
    reveal_strlit("discussions");
    reveal_strlit("/discussions/");
    lemma_numbered(owner, name, "pulls"@, number);
    lemma_numbered(owner, name, "issues"@, number);
    lemma_numbered(owner, name, "commits"@, number);
    lemma_numbered(owner, name, "releases"@, number);
    lemma_numbered(owner, name, "discussions"@, number);
    assert("pulls"@.len() == 5 && "issues"@.len() == 6 && "commits"@.len() == 7
        && "releases"@.len() == 8 && "discussions"@.len() == 11);
    assert("/pulls/"@ + number =~= seq!['/'] + "pulls"@.push('/') + number);
    assert("/issues/"@ + number =~= seq!['/'] + "issues"@.push('/') + number);
    assert("/commits/"@ + number =~= seq!['/'] + "commits"@.push('/') + number);
    assert("/releases/"@ + number =~= seq!['/'] + "releases"@.push('/') + number);
    assert("/discussions/"@ + number =~= seq!['/'] + "discussions"@.push('/') + number);
}

proof fn lemma_numbered(owner: Seq<char>, name: Seq<char>, kind: Seq<char>, number: Seq<char>)
    requires
        !owner.contains('/'),
        !name.contains('/'),
        !kind.contains('/'),
        !number.contains('/'),
    ensures
        ({
            let path = seq!['/'] + kind.push('/') + number;
            let full = owner + "/"@ + name;
            &&& cut_once(resource_url(full, path), "/repos/"@) == Some((API@, full + path))
            &&& pieces(full + path, '/') == seq![owner, name, kind, number]
        }),
{
    let path = seq!['/'] + kind.push('/') + number;
    let full = owner + "/"@ + name;
    lemma_resource_url(full, path);
    lemma_two_segments(owner, name, path);
    assert(path.skip(1) =~= kind.push('/') + number);
    lemma_pieces_more(kind, '/', number);
    lemma_pieces_one(number, '/');
    assert(pieces(full + path, '/') =~= seq![owner, name, kind, number]);
}

/// A notification always leads somewhere on the site.
pub proof fn law_notification_always_leads_to_site(url: Option<Seq<char>>, repo: Seq<char>)
    ensures
        has_prefix(notif_page(url, repo), "https://github.com/"@),
{
    let site = "https://github.com/"@;
    let page = notif_page(url, repo);
    assert(page.take(site.len() as int) =~= site);
}

/// Every request names its agent; a token goes out only where one is stored.
pub proof fn law_token_goes_out_only_where_stored(
    path: Seq<char>,
    accept: Seq<char>,
    token: Option<Seq<char>>,
)
    ensures
        get_request(path, accept, token).headers.contains(("User-Agent"@, "portunus-gh-ext"@)),
        token matches Some(t) ==> get_request(path, accept, token).headers.contains(
            ("Authorization"@, "Bearer "@ + t),
        ),
        token is None ==> forall|i: int|
            0 <= i < get_request(path, accept, token).headers.len() ==> (#[trigger] get_request(
                path,
                accept,
                token,
            ).headers[i]).0 != "Authorization"@,
{
    let headers = get_request(path, accept, token).headers;
    assert(headers[0] == ("User-Agent"@, "portunus-gh-ext"@));
    match token {
        Some(t) => {
            assert(headers[3] == ("Authorization"@, "Bearer "@ + t));
        },
        None => {
            reveal_strlit("Authorization");
            reveal_strlit("User-Agent");
            reveal_strlit("Accept");
            reveal_strlit("X-GitHub-Api-Version");
            assert("Authorization"@.len() == 13 && "User-Agent"@.len() == 10 && "Accept"@.len() == 6
                && "X-GitHub-Api-Version"@.len() == 20);
        },
    }
}

/// Pages and requests are those of GitHub: a request goes to the API, as a question
/// with the media type that was asked for, or as a post with its JSON and the
/// token.
pub proof fn law_requests_go_to_the_api(
    path: Seq<char>,
    accept: Seq<char>,
    json: Seq<char>,
    token: Option<Seq<char>>,
    secret: Seq<char>,
)
    ensures
        repo_page(path) == "https://github.com/"@ + path,
        ({
            let r = get_request(path, accept, token);
            &&& r.url == "https://api.github.com"@ + path
            &&& r.method is None && r.body is None
            &&& r.headers.contains(("Accept"@, accept))
            &&& r.headers.contains(("X-GitHub-Api-Version"@, "2022-11-28"@))
        }),
        ({
            let r = post_request(path, json, secret);
            &&& r.url == "https://api.github.com"@ + path
            &&& r.method == Some("POST"@) && r.body == Some(json)
            &&& r.headers.contains(("Authorization"@, "Bearer "@ + secret))
            &&& r.headers.contains(("Content-Type"@, "application/json"@))
            &&& r.headers.contains(("User-Agent"@, "portunus-gh-ext"@))
        }),
{
    let g = get_request(path, accept, token).headers;
    assert(g[1] == ("Accept"@, accept));
    assert(g[2] == ("X-GitHub-Api-Version"@, "2022-11-28"@));
    let p = post_request(path, json, secret).headers;
    assert(p[0] == ("User-Agent"@, "portunus-gh-ext"@));
    assert(p[2] == ("Content-Type"@, "application/json"@));
    assert(p[4] == ("Authorization"@, "Bearer "@ + secret));
}

/// A token is what the setting holds, unless that is blank; two statuses say that
/// the rate limit is hit.
pub proof fn law_blank_token_is_none(t: Seq<char>, status: u16)
    ensures
        trimmed(t).len() > 0 ==> token_in(Some(t)) == Some(t),
        trimmed(t).len() == 0 ==> token_in(Some(t)) is None,
        token_in(None) is None,
        rate_limited(status) <==> status == 403 || status == 429,
{
}

/// The lists are kept apart: no two places have the same key.
pub proof fn law_places_have_their_own_keys(a: Source, b: Source)
    requires
        a != b,
    ensures
        a.key_text() is Some ==> a.key_text() != b.key_text(),
        a.key_text() is None <==> a == Source::Nothing,
{
    reveal_strlit("repos");
    reveal_strlit("starred");
    reveal_strlit("my_prs");
    reveal_strlit("my_issues");
    reveal_strlit("notifs");
    assert(CACHE_REPOS@.len() == 5 && CACHE_STARRED@.len() == 7 && CACHE_MY_PRS@.len() == 6
        && CACHE_MY_ISSUES@.len() == 9 && CACHE_NOTIFS@.len() == 6);
    assert(CACHE_MY_PRS@[0] == 'm' && CACHE_NOTIFS@[0] == 'n');
}

} // verus!
