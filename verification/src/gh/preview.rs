//! Previews. What is kept of a repository is shown at once; what the API says
//! follows, and then the README, or the text of an issue or a pull request.
use vstd::prelude::*;
use vstd::string::*;
use vstd::utf8::*;

use crate::gh::activate::{numbered_in, split_numbered};
use crate::gh::api::{
    is_rate_limited, law_notification_leads_to_its_page, law_repo_of_its_resources, notif_page,
    rate_limited, repo_in_url, repo_page, resource_url, CachedRepo, IssueDetail, IssueModel, Label,
    License, Login, NotifModel, PrDetail, RepoDetail, RepoModel, Reply, UserDetail, ACCEPT_JSON,
};
use crate::gh::readme::{absolutize_readme, capped, readme_linked, truncate_md};
use crate::gh::render::{
    count_text, fmt_count, issue_row, notif_row, pr_state, pr_state_text, repo_row, user_row,
};
use crate::gh::time::{humanize, humanized};
use crate::host::{item, meta, MetadataItem, MetadataModel, PreviewContent, PreviewModel, Relevance};
use crate::text::{
    copy_option, decimal, decimal_text, eq_ignore_ascii_case, join, joined, lemma_cut_at_char,
    lemma_other_prefix, lemma_pieces_more, lemma_pieces_one, lemma_without_prefix, pieces, replace,
    replaced, same, same_ignoring_ascii_case, split, strip_prefix, trim, trimmed, without_prefix,
};

verus! {

// ---------------------------------------------------------------------------
// Steps
// ---------------------------------------------------------------------------

/// What a preview does next.
#[derive(Debug, PartialEq, Eq)]
pub enum PreviewStep {
    /// Shows this, and is done.
    Show(PreviewContent),
    /// Shows this for now, and goes on while it is wanted.
    Emit(PreviewContent),
    /// Asks the API for this path, with this media type.
    Ask { path: String, accept: String },
    /// Fails with this message.
    Fail(String),
}

#[verifier::ext_equal]
pub enum PreviewStepModel {
    Show(PreviewModel),
    Emit(PreviewModel),
    Ask { path: Seq<char>, accept: Seq<char> },
    Fail(Seq<char>),
}

impl DeepView for PreviewStep {
    type V = PreviewStepModel;

    open spec fn deep_view(&self) -> PreviewStepModel {
        match self {
            PreviewStep::Show(content) => PreviewStepModel::Show(content.deep_view()),
            PreviewStep::Emit(content) => PreviewStepModel::Emit(content.deep_view()),
            PreviewStep::Ask { path, accept } => PreviewStepModel::Ask {
                path: path@,
                accept: accept@,
            },
            PreviewStep::Fail(message) => PreviewStepModel::Fail(message@),
        }
    }
}

/// What is to be previewed.
#[derive(Debug, PartialEq, Eq)]
pub enum Target {
    Repo(String),
    Pr { repo: String, number: String },
    Issue { repo: String, number: String },
    User(String),
    /// It is known at once what is shown.
    Known(PreviewContent),
}

#[verifier::ext_equal]
pub enum TargetModel {
    Repo(Seq<char>),
    Pr { repo: Seq<char>, number: Seq<char> },
    Issue { repo: Seq<char>, number: Seq<char> },
    User(Seq<char>),
    Known(PreviewModel),
}

impl DeepView for Target {
    type V = TargetModel;

    open spec fn deep_view(&self) -> TargetModel {
        match self {
            Target::Repo(full) => TargetModel::Repo(full@),
            Target::Pr { repo, number } => TargetModel::Pr { repo: repo@, number: number@ },
            Target::Issue { repo, number } => TargetModel::Issue { repo: repo@, number: number@ },
            Target::User(login) => TargetModel::User(login@),
            Target::Known(content) => TargetModel::Known(content.deep_view()),
        }
    }
}

// ---------------------------------------------------------------------------
// Metadata
// ---------------------------------------------------------------------------

/// A preview of these lines.
pub open spec fn lines_shown(items: Seq<MetadataModel>) -> PreviewModel {
    PreviewModel::Metadata { items }
}

/// A line, where there is something to say.
pub open spec fn maybe(label: Seq<char>, value: Option<Seq<char>>) -> Seq<MetadataModel> {
    match value {
        Some(v) => seq![meta(label, v)],
        None => seq![],
    }
}

/// The text, if it is not empty.
pub open spec fn nonempty(value: Option<Seq<char>>) -> Option<Seq<char>> {
    match value {
        Some(v) if v.len() > 0 => Some(v),
        _ => None,
    }
}

/// The text, if it is not blank.
pub open spec fn nonblank(value: Option<Seq<char>>) -> Option<Seq<char>> {
    match value {
        Some(v) if trimmed(v).len() > 0 => Some(v),
        _ => None,
    }
}

/// The time since a timestamp, if there is one.
pub open spec fn since(ts: Option<Seq<char>>, now_ms: Option<u64>) -> Option<Seq<char>> {
    match ts {
        Some(t) => Some(humanized(t, now_ms)),
        None => None,
    }
}

/// Names in a row, if there are any.
pub open spec fn names(list: Seq<Seq<char>>) -> Option<Seq<char>> {
    if list.len() == 0 {
        None
    } else {
        Some(joined(list, ", "@))
    }
}

fn push(items: &mut Vec<MetadataItem>, label: &str, value: String)
    ensures
        final(items).deep_view() == old(items).deep_view().push(meta(label@, value@)),
{
    items.push(item(label, value));
    assert(items.deep_view() =~= old(items).deep_view().push(meta(label@, value@)));
}

fn push_maybe(items: &mut Vec<MetadataItem>, label: &str, value: Option<String>)
    ensures
        final(items).deep_view() == old(items).deep_view() + maybe(label@, value.deep_view()),
{
    match value {
        Some(v) => {
            let ghost text = v@;
            push(items, label, v);
            assert(items.deep_view() =~= old(items).deep_view() + seq![meta(label@, text)]);
        },
        None => {
            assert(items.deep_view() =~= old(items).deep_view() + Seq::<MetadataModel>::empty());
        },
    }
}

fn when_nonempty(value: &Option<String>) -> (r: Option<String>)
    ensures
        r.deep_view() == nonempty(value.deep_view()),
{
    match value {
        Some(v) => if v.as_str().is_empty() {
            None
        } else {
            Some(v.clone())
        },
        None => None,
    }
}

fn when_nonblank(value: &Option<String>) -> (r: Option<String>)
    ensures
        r.deep_view() == nonblank(value.deep_view()),
{
    match value {
        Some(v) => {
            let t = trim(v.as_str());
            if t.as_str().is_empty() {
                None
            } else {
                Some(v.clone())
            }
        },
        None => None,
    }
}

fn time_since(ts: &Option<String>, now_ms: Option<u64>) -> (r: Option<String>)
    ensures
        r.deep_view() == since(ts.deep_view(), now_ms),
{
    match ts {
        Some(t) => Some(humanize(t.as_str(), now_ms)),
        None => None,
    }
}

fn join_names(list: &Vec<String>) -> (r: Option<String>)
    ensures
        r.deep_view() == names(list.deep_view()),
{
    assert(list.deep_view().len() == list.len());
    if list.len() == 0 {
        None
    } else {
        Some(join(list, ", "))
    }
}

fn label_names(labels: &Vec<Label>) -> (r: Vec<String>)
    ensures
        r.deep_view() == labels.deep_view(),
{
    let mut out: Vec<String> = Vec::new();
    let mut i: usize = 0;
    while i < labels.len()
        invariant
            i <= labels.len(),
            out.deep_view() == labels.deep_view().take(i as int),
        decreases labels.len() - i,
    {
        let ghost before = out.deep_view();
        out.push(labels[i].name.clone());
        assert(out.deep_view() =~= before.push(labels.deep_view()[i as int]));
        assert(labels.deep_view().take(i + 1) =~= before.push(labels.deep_view()[i as int]));
        i = i + 1;
    }
    assert(labels.deep_view().take(i as int) =~= labels.deep_view());
    out
}

fn login_names(logins: &Vec<Login>) -> (r: Vec<String>)
    ensures
        r.deep_view() == logins.deep_view(),
{
    let mut out: Vec<String> = Vec::new();
    let mut i: usize = 0;
    while i < logins.len()
        invariant
            i <= logins.len(),
            out.deep_view() == logins.deep_view().take(i as int),
        decreases logins.len() - i,
    {
        let ghost before = out.deep_view();
        out.push(logins[i].login.clone());
        assert(out.deep_view() =~= before.push(logins.deep_view()[i as int]));
        assert(logins.deep_view().take(i + 1) =~= before.push(logins.deep_view()[i as int]));
        i = i + 1;
    }
    assert(logins.deep_view().take(i as int) =~= logins.deep_view());
    out
}

fn login_name(user: &Option<Login>) -> (r: Option<String>)
    ensures
        r.deep_view() == user.deep_view(),
{
    match user {
        Some(u) => Some(u.login.clone()),
        None => None,
    }
}

// ---------------------------------------------------------------------------
// Degraded previews
// ---------------------------------------------------------------------------

/// The first row with that name.
pub open spec fn repo_named(rows: Seq<RepoModel>, name: Seq<char>) -> Option<RepoModel>
    decreases rows.len(),
{
    if rows.len() == 0 {
        None
    } else if rows[0].full_name == name {
        Some(rows[0])
    } else {
        repo_named(rows.skip(1), name)
    }
}

fn find_repo<'a>(rows: &'a Vec<CachedRepo>, name: &str) -> (r: Option<&'a CachedRepo>)
    ensures
        match r {
            Some(row) => repo_named(rows.deep_view(), name@) == Some(row.deep_view()),
            None => repo_named(rows.deep_view(), name@) is None,
        },
{
    let ghost all = rows.deep_view();
    let mut i: usize = 0;
    assert(all.skip(0) =~= all);
    while i < rows.len()
        invariant
            i <= rows.len(),
            all == rows.deep_view(),
            repo_named(all, name@) == repo_named(all.skip(i as int), name@),
        decreases rows.len() - i,
    {
        assert(all.skip(i as int)[0] == rows[i as int].deep_view());
        if same(rows[i].full_name.as_str(), name) {
            return Some(&rows[i]);
        }
        assert(all.skip(i as int).skip(1) =~= all.skip(i + 1));
        i = i + 1;
    }
    None
}

/// What is kept of a repository, in lines.
pub open spec fn kept_lines(r: Option<RepoModel>) -> Seq<MetadataModel> {
    match r {
        Some(r) => seq![meta("Stars"@, count_text(r.stars))] + maybe("Language"@, r.language)
            + maybe("About"@, nonempty(r.description)),
        None => seq![],
    }
}

/// What is said of a status that is no success.
pub open spec fn status_item(status: u16, has_token: bool) -> MetadataModel {
    if rate_limited(status) {
        meta(
            "Rate limited"@,
            if has_token {
                "GitHub rate limit exhausted - try again in a few minutes"@
            } else {
                "GitHub rate limit - add a token in extension settings for 5000 req/h"@
            },
        )
    } else {
        meta("Error"@, "HTTP "@ + decimal(status as nat))
    }
}

/// The preview where the API gave no answer: what is kept of the repository, if
/// it is one, and what went wrong.
pub open spec fn degraded(
    full: Option<Seq<char>>,
    status: u16,
    kept: Seq<RepoModel>,
    has_token: bool,
) -> PreviewModel {
    lines_shown(
        kept_lines(
            match full {
                Some(f) => repo_named(kept, f),
                None => None,
            },
        ) + seq![status_item(status, has_token)],
    )
}

/// The preview where the API gave no answer.
pub fn degraded_preview(
    full: Option<&str>,
    status: u16,
    kept: &Vec<CachedRepo>,
    has_token: bool,
) -> (r: PreviewContent)
    ensures
        r.deep_view() == degraded(
            match full {
                Some(f) => Some(f@),
                None => None,
            },
            status,
            kept.deep_view(),
            has_token,
        ),
{
    let mut items: Vec<MetadataItem> = Vec::new();
    assert(items.deep_view() =~= seq![]);
    if let Some(f) = full {
        if let Some(r) = find_repo(kept, f) {
            push(&mut items, "Stars", fmt_count(r.stars));
            push_maybe(&mut items, "Language", copy_option(&r.language));
            push_maybe(&mut items, "About", when_nonempty(&r.description));
            assert(items.deep_view() =~= kept_lines(Some(r.deep_view())));
        }
    }
    let ghost known = items.deep_view();
    if is_rate_limited(status) {
        let hint = if has_token {
            "GitHub rate limit exhausted - try again in a few minutes"
        } else {
            "GitHub rate limit - add a token in extension settings for 5000 req/h"
        };
        push(&mut items, "Rate limited", hint.to_owned());
    } else {
        let n = decimal_text(status as u64);
        push(&mut items, "Error", "HTTP ".to_owned().concat(n.as_str()));
    }
    assert(items.deep_view() =~= known + seq![status_item(status, has_token)]);
    PreviewContent::Metadata { items }
}

// ---------------------------------------------------------------------------
// What is previewed
// ---------------------------------------------------------------------------

/// A notification in lines. All of it is in the id: "address|type|reason|repo".
pub open spec fn notif_shown(rest: Seq<char>) -> PreviewModel {
    let parts = pieces(rest, '|');
    lines_shown(
        seq![
            meta("Type"@, piece(parts, 1)),
            meta("Reason"@, replaced(piece(parts, 2), '_', " "@)),
            meta("Repository"@, piece(parts, 3)),
            meta("Link"@, piece(parts, 0)),
        ],
    )
}

/// The `i`-th piece, or an empty text.
pub open spec fn piece(parts: Seq<Seq<char>>, i: int) -> Seq<char> {
    if i < parts.len() {
        parts[i]
    } else {
        ""@
    }
}

fn get_piece(parts: &Vec<String>, i: usize) -> (r: String)
    ensures
        r@ == piece(parts.deep_view(), i as int),
{
    assert(parts.deep_view().len() == parts.len());
    if i < parts.len() {
        parts[i].clone()
    } else {
        "".to_owned()
    }
}

/// The preview of a notification, which needs no network.
pub fn preview_notif(rest: &str) -> (r: PreviewContent)
    ensures
        r.deep_view() == notif_shown(rest@),
{
    let parts = split(rest, '|');
    let reason = get_piece(&parts, 2);
    let items = vec![
        item("Type", get_piece(&parts, 1)),
        item("Reason", replace(reason.as_str(), '_', " ")),
        item("Repository", get_piece(&parts, 3)),
        item("Link", get_piece(&parts, 0)),
    ];
    let ghost p = parts.deep_view();
    assert(items.deep_view() =~= seq![
        meta("Type"@, piece(p, 1)),
        meta("Reason"@, replaced(piece(p, 2), '_', " "@)),
        meta("Repository"@, piece(p, 3)),
        meta("Link"@, piece(p, 0)),
    ]);
    PreviewContent::Metadata { items }
}

/// What the id of a result names.
pub open spec fn target_of(id: Seq<char>) -> TargetModel {
    match without_prefix(id, "repo:"@) {
        Some(full) => TargetModel::Repo(full),
        None => match numbered_in(id, "pr:"@) {
            Some((repo, number)) => TargetModel::Pr { repo, number },
            None => match numbered_in(id, "issue:"@) {
                Some((repo, number)) => TargetModel::Issue { repo, number },
                None => match without_prefix(id, "user:"@) {
                    Some(login) => TargetModel::User(login),
                    None => match without_prefix(id, "notif|"@) {
                        Some(rest) => TargetModel::Known(notif_shown(rest)),
                        None => TargetModel::Known(
                            lines_shown(
                                seq![meta("GitHub"@, "select a result to preview it"@)],
                            ),
                        ),
                    },
                },
            },
        },
    }
}

/// What the id of a result names.
pub fn preview(id: &str) -> (r: Target)
    ensures
        r.deep_view() == target_of(id@),
{
    if let Some(full) = strip_prefix(id, "repo:") {
        return Target::Repo(full);
    }
    if let Some((repo, number)) = split_numbered(id, "pr:") {
        return Target::Pr { repo, number };
    }
    if let Some((repo, number)) = split_numbered(id, "issue:") {
        return Target::Issue { repo, number };
    }
    if let Some(login) = strip_prefix(id, "user:") {
        return Target::User(login);
    }
    if let Some(rest) = strip_prefix(id, "notif|") {
        return Target::Known(preview_notif(rest.as_str()));
    }
    let items = vec![item("GitHub", "select a result to preview it".to_owned())];
    assert(items.deep_view() =~= seq![meta("GitHub"@, "select a result to preview it"@)]);
    Target::Known(PreviewContent::Metadata { items })
}

/// What a shown preview leads to: it stays where more is no longer wanted.
pub open spec fn after_emit(
    shown: PreviewModel,
    wanted: bool,
    next: PreviewStepModel,
) -> PreviewStepModel {
    if wanted {
        next
    } else {
        PreviewStepModel::Show(shown)
    }
}

/// The request for JSON at a path.
pub open spec fn ask_json(path: Seq<char>) -> PreviewStepModel {
    PreviewStepModel::Ask { path, accept: ACCEPT_JSON@ }
}

fn ask(path: String) -> (r: PreviewStep)
    ensures
        r.deep_view() == ask_json(path@),
{
    PreviewStep::Ask { path, accept: ACCEPT_JSON.to_owned() }
}

// ---------------------------------------------------------------------------
// Repositories
// ---------------------------------------------------------------------------

/// What is kept of a repository, as the first thing shown.
pub open spec fn first_paint(r: RepoModel) -> PreviewModel {
    lines_shown(
        seq![
            meta("Stars"@, count_text(r.stars)),
            meta(
                "Language"@,
                match r.language {
                    Some(l) => l,
                    None => "-"@,
                },
            ),
            meta(
                "About"@,
                match r.description {
                    Some(d) => d,
                    None => ""@,
                },
            ),
        ],
    )
}

/// The path of a repository.
pub open spec fn repo_path(full: Seq<char>) -> Seq<char> {
    "/repos/"@ + full
}

/// How the preview of a repository starts: with what is kept of it, or by asking.
pub open spec fn repo_start(full: Seq<char>, kept: Seq<RepoModel>) -> PreviewStepModel {
    match repo_named(kept, full) {
        Some(r) => PreviewStepModel::Emit(first_paint(r)),
        None => ask_json(repo_path(full)),
    }
}

/// How the preview of a repository starts.
pub fn preview_repo(full: &str, kept: &Vec<CachedRepo>) -> (r: PreviewStep)
    ensures
        r.deep_view() == repo_start(full@, kept.deep_view()),
{
    match find_repo(kept, full) {
        Some(r) => {
            let language = match &r.language {
                Some(l) => l.clone(),
                None => "-".to_owned(),
            };
            let about = match &r.description {
                Some(d) => d.clone(),
                None => "".to_owned(),
            };
            let items = vec![
                item("Stars", fmt_count(r.stars)),
                item("Language", language),
                item("About", about),
            ];
            let shown = PreviewContent::Metadata { items };
            assert(shown.deep_view() =~= first_paint(r.deep_view()));
            PreviewStep::Emit(shown)
        },
        None => ask("/repos/".to_owned().concat(full)),
    }
}

/// What follows the first thing shown of a repository, by whether more is wanted.
pub fn repo_painted(full: &str, shown: PreviewContent, wanted: bool) -> (r: PreviewStep)
    ensures
        r.deep_view() == after_emit(shown.deep_view(), wanted, ask_json(repo_path(full@))),
{
    if wanted {
        ask("/repos/".to_owned().concat(full))
    } else {
        PreviewStep::Show(shown)
    }
}

/// The name of a license: its identifier, unless that says nothing.
pub open spec fn license_name(l: License) -> Seq<char> {
    match l.spdx_id.deep_view() {
        Some(id) if id != "NOASSERTION"@ => id,
        _ => l.name@,
    }
}

fn name_license(l: &License) -> (r: String)
    ensures
        r@ == license_name(*l),
{
    match &l.spdx_id {
        Some(id) => if same(id.as_str(), "NOASSERTION") {
            l.name.clone()
        } else {
            id.clone()
        },
        None => l.name.clone(),
    }
}

/// What the API says of a repository, in lines.
pub open spec fn repo_lines(d: RepoDetail, now_ms: Option<u64>) -> Seq<MetadataModel> {
    seq![
        meta("Stars"@, count_text(d.stargazers_count)),
        meta("Forks"@, count_text(d.forks_count)),
        meta("Open issues"@, count_text(d.open_issues_count)),
    ] + maybe("Language"@, d.language.deep_view()) + maybe(
        "License"@,
        match d.license {
            Some(l) => Some(license_name(l)),
            None => None,
        },
    ) + maybe("Topics"@, names(d.topics.deep_view())) + maybe(
        "Homepage"@,
        nonblank(d.homepage.deep_view()),
    ) + seq![meta("Default branch"@, d.default_branch@)] + maybe(
        "Last push"@,
        since(d.pushed_at.deep_view(), now_ms),
    ) + maybe("About"@, nonempty(d.description.deep_view()))
}

/// What the API says of a repository, in lines.
pub fn repo_metadata(d: &RepoDetail, now_ms: Option<u64>) -> (r: PreviewContent)
    ensures
        r.deep_view() == lines_shown(repo_lines(*d, now_ms)),
{
    let mut items = vec![
        item("Stars", fmt_count(d.stargazers_count)),
        item("Forks", fmt_count(d.forks_count)),
        item("Open issues", fmt_count(d.open_issues_count)),
    ];
    assert(items.deep_view() =~= seq![
        meta("Stars"@, count_text(d.stargazers_count)),
        meta("Forks"@, count_text(d.forks_count)),
        meta("Open issues"@, count_text(d.open_issues_count)),
    ]);
    push_maybe(&mut items, "Language", copy_option(&d.language));
    let license = match &d.license {
        Some(l) => Some(name_license(l)),
        None => None,
    };
    push_maybe(&mut items, "License", license);
    push_maybe(&mut items, "Topics", join_names(&d.topics));
    push_maybe(&mut items, "Homepage", when_nonblank(&d.homepage));
    let ghost before = items.deep_view();
    push(&mut items, "Default branch", d.default_branch.clone());
    assert(items.deep_view() =~= before + seq![meta("Default branch"@, d.default_branch@)]);
    push_maybe(&mut items, "Last push", time_since(&d.pushed_at, now_ms));
    push_maybe(&mut items, "About", when_nonempty(&d.description));
    PreviewContent::Metadata { items }
}

/// What follows the answer to a question for a detail: the preview of it, or a
/// degraded one. A request that failed and an answer that cannot be read fail.
pub open spec fn answered<T>(
    reply: Reply<T>,
    degraded: spec_fn(u16) -> PreviewModel,
    shown: spec_fn(T) -> PreviewStepModel,
) -> PreviewStepModel {
    match reply {
        Reply::Failed(e) => PreviewStepModel::Fail(e@),
        Reply::Answered { status, value } => if status != 200 {
            PreviewStepModel::Show(degraded(status))
        } else {
            match value {
                Ok(d) => shown(d),
                Err(e) => PreviewStepModel::Fail(e@),
            }
        },
    }
}

/// What follows the answer on a repository.
pub open spec fn repo_step(
    full: Seq<char>,
    reply: Reply<RepoDetail>,
    kept: Seq<RepoModel>,
    has_token: bool,
    now_ms: Option<u64>,
) -> PreviewStepModel {
    answered(
        reply,
        |status: u16| degraded(Some(full), status, kept, has_token),
        |d: RepoDetail| PreviewStepModel::Emit(lines_shown(repo_lines(d, now_ms))),
    )
}

/// What follows the answer on a repository.
pub fn repo_answered(
    full: &str,
    reply: &Reply<RepoDetail>,
    kept: &Vec<CachedRepo>,
    has_token: bool,
    now_ms: Option<u64>,
) -> (r: PreviewStep)
    ensures
        r.deep_view() == repo_step(full@, *reply, kept.deep_view(), has_token, now_ms),
{
    match reply {
        Reply::Failed(e) => PreviewStep::Fail(e.clone()),
        Reply::Answered { status, value } => {
            if *status != 200 {
                return PreviewStep::Show(degraded_preview(Some(full), *status, kept, has_token));
            }
            match value {
                Ok(d) => PreviewStep::Emit(repo_metadata(d, now_ms)),
                Err(e) => PreviewStep::Fail(e.clone()),
            }
        },
    }
}

/// The request for the README of a repository, as it is written.
pub open spec fn ask_readme(full: Seq<char>) -> PreviewStepModel {
    PreviewStepModel::Ask {
        path: repo_path(full) + "/readme"@,
        accept: "application/vnd.github.raw+json"@,
    }
}

/// What follows what the API says of a repository: the README is asked for.
pub fn repo_described(full: &str, shown: PreviewContent, wanted: bool) -> (r: PreviewStep)
    ensures
        r.deep_view() == after_emit(shown.deep_view(), wanted, ask_readme(full@)),
{
    if wanted {
        PreviewStep::Ask {
            path: "/repos/".to_owned().concat(full).concat("/readme"),
            accept: "application/vnd.github.raw+json".to_owned(),
        }
    } else {
        PreviewStep::Show(shown)
    }
}

/// How the preview of a repository ends: with its README, or as it was where
/// there is none.
pub open spec fn repo_end(
    full: Seq<char>,
    d: RepoDetail,
    shown: PreviewModel,
    reply: Reply<String>,
) -> PreviewModel {
    match reply {
        Reply::Answered { status, value: Ok(readme) } if status == 200 && trimmed(readme@).len() > 0
            => PreviewModel::Markdown {
            content: "# "@ + d.full_name@ + "\n\n"@ + capped(
                readme_linked(readme@, full, d.default_branch@),
            ),
        },
        _ => shown,
    }
}

/// How the preview of a repository ends.
pub fn repo_readme(full: &str, d: &RepoDetail, shown: PreviewContent, reply: &Reply<String>) -> (r:
    PreviewContent)
    ensures
        r.deep_view() == repo_end(full@, *d, shown.deep_view(), *reply),
{
    match reply {
        Reply::Answered { status, value: Ok(readme) } if *status == 200 => {
            let text = trim(readme.as_str());
            if text.as_str().is_empty() {
                return shown;
            }
            let linked = absolutize_readme(readme.as_str(), full, d.default_branch.as_str());
            let cut = truncate_md(linked);
            PreviewContent::Markdown {
                content: "# ".to_owned().concat(d.full_name.as_str()).concat("\n\n").concat(
                    cut.as_str(),
                ),
            }
        },
        _ => shown,
    }
}

// ---------------------------------------------------------------------------
// Issues and pull requests
// ---------------------------------------------------------------------------

/// The text of an issue or a pull request.
pub open spec fn body_of(body: Option<Seq<char>>) -> Seq<char> {
    match body {
        Some(b) => trimmed(b),
        None => seq![],
    }
}

fn trimmed_body(body: &Option<String>) -> (r: String)
    ensures
        r@ == body_of(body.deep_view()),
{
    match body {
        Some(b) => trim(b.as_str()),
        None => String::new(),
    }
}

/// What is shown of an issue or a pull request: its lines, for now or for good
/// where it has no text.
pub open spec fn lines_step(
    items: Seq<MetadataModel>,
    body: Option<Seq<char>>,
) -> PreviewStepModel {
    if body_of(body).len() == 0 {
        PreviewStepModel::Show(lines_shown(items))
    } else {
        PreviewStepModel::Emit(lines_shown(items))
    }
}

/// The text of an issue or a pull request under its title and state.
pub open spec fn text_shown(
    title: Seq<char>,
    state: Seq<char>,
    body: Option<Seq<char>>,
) -> PreviewModel {
    PreviewModel::Markdown {
        content: capped("# "@ + title + " ("@ + state + ")\n\n"@ + body_of(body)),
    }
}

fn show_text(title: &str, state: &str, body: &Option<String>) -> (r: PreviewContent)
    ensures
        r.deep_view() == text_shown(title@, state@, body.deep_view()),
{
    let text = trimmed_body(body);
    PreviewContent::Markdown {
        content: truncate_md(
            "# ".to_owned().concat(title).concat(" (").concat(state).concat(")\n\n").concat(
                text.as_str(),
            ),
        ),
    }
}

/// The path of an issue.
pub open spec fn issue_path(repo: Seq<char>, number: Seq<char>) -> Seq<char> {
    repo_path(repo) + "/issues/"@ + number
}

/// How the preview of an issue starts.
pub fn preview_issue(repo: &str, number: &str) -> (r: PreviewStep)
    ensures
        r.deep_view() == ask_json(issue_path(repo@, number@)),
{
    ask("/repos/".to_owned().concat(repo).concat("/issues/").concat(number))
}

/// What the API says of an issue, in lines.
pub open spec fn issue_lines(d: IssueDetail, now_ms: Option<u64>) -> Seq<MetadataModel> {
    seq![meta("State"@, d.state@), meta("Comments"@, count_text(d.comments))] + maybe(
        "Author"@,
        d.user.deep_view(),
    ) + maybe("Assignees"@, names(d.assignees.deep_view())) + maybe(
        "Labels"@,
        names(d.labels.deep_view()),
    ) + maybe("Opened"@, since(d.created_at.deep_view(), now_ms)) + maybe(
        "Updated"@,
        since(d.updated_at.deep_view(), now_ms),
    )
}

/// What the API says of an issue, in lines.
pub fn issue_metadata(d: &IssueDetail, now_ms: Option<u64>) -> (r: PreviewContent)
    ensures
        r.deep_view() == lines_shown(issue_lines(*d, now_ms)),
{
    let mut items = vec![
        item("State", d.state.clone()),
        item("Comments", fmt_count(d.comments)),
    ];
    assert(items.deep_view() =~= seq![
        meta("State"@, d.state@),
        meta("Comments"@, count_text(d.comments)),
    ]);
    let assignees = login_names(&d.assignees);
    let labels = label_names(&d.labels);
    push_maybe(&mut items, "Author", login_name(&d.user));
    push_maybe(&mut items, "Assignees", join_names(&assignees));
    push_maybe(&mut items, "Labels", join_names(&labels));
    push_maybe(&mut items, "Opened", time_since(&d.created_at, now_ms));
    push_maybe(&mut items, "Updated", time_since(&d.updated_at, now_ms));
    PreviewContent::Metadata { items }
}

/// What follows the answer on an issue.
pub open spec fn issue_step(
    reply: Reply<IssueDetail>,
    has_token: bool,
    now_ms: Option<u64>,
) -> PreviewStepModel {
    answered(
        reply,
        |status: u16| degraded(None, status, seq![], has_token),
        |d: IssueDetail| lines_step(issue_lines(d, now_ms), d.body.deep_view()),
    )
}

fn degraded_without_repo(status: u16, has_token: bool) -> (r: PreviewContent)
    ensures
        r.deep_view() == degraded(None, status, seq![], has_token),
{
    let none: Vec<CachedRepo> = Vec::new();
    assert(none.deep_view() =~= seq![]);
    degraded_preview(None, status, &none, has_token)
}

/// What follows the answer on an issue.
pub fn issue_answered(reply: &Reply<IssueDetail>, has_token: bool, now_ms: Option<u64>) -> (r:
    PreviewStep)
    ensures
        r.deep_view() == issue_step(*reply, has_token, now_ms),
{
    match reply {
        Reply::Failed(e) => PreviewStep::Fail(e.clone()),
        Reply::Answered { status, value } => {
            if *status != 200 {
                return PreviewStep::Show(degraded_without_repo(*status, has_token));
            }
            match value {
                Ok(d) => {
                    let shown = issue_metadata(d, now_ms);
                    let text = trimmed_body(&d.body);
                    if text.as_str().is_empty() {
                        PreviewStep::Show(shown)
                    } else {
                        PreviewStep::Emit(shown)
                    }
                },
                Err(e) => PreviewStep::Fail(e.clone()),
            }
        },
    }
}

/// What an issue is previewed as at last: its text, if it is wanted.
pub open spec fn issue_end(d: IssueDetail, shown: PreviewModel, wanted: bool) -> PreviewModel {
    if wanted {
        text_shown(d.title@, d.state@, d.body.deep_view())
    } else {
        shown
    }
}

/// What follows the lines of an issue: its text, if it is wanted.
pub fn issue_described(d: &IssueDetail, shown: PreviewContent, wanted: bool) -> (r: PreviewContent)
    ensures
        r.deep_view() == issue_end(*d, shown.deep_view(), wanted),
{
    if wanted {
        show_text(d.title.as_str(), d.state.as_str(), &d.body)
    } else {
        shown
    }
}

/// The path of a pull request.
pub open spec fn pr_path(repo: Seq<char>, number: Seq<char>) -> Seq<char> {
    repo_path(repo) + "/pulls/"@ + number
}

/// How the preview of a pull request starts.
pub fn preview_pr(repo: &str, number: &str) -> (r: PreviewStep)
    ensures
        r.deep_view() == ask_json(pr_path(repo@, number@)),
{
    ask("/repos/".to_owned().concat(repo).concat("/pulls/").concat(number))
}

/// The state of a pull request.
pub open spec fn state_of_pr(d: PrDetail) -> Seq<char> {
    pr_state_text(d.state@ == "open"@, d.merged, d.draft)
}

/// How much a pull request changes.
pub open spec fn diff_text(d: PrDetail) -> Seq<char> {
    "+"@ + decimal(d.additions as nat) + " \u{2212}"@ + decimal(d.deletions as nat) + " in "@
        + decimal(d.changed_files as nat) + " file"@ + (if d.changed_files == 1 {
        ""@
    } else {
        "s"@
    })
}

/// Which branch a pull request goes to, and from which.
pub open spec fn branch_text(d: PrDetail) -> Option<Seq<char>> {
    match (d.base, d.head) {
        (Some(base), Some(head)) => Some(base.name@ + " \u{2190} "@ + head.name@),
        _ => None,
    }
}

/// Whether an open pull request can be merged, as far as that is known.
pub open spec fn mergeable_text(d: PrDetail) -> Option<Seq<char>> {
    if state_of_pr(d) == "open"@ {
        match d.mergeable_state.deep_view() {
            Some(m) if m.len() > 0 && m != "unknown"@ => Some(m),
            _ => None,
        }
    } else {
        None
    }
}

/// What the API says of a pull request, in lines.
pub open spec fn pr_lines(d: PrDetail, now_ms: Option<u64>) -> Seq<MetadataModel> {
    seq![
        meta("State"@, state_of_pr(d)),
        meta("Diff"@, diff_text(d)),
        meta("Commits"@, count_text(d.commits)),
        meta("Comments"@, count_text(d.comments)),
    ] + maybe("Branch"@, branch_text(d)) + maybe("Mergeable"@, mergeable_text(d)) + maybe(
        "Author"@,
        d.user.deep_view(),
    ) + maybe("Labels"@, names(d.labels.deep_view())) + maybe(
        "Opened"@,
        since(d.created_at.deep_view(), now_ms),
    ) + maybe("Updated"@, since(d.updated_at.deep_view(), now_ms))
}

fn diff_of(d: &PrDetail) -> (r: String)
    ensures
        r@ == diff_text(*d),
{
    let additions = decimal_text(d.additions);
    let deletions = decimal_text(d.deletions);
    let files = decimal_text(d.changed_files);
    let plural = if d.changed_files == 1 {
        ""
    } else {
        "s"
    };
    "+".to_owned().concat(additions.as_str()).concat(" \u{2212}").concat(
        deletions.as_str(),
    ).concat(" in ").concat(files.as_str()).concat(" file").concat(plural)
}

fn branch_of(d: &PrDetail) -> (r: Option<String>)
    ensures
        r.deep_view() == branch_text(*d),
{
    match &d.base {
        Some(base) => match &d.head {
            Some(head) => Some(base.name.clone().concat(" \u{2190} ").concat(head.name.as_str())),
            None => None,
        },
        None => None,
    }
}

fn mergeable_of(d: &PrDetail) -> (r: Option<String>)
    ensures
        r.deep_view() == mergeable_text(*d),
{
    let state = pr_state(same(d.state.as_str(), "open"), d.merged, d.draft);
    if !same(state, "open") {
        return None;
    }
    match &d.mergeable_state {
        Some(m) => if m.as_str().is_empty() || same(m.as_str(), "unknown") {
            None
        } else {
            Some(m.clone())
        },
        None => None,
    }
}

/// What the API says of a pull request, in lines.
pub fn pr_metadata(d: &PrDetail, now_ms: Option<u64>) -> (r: PreviewContent)
    ensures
        r.deep_view() == lines_shown(pr_lines(*d, now_ms)),
{
    let state = pr_state(same(d.state.as_str(), "open"), d.merged, d.draft);
    let mut items = vec![
        item("State", state.to_owned()),
        item("Diff", diff_of(d)),
        item("Commits", fmt_count(d.commits)),
        item("Comments", fmt_count(d.comments)),
    ];
    assert(items.deep_view() =~= seq![
        meta("State"@, state_of_pr(*d)),
        meta("Diff"@, diff_text(*d)),
        meta("Commits"@, count_text(d.commits)),
        meta("Comments"@, count_text(d.comments)),
    ]);
    let labels = label_names(&d.labels);
    push_maybe(&mut items, "Branch", branch_of(d));
    push_maybe(&mut items, "Mergeable", mergeable_of(d));
    push_maybe(&mut items, "Author", login_name(&d.user));
    push_maybe(&mut items, "Labels", join_names(&labels));
    push_maybe(&mut items, "Opened", time_since(&d.created_at, now_ms));
    push_maybe(&mut items, "Updated", time_since(&d.updated_at, now_ms));
    PreviewContent::Metadata { items }
}

/// What follows the answer on a pull request.
pub open spec fn pr_step(
    reply: Reply<PrDetail>,
    has_token: bool,
    now_ms: Option<u64>,
) -> PreviewStepModel {
    answered(
        reply,
        |status: u16| degraded(None, status, seq![], has_token),
        |d: PrDetail| lines_step(pr_lines(d, now_ms), d.body.deep_view()),
    )
}

/// What follows the answer on a pull request.
pub fn pr_answered(reply: &Reply<PrDetail>, has_token: bool, now_ms: Option<u64>) -> (r: PreviewStep)
    ensures
        r.deep_view() == pr_step(*reply, has_token, now_ms),
{
    match reply {
        Reply::Failed(e) => PreviewStep::Fail(e.clone()),
        Reply::Answered { status, value } => {
            if *status != 200 {
                return PreviewStep::Show(degraded_without_repo(*status, has_token));
            }
            match value {
                Ok(d) => {
                    let shown = pr_metadata(d, now_ms);
                    let text = trimmed_body(&d.body);
                    if text.as_str().is_empty() {
                        PreviewStep::Show(shown)
                    } else {
                        PreviewStep::Emit(shown)
                    }
                },
                Err(e) => PreviewStep::Fail(e.clone()),
            }
        },
    }
}

/// What a pull request is previewed as at last: its text, if it is wanted.
pub open spec fn pr_end(d: PrDetail, shown: PreviewModel, wanted: bool) -> PreviewModel {
    if wanted {
        text_shown(d.title@, state_of_pr(d), d.body.deep_view())
    } else {
        shown
    }
}

/// What follows the lines of a pull request: its text, if it is wanted.
pub fn pr_described(d: &PrDetail, shown: PreviewContent, wanted: bool) -> (r: PreviewContent)
    ensures
        r.deep_view() == pr_end(*d, shown.deep_view(), wanted),
{
    if wanted {
        let state = pr_state(same(d.state.as_str(), "open"), d.merged, d.draft);
        show_text(d.title.as_str(), state, &d.body)
    } else {
        shown
    }
}

// ---------------------------------------------------------------------------
// Users
// ---------------------------------------------------------------------------

/// The path of a user.
pub open spec fn user_path(login: Seq<char>) -> Seq<char> {
    "/users/"@ + login
}

/// How the preview of a user starts.
pub fn preview_user(login: &str) -> (r: PreviewStep)
    ensures
        r.deep_view() == ask_json(user_path(login@)),
{
    ask("/users/".to_owned().concat(login))
}

/// What the API says of a user, in lines.
pub open spec fn user_lines(d: UserDetail) -> Seq<MetadataModel> {
    seq![
        meta("Login"@, d.login@),
        meta(
            "Type"@,
            if same_ignoring_ascii_case(d.kind@, "organization"@) {
                "Organization"@
            } else {
                "User"@
            },
        ),
        meta("Followers"@, count_text(d.followers)),
        meta("Following"@, count_text(d.following)),
        meta("Public repos"@, count_text(d.public_repos)),
    ] + maybe("Name"@, nonempty(d.name.deep_view())) + maybe(
        "Company"@,
        nonempty(d.company.deep_view()),
    ) + maybe("Location"@, nonempty(d.location.deep_view())) + maybe(
        "Website"@,
        nonblank(d.blog.deep_view()),
    ) + maybe("Bio"@, nonempty(d.bio.deep_view()))
}

/// What the API says of a user, in lines.
pub fn user_metadata(d: &UserDetail) -> (r: PreviewContent)
    ensures
        r.deep_view() == lines_shown(user_lines(*d)),
{
    let kind = if eq_ignore_ascii_case(d.kind.as_str(), "organization") {
        "Organization"
    } else {
        "User"
    };
    let mut items = vec![
        item("Login", d.login.clone()),
        item("Type", kind.to_owned()),
        item("Followers", fmt_count(d.followers)),
        item("Following", fmt_count(d.following)),
        item("Public repos", fmt_count(d.public_repos)),
    ];
    assert(items.deep_view() =~= seq![
        meta("Login"@, d.login@),
        meta("Type"@, kind@),
        meta("Followers"@, count_text(d.followers)),
        meta("Following"@, count_text(d.following)),
        meta("Public repos"@, count_text(d.public_repos)),
    ]);
    push_maybe(&mut items, "Name", when_nonempty(&d.name));
    push_maybe(&mut items, "Company", when_nonempty(&d.company));
    push_maybe(&mut items, "Location", when_nonempty(&d.location));
    push_maybe(&mut items, "Website", when_nonblank(&d.blog));
    push_maybe(&mut items, "Bio", when_nonempty(&d.bio));
    PreviewContent::Metadata { items }
}

/// What follows the answer on a user.
pub open spec fn user_step(reply: Reply<UserDetail>, has_token: bool) -> PreviewStepModel {
    answered(
        reply,
        |status: u16| degraded(None, status, seq![], has_token),
        |d: UserDetail| PreviewStepModel::Show(lines_shown(user_lines(d))),
    )
}

/// What follows the answer on a user.
pub fn user_answered(reply: &Reply<UserDetail>, has_token: bool) -> (r: PreviewStep)
    ensures
        r.deep_view() == user_step(*reply, has_token),
{
    match reply {
        Reply::Failed(e) => PreviewStep::Fail(e.clone()),
        Reply::Answered { status, value } => {
            if *status != 200 {
                return PreviewStep::Show(degraded_without_repo(*status, has_token));
            }
            match value {
                Ok(d) => PreviewStep::Show(user_metadata(d)),
                Err(e) => PreviewStep::Fail(e.clone()),
            }
        },
    }
}

// ---------------------------------------------------------------------------
// What the rows preview
// ---------------------------------------------------------------------------

/// The row of a repository previews that repository, and the row of a user that
/// user.
pub proof fn law_repo_and_user_rows_preview(
    r: RepoModel,
    relevance: Relevance,
    badge: Seq<char>,
    login: Seq<char>,
    kind: Seq<char>,
)
    ensures
        target_of(repo_row(r, relevance, badge).id) == TargetModel::Repo(r.full_name),
        target_of(user_row(login, kind, relevance).id) == TargetModel::User(login),
{
    reveal_strlit("repo:");
    reveal_strlit("pr:");
    reveal_strlit("issue:");
    reveal_strlit("user:");
    lemma_without_prefix("repo:"@, r.full_name);
    lemma_without_prefix("user:"@, login);
    let id = "user:"@ + login;
    assert(id[0] == 'u');
    lemma_other_prefix(id, "repo:"@);
    lemma_other_prefix(id, "pr:"@);
    lemma_other_prefix(id, "issue:"@);
}

/// The row of an issue or a pull request previews it. The name of a repository
/// holds no `#`.
pub proof fn law_issue_row_previews(i: IssueModel, relevance: Relevance)
    requires
        !i.repo.contains('#'),
    ensures
        target_of(issue_row(i, relevance).id) == (if i.is_pr {
            TargetModel::Pr { repo: i.repo, number: decimal(i.number as nat) }
        } else {
            TargetModel::Issue { repo: i.repo, number: decimal(i.number as nat) }
        }),
{
    reveal_strlit("repo:");
    reveal_strlit("pr:");
    reveal_strlit("issue:");
    reveal_strlit("#");
    let prefix = if i.is_pr {
        "pr:"@
    } else {
        "issue:"@
    };
    let number = decimal(i.number as nat);
    let rest = i.repo + "#"@ + number;
    let id = prefix + rest;
    assert(id[0] == prefix[0]);
    lemma_without_prefix(prefix, rest);
    lemma_other_prefix(id, "repo:"@);
    if !i.is_pr {
        lemma_other_prefix(id, "pr:"@);
    }
    assert(rest =~= i.repo.push('#') + number);
    lemma_cut_at_char(i.repo, '#', number);
}

/// The row of a notification previews its type, reason, repository and page,
/// where none of them holds a `|`.
pub proof fn law_notif_row_previews(n: NotifModel, relevance: Relevance, now_ms: Option<u64>)
    requires
        !n.html_url.contains('|'),
        !n.kind.contains('|'),
        !n.reason.contains('|'),
        !n.repo.contains('|'),
    ensures
        target_of(notif_row(n, relevance, now_ms).id) == TargetModel::Known(
            lines_shown(
                seq![
                    meta("Type"@, n.kind),
                    meta("Reason"@, replaced(n.reason, '_', " "@)),
                    meta("Repository"@, n.repo),
                    meta("Link"@, n.html_url),
                ],
            ),
        ),
{
    reveal_strlit("repo:");
    reveal_strlit("pr:");
    reveal_strlit("issue:");
    reveal_strlit("user:");
    reveal_strlit("notif|");
    reveal_strlit("|");
    let id = notif_row(n, relevance, now_ms).id;
    let two = n.reason.push('|') + n.repo;
    let three = n.kind.push('|') + two;
    let rest = n.html_url.push('|') + three;
    assert(id =~= "notif|"@ + rest);
    assert(id[0] == 'n');
    lemma_without_prefix("notif|"@, rest);
    lemma_other_prefix(id, "repo:"@);
    lemma_other_prefix(id, "pr:"@);
    lemma_other_prefix(id, "issue:"@);
    lemma_other_prefix(id, "user:"@);
    lemma_pieces_more(n.html_url, '|', three);
    lemma_pieces_more(n.kind, '|', two);
    lemma_pieces_more(n.reason, '|', n.repo);
    lemma_pieces_one(n.repo, '|');
    assert(pieces(rest, '|') =~= seq![n.html_url, n.kind, n.reason, n.repo]);
}

/// A preview that could not be had always says why, last; for a rate limit it
/// says what helps.
pub proof fn law_degraded_says_why(
    full: Option<Seq<char>>,
    status: u16,
    kept: Seq<RepoModel>,
    has_token: bool,
)
    ensures
        degraded(full, status, kept, has_token) matches PreviewModel::Metadata { items }
            && items.len() > 0 && items.last() == status_item(status, has_token),
{
}

// ---------------------------------------------------------------------------
// What the previews say
// ---------------------------------------------------------------------------

/// How many of the texts there are.
pub open spec fn known(values: Seq<Option<Seq<char>>>) -> int
    decreases values.len(),
{
    if values.len() == 0 {
        0
    } else {
        known(values.drop_last()) + (if values.last() is Some {
            1int
        } else {
            0
        })
    }
}

/// Whether a preview has a line.
pub open spec fn says(items: Seq<MetadataModel>, label: Seq<char>, value: Seq<char>) -> bool {
    items.contains(meta(label, value))
}

/// Whether a preview has a line where there is something to say.
pub open spec fn says_maybe(
    items: Seq<MetadataModel>,
    label: Seq<char>,
    value: Option<Seq<char>>,
) -> bool {
    value matches Some(v) ==> says(items, label, v)
}

proof fn lemma_says_left(a: Seq<MetadataModel>, b: Seq<MetadataModel>)
    ensures
        forall|x: MetadataModel| a.contains(x) ==> #[trigger] (a + b).contains(x),
        forall|x: MetadataModel| b.contains(x) ==> #[trigger] (a + b).contains(x),
{
    let all = a + b;
    assert forall|x: MetadataModel| a.contains(x) implies #[trigger] all.contains(x) by {
        let i = choose|i: int| 0 <= i < a.len() && a[i] == x;
        assert(all[i] == x);
    }
    assert forall|x: MetadataModel| b.contains(x) implies #[trigger] all.contains(x) by {
        let i = choose|i: int| 0 <= i < b.len() && b[i] == x;
        assert(all[a.len() + i] == x);
    }
}

proof fn lemma_maybe_says(label: Seq<char>, value: Option<Seq<char>>)
    ensures
        says_maybe(maybe(label, value), label, value),
        maybe(label, value).len() == (if value is Some {
            1int
        } else {
            0
        }),
{
    match value {
        Some(v) => {
            assert(maybe(label, value)[0] == meta(label, v));
        },
        None => {},
    }
}

/// The preview of a pull request says its state, how much it changes, its commits
/// and comments, and as far as they are known its branches, whether it can be
/// merged, its author, labels and times; and nothing else.
pub proof fn law_pr_preview_says_what_it_is(d: PrDetail, now_ms: Option<u64>)
    ensures
        ({
            let items = pr_lines(d, now_ms);
            let state = pr_state_text(d.state@ == "open"@, d.merged, d.draft);
            let branch = if d.base is Some && d.head is Some {
                Some(d.base->0.name@ + " \u{2190} "@ + d.head->0.name@)
            } else {
                None
            };
            &&& says(items, "State"@, state)
            &&& says(
                items,
                "Diff"@,
                "+"@ + decimal(d.additions as nat) + " \u{2212}"@ + decimal(d.deletions as nat)
                    + " in "@ + decimal(d.changed_files as nat) + " file"@ + (if d.changed_files
                    == 1 {
                    ""@
                } else {
                    "s"@
                }),
            )
            &&& says(items, "Commits"@, count_text(d.commits))
            &&& says(items, "Comments"@, count_text(d.comments))
            &&& says_maybe(items, "Branch"@, branch)
            &&& says_maybe(items, "Author"@, d.user.deep_view())
            &&& says_maybe(items, "Labels"@, names(d.labels.deep_view()))
            &&& says_maybe(items, "Opened"@, since(d.created_at.deep_view(), now_ms))
            &&& says_maybe(items, "Updated"@, since(d.updated_at.deep_view(), now_ms))
            &&& state == "open"@ && (d.mergeable_state.deep_view() matches Some(m) && m.len() > 0
                && m != "unknown"@) ==> says(items, "Mergeable"@, d.mergeable_state.deep_view()->0)
            &&& state != "open"@ ==> mergeable_text(d) is None
            &&& items.len() == 4 + known(
                seq![
                    branch,
                    mergeable_text(d),
                    d.user.deep_view(),
                    names(d.labels.deep_view()),
                    since(d.created_at.deep_view(), now_ms),
                    since(d.updated_at.deep_view(), now_ms),
                ],
            )
        }),
{
    let a = seq![
        meta("State"@, state_of_pr(d)),
        meta("Diff"@, diff_text(d)),
        meta("Commits"@, count_text(d.commits)),
        meta("Comments"@, count_text(d.comments)),
    ];
    assert(a[0] == meta("State"@, state_of_pr(d)));
    assert(a[1] == meta("Diff"@, diff_text(d)));
    assert(a[2] == meta("Commits"@, count_text(d.commits)));
    assert(a[3] == meta("Comments"@, count_text(d.comments)));
    let (v1, v2, v3, v4, v5, v6) = (
        branch_text(d),
        mergeable_text(d),
        d.user.deep_view(),
        names(d.labels.deep_view()),
        since(d.created_at.deep_view(), now_ms),
        since(d.updated_at.deep_view(), now_ms),
    );
    lemma_maybe_says("Branch"@, v1);
    lemma_maybe_says("Mergeable"@, v2);
    lemma_maybe_says("Author"@, v3);
    lemma_maybe_says("Labels"@, v4);
    lemma_maybe_says("Opened"@, v5);
    lemma_maybe_says("Updated"@, v6);
    let b = a + maybe("Branch"@, v1);
    lemma_says_left(a, maybe("Branch"@, v1));
    let c = b + maybe("Mergeable"@, v2);
    lemma_says_left(b, maybe("Mergeable"@, v2));
    let e = c + maybe("Author"@, v3);
    lemma_says_left(c, maybe("Author"@, v3));
    let f = e + maybe("Labels"@, v4);
    lemma_says_left(e, maybe("Labels"@, v4));
    let g = f + maybe("Opened"@, v5);
    lemma_says_left(f, maybe("Opened"@, v5));
    lemma_says_left(g, maybe("Updated"@, v6));
    lemma_known(v1, v2, v3, v4, v5, v6);
}

proof fn lemma_known(
    a: Option<Seq<char>>,
    b: Option<Seq<char>>,
    c: Option<Seq<char>>,
    d: Option<Seq<char>>,
    e: Option<Seq<char>>,
    f: Option<Seq<char>>,
)
    ensures
        known(seq![a, b, c, d, e, f]) == (if a is Some {
            1int
        } else {
            0
        }) + (if b is Some {
            1int
        } else {
            0
        }) + (if c is Some {
            1int
        } else {
            0
        }) + (if d is Some {
            1int
        } else {
            0
        }) + (if e is Some {
            1int
        } else {
            0
        }) + (if f is Some {
            1int
        } else {
            0
        }),
{
    reveal_with_fuel(known, 7);
    let all = seq![a, b, c, d, e, f];
    assert(all.drop_last() =~= seq![a, b, c, d, e]);
    assert(seq![a, b, c, d, e].drop_last() =~= seq![a, b, c, d]);
    assert(seq![a, b, c, d].drop_last() =~= seq![a, b, c]);
    assert(seq![a, b, c].drop_last() =~= seq![a, b]);
    assert(seq![a, b].drop_last() =~= seq![a]);
    assert(seq![a].drop_last() =~= seq![]);
}

/// The preview of an issue says its state and comments, and as far as they are
/// known its author, those it is assigned to, labels and times; and nothing else.
pub proof fn law_issue_preview_says_what_it_is(d: IssueDetail, now_ms: Option<u64>)
    ensures
        ({
            let items = issue_lines(d, now_ms);
            &&& says(items, "State"@, d.state@)
            &&& says(items, "Comments"@, count_text(d.comments))
            &&& says_maybe(items, "Author"@, d.user.deep_view())
            &&& says_maybe(items, "Assignees"@, names(d.assignees.deep_view()))
            &&& says_maybe(items, "Labels"@, names(d.labels.deep_view()))
            &&& says_maybe(items, "Opened"@, since(d.created_at.deep_view(), now_ms))
            &&& says_maybe(items, "Updated"@, since(d.updated_at.deep_view(), now_ms))
            &&& items.len() == 2 + known(
                seq![
                    d.user.deep_view(),
                    names(d.assignees.deep_view()),
                    names(d.labels.deep_view()),
                    since(d.created_at.deep_view(), now_ms),
                    since(d.updated_at.deep_view(), now_ms),
                    None,
                ],
            )
        }),
{
    let a = seq![meta("State"@, d.state@), meta("Comments"@, count_text(d.comments))];
    assert(a[0] == meta("State"@, d.state@));
    assert(a[1] == meta("Comments"@, count_text(d.comments)));
    let (v1, v2, v3, v4, v5) = (
        d.user.deep_view(),
        names(d.assignees.deep_view()),
        names(d.labels.deep_view()),
        since(d.created_at.deep_view(), now_ms),
        since(d.updated_at.deep_view(), now_ms),
    );
    lemma_maybe_says("Author"@, v1);
    lemma_maybe_says("Assignees"@, v2);
    lemma_maybe_says("Labels"@, v3);
    lemma_maybe_says("Opened"@, v4);
    lemma_maybe_says("Updated"@, v5);
    let b = a + maybe("Author"@, v1);
    lemma_says_left(a, maybe("Author"@, v1));
    let c = b + maybe("Assignees"@, v2);
    lemma_says_left(b, maybe("Assignees"@, v2));
    let e = c + maybe("Labels"@, v3);
    lemma_says_left(c, maybe("Labels"@, v3));
    let f = e + maybe("Opened"@, v4);
    lemma_says_left(e, maybe("Opened"@, v4));
    lemma_says_left(f, maybe("Updated"@, v5));
    lemma_known(v1, v2, v3, v4, v5, None);
}

/// The preview of a repository says its stars, forks, open issues and default
/// branch, and as far as they are known its language, license, topics, homepage,
/// last push and description; and nothing else.
pub proof fn law_repo_preview_says_what_it_is(d: RepoDetail, now_ms: Option<u64>)
    ensures
        ({
            let items = repo_lines(d, now_ms);
            let license = match d.license {
                Some(l) => Some(license_name(l)),
                None => None,
            };
            &&& says(items, "Stars"@, count_text(d.stargazers_count))
            &&& says(items, "Forks"@, count_text(d.forks_count))
            &&& says(items, "Open issues"@, count_text(d.open_issues_count))
            &&& says(items, "Default branch"@, d.default_branch@)
            &&& says_maybe(items, "Language"@, d.language.deep_view())
            &&& says_maybe(items, "License"@, license)
            &&& says_maybe(items, "Topics"@, names(d.topics.deep_view()))
            &&& says_maybe(items, "Homepage"@, nonblank(d.homepage.deep_view()))
            &&& says_maybe(items, "Last push"@, since(d.pushed_at.deep_view(), now_ms))
            &&& says_maybe(items, "About"@, nonempty(d.description.deep_view()))
            &&& items.len() == 4 + known(
                seq![
                    d.language.deep_view(),
                    license,
                    names(d.topics.deep_view()),
                    nonblank(d.homepage.deep_view()),
                    since(d.pushed_at.deep_view(), now_ms),
                    nonempty(d.description.deep_view()),
                ],
            )
        }),
{
    let a = seq![
        meta("Stars"@, count_text(d.stargazers_count)),
        meta("Forks"@, count_text(d.forks_count)),
        meta("Open issues"@, count_text(d.open_issues_count)),
    ];
    assert(a[0] == meta("Stars"@, count_text(d.stargazers_count)));
    assert(a[1] == meta("Forks"@, count_text(d.forks_count)));
    assert(a[2] == meta("Open issues"@, count_text(d.open_issues_count)));
    let license = match d.license {
        Some(l) => Some(license_name(l)),
        None => None,
    };
    let (v1, v2, v3, v4, v5) = (
        d.language.deep_view(),
        names(d.topics.deep_view()),
        nonblank(d.homepage.deep_view()),
        since(d.pushed_at.deep_view(), now_ms),
        nonempty(d.description.deep_view()),
    );
    lemma_maybe_says("Language"@, v1);
    lemma_maybe_says("License"@, license);
    lemma_maybe_says("Topics"@, v2);
    lemma_maybe_says("Homepage"@, v3);
    lemma_maybe_says("Last push"@, v4);
    lemma_maybe_says("About"@, v5);
    let b = a + maybe("Language"@, v1);
    lemma_says_left(a, maybe("Language"@, v1));
    let c = b + maybe("License"@, license);
    lemma_says_left(b, maybe("License"@, license));
    let e = c + maybe("Topics"@, v2);
    lemma_says_left(c, maybe("Topics"@, v2));
    let f = e + maybe("Homepage"@, v3);
    lemma_says_left(e, maybe("Homepage"@, v3));
    let branch = seq![meta("Default branch"@, d.default_branch@)];
    assert(branch[0] == meta("Default branch"@, d.default_branch@));
    let g = f + branch;
    lemma_says_left(f, branch);
    let h = g + maybe("Last push"@, v4);
    lemma_says_left(g, maybe("Last push"@, v4));
    lemma_says_left(h, maybe("About"@, v5));
    lemma_known(v1, license, v2, v3, v4, v5);
}

/// The preview of a user says the login, the type, followers and repositories, and
/// as far as they are known the name, company, location, website and bio.
pub proof fn law_user_preview_says_who_it_is(d: UserDetail)
    ensures
        ({
            let items = user_lines(d);
            &&& says(items, "Login"@, d.login@)
            &&& says(items, "Followers"@, count_text(d.followers))
            &&& says(items, "Following"@, count_text(d.following))
            &&& says(items, "Public repos"@, count_text(d.public_repos))
            &&& says(
                items,
                "Type"@,
                if same_ignoring_ascii_case(d.kind@, "organization"@) {
                    "Organization"@
                } else {
                    "User"@
                },
            )
            &&& says_maybe(items, "Name"@, nonempty(d.name.deep_view()))
            &&& says_maybe(items, "Company"@, nonempty(d.company.deep_view()))
            &&& says_maybe(items, "Location"@, nonempty(d.location.deep_view()))
            &&& says_maybe(items, "Website"@, nonblank(d.blog.deep_view()))
            &&& says_maybe(items, "Bio"@, nonempty(d.bio.deep_view()))
            &&& items.len() == 5 + known(
                seq![
                    nonempty(d.name.deep_view()),
                    nonempty(d.company.deep_view()),
                    nonempty(d.location.deep_view()),
                    nonblank(d.blog.deep_view()),
                    nonempty(d.bio.deep_view()),
                    None,
                ],
            )
        }),
{
    let kind = if same_ignoring_ascii_case(d.kind@, "organization"@) {
        "Organization"@
    } else {
        "User"@
    };
    let a = seq![
        meta("Login"@, d.login@),
        meta("Type"@, kind),
        meta("Followers"@, count_text(d.followers)),
        meta("Following"@, count_text(d.following)),
        meta("Public repos"@, count_text(d.public_repos)),
    ];
    assert(a[0] == meta("Login"@, d.login@));
    assert(a[1] == meta("Type"@, kind));
    assert(a[2] == meta("Followers"@, count_text(d.followers)));
    assert(a[3] == meta("Following"@, count_text(d.following)));
    assert(a[4] == meta("Public repos"@, count_text(d.public_repos)));
    let (v1, v2, v3, v4, v5) = (
        nonempty(d.name.deep_view()),
        nonempty(d.company.deep_view()),
        nonempty(d.location.deep_view()),
        nonblank(d.blog.deep_view()),
        nonempty(d.bio.deep_view()),
    );
    lemma_maybe_says("Name"@, v1);
    lemma_maybe_says("Company"@, v2);
    lemma_maybe_says("Location"@, v3);
    lemma_maybe_says("Website"@, v4);
    lemma_maybe_says("Bio"@, v5);
    let b = a + maybe("Name"@, v1);
    lemma_says_left(a, maybe("Name"@, v1));
    let c = b + maybe("Company"@, v2);
    lemma_says_left(b, maybe("Company"@, v2));
    let e = c + maybe("Location"@, v3);
    lemma_says_left(c, maybe("Location"@, v3));
    let f = e + maybe("Website"@, v4);
    lemma_says_left(e, maybe("Website"@, v4));
    lemma_says_left(f, maybe("Bio"@, v5));
    lemma_known(v1, v2, v3, v4, v5, None);
}

/// The parts of a preview that may be missing: names stand in a row with commas,
/// a blank or empty text is left out, a license without an identifier goes by its
/// name.
pub proof fn law_parts_of_a_preview(a: Seq<char>, b: Seq<char>, l: License)
    requires
        a.len() > 0,
    ensures
        names(seq![]) is None,
        names(seq![a]) == Some(a),
        names(seq![a, b]) == Some(a + ", "@ + b),
        nonempty(Some(a)) == Some(a),
        nonempty(Some(seq![])) is None,
        nonempty(None) is None,
        nonblank(None) is None,
        nonblank(Some(a)) == (if trimmed(a).len() > 0 {
            Some(a)
        } else {
            None
        }),
        l.spdx_id is None ==> license_name(l) == l.name@,
        l.spdx_id.deep_view() == Some("NOASSERTION"@) ==> license_name(l) == l.name@,
        l.spdx_id.deep_view() matches Some(id) ==> id != "NOASSERTION"@ ==> license_name(l) == id,
{
    reveal_with_fuel(joined, 3);
    assert(seq![a, b].drop_last() =~= seq![a]);
}

/// The preview of a repository ends with its README, under its name and with its
/// links made absolute for the branch; where there is none it stays as it was.
pub proof fn law_readme_ends_the_preview(
    full: Seq<char>,
    d: RepoDetail,
    shown: PreviewModel,
    readme: String,
    status: u16,
    error: String,
)
    ensures
        trimmed(readme@).len() > 0 && encode_utf8(
            readme_linked(readme@, full, d.default_branch@),
        ).len() <= 65_536 ==> repo_end(
            full,
            d,
            shown,
            Reply::Answered { status: 200, value: Ok(readme) },
        ) == (PreviewModel::Markdown {
            content: "# "@ + d.full_name@ + "\n\n"@ + readme_linked(
                readme@,
                full,
                d.default_branch@,
            ),
        }),
        trimmed(readme@).len() == 0 ==> repo_end(
            full,
            d,
            shown,
            Reply::Answered { status: 200, value: Ok(readme) },
        ) == shown,
        status != 200 ==> repo_end(full, d, shown, Reply::Answered { status, value: Ok(readme) })
            == shown,
        repo_end(full, d, shown, Reply::Failed(error)) == shown,
{
}

/// The text of an issue or a pull request stands under its title and state, without
/// the blanks around it; without a text only its lines are shown.
pub proof fn law_text_stands_under_its_title(
    title: Seq<char>,
    state: Seq<char>,
    body: Seq<char>,
    items: Seq<MetadataModel>,
)
    ensures
        ({
            let text = "# "@ + title + " ("@ + state + ")\n\n"@ + trimmed(body);
            encode_utf8(text).len() <= 65_536 ==> text_shown(title, state, Some(body)) == (
            PreviewModel::Markdown { content: text })
        }),
        trimmed(body).len() > 0 ==> lines_step(items, Some(body)) == PreviewStepModel::Emit(
            lines_shown(items),
        ),
        trimmed(body).len() == 0 ==> lines_step(items, Some(body)) == PreviewStepModel::Show(
            lines_shown(items),
        ),
        lines_step(items, None) == PreviewStepModel::Show(lines_shown(items)),
{
}

/// A preview whose answer did not come fails with the reason; one that was refused
/// is shown with what is kept; one that came is shown.
pub proof fn law_answers_are_previewed(
    full: Seq<char>,
    d: RepoDetail,
    i: IssueDetail,
    p: PrDetail,
    u: UserDetail,
    kept: Seq<RepoModel>,
    error: String,
    status: u16,
    has_token: bool,
    now_ms: Option<u64>,
)
    requires
        status != 200,
    ensures
        repo_step(full, Reply::Failed(error), kept, has_token, now_ms) == PreviewStepModel::Fail(
            error@,
        ),
        issue_step(Reply::Failed(error), has_token, now_ms) == PreviewStepModel::Fail(error@),
        pr_step(Reply::Failed(error), has_token, now_ms) == PreviewStepModel::Fail(error@),
        user_step(Reply::Failed(error), has_token) == PreviewStepModel::Fail(error@),
        repo_step(full, Reply::Answered { status, value: Ok(d) }, kept, has_token, now_ms)
            == PreviewStepModel::Show(degraded(Some(full), status, kept, has_token)),
        issue_step(Reply::Answered { status, value: Ok(i) }, has_token, now_ms)
            == PreviewStepModel::Show(degraded(None, status, seq![], has_token)),
        pr_step(Reply::Answered { status, value: Ok(p) }, has_token, now_ms)
            == PreviewStepModel::Show(degraded(None, status, seq![], has_token)),
        user_step(Reply::Answered { status, value: Ok(u) }, has_token) == PreviewStepModel::Show(
            degraded(None, status, seq![], has_token),
        ),
        repo_step(full, Reply::Answered { status: 200, value: Ok(d) }, kept, has_token, now_ms)
            == PreviewStepModel::Emit(lines_shown(repo_lines(d, now_ms))),
        issue_step(Reply::Answered { status: 200, value: Ok(i) }, has_token, now_ms) == lines_step(
            issue_lines(i, now_ms),
            i.body.deep_view(),
        ),
        pr_step(Reply::Answered { status: 200, value: Ok(p) }, has_token, now_ms) == lines_step(
            pr_lines(p, now_ms),
            p.body.deep_view(),
        ),
        user_step(Reply::Answered { status: 200, value: Ok(u) }, has_token)
            == PreviewStepModel::Show(lines_shown(user_lines(u))),
{
}

/// What is kept of a repository is shown at once: the first row of its name; what
/// is not kept is asked for.
pub proof fn law_kept_repo_is_shown_at_once(before: Seq<RepoModel>, r: RepoModel, after: Seq<RepoModel>)
    requires
        forall|i: int| 0 <= i < before.len() ==> (#[trigger] before[i]).full_name != r.full_name,
    ensures
        repo_named(before + seq![r] + after, r.full_name) == Some(r),
        repo_named(before, r.full_name) is None,
        repo_start(r.full_name, before + seq![r] + after) matches PreviewStepModel::Emit(
            PreviewModel::Metadata { items },
        ) && says(items, "Stars"@, count_text(r.stars)) && says_maybe(
            items,
            "Language"@,
            r.language,
        ) && says_maybe(items, "About"@, r.description),
        repo_start(r.full_name, before) == (PreviewStepModel::Ask {
            path: "/repos/"@ + r.full_name,
            accept: ACCEPT_JSON@,
        }),
    decreases before.len(),
{
    let all = before + seq![r] + after;
    if before.len() > 0 {
        let less = before.skip(1);
        assert(before[0].full_name != r.full_name);
        assert forall|i: int| 0 <= i < less.len() implies (#[trigger] less[i]).full_name
            != r.full_name by {
            assert(less[i] == before[i + 1]);
        }
        law_kept_repo_is_shown_at_once(less, r, after);
        assert(all.skip(1) =~= less + seq![r] + after);
        assert(all[0] == before[0]);
    } else {
        assert(all[0] == r);
    }
    match first_paint(r) {
        PreviewModel::Metadata { items } => {
            assert(items[0] == meta("Stars"@, count_text(r.stars)));
            assert(items[1].label == "Language"@);
            assert(items[2].label == "About"@);
            match r.language {
                Some(l) => {
                    assert(items[1] == meta("Language"@, l));
                },
                None => {},
            }
            match r.description {
                Some(t) => {
                    assert(items[2] == meta("About"@, t));
                },
                None => {},
            }
        },
        _ => {},
    }
}

/// What is asked for a preview is the resource of the same thing: a notification
/// about it leads to the page that its row opens.
pub proof fn law_preview_asks_for_its_resource(
    owner: Seq<char>,
    name: Seq<char>,
    number: Seq<char>,
    other: Seq<char>,
)
    requires
        !owner.contains('/') && !name.contains('/') && !number.contains('/'),
    ensures
        ({
            let repo = owner + "/"@ + name;
            let api = "https://api.github.com"@;
            &&& api + repo_path(repo) == resource_url(repo, ""@)
            &&& repo_in_url(api + repo_path(repo)) == Some(repo)
            &&& notif_page(Some(api + issue_path(repo, number)), other) == repo_page(repo)
                + "/issues/"@ + number
            &&& notif_page(Some(api + pr_path(repo, number)), other) == repo_page(repo) + "/pull/"@
                + number
        }),
{
    reveal_strlit("");
    let repo = owner + "/"@ + name;
    let api = "https://api.github.com"@;
    law_notification_leads_to_its_page(owner, name, number, other);
    law_repo_of_its_resources(owner, name, ""@);
    assert(api + repo_path(repo) =~= resource_url(repo, ""@));
    assert(api + issue_path(repo, number) =~= resource_url(repo, "/issues/"@ + number));
    assert(api + pr_path(repo, number) =~= resource_url(repo, "/pulls/"@ + number));
}

/// Of a preview that is shown for now nothing more is asked where it is no longer
/// wanted; else what comes next is.
pub proof fn law_unwanted_preview_stays(shown: PreviewModel, next: PreviewStepModel)
    ensures
        after_emit(shown, false, next) == PreviewStepModel::Show(shown),
        after_emit(shown, true, next) == next,
{
}

/// What went wrong is told: a rate limit with what helps, which a token does where
/// there is none; any other status by its number. What is kept is told before it.
pub proof fn law_trouble_is_told(status: u16, kept: Seq<RepoModel>, r: RepoModel, has_token: bool)
    ensures
        status == 403 || status == 429 ==> status_item(status, has_token).label
            == "Rate limited"@,
        status_item(403, false).value
            == "GitHub rate limit - add a token in extension settings for 5000 req/h"@,
        status_item(403, true).value
            == "GitHub rate limit exhausted - try again in a few minutes"@,
        status != 403 && status != 429 ==> status_item(status, has_token) == meta(
            "Error"@,
            "HTTP "@ + decimal(status as nat),
        ),
        says(kept_lines(Some(r)), "Stars"@, count_text(r.stars)),
        says_maybe(kept_lines(Some(r)), "Language"@, r.language),
        says_maybe(kept_lines(Some(r)), "About"@, nonempty(r.description)),
        kept_lines(None).len() == 0,
{
    let a = seq![meta("Stars"@, count_text(r.stars))];
    assert(a[0] == meta("Stars"@, count_text(r.stars)));
    let b = maybe("Language"@, r.language);
    let c = maybe("About"@, nonempty(r.description));
    lemma_maybe_says("Language"@, r.language);
    lemma_maybe_says("About"@, nonempty(r.description));
    lemma_says_left(a, b);
    lemma_says_left(a + b, c);
}

/// A preview ends with the text of its own issue or pull request where that is
/// wanted, and stays as it was where it is not. The README is asked for as it is
/// written, a user by login.
pub proof fn law_previews_end_with_their_text(
    i: IssueDetail,
    p: PrDetail,
    shown: PreviewModel,
    full: Seq<char>,
)
    ensures
        issue_end(i, shown, true) == text_shown(i.title@, i.state@, i.body.deep_view()),
        pr_end(p, shown, true) == text_shown(
            p.title@,
            pr_state_text(p.state@ == "open"@, p.merged, p.draft),
            p.body.deep_view(),
        ),
        issue_end(i, shown, false) == shown,
        pr_end(p, shown, false) == shown,
        user_path(full) == "/users/"@ + full,
        ask_readme(full) == (PreviewStepModel::Ask {
            path: "/repos/"@ + full + "/readme"@,
            accept: "application/vnd.github.raw+json"@,
        }),
{
}

/// What is kept of a repository is told where its preview could not be had, and of
/// no other.
pub proof fn law_degraded_preview_tells_what_is_kept(
    before: Seq<RepoModel>,
    r: RepoModel,
    after: Seq<RepoModel>,
    status: u16,
    has_token: bool,
)
    requires
        forall|i: int| 0 <= i < before.len() ==> (#[trigger] before[i]).full_name != r.full_name,
    ensures
        degraded(Some(r.full_name), status, before + seq![r] + after, has_token)
            matches PreviewModel::Metadata { items } && says(items, "Stars"@, count_text(r.stars))
            && says_maybe(items, "Language"@, r.language) && says_maybe(
            items,
            "About"@,
            nonempty(r.description),
        ),
        degraded(Some(r.full_name), status, before, has_token) matches PreviewModel::Metadata {
            items,
        } && items.len() == 1,
        degraded(None, status, before + seq![r] + after, has_token)
            matches PreviewModel::Metadata { items } && items.len() == 1,
{
    law_kept_repo_is_shown_at_once(before, r, after);
    law_trouble_is_told(status, before, r, has_token);
    lemma_says_left(kept_lines(Some(r)), seq![status_item(status, has_token)]);
}

} // verus!
