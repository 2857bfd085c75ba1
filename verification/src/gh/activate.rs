//! What activating a result does. All of it follows from the id of the result
//! and the action: pages are opened and texts are copied. The one thing that is
//! ever written is an issue, from a form.
use vstd::prelude::*;
use vstd::string::*;

use crate::encode::{urlencode, urlencoded};
use crate::gh::api::{
    merge_repo_cache, merged_repos, repo_page, CachedRepo, CodeItem, IssueModel, Kept, KeptModel,
    NotifModel, RepoItem, RepoModel, Reply,
};
use crate::gh::query::{
    error_line, log_err, log_status, no_outcome, repos_of_items, status_line, Live, LiveModel,
};
use crate::gh::render::{
    code_row, empty, issue_menu, issue_row, notif_menu, notif_row, notoken_row, numbered,
    rate_limit_row, repo_menu, repo_row, searching, user_menu, user_row,
};
use crate::host::{
    copy_toast, copying, open, opening, toast, toasting, ActionModel, ActivateEffect, EffectModel,
    FormField, FormFieldModel, FormOption, FormOptionModel, Relevance, ToastLevel,
};
use crate::json::{
    field, member_text, object_text, read_member, text_field_or_empty, write_object, Json,
};
use crate::text::{
    cut_at_char, decimal, decimal_text, has_char, has_prefix, lemma_cut_at_char,
    lemma_other_prefix, lemma_pieces_more, lemma_without_prefix, pieces, same, split,
    split_once_char, strip_prefix, to_chars, trim, trimmed, without_prefix,
};

verus! {

// ---------------------------------------------------------------------------
// Pages and texts
// ---------------------------------------------------------------------------

/// How a repository is cloned over SSH.
pub open spec fn ssh_address(full: Seq<char>) -> Seq<char> {
    "git@github.com:"@ + full + ".git"@
}

/// What an action on a repository does.
pub open spec fn repo_effects(full: Seq<char>, action: Seq<char>, ssh: bool) -> Seq<EffectModel> {
    let url = repo_page(full);
    if action == "open-issues"@ {
        opening(url + "/issues"@)
    } else if action == "open-prs"@ {
        opening(url + "/pulls"@)
    } else if action == "open-releases"@ {
        opening(url + "/releases"@)
    } else if action == "open-actions"@ {
        opening(url + "/actions"@)
    } else if action == "copy-url"@ {
        copying(url, "Copied repo URL"@)
    } else if action == "copy-clone"@ {
        copying(
            if ssh {
                ssh_address(full)
            } else {
                url + ".git"@
            },
            "Copied clone URL"@,
        )
    } else if action == "copy-ssh"@ {
        copying(ssh_address(full), "Copied SSH clone URL"@)
    } else if action == "copy-gh"@ {
        copying("gh repo clone "@ + full, "Copied gh clone command"@)
    } else {
        opening(url)
    }
}

fn act_on_repo(full: &str, action: &str, ssh: bool) -> (r: Vec<ActivateEffect>)
    ensures
        r.deep_view() == repo_effects(full@, action@, ssh),
{
    let url = "https://github.com/".to_owned().concat(full);
    if same(action, "open-issues") {
        open(url.concat("/issues"))
    } else if same(action, "open-prs") {
        open(url.concat("/pulls"))
    } else if same(action, "open-releases") {
        open(url.concat("/releases"))
    } else if same(action, "open-actions") {
        open(url.concat("/actions"))
    } else if same(action, "copy-url") {
        copy_toast(url, "Copied repo URL")
    } else if same(action, "copy-clone") {
        let text = if ssh {
            "git@github.com:".to_owned().concat(full).concat(".git")
        } else {
            url.concat(".git")
        };
        copy_toast(text, "Copied clone URL")
    } else if same(action, "copy-ssh") {
        copy_toast(
            "git@github.com:".to_owned().concat(full).concat(".git"),
            "Copied SSH clone URL",
        )
    } else if same(action, "copy-gh") {
        copy_toast("gh repo clone ".to_owned().concat(full), "Copied gh clone command")
    } else {
        open(url)
    }
}

/// What an action on an issue (`path` is "issues") or a pull request ("pull")
/// does.
pub open spec fn issue_effects(
    repo: Seq<char>,
    path: Seq<char>,
    number: Seq<char>,
    action: Seq<char>,
    title: Seq<char>,
) -> Seq<EffectModel> {
    let url = repo_page(repo) + "/"@ + path + "/"@ + number;
    if action == "copy-url"@ {
        copying(url, "Copied URL"@)
    } else if action == "copy-number"@ {
        copying("#"@ + number, "Copied number"@)
    } else if action == "copy-title"@ {
        copying(title, "Copied title"@)
    } else if action == "copy-md"@ {
        copying("["@ + title + "]("@ + url + ")"@, "Copied Markdown link"@)
    } else {
        opening(url)
    }
}

fn act_on_issue(repo: &str, path: &str, number: &str, action: &str, title: &str) -> (r: Vec<
    ActivateEffect,
>)
    ensures
        r.deep_view() == issue_effects(repo@, path@, number@, action@, title@),
{
    let url = "https://github.com/".to_owned().concat(repo).concat("/").concat(path).concat(
        "/",
    ).concat(number);
    if same(action, "copy-url") {
        copy_toast(url, "Copied URL")
    } else if same(action, "copy-number") {
        copy_toast("#".to_owned().concat(number), "Copied number")
    } else if same(action, "copy-title") {
        copy_toast(title.to_owned(), "Copied title")
    } else if same(action, "copy-md") {
        copy_toast(
            "[".to_owned().concat(title).concat("](").concat(url.as_str()).concat(")"),
            "Copied Markdown link",
        )
    } else {
        open(url)
    }
}

/// What an action on something with a page of its own does: the page is copied
/// or opened.
pub open spec fn page_effects(
    url: Seq<char>,
    action: Seq<char>,
    copied: Seq<char>,
) -> Seq<EffectModel> {
    if action == "copy-url"@ {
        copying(url, copied)
    } else {
        opening(url)
    }
}

fn act_on_page(url: String, action: &str, copied: &str) -> (r: Vec<ActivateEffect>)
    ensures
        r.deep_view() == page_effects(url@, action@, copied@),
{
    if same(action, "copy-url") {
        copy_toast(url, copied)
    } else {
        open(url)
    }
}

/// What an action on a notification does. `rest` is its id behind the prefix,
/// with the address in front.
pub open spec fn notif_effects(rest: Seq<char>, action: Seq<char>) -> Seq<EffectModel> {
    if action == "open-inbox"@ {
        opening("https://github.com/notifications"@)
    } else {
        page_effects(pieces(rest, '|')[0], action, "Copied URL"@)
    }
}

/// What narrows a search of the site to one kind of things.
pub open spec fn search_scope(mode: Seq<char>) -> Seq<char> {
    if mode == "issue"@ {
        "&type=issues"@
    } else if mode == "pr"@ {
        "&type=pullrequests"@
    } else if mode == "code"@ {
        "&type=code"@
    } else if mode == "user"@ {
        "&type=users"@
    } else {
        ""@
    }
}

/// The address of a search of the site.
pub open spec fn site_search(mode: Seq<char>, term: Seq<char>) -> Seq<char> {
    "https://github.com/search?q="@ + urlencoded(term) + search_scope(mode)
}

/// What activating the row of a search that is not done yet does. `rest` is
/// its id behind the prefix, "mode:term".
pub open spec fn searching_effects(rest: Seq<char>) -> Seq<EffectModel> {
    match cut_at_char(rest, ':') {
        Some((mode, term)) => opening(site_search(mode, term)),
        None => opening(site_search("repo"@, rest)),
    }
}

fn act_on_searching(rest: &str) -> (r: Vec<ActivateEffect>)
    ensures
        r.deep_view() == searching_effects(rest@),
{
    let (mode, term) = match split_once_char(rest, ':') {
        Some((mode, term)) => (mode, term),
        None => ("repo".to_owned(), rest.to_owned()),
    };
    let mode = mode.as_str();
    let scope = if same(mode, "issue") {
        "&type=issues"
    } else if same(mode, "pr") {
        "&type=pullrequests"
    } else if same(mode, "code") {
        "&type=code"
    } else if same(mode, "user") {
        "&type=users"
    } else {
        ""
    };
    let q = urlencode(term.as_str());
    open("https://github.com/search?q=".to_owned().concat(q.as_str()).concat(scope))
}

/// What is named behind a prefix, as repository and number.
pub open spec fn numbered_in(id: Seq<char>, prefix: Seq<char>) -> Option<(Seq<char>, Seq<char>)> {
    match without_prefix(id, prefix) {
        Some(rest) => cut_at_char(rest, '#'),
        None => None,
    }
}

pub(crate) fn split_numbered(id: &str, prefix: &str) -> (r: Option<(String, String)>)
    ensures
        r.deep_view() == numbered_in(id@, prefix@),
{
    match strip_prefix(id, prefix) {
        Some(rest) => split_once_char(rest.as_str(), '#'),
        None => None,
    }
}

/// What activating a result does.
pub open spec fn effects_of(
    id: Seq<char>,
    action: Seq<char>,
    title: Seq<char>,
    ssh: bool,
) -> Seq<EffectModel> {
    match without_prefix(id, "repo:"@) {
        Some(full) => repo_effects(full, action, ssh),
        None => match numbered_in(id, "pr:"@) {
            Some((repo, number)) => issue_effects(repo, "pull"@, number, action, title),
            None => match numbered_in(id, "issue:"@) {
                Some((repo, number)) => issue_effects(repo, "issues"@, number, action, title),
                None => match without_prefix(id, "user:"@) {
                    Some(login) => page_effects(repo_page(login), action, "Copied profile URL"@),
                    None => match without_prefix(id, "code:"@) {
                        Some(url) => page_effects(url, action, "Copied URL"@),
                        None => match without_prefix(id, "notif|"@) {
                            Some(rest) => notif_effects(rest, action),
                            None => if id == "gh:ratelimit"@ || id == "gh:notoken"@ {
                                opening("https://github.com/settings/tokens"@)
                            } else if id == "gh:empty"@ {
                                seq![]
                            } else {
                                match without_prefix(id, "gh:searching:"@) {
                                    Some(rest) => searching_effects(rest),
                                    None => searching_effects(""@),
                                }
                            },
                        },
                    },
                },
            },
        },
    }
}

/// What activating a result does.
pub fn activate_effects(id: &str, action: &str, title: &str, clone_protocol: &Option<String>) -> (r:
    Vec<ActivateEffect>)
    ensures
        r.deep_view() == effects_of(
            id@,
            action@,
            title@,
            clone_protocol.deep_view() == Some("ssh"@),
        ),
{
    if let Some(full) = strip_prefix(id, "repo:") {
        let ssh = match clone_protocol {
            Some(p) => same(p.as_str(), "ssh"),
            None => false,
        };
        return act_on_repo(full.as_str(), action, ssh);
    }
    if let Some((repo, number)) = split_numbered(id, "pr:") {
        return act_on_issue(repo.as_str(), "pull", number.as_str(), action, title);
    }
    if let Some((repo, number)) = split_numbered(id, "issue:") {
        return act_on_issue(repo.as_str(), "issues", number.as_str(), action, title);
    }
    if let Some(login) = strip_prefix(id, "user:") {
        let url = "https://github.com/".to_owned().concat(login.as_str());
        return act_on_page(url, action, "Copied profile URL");
    }
    if let Some(url) = strip_prefix(id, "code:") {
        return act_on_page(url, action, "Copied URL");
    }
    if let Some(rest) = strip_prefix(id, "notif|") {
        if same(action, "open-inbox") {
            return open("https://github.com/notifications".to_owned());
        }
        let parts = split(rest.as_str(), '|');
        assert(parts.deep_view().len() == parts.len());
        let url = if parts.len() > 0 {
            parts[0].clone()
        } else {
            String::new()
        };
        assert(parts.deep_view()[0] == parts[0]@);
        return act_on_page(url, action, "Copied URL");
    }
    if same(id, "gh:ratelimit") || same(id, "gh:notoken") {
        return open("https://github.com/settings/tokens".to_owned());
    }
    if same(id, "gh:empty") {
        return Vec::new();
    }
    match strip_prefix(id, "gh:searching:") {
        Some(rest) => act_on_searching(rest.as_str()),
        None => act_on_searching(""),
    }
}

// ---------------------------------------------------------------------------
// The form for an issue
// ---------------------------------------------------------------------------

/// The field that asks for the repository: a choice among those that are known,
/// or free text where there are none.
pub open spec fn repo_field(repos: Seq<RepoModel>) -> FormFieldModel {
    if repos.len() == 0 {
        FormFieldModel {
            id: "repo"@,
            label: "Repository"@,
            kind: "text"@,
            required: true,
            placeholder: Some("owner/repo"@),
            options: seq![],
        }
    } else {
        FormFieldModel {
            id: "repo"@,
            label: "Repository"@,
            kind: "select"@,
            required: true,
            placeholder: None,
            options: Seq::new(
                repos.len(),
                |i: int|
                    FormOptionModel { value: repos[i].full_name, label: repos[i].full_name },
            ),
        }
    }
}

/// The fields of an issue: its title and its text.
pub open spec fn issue_fields() -> Seq<FormFieldModel> {
    seq![
        FormFieldModel {
            id: "title"@,
            label: "Title"@,
            kind: "text"@,
            required: true,
            placeholder: Some("Short summary"@),
            options: seq![],
        },
        FormFieldModel {
            id: "body"@,
            label: "Body"@,
            kind: "textarea"@,
            required: false,
            placeholder: Some("Describe the issue (Markdown)\u{2026}"@),
            options: seq![],
        },
    ]
}

/// The form for an issue in a repository; one that asks for the repository too
/// where it is not given. Without a token it cannot be sent, which is said.
pub open spec fn issue_form(
    full: Option<Seq<char>>,
    has_token: bool,
    repos: Seq<RepoModel>,
) -> Seq<EffectModel> {
    if !has_token {
        toasting("Set a GitHub token first (gh settings)"@, ToastLevel::Error)
    } else {
        seq![
            EffectModel::ShowForm {
                title: match full {
                    Some(f) => "New issue in "@ + f,
                    None => "New GitHub issue"@,
                },
                fields: match full {
                    Some(_) => issue_fields(),
                    None => seq![repo_field(repos)] + issue_fields(),
                },
                submit_action: "create-issue"@,
                submit_label: Some("Create issue"@),
            },
        ]
    }
}

fn ask_repo(repos: &Vec<CachedRepo>) -> (r: FormField)
    ensures
        r.deep_view() == repo_field(repos.deep_view()),
{
    let mut options: Vec<FormOption> = Vec::new();
    if repos.len() == 0 {
        let r = FormField {
            id: "repo".to_owned(),
            label: "Repository".to_owned(),
            kind: "text".to_owned(),
            required: true,
            placeholder: Some("owner/repo".to_owned()),
            options,
        };
        assert(r.deep_view() =~= repo_field(repos.deep_view()));
        return r;
    }
    let ghost all = repo_field(repos.deep_view()).options;
    let mut i: usize = 0;
    while i < repos.len()
        invariant
            i <= repos.len(),
            repos.len() > 0,
            all == repo_field(repos.deep_view()).options,
            options.deep_view() == all.take(i as int),
        decreases repos.len() - i,
    {
        let ghost before = options.deep_view();
        let option = FormOption {
            value: repos[i].full_name.clone(),
            label: repos[i].full_name.clone(),
        };
        assert(option.deep_view() == all[i as int]);
        options.push(option);
        assert(options.deep_view() =~= before.push(all[i as int]));
        assert(all.take(i + 1) =~= before.push(all[i as int]));
        i = i + 1;
    }
    assert(all.take(i as int) =~= all);
    let r = FormField {
        id: "repo".to_owned(),
        label: "Repository".to_owned(),
        kind: "select".to_owned(),
        required: true,
        placeholder: None,
        options,
    };
    assert(r.deep_view() =~= repo_field(repos.deep_view()));
    r
}

/// The form for an issue. `repos` is what it offers where no repository is
/// given.
pub fn new_issue_form(full: Option<&str>, has_token: bool, repos: &Vec<CachedRepo>) -> (r: Vec<
    ActivateEffect,
>)
    ensures
        r.deep_view() == issue_form(
            match full {
                Some(f) => Some(f@),
                None => None,
            },
            has_token,
            repos.deep_view(),
        ),
{
    if !has_token {
        return toast("Set a GitHub token first (gh settings)".to_owned(), ToastLevel::Error);
    }
    let mut fields: Vec<FormField> = Vec::new();
    if full.is_none() {
        fields.push(ask_repo(repos));
    }
    fields.push(
        FormField {
            id: "title".to_owned(),
            label: "Title".to_owned(),
            kind: "text".to_owned(),
            required: true,
            placeholder: Some("Short summary".to_owned()),
            options: Vec::new(),
        },
    );
    fields.push(
        FormField {
            id: "body".to_owned(),
            label: "Body".to_owned(),
            kind: "textarea".to_owned(),
            required: false,
            placeholder: Some("Describe the issue (Markdown)\u{2026}".to_owned()),
            options: Vec::new(),
        },
    );
    assert(fields@[fields.len() - 1].deep_view() =~= issue_fields()[1]);
    assert(fields@[fields.len() - 2].deep_view() =~= issue_fields()[0]);
    assert(fields.deep_view() =~= match full {
        Some(_) => issue_fields(),
        None => seq![repo_field(repos.deep_view())] + issue_fields(),
    });
    let title = match full {
        Some(f) => "New issue in ".to_owned().concat(f),
        None => "New GitHub issue".to_owned(),
    };
    let r = vec![
        ActivateEffect::ShowForm {
            title,
            fields,
            submit_action: "create-issue".to_owned(),
            submit_label: Some("Create issue".to_owned()),
        },
    ];
    assert(r.deep_view() =~= issue_form(
        match full {
            Some(f) => Some(f@),
            None => None,
        },
        has_token,
        repos.deep_view(),
    ));
    r
}

/// The repositories that the form offers: those that came, or else those that
/// are kept.
pub open spec fn offered_repos(reply: Reply<Vec<RepoItem>>, kept: Seq<RepoModel>) -> Seq<RepoModel> {
    match reply {
        Reply::Answered { status, value: Ok(items) } if status == 200 => items.deep_view(),
        _ => kept,
    }
}

/// What else becomes of an answer with the user's repositories: they go before
/// those that are kept; a failure goes to the log.
pub open spec fn own_repos_outcome(reply: Reply<Vec<RepoItem>>, kept: Seq<RepoModel>) -> LiveModel {
    match reply {
        Reply::Failed(e) => LiveModel {
            log: seq![error_line("own repos"@, e@)],
            ..no_outcome()
        },
        Reply::Answered { status, value } => if status == 200 {
            match value {
                Ok(items) => LiveModel {
                    keep: KeptModel::Repos(merged_repos(items.deep_view(), kept)),
                    ..no_outcome()
                },
                Err(e) => LiveModel { log: seq![error_line("own repos"@, e@)], ..no_outcome() },
            }
        } else {
            LiveModel { log: seq![status_line("own repos"@, status)], ..no_outcome() }
        },
    }
}

/// The repositories that the form offers. What is kept holds repositories that
/// were merely searched for, so it stands in only where the user's own did not
/// come.
pub fn own_repos(reply: &Reply<Vec<RepoItem>>, kept: Vec<CachedRepo>) -> (r: (Vec<CachedRepo>, Live))
    ensures
        r.0.deep_view() == offered_repos(*reply, kept.deep_view()),
        r.1.deep_view() == own_repos_outcome(*reply, kept.deep_view()),
{
    let line = match reply {
        Reply::Failed(e) => log_err("own repos", e.as_str()),
        Reply::Answered { status, value } => {
            if *status == 200 {
                match value {
                    Ok(items) => {
                        let cached = repos_of_items(items);
                        let merged = merge_repo_cache(&cached, kept);
                        return (
                            cached,
                            Live { log: Vec::new(), emit: None, keep: Kept::Repos(merged) },
                        );
                    },
                    Err(e) => log_err("own repos", e.as_str()),
                }
            } else {
                log_status("own repos", *status)
            }
        },
    };
    (kept, Live { log: vec![line], emit: None, keep: Kept::Nothing })
}

// ---------------------------------------------------------------------------
// Creating an issue
// ---------------------------------------------------------------------------

/// What a form holds under a key.
pub open spec fn form_text(values: Option<Json>, key: Seq<char>) -> Seq<char> {
    match values {
        Some(v) => text_field_or_empty(v, key),
        None => seq![],
    }
}

fn form_value(values: &Option<Json>, key: &str) -> (r: String)
    ensures
        r@ == form_text(*values, key@),
{
    match values {
        Some(v) => v.get_text_or_empty(key),
        None => String::new(),
    }
}

/// The repository that an issue is for.
pub open spec fn issue_repo(full: Option<Seq<char>>, values: Option<Json>) -> Seq<char> {
    trimmed(
        match full {
            Some(f) => f,
            None => form_text(values, "repo"@),
        },
    )
}

/// What activating a result leads to.
#[derive(Debug, PartialEq, Eq)]
pub enum ActivateStep {
    /// These effects, and nothing more.
    Effects(Vec<ActivateEffect>),
    /// The user's repositories have to be fetched from this path for the form.
    OfferRepos(String),
    /// This JSON is posted to this path.
    Post { path: String, payload: String },
}

#[verifier::ext_equal]
pub enum StepModel {
    Effects(Seq<EffectModel>),
    OfferRepos(Seq<char>),
    Post { path: Seq<char>, payload: Seq<char> },
}

impl DeepView for ActivateStep {
    type V = StepModel;

    open spec fn deep_view(&self) -> StepModel {
        match self {
            ActivateStep::Effects(effects) => StepModel::Effects(effects.deep_view()),
            ActivateStep::OfferRepos(path) => StepModel::OfferRepos(path@),
            ActivateStep::Post { path, payload } => StepModel::Post {
                path: path@,
                payload: payload@,
            },
        }
    }
}

/// The JSON of an issue.
pub open spec fn issue_json(title: Seq<char>, body: Seq<char>) -> Seq<char> {
    object_text(seq![("title"@, title), ("body"@, body)])
}

/// The JSON of an issue. Its title and its text can be read back from it.
pub fn issue_payload(title: String, body: String) -> (r: String)
    ensures
        r@ == issue_json(title@, body@),
        member_text(r@, "title"@) == Some(title@),
        member_text(r@, "body"@) == Some(body@),
{
    let ghost t = title@;
    let ghost b = body@;
    let members = vec![("title".to_owned(), title), ("body".to_owned(), body)];
    proof {
        reveal_strlit("title");
        reveal_strlit("body");
        assert("title"@.len() != "body"@.len());
        assert(members.deep_view() =~= seq![("title"@, t), ("body"@, b)]);
        assert(members@[0].0@ == "title"@ && members@[0].1@ == t);
        assert(members@[1].0@ == "body"@ && members@[1].1@ == b);
    }
    let ghost all = members@;
    let r = write_object(members);
    proof {
        assert forall|j: int| 0 < j < all.len() implies #[trigger] all[j].0@ != all[0].0@ by {}
        assert(member_text(r@, all[0].0@) == Some(all[0].1@));
        assert(member_text(r@, all[1].0@) == Some(all[1].1@));
    }
    r
}

/// What sending the form for an issue leads to. A repository without a slash is
/// refused, and without a token nothing is sent.
pub open spec fn create_step(
    full: Option<Seq<char>>,
    values: Option<Json>,
    has_token: bool,
) -> StepModel {
    let repo = issue_repo(full, values);
    if !repo.contains('/') {
        StepModel::Effects(toasting("Repository must be owner/repo"@, ToastLevel::Error))
    } else if !has_token {
        StepModel::Effects(toasting("Set a GitHub token first (gh settings)"@, ToastLevel::Error))
    } else {
        StepModel::Post {
            path: "/repos/"@ + repo + "/issues"@,
            payload: issue_json(form_text(values, "title"@), form_text(values, "body"@)),
        }
    }
}

/// What the field `key` of a form holds; nothing where it has no text.
pub open spec fn field_text(values: Option<Json>, key: Seq<char>) -> Seq<char> {
    match values {
        Some(v) => match field(v, key) {
            Some(Json::Text(t)) => t@,
            _ => seq![],
        },
        None => seq![],
    }
}

/// Whether a post carries a form: read back from the payload, the title and the
/// text are those of the fields "title" and "body", and the path names the
/// repository that was given, or else the one of the field "repo".
pub open spec fn posts_form(
    path: Seq<char>,
    payload: Seq<char>,
    full: Option<Seq<char>>,
    values: Option<Json>,
) -> bool {
    &&& member_text(payload, "title"@) == Some(field_text(values, "title"@))
    &&& member_text(payload, "body"@) == Some(field_text(values, "body"@))
    &&& path == "/repos/"@ + trimmed(
        match full {
            Some(f) => f,
            None => field_text(values, "repo"@),
        },
    ) + "/issues"@
}

/// What sending the form for an issue leads to.
pub fn create_issue(full: Option<&str>, values: &Option<Json>, has_token: bool) -> (r: ActivateStep)
    ensures
        r.deep_view() == create_step(
            match full {
                Some(f) => Some(f@),
                None => None,
            },
            *values,
            has_token,
        ),
        r matches ActivateStep::Post { path, payload } ==> posts_form(
            path@,
            payload@,
            match full {
                Some(f) => Some(f@),
                None => None,
            },
            *values,
        ),
{
    let repo = match full {
        Some(f) => f.to_owned(),
        None => form_value(values, "repo"),
    };
    let repo = trim(repo.as_str());
    let chars = to_chars(repo.as_str());
    if !has_char(chars.as_slice(), '/') {
        return ActivateStep::Effects(
            toast("Repository must be owner/repo".to_owned(), ToastLevel::Error),
        );
    }
    if !has_token {
        return ActivateStep::Effects(
            toast("Set a GitHub token first (gh settings)".to_owned(), ToastLevel::Error),
        );
    }
    let payload = issue_payload(form_value(values, "title"), form_value(values, "body"));
    ActivateStep::Post {
        path: "/repos/".to_owned().concat(repo.as_str()).concat("/issues"),
        payload,
    }
}

/// What is shown once an issue was posted: that it was created, and its page if
/// the answer names one; or why it was not.
pub open spec fn created_effects(status: u16, url: Option<Seq<char>>) -> Seq<EffectModel> {
    if status == 201 {
        toasting("Issue created"@, ToastLevel::Success) + (match url {
            Some(u) => opening(u),
            None => seq![],
        })
    } else {
        toasting("GitHub refused the issue ("@ + decimal(status as nat) + ")"@, ToastLevel::Error)
    }
}

/// What is shown once an issue was posted. `url` is the page that the answer
/// names.
pub fn show_created(status: u16, url: Option<String>) -> (r: Vec<ActivateEffect>)
    ensures
        r.deep_view() == created_effects(status, url.deep_view()),
{
    if status != 201 {
        let n = decimal_text(status as u64);
        return toast(
            "GitHub refused the issue (".to_owned().concat(n.as_str()).concat(")"),
            ToastLevel::Error,
        );
    }
    let mut r = toast("Issue created".to_owned(), ToastLevel::Success);
    let ghost before = r.deep_view();
    match url {
        Some(url) => {
            r.push(ActivateEffect::OpenUrl { url });
            assert(r.deep_view() =~= before + opening(url@));
        },
        None => {
            assert(r.deep_view() =~= before + Seq::<EffectModel>::empty());
        },
    }
    r
}

/// What is shown on the answer to a posted issue, a status and a body of JSON.
pub fn issue_answered(status: u16, body: &str) -> (r: Vec<ActivateEffect>)
    ensures
        r.deep_view() == created_effects(status, member_text(body@, "html_url"@)),
{
    let url = read_member(body, "html_url");
    show_created(status, url)
}

/// What is shown where an issue could not be posted.
pub fn issue_failed(error: &str) -> (r: Vec<ActivateEffect>)
    ensures
        r.deep_view() == toasting("Create failed: "@ + error@, ToastLevel::Error),
{
    toast("Create failed: ".to_owned().concat(error), ToastLevel::Error)
}

// ---------------------------------------------------------------------------
// Activating
// ---------------------------------------------------------------------------

/// What asking for the form for an issue leads to.
pub open spec fn form_step(full: Option<Seq<char>>, has_token: bool) -> StepModel {
    if full is None && has_token {
        StepModel::OfferRepos("/user/repos?sort=pushed&per_page=100"@)
    } else {
        StepModel::Effects(issue_form(full, has_token, seq![]))
    }
}

fn ask_for_form(full: Option<&str>, has_token: bool) -> (r: ActivateStep)
    ensures
        r.deep_view() == form_step(
            match full {
                Some(f) => Some(f@),
                None => None,
            },
            has_token,
        ),
{
    if full.is_none() && has_token {
        ActivateStep::OfferRepos("/user/repos?sort=pushed&per_page=100".to_owned())
    } else {
        let none: Vec<CachedRepo> = Vec::new();
        assert(none.deep_view() =~= seq![]);
        ActivateStep::Effects(new_issue_form(full, has_token, &none))
    }
}

/// What activating a result leads to. The command for a new issue and the action
/// of that name on a repository show a form; sending it comes back as the
/// action "create-issue".
pub open spec fn step_of(
    cmd: Seq<char>,
    id: Seq<char>,
    title: Seq<char>,
    action: Option<Seq<char>>,
    values: Option<Json>,
    has_token: bool,
    ssh: bool,
) -> StepModel {
    let action = match action {
        Some(a) => a,
        None => "open"@,
    };
    if cmd == "new-issue"@ {
        if action == "create-issue"@ {
            create_step(None, values, has_token)
        } else {
            form_step(None, has_token)
        }
    } else if has_prefix(id, "repo:"@) && action == "new-issue"@ {
        form_step(without_prefix(id, "repo:"@), has_token)
    } else if has_prefix(id, "repo:"@) && action == "create-issue"@ {
        create_step(without_prefix(id, "repo:"@), values, has_token)
    } else {
        StepModel::Effects(effects_of(id, action, title, ssh))
    }
}

/// What activating a result leads to.
pub fn activate(
    cmd: &str,
    id: &str,
    title: &str,
    action: Option<&str>,
    values: &Option<Json>,
    has_token: bool,
    clone_protocol: &Option<String>,
) -> (r: ActivateStep)
    ensures
        r.deep_view() == step_of(
            cmd@,
            id@,
            title@,
            match action {
                Some(a) => Some(a@),
                None => None,
            },
            *values,
            has_token,
            clone_protocol.deep_view() == Some("ssh"@),
        ),
        r matches ActivateStep::Post { path, payload } ==> posts_form(
            path@,
            payload@,
            if cmd@ == "new-issue"@ {
                None
            } else {
                without_prefix(id@, "repo:"@)
            },
            *values,
        ),
{
    let action = match action {
        Some(a) => a,
        None => "open",
    };
    if same(cmd, "new-issue") {
        return if same(action, "create-issue") {
            create_issue(None, values, has_token)
        } else {
            ask_for_form(None, has_token)
        };
    }
    if let Some(full) = strip_prefix(id, "repo:") {
        if same(action, "new-issue") {
            return ask_for_form(Some(full.as_str()), has_token);
        }
        if same(action, "create-issue") {
            return create_issue(Some(full.as_str()), values, has_token);
        }
    }
    ActivateStep::Effects(activate_effects(id, action, title, clone_protocol))
}

// ---------------------------------------------------------------------------
// Where the rows lead
// ---------------------------------------------------------------------------

proof fn lemma_row_prefixes()
    ensures
        "repo:"@[0] == 'r' && "repo:"@.len() == 5,
        "pr:"@[0] == 'p' && "pr:"@.len() == 3,
        "issue:"@[0] == 'i' && "issue:"@.len() == 6,
        "user:"@[0] == 'u' && "user:"@.len() == 5,
        "code:"@[0] == 'c' && "code:"@.len() == 5,
        "notif|"@[0] == 'n' && "notif|"@.len() == 6,
        "gh:searching:"@[0] == 'g' && "gh:searching:"@.len() == 13,
        "gh:ratelimit"@[0] == 'g' && "gh:ratelimit"@.len() == 12,
        "gh:notoken"@[0] == 'g' && "gh:notoken"@.len() == 10,
        "gh:empty"@[0] == 'g' && "gh:empty"@.len() == 8,
        "gh:searching:"@[3] == 's',
        "gh:ratelimit"@[3] == 'r',
        "gh:notoken"@[3] == 'n',
        "gh:empty"@[3] == 'e',
{
    reveal_strlit("repo:");
    reveal_strlit("pr:");
    reveal_strlit("issue:");
    reveal_strlit("user:");
    reveal_strlit("code:");
    reveal_strlit("notif|");
    reveal_strlit("gh:searching:");
    reveal_strlit("gh:ratelimit");
    reveal_strlit("gh:notoken");
    reveal_strlit("gh:empty");
}

/// The row of a repository leads to its page, to the parts of it, and to the ways
/// to clone it.
pub proof fn law_repo_row_leads_to_page(
    r: RepoModel,
    relevance: Relevance,
    badge: Seq<char>,
    title: Seq<char>,
    ssh: bool,
)
    ensures
        ({
            let id = repo_row(r, relevance, badge).id;
            let page = repo_page(r.full_name);
            &&& effects_of(id, "open"@, title, ssh) == opening(page)
            &&& effects_of(id, "open-issues"@, title, ssh) == opening(page + "/issues"@)
            &&& effects_of(id, "open-prs"@, title, ssh) == opening(page + "/pulls"@)
            &&& effects_of(id, "open-releases"@, title, ssh) == opening(page + "/releases"@)
            &&& effects_of(id, "open-actions"@, title, ssh) == opening(page + "/actions"@)
            &&& effects_of(id, "copy-url"@, title, ssh) == copying(page, "Copied repo URL"@)
            &&& effects_of(id, "copy-clone"@, title, false) == copying(
                page + ".git"@,
                "Copied clone URL"@,
            )
            &&& effects_of(id, "copy-clone"@, title, true) == copying(
                ssh_address(r.full_name),
                "Copied clone URL"@,
            )
            &&& effects_of(id, "copy-ssh"@, title, ssh) == copying(
                ssh_address(r.full_name),
                "Copied SSH clone URL"@,
            )
            &&& effects_of(id, "copy-gh"@, title, ssh) == copying(
                "gh repo clone "@ + r.full_name,
                "Copied gh clone command"@,
            )
        }),
{
    lemma_without_prefix("repo:"@, r.full_name);
    reveal_strlit("open");
    reveal_strlit("open-issues");
    reveal_strlit("open-prs");
    reveal_strlit("open-releases");
    reveal_strlit("open-actions");
    reveal_strlit("copy-url");
    reveal_strlit("copy-clone");
    reveal_strlit("copy-ssh");
    reveal_strlit("copy-gh");
    assert("open"@.len() == 4 && "copy-url"@.len() == 8 && "copy-clone"@.len() == 10);
    assert("open-issues"@.len() == 11 && "open-prs"@.len() == 8 && "open-releases"@.len() == 13
        && "open-actions"@.len() == 12 && "copy-ssh"@.len() == 8 && "copy-gh"@.len() == 7);
    assert("open-prs"@[0] == 'o' && "copy-url"@[5] == 'u' && "copy-ssh"@[5] == 's');
    assert("copy-url"@[0] == 'c' && "copy-ssh"@[0] == 'c');
}

/// The row of an issue or a pull request leads to its page and gives its number,
/// whatever title comes with it, and gives that title. The name of a repository
/// holds no `#`.
pub proof fn law_issue_row_leads_to_page(
    i: IssueModel,
    relevance: Relevance,
    title: Seq<char>,
    ssh: bool,
)
    requires
        !i.repo.contains('#'),
    ensures
        ({
            let row = issue_row(i, relevance);
            let page = repo_page(i.repo) + "/"@ + (if i.is_pr {
                "pull"@
            } else {
                "issues"@
            }) + "/"@ + decimal(i.number as nat);
            &&& row.title == i.title
            &&& effects_of(row.id, "open"@, title, ssh) == opening(page)
            &&& effects_of(row.id, "copy-url"@, title, ssh) == copying(page, "Copied URL"@)
            &&& effects_of(row.id, "copy-number"@, title, ssh) == copying(
                "#"@ + decimal(i.number as nat),
                "Copied number"@,
            )
            &&& effects_of(row.id, "copy-title"@, title, ssh) == copying(title, "Copied title"@)
            &&& effects_of(row.id, "copy-md"@, title, ssh) == copying(
                "["@ + title + "]("@ + page + ")"@,
                "Copied Markdown link"@,
            )
        }),
{
    lemma_row_prefixes();
    reveal_strlit("#");
    let prefix = if i.is_pr {
        "pr:"@
    } else {
        "issue:"@
    };
    let rest = numbered(i.repo, i.number);
    let number = decimal(i.number as nat);
    let id = prefix + rest;
    assert(id[0] == prefix[0]);
    lemma_without_prefix(prefix, rest);
    lemma_other_prefix(id, "repo:"@);
    if !i.is_pr {
        lemma_other_prefix(id, "pr:"@);
    }
    assert(rest =~= i.repo.push('#') + number);
    lemma_cut_at_char(i.repo, '#', number);
    reveal_strlit("open");
    reveal_strlit("copy-url");
    reveal_strlit("copy-number");
    reveal_strlit("copy-title");
    reveal_strlit("copy-md");
    assert("open"@.len() == 4 && "copy-url"@.len() == 8 && "copy-number"@.len() == 11
        && "copy-title"@.len() == 10 && "copy-md"@.len() == 7);
}

/// The row of a user leads to the profile, and that of a file to the file.
pub proof fn law_user_and_code_rows_lead_to_page(
    login: Seq<char>,
    kind: Seq<char>,
    c: CodeItem,
    relevance: Relevance,
    title: Seq<char>,
    ssh: bool,
)
    ensures
        effects_of(user_row(login, kind, relevance).id, "open"@, title, ssh) == opening(
            repo_page(login),
        ),
        effects_of(user_row(login, kind, relevance).id, "copy-url"@, title, ssh) == copying(
            repo_page(login),
            "Copied profile URL"@,
        ),
        effects_of(code_row(c, relevance).id, "open"@, title, ssh) == opening(c.html_url@),
        effects_of(code_row(c, relevance).id, "copy-url"@, title, ssh) == copying(
            c.html_url@,
            "Copied URL"@,
        ),
{
    lemma_row_prefixes();
    let user = "user:"@ + login;
    let code = "code:"@ + c.html_url@;
    assert(user[0] == 'u' && code[0] == 'c');
    lemma_without_prefix("user:"@, login);
    lemma_without_prefix("code:"@, c.html_url@);
    lemma_other_prefix(user, "repo:"@);
    lemma_other_prefix(user, "pr:"@);
    lemma_other_prefix(user, "issue:"@);
    lemma_other_prefix(code, "repo:"@);
    lemma_other_prefix(code, "pr:"@);
    lemma_other_prefix(code, "issue:"@);
    lemma_other_prefix(code, "user:"@);
    reveal_strlit("open");
    reveal_strlit("copy-url");
    assert("open"@.len() == 4 && "copy-url"@.len() == 8);
}

/// The row of a notification leads to the page that was worked out for it, or to
/// the inbox. An address holds no `|`.
pub proof fn law_notif_row_leads_to_page(
    n: NotifModel,
    relevance: Relevance,
    now_ms: Option<u64>,
    title: Seq<char>,
    ssh: bool,
)
    requires
        !n.html_url.contains('|'),
    ensures
        effects_of(notif_row(n, relevance, now_ms).id, "open"@, title, ssh) == opening(n.html_url),
        effects_of(notif_row(n, relevance, now_ms).id, "copy-url"@, title, ssh) == copying(
            n.html_url,
            "Copied URL"@,
        ),
        effects_of(notif_row(n, relevance, now_ms).id, "open-inbox"@, title, ssh) == opening(
            "https://github.com/notifications"@,
        ),
{
    lemma_row_prefixes();
    reveal_strlit("|");
    let id = notif_row(n, relevance, now_ms).id;
    let tail = n.kind + "|"@ + n.reason + "|"@ + n.repo;
    let rest = n.html_url.push('|') + tail;
    assert(id =~= "notif|"@ + rest);
    assert(id[0] == 'n');
    lemma_without_prefix("notif|"@, rest);
    lemma_other_prefix(id, "repo:"@);
    lemma_other_prefix(id, "pr:"@);
    lemma_other_prefix(id, "issue:"@);
    lemma_other_prefix(id, "user:"@);
    lemma_other_prefix(id, "code:"@);
    lemma_pieces_more(n.html_url, '|', tail);
    assert(pieces(rest, '|')[0] == n.html_url);
    reveal_strlit("open");
    reveal_strlit("open-inbox");
    reveal_strlit("copy-url");
    assert("open"@.len() == 4 && "copy-url"@.len() == 8 && "open-inbox"@.len() == 10);
}

proof fn lemma_status_id(id: Seq<char>)
    requires
        id.len() > 0,
        id[0] == 'g',
    ensures
        without_prefix(id, "repo:"@) is None,
        without_prefix(id, "pr:"@) is None,
        without_prefix(id, "issue:"@) is None,
        without_prefix(id, "user:"@) is None,
        without_prefix(id, "code:"@) is None,
        without_prefix(id, "notif|"@) is None,
{
    lemma_row_prefixes();
    lemma_other_prefix(id, "repo:"@);
    lemma_other_prefix(id, "pr:"@);
    lemma_other_prefix(id, "issue:"@);
    lemma_other_prefix(id, "user:"@);
    lemma_other_prefix(id, "code:"@);
    lemma_other_prefix(id, "notif|"@);
}

/// The rows that ask for a token lead to where one is made, whatever the action;
/// the row of an empty dashboard leads nowhere.
pub proof fn law_status_rows_lead_to_settings(
    cmd: Seq<char>,
    has_token: bool,
    label: Seq<char>,
    action: Seq<char>,
    title: Seq<char>,
    ssh: bool,
)
    ensures
        effects_of(notoken_row(cmd).id, action, title, ssh) == opening(
            "https://github.com/settings/tokens"@,
        ),
        effects_of(rate_limit_row(has_token).id, action, title, ssh) == opening(
            "https://github.com/settings/tokens"@,
        ),
        effects_of(empty(label).id, action, title, ssh) == Seq::<EffectModel>::empty(),
{
    lemma_row_prefixes();
    lemma_status_id("gh:notoken"@);
    lemma_status_id("gh:ratelimit"@);
    lemma_status_id("gh:empty"@);
    assert("gh:empty"@ != "gh:ratelimit"@ && "gh:empty"@ != "gh:notoken"@);
}

/// The row of a search that is not done yet leads to the same search on the
/// site. The modes hold no colon; a term may.
pub proof fn law_searching_row_leads_to_search(
    term: Seq<char>,
    mode: Seq<char>,
    action: Seq<char>,
    title: Seq<char>,
    ssh: bool,
)
    requires
        !mode.contains(':'),
    ensures
        effects_of(searching(term, mode).id, action, title, ssh) == opening(site_search(mode, term)),
{
    lemma_row_prefixes();
    reveal_strlit(":");
    let id = searching(term, mode).id;
    let rest = mode.push(':') + term;
    assert(id =~= "gh:searching:"@ + rest);
    assert(id[0] == 'g' && id[3] == 's');
    lemma_status_id(id);
    lemma_without_prefix("gh:searching:"@, rest);
    lemma_cut_at_char(mode, ':', term);
}

/// Activating a result only ever opens pages, copies texts and shows toasts: it
/// changes nothing on GitHub.
pub proof fn law_results_change_nothing(
    id: Seq<char>,
    action: Seq<char>,
    title: Seq<char>,
    ssh: bool,
)
    ensures
        forall|k: int|
            0 <= k < effects_of(id, action, title, ssh).len() ==> match #[trigger] effects_of(
                id,
                action,
                title,
                ssh,
            )[k] {
                EffectModel::OpenUrl { .. } => true,
                EffectModel::CopyText { .. } => true,
                EffectModel::ShowToast { .. } => true,
                _ => false,
            },
{
}

/// An issue is posted only where a form was sent: by the action "create-issue",
/// on a repository or from the command for a new issue; and never without a
/// token.
pub proof fn law_posts_only_on_submit(
    cmd: Seq<char>,
    id: Seq<char>,
    title: Seq<char>,
    action: Option<Seq<char>>,
    values: Option<Json>,
    has_token: bool,
    ssh: bool,
)
    requires
        step_of(cmd, id, title, action, values, has_token, ssh) is Post,
    ensures
        has_token,
        action == Some("create-issue"@),
        cmd == "new-issue"@ || has_prefix(id, "repo:"@),
{
    reveal_strlit("open");
    reveal_strlit("create-issue");
    assert("open"@.len() != "create-issue"@.len());
}

/// A form is sent just where it names a repository with a slash and there is a
/// token: then what is posted is an issue with the texts of the fields "title"
/// and "body", to the repository that was given or else chosen. Otherwise an
/// error is shown, and nothing is posted.
pub proof fn law_form_is_posted_as_filled_in(
    full: Option<Seq<char>>,
    values: Option<Json>,
    has_token: bool,
)
    ensures
        ({
            let repo = trimmed(
                match full {
                    Some(f) => f,
                    None => field_text(values, "repo"@),
                },
            );
            match create_step(full, values, has_token) {
                StepModel::Post { path, payload } => {
                    &&& has_token
                    &&& repo.contains('/')
                    &&& path == "/repos/"@ + repo + "/issues"@
                    &&& payload == issue_json(
                        field_text(values, "title"@),
                        field_text(values, "body"@),
                    )
                },
                StepModel::Effects(effects) => {
                    &&& !has_token || !repo.contains('/')
                    &&& effects.len() == 1
                    &&& effects[0] matches EffectModel::ShowToast { level, .. } && level
                        == ToastLevel::Error
                },
                StepModel::OfferRepos(_) => false,
            }
        }),
{
}

/// The fields of the form are those that a post is read from: a title that is
/// asked for, a text, and the repository where none is given.
pub proof fn law_form_asks_for_what_is_posted(full: Option<Seq<char>>, repos: Seq<RepoModel>)
    ensures
        issue_form(full, true, repos).len() == 1,
        issue_form(full, true, repos)[0] matches EffectModel::ShowForm {
            fields,
            submit_action,
            ..
        } && submit_action == "create-issue"@ && ({
            let n = fields.len();
            &&& n == (if full is None {
                3int
            } else {
                2
            })
            &&& fields[n - 2].id == "title"@ && fields[n - 2].required
            &&& fields[n - 1].id == "body"@ && !fields[n - 1].required
            &&& full is None ==> fields[0].id == "repo"@ && fields[0].required
                && fields[0].options.len() == repos.len() && (forall|i: int|
                0 <= i < repos.len() ==> (#[trigger] fields[0].options[i]).value
                    == repos[i].full_name && fields[0].options[i].label == repos[i].full_name)
        }),
{
}

/// The form is shown, and sent, for the repository that it was asked for on; the
/// command for a new issue asks for one. Without a token it is not shown.
pub proof fn law_form_is_for_its_repository(
    cmd: Seq<char>,
    full: Seq<char>,
    title: Seq<char>,
    values: Option<Json>,
    has_token: bool,
    ssh: bool,
)
    requires
        cmd != "new-issue"@,
    ensures
        ({
            let id = "repo:"@ + full;
            &&& step_of(cmd, id, title, Some("new-issue"@), values, true, ssh)
                == StepModel::Effects(issue_form(Some(full), true, seq![]))
            &&& step_of(cmd, id, title, Some("create-issue"@), values, has_token, ssh)
                == create_step(Some(full), values, has_token)
            &&& step_of("new-issue"@, id, title, None, values, true, ssh) == StepModel::OfferRepos(
                "/user/repos?sort=pushed"@ + "&per_page=100"@,
            )
            &&& step_of("new-issue"@, id, title, Some("create-issue"@), values, has_token, ssh)
                == create_step(None, values, has_token)
            &&& step_of(cmd, id, title, Some("new-issue"@), values, false, ssh) matches
                StepModel::Effects(effects) && effects.len() == 1 && (
            effects[0] matches EffectModel::ShowToast { level, .. } && level == ToastLevel::Error)
        }),
{
    reveal_strlit("repo:");
    reveal_strlit("open");
    reveal_strlit("new-issue");
    reveal_strlit("create-issue");
    reveal_strlit("/user/repos?sort=pushed");
    reveal_strlit("&per_page=100");
    reveal_strlit("/user/repos?sort=pushed&per_page=100");
    assert("/user/repos?sort=pushed"@ + "&per_page=100"@
        =~= "/user/repos?sort=pushed&per_page=100"@);
    lemma_without_prefix("repo:"@, full);
    assert("open"@.len() == 4 && "new-issue"@.len() == 9 && "create-issue"@.len() == 12);
}

/// An issue that was created is said to be, and its page is opened where the
/// answer names it; any other answer is an error that tells the status.
pub proof fn law_created_issue_is_opened(status: u16, url: Seq<char>)
    ensures
        created_effects(201, Some(url)).len() == 2,
        created_effects(201, Some(url))[1] == (EffectModel::OpenUrl { url }),
        created_effects(201, None).len() == 1,
        created_effects(201, None)[0] matches EffectModel::ShowToast { level, .. } && level
            == ToastLevel::Success,
        created_effects(201, Some(url))[0] == created_effects(201, None)[0],
        status != 201 ==> created_effects(status, Some(url)).len() == 1 && (created_effects(
            status,
            Some(url),
        )[0] matches EffectModel::ShowToast { message, level } && level == ToastLevel::Error
            && message == "GitHub refused the issue ("@ + decimal(status as nat) + ")"@),
{
}

/// The form offers the user's own repositories where they came, and else those
/// that are kept; what came goes before those that are kept.
pub proof fn law_form_offers_own_repositories(
    items: Vec<RepoItem>,
    kept: Seq<RepoModel>,
    status: u16,
    error: String,
)
    requires
        status != 200,
    ensures
        offered_repos(Reply::Answered { status: 200, value: Ok(items) }, kept)
            == items.deep_view(),
        own_repos_outcome(Reply::Answered { status: 200, value: Ok(items) }, kept).keep
            == KeptModel::Repos(merged_repos(items.deep_view(), kept)),
        offered_repos(Reply::Failed(error), kept) == kept,
        offered_repos(Reply::Answered { status, value: Ok(items) }, kept) == kept,
        own_repos_outcome(Reply::Failed(error), kept).keep == KeptModel::Nothing,
        own_repos_outcome(Reply::Answered { status, value: Ok(items) }, kept).keep
            == KeptModel::Nothing,
        own_repos_outcome(Reply::Failed(error), kept).log.len() == 1,
{
}

/// The menus offer what is done: each begins with what opens the page, and names
/// the actions in order.
pub proof fn law_menus_offer_what_is_done(is_pr: bool)
    ensures
        ids(repo_menu()) == seq![
            "open"@,
            "open-issues"@,
            "open-prs"@,
            "open-releases"@,
            "open-actions"@,
            "new-issue"@,
            "copy-clone"@,
            "copy-ssh"@,
            "copy-gh"@,
            "copy-url"@,
        ],
        ids(issue_menu(is_pr)) == seq![
            "open"@,
            "copy-url"@,
            "copy-number"@,
            "copy-title"@,
            "copy-md"@,
        ],
        ids(user_menu()) == seq!["open"@, "copy-url"@],
        ids(notif_menu()) == seq!["open"@, "open-inbox"@, "copy-url"@],
{
    assert(ids(repo_menu()) =~= seq![
        "open"@,
        "open-issues"@,
        "open-prs"@,
        "open-releases"@,
        "open-actions"@,
        "new-issue"@,
        "copy-clone"@,
        "copy-ssh"@,
        "copy-gh"@,
        "copy-url"@,
    ]);
}

/// What the actions of a menu are called by.
pub open spec fn ids(menu: Seq<ActionModel>) -> Seq<Seq<char>> {
    Seq::new(menu.len(), |i: int| menu[i].id)
}

/// A search on the site looks for the term, in the kind of things that the mode
/// names, or in all where it names none.
pub proof fn law_site_search_looks_for_the_term(term: Seq<char>, mode: Seq<char>)
    ensures
        site_search("issue"@, term) == site_search("repo"@, term) + "&type=issues"@,
        site_search("pr"@, term) == site_search("repo"@, term) + "&type=pullrequests"@,
        site_search("code"@, term) == site_search("repo"@, term) + "&type=code"@,
        site_search("user"@, term) == site_search("repo"@, term) + "&type=users"@,
        site_search("repo"@, term) == "https://github.com/search?q="@ + urlencoded(term),
{
    reveal_strlit("issue");
    reveal_strlit("pr");
    reveal_strlit("code");
    reveal_strlit("user");
    reveal_strlit("repo");
    reveal_strlit("");
    assert("issue"@.len() == 5 && "pr"@.len() == 2 && "code"@[0] == 'c' && "user"@[0] == 'u'
        && "repo"@[0] == 'r');
    assert("code"@.len() == 4 && "user"@.len() == 4 && "repo"@.len() == 4);
    let plain = "https://github.com/search?q="@ + urlencoded(term);
    assert(plain + ""@ =~= plain);
}

/// What an action is called and what it is called by.
pub open spec fn entries(menu: Seq<ActionModel>) -> Seq<(Seq<char>, Seq<char>)> {
    Seq::new(menu.len(), |i: int| (menu[i].id, menu[i].label))
}

/// The labels of the menus name what their actions do; only the one for a new
/// issue opens a form.
pub proof fn law_labels_name_the_actions(is_pr: bool, i: int)
    ensures
        entries(repo_menu()) == seq![
            ("open"@, "Open on GitHub"@),
            ("open-issues"@, "Open Issues"@),
            ("open-prs"@, "Open Pull Requests"@),
            ("open-releases"@, "Open Releases"@),
            ("open-actions"@, "Open Actions"@),
            ("new-issue"@, "New Issue\u{2026}"@),
            ("copy-clone"@, "Copy clone URL"@),
            ("copy-ssh"@, "Copy SSH clone URL"@),
            ("copy-gh"@, "Copy gh clone command"@),
            ("copy-url"@, "Copy repo URL"@),
        ],
        0 <= i < repo_menu().len() ==> (repo_menu()[i].opens_form <==> i == 5),
        entries(issue_menu(is_pr)) == seq![
            ("open"@, "Open on GitHub"@),
            ("copy-url"@, "Copy URL"@),
            (
                "copy-number"@,
                "Copy "@ + (if is_pr {
                    "PR"@
                } else {
                    "issue"@
                }) + " number"@,
            ),
            ("copy-title"@, "Copy title"@),
            ("copy-md"@, "Copy Markdown link"@),
        ],
        entries(user_menu()) == seq![
            ("open"@, "Open profile"@),
            ("copy-url"@, "Copy profile URL"@),
        ],
        entries(notif_menu()) == seq![
            ("open"@, "Open on GitHub"@),
            ("open-inbox"@, "Open notification inbox"@),
            ("copy-url"@, "Copy URL"@),
        ],
{
    assert(entries(repo_menu()) =~= seq![
        ("open"@, "Open on GitHub"@),
        ("open-issues"@, "Open Issues"@),
        ("open-prs"@, "Open Pull Requests"@),
        ("open-releases"@, "Open Releases"@),
        ("open-actions"@, "Open Actions"@),
        ("new-issue"@, "New Issue\u{2026}"@),
        ("copy-clone"@, "Copy clone URL"@),
        ("copy-ssh"@, "Copy SSH clone URL"@),
        ("copy-gh"@, "Copy gh clone command"@),
        ("copy-url"@, "Copy repo URL"@),
    ]);
    assert(entries(issue_menu(is_pr)) =~= seq![
        ("open"@, "Open on GitHub"@),
        ("copy-url"@, "Copy URL"@),
        (
            "copy-number"@,
            "Copy "@ + (if is_pr {
                "PR"@
            } else {
                "issue"@
            }) + " number"@,
        ),
        ("copy-title"@, "Copy title"@),
        ("copy-md"@, "Copy Markdown link"@),
    ]);
}

/// The rows that say what is wrong say what helps: a token, where there is none;
/// and the row of a search under way names its term.
pub proof fn law_status_rows_say_what_helps(term: Seq<char>, mode: Seq<char>)
    ensures
        rate_limit_row(false).subtitle == Some(
            "add a GitHub token in extension settings for higher limits"@,
        ),
        rate_limit_row(true).subtitle == Some("rate limit exhausted - try again in a minute"@),
        notoken_row(term).title == "GitHub token required"@,
        empty(term).title == term,
        searching(term, mode).title == "Search GitHub for \u{201c}"@ + term + "\u{201d}"@,
{
}

/// What the fields of the form for an issue are called and take: a title, which is
/// owed, a longer text, which is not, and a repository, which is owed.
pub proof fn law_form_names_its_fields(repos: Seq<RepoModel>)
    ensures
        ({
            let fields = issue_fields();
            &&& fields.len() == 2
            &&& fields[0].id == "title"@ && fields[0].label == "Title"@
            &&& fields[0].kind == "text"@ && fields[0].required
            &&& fields[0].placeholder == Some("Short summary"@)
            &&& fields[1].id == "body"@ && fields[1].label == "Body"@
            &&& fields[1].kind == "textarea"@ && !fields[1].required
            &&& fields[1].placeholder == Some("Describe the issue (Markdown)\u{2026}"@)
        }),
        ({
            let field = repo_field(repos);
            &&& field.id == "repo"@ && field.label == "Repository"@ && field.required
            &&& repos.len() == 0 ==> field.kind == "text"@ && field.placeholder == Some(
                "owner/repo"@,
            )
            &&& repos.len() > 0 ==> field.kind == "select"@ && field.options.len() == repos.len()
        }),
{
}

/// The form for an issue is sent as one that creates it, under the label that says
/// so.
pub proof fn law_form_says_what_it_sends(full: Option<Seq<char>>, repos: Seq<RepoModel>)
    ensures
        ({
            let shown = issue_form(full, true, repos);
            &&& shown.len() == 1
            &&& shown[0] matches EffectModel::ShowForm {
                title,
                fields,
                submit_action,
                submit_label,
            } && submit_action == "create-issue"@ && submit_label == Some("Create issue"@)
        }),
{
}

} // verus!
