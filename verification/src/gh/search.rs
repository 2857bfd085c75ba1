//! The instant tier: rows from what is kept, without the network.
use vstd::prelude::*;
use vstd::string::*;

use crate::gh::api::{
    law_merge_keeps_fresh_first, merged_repos, once_each, CachedIssue, CachedNotif, CachedRepo,
    IssueModel, Kept, KeptModel, NotifModel, RepoModel, Source,
};
use crate::gh::render::{
    issue_result, issue_row, notif_result, notif_row, notoken_result, notoken_row, repo_result,
    repo_row, searching, searching_row, starred_result, starred_row,
};
use crate::host::{law_ranked_descending, ExtensionResult, Relevance, ResultModel};
use crate::text::{
    at_most, char_index, contains, has_char, has_prefix, holds, join, joined,
    law_found_where_it_stands, law_words_stand_apart, lemma_char_index, lemma_holds, lemma_pieces_more, lemma_pieces_one, lowercase, pieces,
    same, split, split_whitespace, starts_with, to_chars, to_lowercase, trim, trimmed, white,
    word_list,
};

verus! {

/// How many rows a dashboard shows.
pub const DASHBOARD_CAP: usize = 40;

/// The score of a row of a batch, so that the order of the batch is kept.
pub fn ranked(i: usize, n: usize, top: u32, span: u32) -> (r: Relevance)
    ensures
        r == (Relevance::Ranked { index: i, count: n, top, span }),
{
    Relevance::Ranked { index: i, count: n, top, span }
}

/// Whether a needle occurs in one of two texts, all in lower case.
pub open spec fn in_either(needle: Seq<char>, a: Seq<char>, b: Seq<char>) -> bool {
    holds(a, needle) || holds(b, needle)
}

/// Whether a needle occurs in one of two texts, all in lower case.
pub fn matches_lowered(needle: &str, a: &str, b: &str) -> (r: bool)
    ensures
        r == in_either(needle@, a@, b@),
{
    contains(a, needle) || contains(b, needle)
}

/// Whether a term, in whatever case, occurs in one of two texts. A blank term
/// occurs in all.
pub open spec fn matching(term: Seq<char>, a: Seq<char>, b: Seq<char>) -> bool {
    term.len() == 0 || in_either(lowercase(term), lowercase(a), lowercase(b))
}

/// Whether a term, in whatever case, occurs in one of two texts.
pub fn matches(term: &str, a: &str, b: &str) -> (r: bool)
    ensures
        r == matching(term@, a@, b@),
{
    if term.is_empty() {
        return true;
    }
    let needle = to_lowercase(term);
    let a = to_lowercase(a);
    let b = to_lowercase(b);
    matches_lowered(needle.as_str(), a.as_str(), b.as_str())
}

// ---------------------------------------------------------------------------
// Commands
// ---------------------------------------------------------------------------

/// Whether a command needs a token: it shows private data, or code.
pub open spec fn token_gated(cmd: Seq<char>) -> bool {
    ||| cmd == "code"@
    ||| cmd == "my-prs"@
    ||| cmd == "my-issues"@
    ||| cmd == "my-repos"@
    ||| cmd == "starred"@
    ||| cmd == "notifications"@
}

/// Whether a command needs a token.
pub fn is_token_gated(cmd: &str) -> (r: bool)
    ensures
        r == token_gated(cmd@),
{
    same(cmd, "code") || same(cmd, "my-prs") || same(cmd, "my-issues") || same(cmd, "my-repos")
        || same(cmd, "starred") || same(cmd, "notifications")
}

/// What a command is called.
pub open spec fn title_of(cmd: Seq<char>) -> Seq<char> {
    if cmd == "code"@ {
        "Search Code"@
    } else if cmd == "my-prs"@ {
        "My Pull Requests"@
    } else if cmd == "my-issues"@ {
        "My Issues"@
    } else if cmd == "my-repos"@ {
        "My Repositories"@
    } else if cmd == "starred"@ {
        "Starred Repositories"@
    } else if cmd == "notifications"@ {
        "Notifications"@
    } else {
        cmd
    }
}

/// What a command is called.
pub fn command_title(cmd: &str) -> (r: String)
    ensures
        r@ == title_of(cmd@),
{
    let title = if same(cmd, "code") {
        "Search Code"
    } else if same(cmd, "my-prs") {
        "My Pull Requests"
    } else if same(cmd, "my-issues") {
        "My Issues"
    } else if same(cmd, "my-repos") {
        "My Repositories"
    } else if same(cmd, "starred") {
        "Starred Repositories"
    } else if same(cmd, "notifications") {
        "Notifications"
    } else {
        cmd
    };
    title.to_owned()
}

// ---------------------------------------------------------------------------
// The repositories that a term finds
// ---------------------------------------------------------------------------

/// The words that hold no colon: what is left of a term without qualifiers.
pub open spec fn plain_words(words: Seq<Seq<char>>) -> Seq<Seq<char>>
    decreases words.len(),
{
    if words.len() == 0 {
        seq![]
    } else if words.last().contains(':') {
        plain_words(words.drop_last())
    } else {
        plain_words(words.drop_last()).push(words.last())
    }
}

/// The words of a text without its qualifiers.
pub open spec fn unqualified(text: Seq<char>) -> Seq<char> {
    joined(plain_words(word_list(text)), " "@)
}

/// What is looked for: the lowercase words of a term without its qualifiers.
pub open spec fn needle_of(term: Seq<char>) -> Seq<char> {
    unqualified(lowercase(term))
}

/// The words of a text without its qualifiers.
pub fn without_qualifiers(text: &str) -> (r: String)
    ensures
        r@ == unqualified(text@),
{
    let words = split_whitespace(text);
    let ghost all = words.deep_view();
    let mut kept: Vec<String> = Vec::new();
    let mut i: usize = 0;
    assert(all.take(0) =~= Seq::<Seq<char>>::empty());
    assert(kept.deep_view() =~= plain_words(all.take(0)));
    while i < words.len()
        invariant
            i <= words.len(),
            all == words.deep_view(),
            kept.deep_view() == plain_words(all.take(i as int)),
        decreases words.len() - i,
    {
        let ghost before = kept.deep_view();
        assert(all.take(i + 1).drop_last() =~= all.take(i as int));
        assert(all.take(i + 1).last() == words[i as int]@);
        let chars = to_chars(words[i].as_str());
        if !has_char(chars.as_slice(), ':') {
            kept.push(words[i].clone());
            assert(kept.deep_view() =~= before.push(all[i as int]));
        }
        i = i + 1;
    }
    assert(all.take(i as int) =~= all);
    join(&kept, " ")
}

/// How well a name and a description, in lower case, fit: the name, or the part
/// behind the slash, starts with the needle; or holds it; or the description
/// does.
pub open spec fn fit(name: Seq<char>, description: Option<Seq<char>>, needle: Seq<char>) -> Option<
    u32,
> {
    let p = pieces(name, '/');
    if has_prefix(name, needle) || (p.len() >= 2 && has_prefix(p[1], needle)) {
        Some(90)
    } else if holds(name, needle) {
        Some(70)
    } else if description matches Some(d) && holds(d, needle) {
        Some(40)
    } else {
        None
    }
}

/// How well a name and a description, in lower case, fit.
pub fn score_lowered(name: &str, description: &Option<String>, needle: &str) -> (s: Option<u32>)
    ensures
        s == fit(name@, description.deep_view(), needle@),
{
    if starts_with(name, needle) {
        return Some(90);
    }
    let p = split(name, '/');
    assert(p.deep_view().len() == p.len());
    if p.len() >= 2 {
        assert(p.deep_view()[1] == p[1]@);
        if starts_with(p[1].as_str(), needle) {
            return Some(90);
        }
    }
    if contains(name, needle) {
        return Some(70);
    }
    match description {
        Some(d) => if contains(d.as_str(), needle) {
            Some(40)
        } else {
            None
        },
        None => None,
    }
}

/// How well a repository fits, whatever the case of its name and description.
pub open spec fn repo_score(r: RepoModel, needle: Seq<char>) -> Option<u32> {
    fit(
        lowercase(r.full_name),
        match r.description {
            Some(d) => Some(lowercase(d)),
            None => None,
        },
        needle,
    )
}

fn score(r: &CachedRepo, needle: &str) -> (s: Option<u32>)
    ensures
        s == repo_score(r.deep_view(), needle@),
{
    let name = to_lowercase(r.full_name.as_str());
    let description = match &r.description {
        Some(d) => Some(to_lowercase(d.as_str())),
        None => None,
    };
    score_lowered(name.as_str(), &description, needle)
}

/// How well each of the repositories fits.
pub open spec fn repo_scores(rows: Seq<RepoModel>, needle: Seq<char>) -> Seq<Option<u32>> {
    Seq::new(rows.len(), |i: int| repo_score(rows[i], needle))
}

/// The rows of the repositories with a given score, in their order.
pub open spec fn scored_rows(rows: Seq<RepoModel>, scores: Seq<Option<u32>>, score: u32) -> Seq<
    ResultModel,
>
    decreases rows.len(),
{
    if rows.len() == 0 {
        seq![]
    } else {
        let head = scored_rows(rows.drop_last(), scores, score);
        if scores[rows.len() - 1] == Some(score) {
            head.push(repo_row(rows.last(), Relevance::Fixed(score), "cached"@))
        } else {
            head
        }
    }
}

/// The rows of the repositories that have a score, best first.
pub open spec fn best_first(rows: Seq<RepoModel>, scores: Seq<Option<u32>>) -> Seq<ResultModel> {
    scored_rows(rows, scores, 90) + scored_rows(rows, scores, 70) + scored_rows(rows, scores, 40)
}

/// The rows that a needle finds, best first.
pub open spec fn repo_hits(rows: Seq<RepoModel>, needle: Seq<char>) -> Seq<ResultModel> {
    best_first(rows, repo_scores(rows, needle))
}

/// What is shown of the repositories that have a score, or the row that leads to
/// the live search where none has one.
pub open spec fn shown_hits(term: Seq<char>, hits: Seq<ResultModel>) -> Seq<ResultModel> {
    if hits.len() == 0 {
        seq![searching(term, "repo"@)]
    } else {
        at_most(hits, 20)
    }
}

/// The rows of a search for repositories: what the term finds among those that
/// are kept, or the row that leads to the live search.
pub open spec fn repo_search_rows(term: Seq<char>, rows: Seq<RepoModel>) -> Seq<ResultModel> {
    let needle = needle_of(term);
    if needle.len() == 0 {
        seq![searching(term, "repo"@)]
    } else {
        shown_hits(term, repo_hits(rows, needle))
    }
}

fn push_scored(
    out: &mut Vec<ExtensionResult>,
    rows: &Vec<CachedRepo>,
    scores: &Vec<Option<u32>>,
    wanted: u32,
)
    requires
        rows.len() == scores.len(),
    ensures
        final(out).deep_view() == old(out).deep_view() + scored_rows(
            rows.deep_view(),
            scores@,
            wanted,
        ),
{
    let ghost all = rows.deep_view();
    let ghost start = out.deep_view();
    let mut i: usize = 0;
    assert(all.take(0) =~= Seq::<RepoModel>::empty());
    assert(start + scored_rows(all.take(0), scores@, wanted) =~= start);
    while i < rows.len()
        invariant
            i <= rows.len(),
            rows.len() == scores.len(),
            all == rows.deep_view(),
            out.deep_view() == start + scored_rows(all.take(i as int), scores@, wanted),
        decreases rows.len() - i,
    {
        let ghost before = out.deep_view();
        assert(all.take(i + 1).drop_last() =~= all.take(i as int));
        assert(all.take(i + 1).last() == rows[i as int].deep_view());
        let hit = match scores[i] {
            Some(s) => s == wanted,
            None => false,
        };
        if hit {
            out.push(repo_result(&rows[i], Relevance::Fixed(wanted), "cached"));
            assert(out.deep_view() =~= before.push(
                repo_row(all[i as int], Relevance::Fixed(wanted), "cached"@),
            ));
        }
        assert(out.deep_view() =~= start + scored_rows(all.take(i + 1), scores@, wanted));
        i = i + 1;
    }
    assert(all.take(i as int) =~= all);
}

/// The rows of a search for repositories whose scores are known.
pub fn search_scored(term: &str, cache: &Vec<CachedRepo>, scores: &Vec<Option<u32>>) -> (r: Vec<
    ExtensionResult,
>)
    requires
        cache.len() == scores.len(),
    ensures
        r.deep_view() == shown_hits(term@, best_first(cache.deep_view(), scores@)),
{
    let mut out: Vec<ExtensionResult> = Vec::new();
    push_scored(&mut out, cache, scores, 90);
    push_scored(&mut out, cache, scores, 70);
    push_scored(&mut out, cache, scores, 40);
    let ghost hits = out.deep_view();
    assert(hits =~= best_first(cache.deep_view(), scores@));
    if out.len() == 0 {
        return one_row(searching_row(term, "repo"));
    }
    if out.len() > 20 {
        out.truncate(20);
    }
    assert(out.deep_view() =~= at_most(hits, 20));
    out
}

/// The rows of a search for repositories.
pub fn search_repos_cache(term: &str, cache: &Vec<CachedRepo>) -> (r: Vec<ExtensionResult>)
    ensures
        r.deep_view() == repo_search_rows(term@, cache.deep_view()),
{
    let lower = to_lowercase(term);
    let needle = without_qualifiers(lower.as_str());
    if needle.as_str().is_empty() {
        return one_row(searching_row(term, "repo"));
    }
    let ghost all = repo_scores(cache.deep_view(), needle@);
    let mut scores: Vec<Option<u32>> = Vec::new();
    let mut i: usize = 0;
    while i < cache.len()
        invariant
            i <= cache.len(),
            all == repo_scores(cache.deep_view(), needle@),
            scores@ == all.take(i as int),
        decreases cache.len() - i,
    {
        let s = score(&cache[i], needle.as_str());
        assert(s == all[i as int]);
        scores.push(s);
        assert(all.take(i + 1) =~= all.take(i as int).push(s));
        i = i + 1;
    }
    assert(all.take(i as int) =~= all);
    search_scored(term, cache, &scores)
}

// ---------------------------------------------------------------------------
// Dashboards
// ---------------------------------------------------------------------------

/// The text, or none.
pub open spec fn or_blank(s: Option<Seq<char>>) -> Seq<char> {
    match s {
        Some(t) => t,
        None => ""@,
    }
}

/// The repositories that a term matches.
pub open spec fn matching_repos(rows: Seq<RepoModel>, term: Seq<char>) -> Seq<RepoModel>
    decreases rows.len(),
{
    if rows.len() == 0 {
        seq![]
    } else {
        let head = matching_repos(rows.drop_last(), term);
        if matching(term, rows.last().full_name, or_blank(rows.last().description)) {
            head.push(rows.last())
        } else {
            head
        }
    }
}

/// The issues and pull requests that a term matches.
pub open spec fn matching_issues(rows: Seq<IssueModel>, term: Seq<char>) -> Seq<IssueModel>
    decreases rows.len(),
{
    if rows.len() == 0 {
        seq![]
    } else {
        let head = matching_issues(rows.drop_last(), term);
        if matching(term, rows.last().title, rows.last().repo) {
            head.push(rows.last())
        } else {
            head
        }
    }
}

/// The notifications that a term matches.
pub open spec fn matching_notifs(rows: Seq<NotifModel>, term: Seq<char>) -> Seq<NotifModel>
    decreases rows.len(),
{
    if rows.len() == 0 {
        seq![]
    } else {
        let head = matching_notifs(rows.drop_last(), term);
        if matching(term, rows.last().title, rows.last().repo) {
            head.push(rows.last())
        } else {
            head
        }
    }
}

/// The score of the `i`-th row of a dashboard.
pub open spec fn dashboard_rank(i: int, count: int) -> Relevance {
    Relevance::Ranked { index: i as usize, count: count as usize, top: 90, span: 40 }
}

/// The rows of a dashboard of repositories.
pub open spec fn repo_rows(list: Seq<RepoModel>, count: int, starred: bool) -> Seq<ResultModel> {
    Seq::new(
        list.len(),
        |i: int|
            if starred {
                starred_row(list[i], dashboard_rank(i, count))
            } else {
                repo_row(list[i], dashboard_rank(i, count), "mine"@)
            },
    )
}

/// The rows of a dashboard of issues or pull requests.
pub open spec fn issue_rows(list: Seq<IssueModel>, count: int) -> Seq<ResultModel> {
    Seq::new(list.len(), |i: int| issue_row(list[i], dashboard_rank(i, count)))
}

/// The rows of a dashboard of notifications.
pub open spec fn notif_rows(list: Seq<NotifModel>, count: int, now_ms: Option<u64>) -> Seq<
    ResultModel,
> {
    Seq::new(list.len(), |i: int| notif_row(list[i], dashboard_rank(i, count), now_ms))
}

/// The first repositories that a term matches, as many as a dashboard shows.
pub(crate) fn shown_repos(rows: &Vec<CachedRepo>, term: &str) -> (r: Vec<CachedRepo>)
    ensures
        r.deep_view() == at_most(matching_repos(rows.deep_view(), term@), 40),
{
    let ghost all = rows.deep_view();
    let mut out: Vec<CachedRepo> = Vec::new();
    let mut i: usize = 0;
    assert(all.take(0) =~= Seq::<RepoModel>::empty());
    assert(out.deep_view() =~= at_most(matching_repos(all.take(0), term@), 40));
    while i < rows.len()
        invariant
            i <= rows.len(),
            all == rows.deep_view(),
            out.deep_view() == at_most(matching_repos(all.take(i as int), term@), 40),
        decreases rows.len() - i,
    {
        let ghost before = out.deep_view();
        assert(all.take(i + 1).drop_last() =~= all.take(i as int));
        assert(all.take(i + 1).last() == rows[i as int].deep_view());
        assert(before.len() == out.len());
        let row = &rows[i];
        let description = match &row.description {
            Some(d) => d.as_str(),
            None => "",
        };
        if matches(term, row.full_name.as_str(), description) && out.len() < DASHBOARD_CAP {
            out.push(row.copy());
            assert(out.deep_view() =~= before.push(all[i as int]));
        }
        assert(out.deep_view() =~= at_most(matching_repos(all.take(i + 1), term@), 40));
        i = i + 1;
    }
    assert(all.take(i as int) =~= all);
    out
}

/// The first issues and pull requests that a term matches.
pub(crate) fn shown_issues(rows: &Vec<CachedIssue>, term: &str) -> (r: Vec<CachedIssue>)
    ensures
        r.deep_view() == at_most(matching_issues(rows.deep_view(), term@), 40),
{
    let ghost all = rows.deep_view();
    let mut out: Vec<CachedIssue> = Vec::new();
    let mut i: usize = 0;
    assert(all.take(0) =~= Seq::<IssueModel>::empty());
    assert(out.deep_view() =~= at_most(matching_issues(all.take(0), term@), 40));
    while i < rows.len()
        invariant
            i <= rows.len(),
            all == rows.deep_view(),
            out.deep_view() == at_most(matching_issues(all.take(i as int), term@), 40),
        decreases rows.len() - i,
    {
        let ghost before = out.deep_view();
        assert(all.take(i + 1).drop_last() =~= all.take(i as int));
        assert(all.take(i + 1).last() == rows[i as int].deep_view());
        assert(before.len() == out.len());
        let row = &rows[i];
        if matches(term, row.title.as_str(), row.repo.as_str()) && out.len() < DASHBOARD_CAP {
            out.push(row.copy());
            assert(out.deep_view() =~= before.push(all[i as int]));
        }
        assert(out.deep_view() =~= at_most(matching_issues(all.take(i + 1), term@), 40));
        i = i + 1;
    }
    assert(all.take(i as int) =~= all);
    out
}

/// The first notifications that a term matches.
pub(crate) fn shown_notifs(rows: &Vec<CachedNotif>, term: &str) -> (r: Vec<CachedNotif>)
    ensures
        r.deep_view() == at_most(matching_notifs(rows.deep_view(), term@), 40),
{
    let ghost all = rows.deep_view();
    let mut out: Vec<CachedNotif> = Vec::new();
    let mut i: usize = 0;
    assert(all.take(0) =~= Seq::<NotifModel>::empty());
    assert(out.deep_view() =~= at_most(matching_notifs(all.take(0), term@), 40));
    while i < rows.len()
        invariant
            i <= rows.len(),
            all == rows.deep_view(),
            out.deep_view() == at_most(matching_notifs(all.take(i as int), term@), 40),
        decreases rows.len() - i,
    {
        let ghost before = out.deep_view();
        assert(all.take(i + 1).drop_last() =~= all.take(i as int));
        assert(all.take(i + 1).last() == rows[i as int].deep_view());
        assert(before.len() == out.len());
        let row = &rows[i];
        if matches(term, row.title.as_str(), row.repo.as_str()) && out.len() < DASHBOARD_CAP {
            out.push(row.copy());
            assert(out.deep_view() =~= before.push(all[i as int]));
        }
        assert(out.deep_view() =~= at_most(matching_notifs(all.take(i + 1), term@), 40));
        i = i + 1;
    }
    assert(all.take(i as int) =~= all);
    out
}

pub(crate) fn rows_of_repos(list: &Vec<CachedRepo>, count: usize, starred: bool) -> (r: Vec<
    ExtensionResult,
>)
    ensures
        r.deep_view() == repo_rows(list.deep_view(), count as int, starred),
{
    let ghost all = repo_rows(list.deep_view(), count as int, starred);
    let mut out: Vec<ExtensionResult> = Vec::new();
    let mut i: usize = 0;
    while i < list.len()
        invariant
            i <= list.len(),
            all == repo_rows(list.deep_view(), count as int, starred),
            out.deep_view() == all.take(i as int),
        decreases list.len() - i,
    {
        let ghost before = out.deep_view();
        let rank = ranked(i, count, 90, 40);
        let row = if starred {
            starred_result(&list[i], rank)
        } else {
            repo_result(&list[i], rank, "mine")
        };
        assert(row.deep_view() == all[i as int]);
        out.push(row);
        assert(out.deep_view() =~= before.push(all[i as int]));
        assert(all.take(i + 1) =~= before.push(all[i as int]));
        i = i + 1;
    }
    assert(all.take(i as int) =~= all);
    out
}

pub(crate) fn rows_of_issues(list: &Vec<CachedIssue>, count: usize) -> (r: Vec<ExtensionResult>)
    ensures
        r.deep_view() == issue_rows(list.deep_view(), count as int),
{
    let ghost all = issue_rows(list.deep_view(), count as int);
    let mut out: Vec<ExtensionResult> = Vec::new();
    let mut i: usize = 0;
    while i < list.len()
        invariant
            i <= list.len(),
            all == issue_rows(list.deep_view(), count as int),
            out.deep_view() == all.take(i as int),
        decreases list.len() - i,
    {
        let ghost before = out.deep_view();
        let row = issue_result(&list[i], ranked(i, count, 90, 40));
        assert(row.deep_view() == all[i as int]);
        out.push(row);
        assert(out.deep_view() =~= before.push(all[i as int]));
        assert(all.take(i + 1) =~= before.push(all[i as int]));
        i = i + 1;
    }
    assert(all.take(i as int) =~= all);
    out
}

pub(crate) fn rows_of_notifs(list: &Vec<CachedNotif>, count: usize, now_ms: Option<u64>) -> (r: Vec<
    ExtensionResult,
>)
    ensures
        r.deep_view() == notif_rows(list.deep_view(), count as int, now_ms),
{
    let ghost all = notif_rows(list.deep_view(), count as int, now_ms);
    let mut out: Vec<ExtensionResult> = Vec::new();
    let mut i: usize = 0;
    while i < list.len()
        invariant
            i <= list.len(),
            all == notif_rows(list.deep_view(), count as int, now_ms),
            out.deep_view() == all.take(i as int),
        decreases list.len() - i,
    {
        let ghost before = out.deep_view();
        let row = notif_result(&list[i], ranked(i, count, 90, 40), now_ms);
        assert(row.deep_view() == all[i as int]);
        out.push(row);
        assert(out.deep_view() =~= before.push(all[i as int]));
        assert(all.take(i + 1) =~= before.push(all[i as int]));
        i = i + 1;
    }
    assert(all.take(i as int) =~= all);
    out
}

/// A dashboard of repositories from what is kept. What is kept is the batch that
/// the rows are scored in.
pub open spec fn kept_repo_rows(rows: Seq<RepoModel>, term: Seq<char>, starred: bool) -> Seq<
    ResultModel,
> {
    repo_rows(at_most(matching_repos(rows, term), 40), rows.len() as int, starred)
}

/// A dashboard of repositories from what is kept: all of it, or what a term
/// matches. Where nothing is kept yet it is empty.
pub fn cached_repos(cache: &Vec<CachedRepo>, term: &str, starred: bool) -> (r: Vec<ExtensionResult>)
    ensures
        r.deep_view() == kept_repo_rows(cache.deep_view(), term@, starred),
{
    let shown = shown_repos(cache, term);
    rows_of_repos(&shown, cache.len(), starred)
}

/// A dashboard of issues or pull requests from what is kept.
pub open spec fn kept_issue_rows(rows: Seq<IssueModel>, term: Seq<char>) -> Seq<ResultModel> {
    issue_rows(at_most(matching_issues(rows, term), 40), rows.len() as int)
}

/// A dashboard of issues or pull requests from what is kept.
pub fn cached_issues(cache: &Vec<CachedIssue>, term: &str) -> (r: Vec<ExtensionResult>)
    ensures
        r.deep_view() == kept_issue_rows(cache.deep_view(), term@),
{
    let shown = shown_issues(cache, term);
    rows_of_issues(&shown, cache.len())
}

/// A dashboard of notifications from what is kept.
pub open spec fn kept_notif_rows(
    rows: Seq<NotifModel>,
    term: Seq<char>,
    now_ms: Option<u64>,
) -> Seq<ResultModel> {
    notif_rows(at_most(matching_notifs(rows, term), 40), rows.len() as int, now_ms)
}

/// A dashboard of notifications from what is kept.
pub fn cached_notifs(cache: &Vec<CachedNotif>, term: &str, now_ms: Option<u64>) -> (r: Vec<
    ExtensionResult,
>)
    ensures
        r.deep_view() == kept_notif_rows(cache.deep_view(), term@, now_ms),
{
    let shown = shown_notifs(cache, term);
    rows_of_notifs(&shown, cache.len(), now_ms)
}

// ---------------------------------------------------------------------------
// The instant tier as a whole
// ---------------------------------------------------------------------------

/// Where the rows of a command are kept. Repositories are what any other
/// command searches.
pub open spec fn source_of(cmd: Seq<char>, has_token: bool) -> Source {
    if token_gated(cmd) && !has_token {
        Source::Nothing
    } else if cmd == "issues"@ || cmd == "prs"@ || cmd == "code"@ || cmd == "users"@ {
        Source::Nothing
    } else if cmd == "my-prs"@ {
        Source::MyPrs
    } else if cmd == "my-issues"@ {
        Source::MyIssues
    } else if cmd == "starred"@ {
        Source::Starred
    } else if cmd == "notifications"@ {
        Source::Notifs
    } else {
        Source::Repos
    }
}

/// Where the rows of a command are kept.
pub fn search_source(cmd: &str, has_token: bool) -> (r: Source)
    ensures
        r == source_of(cmd@, has_token),
{
    if is_token_gated(cmd) && !has_token {
        Source::Nothing
    } else if same(cmd, "issues") || same(cmd, "prs") || same(cmd, "code") || same(cmd, "users") {
        Source::Nothing
    } else if same(cmd, "my-prs") {
        Source::MyPrs
    } else if same(cmd, "my-issues") {
        Source::MyIssues
    } else if same(cmd, "starred") {
        Source::Starred
    } else if same(cmd, "notifications") {
        Source::Notifs
    } else {
        Source::Repos
    }
}

/// The rows of a command. `kept` is what is kept at its source.
pub open spec fn search_rows(
    cmd: Seq<char>,
    query: Seq<char>,
    has_token: bool,
    kept: KeptModel,
    now_ms: Option<u64>,
) -> Seq<ResultModel> {
    let term = trimmed(query);
    if token_gated(cmd) && !has_token {
        seq![notoken_row(title_of(cmd))]
    } else if cmd == "issues"@ {
        seq![searching(term, "issue"@)]
    } else if cmd == "prs"@ {
        seq![searching(term, "pr"@)]
    } else if cmd == "code"@ {
        seq![searching(term, "code"@)]
    } else if cmd == "users"@ {
        seq![searching(term, "user"@)]
    } else if cmd == "my-prs"@ || cmd == "my-issues"@ {
        kept_issue_rows(kept.issues(), term)
    } else if cmd == "notifications"@ {
        kept_notif_rows(kept.notifs(), term, now_ms)
    } else if cmd == "starred"@ {
        kept_repo_rows(kept.repos(), term, true)
    } else if cmd == "my-repos"@ {
        kept_repo_rows(kept.repos(), term, false)
    } else {
        repo_search_rows(term, kept.repos())
    }
}

fn one_row(row: ExtensionResult) -> (r: Vec<ExtensionResult>)
    ensures
        r.deep_view() == seq![row.deep_view()],
{
    let r = vec![row];
    assert(r.deep_view() =~= seq![row.deep_view()]);
    r
}

/// The instant tier: what a command shows at once, from what is kept at its
/// source. A command that needs a token shows where to get one instead.
pub fn search(
    cmd: &str,
    query: &str,
    has_token: bool,
    kept: &Kept,
    now_ms: Option<u64>,
) -> (r: Vec<ExtensionResult>)
    ensures
        r.deep_view() == search_rows(cmd@, query@, has_token, kept.deep_view(), now_ms),
{
    let term = trim(query);
    let term = term.as_str();
    if is_token_gated(cmd) && !has_token {
        let title = command_title(cmd);
        return one_row(notoken_result(title.as_str()));
    }
    if same(cmd, "issues") {
        return one_row(searching_row(term, "issue"));
    }
    if same(cmd, "prs") {
        return one_row(searching_row(term, "pr"));
    }
    if same(cmd, "code") {
        return one_row(searching_row(term, "code"));
    }
    if same(cmd, "users") {
        return one_row(searching_row(term, "user"));
    }
    if same(cmd, "my-prs") || same(cmd, "my-issues") {
        return match kept {
            Kept::Issues(rows) => cached_issues(rows, term),
            _ => {
                let none: Vec<CachedIssue> = Vec::new();
                assert(none.deep_view() =~= kept.deep_view().issues());
                cached_issues(&none, term)
            },
        };
    }
    if same(cmd, "notifications") {
        return match kept {
            Kept::Notifs(rows) => cached_notifs(rows, term, now_ms),
            _ => {
                let none: Vec<CachedNotif> = Vec::new();
                assert(none.deep_view() =~= kept.deep_view().notifs());
                cached_notifs(&none, term, now_ms)
            },
        };
    }
    let none: Vec<CachedRepo> = Vec::new();
    let repos = match kept {
        Kept::Repos(rows) => rows,
        _ => &none,
    };
    assert(repos.deep_view() =~= kept.deep_view().repos());
    if same(cmd, "starred") {
        cached_repos(repos, term, true)
    } else if same(cmd, "my-repos") {
        cached_repos(repos, term, false)
    } else {
        search_repos_cache(term, repos)
    }
}

proof fn lemma_scored_rows(rows: Seq<RepoModel>, scores: Seq<Option<u32>>, score: u32)
    ensures
        forall|i: int|
            0 <= i < scored_rows(rows, scores, score).len() ==> (#[trigger] scored_rows(
                rows,
                scores,
                score,
            )[i]).relevance == Relevance::Fixed(score),
        forall|k: int|
            0 <= k < rows.len() && #[trigger] scores[k] == Some(score) ==> scored_rows(
                rows,
                scores,
                score,
            ).contains(repo_row(rows[k], Relevance::Fixed(score), "cached"@)),
    decreases rows.len(),
{
    if rows.len() > 0 {
        let head = rows.drop_last();
        lemma_scored_rows(head, scores, score);
        let all = scored_rows(rows, scores, score);
        let before = scored_rows(head, scores, score);
        assert forall|k: int|
            0 <= k < rows.len() && #[trigger] scores[k] == Some(score) implies all.contains(
            repo_row(rows[k], Relevance::Fixed(score), "cached"@),
        ) by {
            let row = repo_row(rows[k], Relevance::Fixed(score), "cached"@);
            if k < head.len() {
                assert(head[k] == rows[k]);
                assert(before.contains(row));
                let j = choose|j: int| 0 <= j < before.len() && before[j] == row;
                assert(all[j] == row);
            } else {
                assert(all[all.len() - 1] == row);
            }
        }
    }
}

/// What a search among the kept repositories shows comes best first: no row has
/// a lower score than one behind it.
pub proof fn law_repo_hits_best_first(rows: Seq<RepoModel>, needle: Seq<char>, i: int, j: int)
    requires
        0 <= i < j < repo_hits(rows, needle).len(),
    ensures
        ({
            let a = repo_hits(rows, needle)[i].relevance;
            let b = repo_hits(rows, needle)[j].relevance;
            a == b || a.above(b)
        }),
{
    let scores = repo_scores(rows, needle);
    lemma_scored_rows(rows, scores, 90);
    lemma_scored_rows(rows, scores, 70);
    lemma_scored_rows(rows, scores, 40);
    let a = scored_rows(rows, scores, 90);
    let b = scored_rows(rows, scores, 70);
    let c = scored_rows(rows, scores, 40);
    let all = repo_hits(rows, needle);
    let n = a.len() as int;
    let m = n + b.len();
    assert forall|k: int| 0 <= k < all.len() implies (#[trigger] all[k]).relevance
        == Relevance::Fixed(
        if k < n {
            90
        } else if k < m {
            70
        } else {
            40
        },
    ) by {
        if k < n {
            assert(all[k] == a[k]);
        } else if k < m {
            assert(all[k] == b[k - n]);
        } else {
            assert(all[k] == c[k - m]);
        }
    }
}

/// Every kept repository that fits is among the hits, with its score.
pub proof fn law_fitting_repo_is_hit(rows: Seq<RepoModel>, needle: Seq<char>, k: int)
    requires
        0 <= k < rows.len(),
    ensures
        repo_score(rows[k], needle) matches Some(score) ==> repo_hits(rows, needle).contains(
            repo_row(rows[k], Relevance::Fixed(score), "cached"@),
        ),
{
    match repo_score(rows[k], needle) {
        Some(score) => {
            lemma_hit(rows, needle, k, score);
        },
        None => {},
    }
}

proof fn lemma_hit(rows: Seq<RepoModel>, needle: Seq<char>, k: int, score: u32)
    requires
        0 <= k < rows.len(),
        repo_score(rows[k], needle) == Some(score),
    ensures
        repo_hits(rows, needle).contains(
            repo_row(rows[k], Relevance::Fixed(score), "cached"@),
        ),
{
    let scores = repo_scores(rows, needle);
    lemma_scored_rows(rows, scores, score);
    let row = repo_row(rows[k], Relevance::Fixed(score), "cached"@);
    let part = scored_rows(rows, scores, score);
    assert(scores[k] == Some(score));
    let j = choose|j: int| 0 <= j < part.len() && part[j] == row;
    let a = scored_rows(rows, scores, 90);
    let b = scored_rows(rows, scores, 70);
    let all = repo_hits(rows, needle);
    if score == 90 {
        assert(all[j] == row);
    } else if score == 70 {
        assert(all[a.len() + j] == row);
    } else {
        assert(all[a.len() + b.len() + j] == row);
    }
}

/// A command that needs a token and has none shows one row, which says so, and
/// reads nothing that is kept.
pub proof fn law_gated_without_token(
    cmd: Seq<char>,
    query: Seq<char>,
    kept: KeptModel,
    now_ms: Option<u64>,
)
    requires
        token_gated(cmd),
    ensures
        search_rows(cmd, query, false, kept, now_ms) == seq![notoken_row(title_of(cmd))],
        source_of(cmd, false) == Source::Nothing,
{
}

/// No command shows more than forty rows at once, and all but the dashboards
/// always show one.
pub proof fn law_search_row_count(
    cmd: Seq<char>,
    query: Seq<char>,
    has_token: bool,
    kept: KeptModel,
    now_ms: Option<u64>,
)
    ensures
        search_rows(cmd, query, has_token, kept, now_ms).len() <= 40,
        !token_gated(cmd) || cmd == "code"@ ==> search_rows(
            cmd,
            query,
            has_token,
            kept,
            now_ms,
        ).len() >= 1,
{
}

/// A dashboard without a term shows what is kept in its order, as far as it has
/// room.
pub proof fn law_blank_term_shows_all(
    repos: Seq<RepoModel>,
    issues: Seq<IssueModel>,
    notifs: Seq<NotifModel>,
)
    ensures
        matching_repos(repos, seq![]) == repos,
        matching_issues(issues, seq![]) == issues,
        matching_notifs(notifs, seq![]) == notifs,
    decreases repos.len() + issues.len() + notifs.len(),
{
    if repos.len() > 0 {
        law_blank_term_shows_all(repos.drop_last(), issues, notifs);
        assert(repos.drop_last().push(repos.last()) =~= repos);
    } else if issues.len() > 0 {
        law_blank_term_shows_all(repos, issues.drop_last(), notifs);
        assert(issues.drop_last().push(issues.last()) =~= issues);
    } else if notifs.len() > 0 {
        law_blank_term_shows_all(repos, issues, notifs.drop_last());
        assert(notifs.drop_last().push(notifs.last()) =~= notifs);
    }
    assert(repos.len() == 0 ==> repos =~= seq![]);
    assert(issues.len() == 0 ==> issues =~= seq![]);
    assert(notifs.len() == 0 ==> notifs =~= seq![]);
}

/// What was found live is found again at once: of the fresh repositories that
/// were put among the kept ones, each name once, each of the first two hundred
/// that fits is among the hits.
pub proof fn law_live_repo_is_found_again(
    fresh: Seq<RepoModel>,
    old: Seq<RepoModel>,
    needle: Seq<char>,
    k: int,
)
    requires
        0 <= k < once_each(fresh).len(),
        k < 200,
    ensures
        repo_score(once_each(fresh)[k], needle) matches Some(score) ==> repo_hits(
            merged_repos(fresh, old),
            needle,
        ).contains(repo_row(once_each(fresh)[k], Relevance::Fixed(score), "cached"@)),
{
    law_merge_keeps_fresh_first(fresh, old);
    let kept = merged_repos(fresh, old);
    let head = at_most(once_each(fresh), 200);
    assert(head[k] == kept.take(head.len() as int)[k]);
    law_fitting_repo_is_hit(kept, needle, k);
}

// ---------------------------------------------------------------------------
// What is found and what is shown
// ---------------------------------------------------------------------------

/// Of a dashboard a term leaves the repositories whose name or description holds
/// it, whatever the case; all of them where it is blank.
pub proof fn law_term_narrows_repos(rows: Seq<RepoModel>, term: Seq<char>)
    ensures
        matching_repos(rows, term) == rows.filter(
            |r: RepoModel|
                term.len() == 0 || holds(lowercase(r.full_name), lowercase(term)) || holds(
                    lowercase(
                        match r.description {
                            Some(d) => d,
                            None => ""@,
                        },
                    ),
                    lowercase(term),
                ),
        ),
    decreases rows.len(),
{
    reveal(Seq::filter);
    if rows.len() > 0 {
        law_term_narrows_repos(rows.drop_last(), term);
    }
}

/// Of a dashboard a term leaves the issues and pull requests whose title or
/// repository holds it, whatever the case.
pub proof fn law_term_narrows_issues(rows: Seq<IssueModel>, term: Seq<char>)
    ensures
        matching_issues(rows, term) == rows.filter(
            |i: IssueModel|
                term.len() == 0 || holds(lowercase(i.title), lowercase(term)) || holds(
                    lowercase(i.repo),
                    lowercase(term),
                ),
        ),
    decreases rows.len(),
{
    reveal(Seq::filter);
    if rows.len() > 0 {
        law_term_narrows_issues(rows.drop_last(), term);
    }
}

/// Of a dashboard a term leaves the notifications whose title or repository holds
/// it, whatever the case.
pub proof fn law_term_narrows_notifs(rows: Seq<NotifModel>, term: Seq<char>)
    ensures
        matching_notifs(rows, term) == rows.filter(
            |n: NotifModel|
                term.len() == 0 || holds(lowercase(n.title), lowercase(term)) || holds(
                    lowercase(n.repo),
                    lowercase(term),
                ),
        ),
    decreases rows.len(),
{
    reveal(Seq::filter);
    if rows.len() > 0 {
        law_term_narrows_notifs(rows.drop_last(), term);
    }
}

/// A qualifier is a word with a colon: all others are looked for, in order.
pub proof fn law_qualifiers_are_not_looked_for(words: Seq<Seq<char>>)
    ensures
        plain_words(words) == words.filter(|w: Seq<char>| !w.contains(':')),
    decreases words.len(),
{
    reveal(Seq::filter);
    if words.len() > 0 {
        law_qualifiers_are_not_looked_for(words.drop_last());
    }
}

/// What is looked for of two words, where one may be a qualifier.
pub proof fn law_needle_is_what_is_left(word: Seq<char>, qualifier: Seq<char>)
    requires
        word.len() > 0 && qualifier.len() > 0,
        forall|i: int| 0 <= i < word.len() ==> !white(#[trigger] word[i]),
        forall|i: int| 0 <= i < qualifier.len() ==> !white(#[trigger] qualifier[i]),
        !word.contains(':'),
    ensures
        unqualified(word) == word,
        qualifier.contains(':') ==> unqualified(word + " "@ + qualifier) == word,
        qualifier.contains(':') ==> unqualified(qualifier + " "@ + word) == word,
        !qualifier.contains(':') ==> unqualified(word + " "@ + qualifier) == word + " "@
            + qualifier,
{
    reveal_strlit(" ");
    let none: Seq<char> = seq![];
    let space = " "@;
    law_words_stand_apart(none, word, none);
    law_words_stand_apart(none, qualifier, none);
    law_words_stand_apart(none, word, space + qualifier);
    law_words_stand_apart(none, qualifier, space + word);
    law_words_stand_apart(space, qualifier, none);
    law_words_stand_apart(space, word, none);
    assert(none + word + none =~= word);
    assert(none + word + (space + qualifier) =~= word + space + qualifier);
    assert(none + qualifier + (space + word) =~= qualifier + space + word);
    assert(space + qualifier + none =~= space + qualifier);
    assert(space + word + none =~= space + word);
    let one = seq![word];
    assert(word_list(word) =~= one);
    let both = seq![word, qualifier];
    let turned = seq![qualifier, word];
    assert(word_list(word + space + qualifier) =~= both);
    assert(word_list(qualifier + space + word) =~= turned);
    law_words_stand_apart(none, word, none);
    assert(word_list(none) =~= seq![]);
    reveal_with_fuel(plain_words, 3);
    reveal_with_fuel(joined, 3);
    assert(one.drop_last() =~= seq![]);
    assert(both.drop_last() =~= one);
    assert(turned.drop_last() =~= seq![qualifier]);
    assert(seq![qualifier].drop_last() =~= seq![]);
    assert(plain_words(one) =~= one);
    if qualifier.contains(':') {
        assert(plain_words(both) =~= one);
        assert(plain_words(turned) =~= one);
    } else {
        assert(plain_words(both) =~= both);
        assert(joined(both, space) =~= word + space + qualifier);
    }
}

/// How repositories rank: what starts with the needle, as a whole or behind the
/// slash, before what holds it further in, and that before what only its
/// description holds; what holds it nowhere is not found.
pub proof fn law_names_rank_before_descriptions(
    needle: Seq<char>,
    owner: Seq<char>,
    before: Seq<char>,
    after: Seq<char>,
    name: Seq<char>,
    description: Option<Seq<char>>,
)
    requires
        !owner.contains('/'),
    ensures
        fit(needle + after, description, needle) == Some(90u32),
        !needle.contains('/') && !after.contains('/') ==> fit(
            owner + "/"@ + needle + after,
            description,
            needle,
        ) == Some(90u32),
        fit(before + needle + after, description, needle) matches Some(s) && s >= 70,
        fit(name, description, needle) == Some(40u32) ==> !holds(name, needle) && (
        description matches Some(d) && holds(d, needle)),
        !holds(name, needle) && (description matches Some(d) && holds(d, needle)) ==> fit(
            name,
            description,
            needle,
        ) == Some(40u32),
        !holds(name, needle) && (description matches Some(d) ==> !holds(d, needle)) ==> fit(
            name,
            description,
            needle,
        ) is None,
        fit(name, description, needle) is None ==> !holds(name, needle) && (
        description matches Some(d) ==> !holds(d, needle)),
{
    reveal_strlit("/");
    assert((needle + after).take(needle.len() as int) =~= needle);
    law_found_where_it_stands(before, needle, after);
    if !needle.contains('/') && !after.contains('/') {
        let rest = needle + after;
        let whole = owner + "/"@ + needle + after;
        assert(whole =~= owner.push('/') + rest);
        lemma_pieces_more(owner, '/', rest);
        assert(!rest.contains('/')) by {
            if rest.contains('/') {
                let i = choose|i: int| 0 <= i < rest.len() && rest[i] == '/';
                if i < needle.len() {
                    assert(needle[i] == '/');
                } else {
                    assert(after[i - needle.len()] == '/');
                }
            }
        }
        lemma_pieces_one(rest, '/');
        assert(pieces(whole, '/')[1] == rest);
        assert(rest.take(needle.len() as int) =~= needle);
    }
    if has_prefix(name, needle) {
        assert(name.subrange(0, needle.len() as int) =~= needle);
        lemma_holds(name, needle, 0, 0);
    }
    let p = pieces(name, '/');
    if p.len() >= 2 && has_prefix(p[1], needle) {
        lemma_char_index(name, '/');
        let k = char_index(name, '/');
        let rest = name.skip(k + 1);
        lemma_char_index(rest, '/');
        assert(p[1] == pieces(rest, '/')[0]);
        let part = pieces(rest, '/')[0];
        assert(part =~= rest.take(part.len() as int));
        assert(name.subrange(k + 1, k + 1 + needle.len()) =~= part.take(needle.len() as int));
        lemma_holds(name, needle, 0, k + 1);
    }
}

/// Every hit is the row of a kept repository that fits, with its score.
pub proof fn law_hits_are_rows_that_fit(rows: Seq<RepoModel>, needle: Seq<char>, i: int)
    requires
        0 <= i < repo_hits(rows, needle).len(),
    ensures
        exists|k: int|
            0 <= k < rows.len() && (repo_score(#[trigger] rows[k], needle) matches Some(score)
                && repo_hits(rows, needle)[i] == repo_row(
                rows[k],
                Relevance::Fixed(score),
                "cached"@,
            )),
{
    let scores = repo_scores(rows, needle);
    let a = scored_rows(rows, scores, 90);
    let b = scored_rows(rows, scores, 70);
    let n = a.len() as int;
    let m = n + b.len();
    let hit = repo_hits(rows, needle)[i];
    let (part, j, score): (Seq<ResultModel>, int, u32) = if i < n {
        (a, i, 90u32)
    } else if i < m {
        (b, i - n, 70u32)
    } else {
        (scored_rows(rows, scores, 40), i - m, 40u32)
    };
    assert(hit == part[j]);
    lemma_scored_from(rows, scores, score, j);
    let k = choose|k: int|
        0 <= k < rows.len() && #[trigger] scores[k] == Some(score) && part[j] == repo_row(
            rows[k],
            Relevance::Fixed(score),
            "cached"@,
        );
    assert(scores[k] == repo_score(rows[k], needle));
}

proof fn lemma_scored_from(rows: Seq<RepoModel>, scores: Seq<Option<u32>>, score: u32, j: int)
    requires
        0 <= j < scored_rows(rows, scores, score).len(),
    ensures
        exists|k: int|
            0 <= k < rows.len() && #[trigger] scores[k] == Some(score) && scored_rows(
                rows,
                scores,
                score,
            )[j] == repo_row(rows[k], Relevance::Fixed(score), "cached"@),
    decreases rows.len(),
{
    if rows.len() > 0 {
        let head = rows.drop_last();
        let before = scored_rows(head, scores, score);
        if j < before.len() {
            lemma_scored_from(head, scores, score, j);
            let k = choose|k: int|
                0 <= k < head.len() && #[trigger] scores[k] == Some(score) && before[j] == repo_row(
                    head[k],
                    Relevance::Fixed(score),
                    "cached"@,
                );
            assert(head[k] == rows[k]);
            assert(scores[k] == Some(score));
        } else {
            assert(scores[rows.len() - 1] == Some(score));
        }
    }
}

/// A search among the kept repositories shows its hits, twenty at most, and where
/// it has none the row that leads to the live search.
pub proof fn law_repo_search_shows_hits(term: Seq<char>, rows: Seq<RepoModel>, i: int)
    ensures
        ({
            let shown = repo_search_rows(term, rows);
            let hits = repo_hits(rows, needle_of(term));
            &&& needle_of(term).len() == 0 || hits.len() == 0 ==> shown == seq![
                searching(term, "repo"@),
            ]
            &&& needle_of(term).len() > 0 && hits.len() > 0 ==> shown.len() == (if hits.len()
                <= 20 {
                hits.len()
            } else {
                20
            }) && (0 <= i < shown.len() ==> shown[i] == hits[i])
        }),
{
}

proof fn lemma_command_words()
    ensures
        "issues"@.len() == 6 && "prs"@.len() == 3 && "code"@.len() == 4,
        "users"@.len() == 5 && "repos"@.len() == 5 && "my-prs"@.len() == 6,
        "my-issues"@.len() == 9 && "my-repos"@.len() == 8 && "starred"@.len() == 7,
        "notifications"@.len() == 13,
        "users"@[0] == 'u' && "repos"@[0] == 'r',
        "issues"@[0] == 'i' && "my-prs"@[0] == 'm',
{
    reveal_strlit("issues");
    reveal_strlit("prs");
    reveal_strlit("code");
    reveal_strlit("users");
    reveal_strlit("repos");
    reveal_strlit("my-prs");
    reveal_strlit("my-issues");
    reveal_strlit("my-repos");
    reveal_strlit("starred");
    reveal_strlit("notifications");
}

/// What each command shows at once: the dashboards what is kept of them, each from
/// its own place; the search for repositories what is kept of those; the other
/// searches a row that leads to the search of their kind.
pub proof fn law_commands_show_their_lists(
    query: Seq<char>,
    repos: Seq<RepoModel>,
    issues: Seq<IssueModel>,
    notifs: Seq<NotifModel>,
    now_ms: Option<u64>,
    has_token: bool,
)
    ensures
        ({
            let term = trimmed(query);
            let r = KeptModel::Repos(repos);
            let i = KeptModel::Issues(issues);
            let n = KeptModel::Notifs(notifs);
            &&& search_rows("my-prs"@, query, true, i, now_ms) == kept_issue_rows(issues, term)
            &&& search_rows("my-issues"@, query, true, i, now_ms) == kept_issue_rows(issues, term)
            &&& search_rows("my-repos"@, query, true, r, now_ms) == kept_repo_rows(
                repos,
                term,
                false,
            )
            &&& search_rows("starred"@, query, true, r, now_ms) == kept_repo_rows(repos, term, true)
            &&& search_rows("notifications"@, query, true, n, now_ms) == kept_notif_rows(
                notifs,
                term,
                now_ms,
            )
            &&& search_rows("repos"@, query, has_token, r, now_ms) == repo_search_rows(term, repos)
            &&& search_rows("issues"@, query, has_token, r, now_ms) == seq![
                searching(term, "issue"@),
            ]
            &&& search_rows("prs"@, query, has_token, r, now_ms) == seq![searching(term, "pr"@)]
            &&& search_rows("users"@, query, has_token, r, now_ms) == seq![searching(term, "user"@)]
            &&& search_rows("code"@, query, true, r, now_ms) == seq![searching(term, "code"@)]
            &&& source_of("my-prs"@, true) == Source::MyPrs
            &&& source_of("my-issues"@, true) == Source::MyIssues
            &&& source_of("my-repos"@, true) == Source::Repos
            &&& source_of("starred"@, true) == Source::Starred
            &&& source_of("notifications"@, true) == Source::Notifs
            &&& source_of("repos"@, has_token) == Source::Repos
            &&& !token_gated("repos"@) && !token_gated("issues"@) && !token_gated("prs"@)
                && !token_gated("users"@)
            &&& token_gated("code"@) && token_gated("my-prs"@) && token_gated("my-issues"@)
                && token_gated("my-repos"@) && token_gated("starred"@) && token_gated(
                "notifications"@,
            )
        }),
{
    lemma_command_words();
}

/// The rows of a dashboard stand for what is listed, one each and in order, and
/// are scored in that order.
pub proof fn law_dashboard_rows_follow_the_list(
    repos: Seq<RepoModel>,
    issues: Seq<IssueModel>,
    notifs: Seq<NotifModel>,
    count: usize,
    starred: bool,
    now_ms: Option<u64>,
    i: usize,
    j: usize,
)
    requires
        i < j,
    ensures
        repo_rows(repos, count as int, starred).len() == repos.len(),
        issue_rows(issues, count as int).len() == issues.len(),
        notif_rows(notifs, count as int, now_ms).len() == notifs.len(),
        j < repos.len() ==> ({
            let rows = repo_rows(repos, count as int, starred);
            &&& rows[i as int].title == repos[i as int].full_name
            &&& rows[i as int].relevance.above(rows[j as int].relevance)
            &&& starred ==> rows[i as int].badge == Some("starred"@)
            &&& !starred && !repos[i as int].private ==> rows[i as int].badge == Some("mine"@)
        }),
        j < issues.len() ==> ({
            let rows = issue_rows(issues, count as int);
            &&& rows[i as int].title == issues[i as int].title
            &&& rows[i as int].relevance.above(rows[j as int].relevance)
        }),
        j < notifs.len() ==> ({
            let rows = notif_rows(notifs, count as int, now_ms);
            &&& rows[i as int].title == notifs[i as int].title
            &&& rows[i as int].relevance.above(rows[j as int].relevance)
        }),
{
    law_ranked_descending(i, j, count, 90, 40);
}

/// A dashboard from what is kept shows all that the term leaves, in order, up to
/// forty rows.
pub proof fn law_kept_dashboards_show_up_to_forty(
    repos: Seq<RepoModel>,
    issues: Seq<IssueModel>,
    notifs: Seq<NotifModel>,
    term: Seq<char>,
    starred: bool,
    now_ms: Option<u64>,
    i: int,
)
    ensures
        ({
            let list = matching_repos(repos, term);
            let rows = kept_repo_rows(repos, term, starred);
            &&& rows.len() == (if list.len() <= 40 {
                list.len()
            } else {
                40
            })
            &&& 0 <= i < rows.len() ==> rows[i].id == "repo:"@ + list[i].full_name
        }),
        ({
            let list = matching_issues(issues, term);
            let rows = kept_issue_rows(issues, term);
            &&& rows.len() == (if list.len() <= 40 {
                list.len()
            } else {
                40
            })
            &&& 0 <= i < rows.len() ==> rows[i].title == list[i].title
        }),
        ({
            let list = matching_notifs(notifs, term);
            let rows = kept_notif_rows(notifs, term, now_ms);
            &&& rows.len() == (if list.len() <= 40 {
                list.len()
            } else {
                40
            })
            &&& 0 <= i < rows.len() ==> rows[i].title == list[i].title
        }),
{
}

/// What the commands are called.
pub proof fn law_commands_have_titles(cmd: Seq<char>)
    ensures
        title_of("code"@) == "Search Code"@,
        title_of("my-prs"@) == "My Pull Requests"@,
        title_of("my-issues"@) == "My Issues"@,
        title_of("my-repos"@) == "My Repositories"@,
        title_of("starred"@) == "Starred Repositories"@,
        title_of("notifications"@) == "Notifications"@,
        !token_gated(cmd) ==> title_of(cmd) == cmd,
{
    lemma_command_words();
}

} // verus!
