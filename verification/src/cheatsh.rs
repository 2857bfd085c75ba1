//! cheat.sh lookups: an instant tier over a cached list of sheet names, a live
//! tier that confirms the exact name, and a structured preview of a sheet.
use vstd::prelude::*;
use vstd::string::*;
use vstd::utf8::*;

use crate::encode::{escape_html, html_escaped};
use crate::host::{
    body_text, copying, hinted_action, opening, Action, ActionModel, ActivateEffect, EffectModel,
    ExtensionResult, PreviewContent, PreviewModel, Relevance, Request, RequestModel, ResultModel,
};
use crate::text::{
    at_most, has_char, has_prefix, holds, join, joined, lemma_holds, lemma_lines_hold_no_newline,
    lemma_lines_of_joined, lemma_other_prefix, lemma_position_from, lemma_trimmed, lemma_trimmed_is, line_list, lines, lossy_text,
    lowercase, position_from, same, starts_with, strip_prefix, text_between, to_chars, to_lowercase,
    trim, trim_start, trimmed, trimmed_start, white, without_prefix,
};

verus! {

// ---------------------------------------------------------------------------
// Terminal colours
// ---------------------------------------------------------------------------

/// The ASCII letters.
pub open spec fn ascii_letter(c: char) -> bool {
    'a' <= c <= 'z' || 'A' <= c <= 'Z'
}

/// What follows the first ASCII letter of `s`; nothing if it holds none.
pub open spec fn after_letter(s: Seq<char>) -> Seq<char>
    decreases s.len(),
{
    if s.len() == 0 {
        s
    } else if ascii_letter(s[0]) {
        s.skip(1)
    } else {
        after_letter(s.skip(1))
    }
}

/// What follows a letter is no longer than the whole.
pub proof fn lemma_after_letter_shorter(s: Seq<char>)
    ensures
        after_letter(s).len() <= s.len(),
    decreases s.len(),
{
    if s.len() > 0 && !ascii_letter(s[0]) {
        lemma_after_letter_shorter(s.skip(1));
    }
}

/// `s` without its ANSI escape sequences: each escape character followed by
/// `[` is dropped together with what follows it up to the next ASCII letter.
pub open spec fn ansi_stripped(s: Seq<char>) -> Seq<char>
    decreases s.len(),
{
    if s.len() == 0 {
        seq![]
    } else if s[0] == '\x1b' && s.len() > 1 && s[1] == '[' {
        proof {
            lemma_after_letter_shorter(s.skip(2));
        }
        ansi_stripped(after_letter(s.skip(2)))
    } else {
        seq![s[0]] + ansi_stripped(s.skip(1))
    }
}

/// Strips ANSI escape sequences, which some sheets hold though plain text was
/// asked for.
pub fn strip_ansi(s: &str) -> (r: String)
    ensures
        r@ == ansi_stripped(s@),
{
    let v = to_chars(s);
    let mut out = String::new();
    let mut i: usize = 0;
    assert(v@.skip(0) =~= v@);
    assert(out@ + ansi_stripped(s@) =~= ansi_stripped(s@));
    while i < v.len()
        invariant
            i <= v@.len(),
            v@ == s@,
            out@ + ansi_stripped(v@.skip(i as int)) == ansi_stripped(s@),
        decreases v.len() - i,
    {
        let ghost rest = v@.skip(i as int);
        if v[i] == '\x1b' && i + 1 < v.len() && v[i + 1] == '[' {
            let mut j: usize = i + 2;
            assert(rest.skip(2) =~= v@.skip(j as int));
            while j < v.len() && !(('a' <= v[j] && v[j] <= 'z') || ('A' <= v[j] && v[j] <= 'Z'))
                invariant
                    i + 2 <= j <= v@.len(),
                    after_letter(rest.skip(2)) == after_letter(v@.skip(j as int)),
                decreases v.len() - j,
            {
                assert(v@.skip(j as int).skip(1) =~= v@.skip(j + 1));
                j = j + 1;
            }
            if j < v.len() {
                assert(v@.skip(j as int).skip(1) =~= v@.skip(j + 1));
                i = j + 1;
            } else {
                i = j;
            }
        } else {
            let ghost before = out@;
            out.push(v[i]);
            assert(rest.skip(1) =~= v@.skip(i + 1));
            assert(before + (seq![v@[i as int]] + ansi_stripped(v@.skip(i + 1))) =~= out@
                + ansi_stripped(v@.skip(i + 1)));
            i = i + 1;
        }
    }
    assert(out@ + ansi_stripped(v@.skip(i as int)) =~= out@);
    out
}

proof fn lemma_strip_ansi_kept(pre: Seq<char>, t: Seq<char>)
    requires
        !holds(pre, "\x1b["@),
        pre.len() > 0 && pre.last() == '\x1b' && t.len() > 0 ==> t[0] != '[',
    ensures
        ansi_stripped(pre + t) == pre + ansi_stripped(t),
    decreases pre.len(),
{
    let s = pre + t;
    if pre.len() == 0 {
        assert(s =~= t);
        assert(pre + ansi_stripped(t) =~= ansi_stripped(t));
    } else {
        reveal_strlit("\x1b[");
        let p = "\x1b["@;
        let more = pre.skip(1);
        if s[0] == '\x1b' && s.len() > 1 && s[1] == '[' {
            if pre.len() > 1 {
                assert(pre.subrange(0, 2) =~= p);
                lemma_holds(pre, p, 0, 0);
            } else {
                assert(s[1] == t[0]);
            }
        }
        if holds(more, p) {
            lemma_position_from(more, p, 0);
            let k = position_from(more, p, 0)->0;
            assert(pre.subrange(k + 1, k + 3) =~= more.subrange(k, k + 2));
            lemma_holds(pre, p, 0, k + 1);
        }
        lemma_strip_ansi_kept(more, t);
        assert(s.skip(1) =~= more + t);
        assert(seq![s[0]] + (more + ansi_stripped(t)) =~= pre + ansi_stripped(t));
    }
}

proof fn lemma_after_letter(args: Seq<char>, rest: Seq<char>)
    requires
        forall|i: int| 0 <= i < args.len() ==> !ascii_letter(#[trigger] args[i]),
    ensures
        after_letter(args + rest) == after_letter(rest),
    decreases args.len(),
{
    let s = args + rest;
    if args.len() == 0 {
        assert(s =~= rest);
    } else {
        assert(!ascii_letter(args[0]));
        let more = args.skip(1);
        assert forall|i: int| 0 <= i < more.len() implies !ascii_letter(#[trigger] more[i]) by {
            assert(more[i] == args[i + 1]);
        }
        assert(s.skip(1) =~= more + rest);
        lemma_after_letter(more, rest);
    }
}

/// Text without an escape character before a `[` is left as it is.
pub proof fn law_strip_ansi_plain(s: Seq<char>)
    requires
        !holds(s, "\x1b["@),
    ensures
        ansi_stripped(s) == s,
{
    let none: Seq<char> = seq![];
    lemma_strip_ansi_kept(s, none);
    assert(s + none =~= s);
    assert(s + ansi_stripped(none) =~= s);
}

/// An escape sequence goes, up to and with its letter: what stands before it is
/// left as it is, and what stands behind it is stripped in turn. One without a
/// letter goes up to the end.
pub proof fn law_strip_ansi_sequence(
    pre: Seq<char>,
    args: Seq<char>,
    letter: char,
    rest: Seq<char>,
)
    requires
        !holds(pre, "\x1b["@),
        forall|i: int| 0 <= i < args.len() ==> !ascii_letter(#[trigger] args[i]),
        ascii_letter(letter),
    ensures
        ansi_stripped(pre + "\x1b["@ + args + seq![letter] + rest) == pre + ansi_stripped(rest),
        ansi_stripped(pre + "\x1b["@ + args) == pre,
{
    reveal_strlit("\x1b[");
    let end = seq![letter] + rest;
    let t = "\x1b["@ + (args + end);
    lemma_strip_ansi_kept(pre, t);
    assert(t.skip(2) =~= args + end);
    lemma_after_letter(args, end);
    assert(end.skip(1) =~= rest);
    assert(pre + "\x1b["@ + args + seq![letter] + rest =~= pre + t);
    let none: Seq<char> = seq![];
    let open = "\x1b["@ + args;
    lemma_strip_ansi_kept(pre, open);
    assert(open.skip(2) =~= args + none);
    lemma_after_letter(args, none);
    assert(ansi_stripped(open) == ansi_stripped(after_letter(none)));
    assert(ansi_stripped(after_letter(none)) =~= none);
    assert(pre + "\x1b["@ + args =~= pre + open);
    assert(pre + none =~= pre);
}

/// Where the names of all sheets are listed.
pub const LIST_URL: &'static str = "https://cheat.sh/:list";

/// The request for a page, as curl makes it.
pub open spec fn page_request(url: Seq<char>) -> RequestModel {
    RequestModel {
        method: None,
        url,
        headers: seq![("User-Agent"@, "curl/7.86.0"@)],
        body: None,
    }
}

/// The request for a page. The site answers with plain text only to what looks
/// like curl.
pub fn fetch_text(url: &str) -> (r: Request)
    ensures
        r.deep_view() == page_request(url@),
{
    let r = Request {
        method: None,
        url: url.to_owned(),
        headers: vec![("User-Agent".to_owned(), "curl/7.86.0".to_owned())],
        body: None,
    };
    assert(r.headers.deep_view() =~= seq![("User-Agent"@, "curl/7.86.0"@)]);
    r
}

/// The text of a page that was fetched.
pub fn fetched_text(body: &[u8]) -> (r: String)
    ensures
        r@ == ansi_stripped(lossy_text(body@)),
{
    let raw = body_text(body);
    strip_ansi(raw.as_str())
}

// ---------------------------------------------------------------------------
// The list of sheets, cached by first character
// ---------------------------------------------------------------------------

/// The key under which the names that start with `c` are cached.
pub open spec fn bucket_name(c: char) -> Seq<char> {
    "b_"@.push(c)
}

/// The key under which the names that share the first character of `term` are
/// cached.
pub fn bucket_key(term: &str) -> (r: Option<String>)
    ensures
        r.deep_view() == (if term@.len() > 0 {
            Some(bucket_name(term@[0]))
        } else {
            None
        }),
{
    let v = to_chars(term);
    if v.len() == 0 {
        return None;
    }
    let mut key = "b_".to_owned();
    key.push(v[0]);
    Some(key)
}

/// Whether a line of the list names a sheet worth caching: blank lines, RFCs
/// and pages about cheat.sh itself are left out.
pub open spec fn is_entry(line: Seq<char>) -> bool {
    trimmed(line).len() > 0 && !has_prefix(trimmed(line), "rfc"@) && !has_prefix(
        trimmed(line),
        ":"@,
    )
}

/// The names that a list holds, in order.
pub open spec fn entries(lines: Seq<Seq<char>>) -> Seq<Seq<char>>
    decreases lines.len(),
{
    if lines.len() == 0 {
        seq![]
    } else if is_entry(lines.last()) {
        entries(lines.drop_last()).push(trimmed(lines.last()))
    } else {
        entries(lines.drop_last())
    }
}

/// The names that start with `c`, in order.
pub open spec fn starting_with(names: Seq<Seq<char>>, c: char) -> Seq<Seq<char>>
    decreases names.len(),
{
    if names.len() == 0 {
        seq![]
    } else if names.last().len() > 0 && names.last()[0] == c {
        starting_with(names.drop_last(), c).push(names.last())
    } else {
        starting_with(names.drop_last(), c)
    }
}

/// The first characters of the names, each once, in the order in which they
/// first occur.
pub open spec fn first_chars(names: Seq<Seq<char>>) -> Seq<char>
    decreases names.len(),
{
    if names.len() == 0 {
        seq![]
    } else {
        let before = first_chars(names.drop_last());
        let n = names.last();
        if n.len() == 0 || before.contains(n[0]) {
            before
        } else {
            before.push(n[0])
        }
    }
}

/// What is cached of a list: for each first character the names that start
/// with it, one to a line, and then the mark that the list is cached.
pub open spec fn list_writes(raw: Seq<char>) -> Seq<(Seq<char>, Seq<char>)> {
    let names = entries(line_list(raw));
    let chars = first_chars(names);
    Seq::new(
        chars.len(),
        |i: int| (bucket_name(chars[i]), joined(starting_with(names, chars[i]), "\n"@)),
    ).push(("cached"@, "1"@))
}

/// The names that a list holds.
fn list_entries(raw: &str) -> (r: Vec<String>)
    ensures
        r.deep_view() == entries(line_list(raw@)),
{
    let all = lines(raw);
    let mut out: Vec<String> = Vec::new();
    let ghost ls = all.deep_view();
    let mut i: usize = 0;
    while i < all.len()
        invariant
            i <= all@.len(),
            ls == all.deep_view(),
            out.deep_view() == entries(ls.take(i as int)),
        decreases all.len() - i,
    {
        let line = trim(all[i].as_str());
        assert(ls.take(i + 1).drop_last() =~= ls.take(i as int));
        assert(line@ == trimmed(ls[i as int]));
        if !line.as_str().is_empty() && !starts_with(line.as_str(), "rfc") && !starts_with(
            line.as_str(),
            ":",
        ) {
            let ghost before = out.deep_view();
            out.push(line);
            assert(out.deep_view() =~= before.push(line@));
        }
        i = i + 1;
    }
    assert(ls.take(i as int) =~= ls);
    out
}

/// The names that start with `c`.
fn entries_starting_with(names: &Vec<String>, c: char) -> (r: Vec<String>)
    ensures
        r.deep_view() == starting_with(names.deep_view(), c),
{
    let mut out: Vec<String> = Vec::new();
    let ghost all = names.deep_view();
    let mut i: usize = 0;
    while i < names.len()
        invariant
            i <= names@.len(),
            all == names.deep_view(),
            out.deep_view() == starting_with(all.take(i as int), c),
        decreases names.len() - i,
    {
        let v = to_chars(names[i].as_str());
        assert(all.take(i + 1).drop_last() =~= all.take(i as int));
        assert(all.take(i + 1).last() == v@);
        if v.len() > 0 && v[0] == c {
            let ghost before = out.deep_view();
            out.push(names[i].clone());
            assert(out.deep_view() =~= before.push(v@));
        }
        i = i + 1;
    }
    assert(all.take(i as int) =~= all);
    out
}

/// The first characters of the names, each once.
fn entry_first_chars(names: &Vec<String>) -> (r: Vec<char>)
    ensures
        r@ == first_chars(names.deep_view()),
{
    let mut out: Vec<char> = Vec::new();
    let ghost all = names.deep_view();
    let mut i: usize = 0;
    while i < names.len()
        invariant
            i <= names@.len(),
            all == names.deep_view(),
            out@ == first_chars(all.take(i as int)),
        decreases names.len() - i,
    {
        let v = to_chars(names[i].as_str());
        assert(all.take(i + 1).drop_last() =~= all.take(i as int));
        assert(all.take(i + 1).last() == v@);
        if v.len() > 0 {
            let c = v[0];
            if !has_char(out.as_slice(), c) {
                out.push(c);
            }
        }
        i = i + 1;
    }
    assert(all.take(i as int) =~= all);
    out
}

/// Where to fetch the list from; nowhere where it is cached already.
pub open spec fn list_source(cached: bool) -> Option<Seq<char>> {
    if cached {
        None
    } else {
        Some(LIST_URL@)
    }
}

/// Where to fetch the list from. `cached` says whether there is a value under
/// the key "cached".
pub fn list_url(cached: bool) -> (r: Option<String>)
    ensures
        r.deep_view() == list_source(cached),
{
    if cached {
        None
    } else {
        Some(LIST_URL.to_owned())
    }
}

/// What to write to the cache for the list `raw`: the pairs of key and value.
pub fn list_cache(raw: &str) -> (r: Vec<(String, String)>)
    ensures
        r.deep_view() == list_writes(raw@),
{
    let names = list_entries(raw);
    let chars = entry_first_chars(&names);
    let ghost all = names.deep_view();
    let mut out: Vec<(String, String)> = Vec::new();
    let mut i: usize = 0;
    while i < chars.len()
        invariant
            i <= chars@.len(),
            all == names.deep_view(),
            out@.len() == i,
            forall|k: int|
                0 <= k < i ==> (#[trigger] out@[k]).deep_view() == (
                    bucket_name(chars@[k]),
                    joined(starting_with(all, chars@[k]), "\n"@),
                ),
        decreases chars.len() - i,
    {
        let mut key = "b_".to_owned();
        key.push(chars[i]);
        let bucket = entries_starting_with(&names, chars[i]);
        out.push((key, join(&bucket, "\n")));
        i = i + 1;
    }
    out.push(("cached".to_owned(), "1".to_owned()));
    assert(out.deep_view() =~= list_writes(raw@));
    out
}

// ---------------------------------------------------------------------------
// Search: the instant tier
// ---------------------------------------------------------------------------

/// The term that a query asks for.
pub open spec fn term_of(query: Seq<char>) -> Seq<char> {
    lowercase(trimmed(query))
}

/// The actions of every row.
pub open spec fn action_menu() -> Seq<ActionModel> {
    seq![
        hinted_action("open"@, "Open cheat sheet"@, "in browser"@),
        hinted_action("copy"@, "Copy sheet text"@, "fetches plain text"@),
    ]
}

/// The row for a term while the list is not cached.
pub open spec fn uncached_row(term: Seq<char>) -> ResultModel {
    ResultModel {
        id: term,
        title: "cheat.sh/"@ + term,
        subtitle: Some("list not cached yet - refreshing in background"@),
        relevance: Relevance::Fixed(50),
        actions: action_menu(),
        icon: None,
        badge: Some("uncached"@),
    }
}

/// The length of a text in bytes.
pub open spec fn byte_len(s: Seq<char>) -> nat {
    encode_utf8(s).len()
}

/// The row for a cached name that starts with the term. The more of the name
/// the term covers, the higher it scores.
pub open spec fn entry_row(term: Seq<char>, entry: Seq<char>) -> ResultModel {
    ResultModel {
        id: entry,
        title: "cheat.sh/"@ + entry,
        subtitle: Some("Cheat sheet"@),
        relevance: Relevance::Share {
            part: byte_len(term) as usize,
            whole: byte_len(entry) as usize,
        },
        actions: action_menu(),
        icon: None,
        badge: None,
    }
}

/// The names that start with the term, in order.
pub open spec fn matching(names: Seq<Seq<char>>, term: Seq<char>) -> Seq<Seq<char>>
    decreases names.len(),
{
    if names.len() == 0 {
        seq![]
    } else if has_prefix(names.last(), term) {
        matching(names.drop_last(), term).push(names.last())
    } else {
        matching(names.drop_last(), term)
    }
}

/// `sorted` with `e` put behind the last name that is no longer than it.
pub open spec fn insert_by_length(sorted: Seq<Seq<char>>, e: Seq<char>) -> Seq<Seq<char>>
    decreases sorted.len(),
{
    if sorted.len() == 0 || byte_len(sorted.last()) <= byte_len(e) {
        sorted.push(e)
    } else {
        insert_by_length(sorted.drop_last(), e).push(sorted.last())
    }
}

/// The names from the shortest to the longest; names of one length keep their
/// order.
pub open spec fn by_length(names: Seq<Seq<char>>) -> Seq<Seq<char>>
    decreases names.len(),
{
    if names.len() == 0 {
        seq![]
    } else {
        insert_by_length(by_length(names.drop_last()), names.last())
    }
}

/// The most rows that a search shows.
pub const MAX_ROWS: usize = 20;

/// The names in `bucket` that a search for `term` shows, best first.
pub open spec fn found(bucket: Seq<char>, term: Seq<char>) -> Seq<Seq<char>> {
    at_most(by_length(matching(line_list(bucket), term)), MAX_ROWS as int)
}

/// The rows that a term finds. `bucket` is what is cached under its key.
pub open spec fn term_rows(term: Seq<char>, cached: bool, bucket: Option<Seq<char>>) -> Seq<
    ResultModel,
> {
    if term.len() == 0 {
        seq![]
    } else if !cached {
        seq![uncached_row(term)]
    } else {
        match bucket {
            None => seq![],
            Some(b) => {
                let names = found(b, term);
                Seq::new(names.len(), |i: int| entry_row(term, names[i]))
            },
        }
    }
}

/// The rows of a search. `bucket` is what is cached under the key of its term.
pub open spec fn search_rows(query: Seq<char>, cached: bool, bucket: Option<Seq<char>>) -> Seq<
    ResultModel,
> {
    term_rows(term_of(query), cached, bucket)
}

/// The actions of every row.
pub fn actions() -> (r: Vec<Action>)
    ensures
        r.deep_view() == action_menu(),
{
    let r = vec![
        Action::hinted("open", "Open cheat sheet", "in browser"),
        Action::hinted("copy", "Copy sheet text", "fetches plain text"),
    ];
    assert(r.deep_view() =~= action_menu());
    r
}

/// The term that a query asks for.
pub fn search_term(query: &str) -> (r: String)
    ensures
        r@ == term_of(query@),
{
    let t = trim(query);
    to_lowercase(t.as_str())
}

/// The length of a text in bytes.
fn text_byte_len(s: &str) -> (r: usize)
    ensures
        r == byte_len(s@),
{
    s.as_bytes().len()
}

/// Puts `e` behind the last name that is no longer than it.
fn put_by_length(sorted: &mut Vec<String>, e: String)
    ensures
        final(sorted).deep_view() == insert_by_length(old(sorted).deep_view(), e@),
{
    let ghost all = sorted.deep_view();
    let n = text_byte_len(e.as_str());
    let mut j: usize = sorted.len();
    assert(all.take(j as int) =~= all);
    assert(insert_by_length(all, e@) =~= insert_by_length(all.take(j as int), e@) + all.skip(
        j as int,
    ));
    while j > 0 && text_byte_len(sorted[j - 1].as_str()) > n
        invariant
            j <= sorted@.len(),
            all == sorted.deep_view(),
            sorted@ == old(sorted)@,
            n == byte_len(e@),
            insert_by_length(all, e@) == insert_by_length(all.take(j as int), e@) + all.skip(
                j as int,
            ),
        decreases j,
    {
        let ghost head = all.take(j as int);
        assert(head.drop_last() =~= all.take(j - 1));
        assert(head.last() == all[j - 1]);
        assert(insert_by_length(head.drop_last(), e@).push(head.last()) + all.skip(j as int)
            =~= insert_by_length(all.take(j - 1), e@) + all.skip(j - 1));
        j = j - 1;
    }
    assert(j > 0 ==> all.take(j as int).last() == all[j - 1]);
    sorted.insert(j, e);
    assert(sorted.deep_view() =~= all.take(j as int).push(e@) + all.skip(j as int));
}

/// The instant tier. `cached` says whether the list is cached, and `bucket` is
/// what is cached under the key of the search term.
pub fn search(query: &str, cached: bool, bucket: Option<String>) -> (r: Vec<ExtensionResult>)
    ensures
        r.deep_view() == search_rows(query@, cached, bucket.deep_view()),
{
    let term = search_term(query);
    search_lowered(term.as_str(), cached, bucket)
}

/// The rows that a term in lower case finds. `cached` says whether the list is
/// cached, and `bucket` is what is cached under the key of the term.
pub fn search_lowered(term: &str, cached: bool, bucket: Option<String>) -> (r: Vec<ExtensionResult>)
    ensures
        r.deep_view() == term_rows(term@, cached, bucket.deep_view()),
{
    let mut out: Vec<ExtensionResult> = Vec::new();
    if term.is_empty() {
        assert(out.deep_view() =~= term_rows(term@, cached, bucket.deep_view()));
        return out;
    }
    if !cached {
        out.push(
            ExtensionResult {
                id: term.to_owned(),
                title: "cheat.sh/".to_owned().concat(term),
                subtitle: Some("list not cached yet - refreshing in background".to_owned()),
                relevance: Relevance::Fixed(50),
                actions: actions(),
                icon: None,
                badge: Some("uncached".to_owned()),
            },
        );
        assert(out.deep_view() =~= term_rows(term@, cached, bucket.deep_view()));
        return out;
    }
    let b = match bucket {
        Some(b) => b,
        None => {
            assert(out.deep_view() =~= term_rows(term@, cached, bucket.deep_view()));
            return out;
        },
    };
    let names = lines(b.as_str());
    let ghost all = names.deep_view();
    let mut sorted: Vec<String> = Vec::new();
    let mut i: usize = 0;
    assert(sorted.deep_view() =~= by_length(matching(all.take(0), term@)));
    while i < names.len()
        invariant
            i <= names@.len(),
            all == names.deep_view(),
            sorted.deep_view() == by_length(matching(all.take(i as int), term@)),
        decreases names.len() - i,
    {
        assert(all.take(i + 1).drop_last() =~= all.take(i as int));
        if starts_with(names[i].as_str(), term) {
            let ghost before = matching(all.take(i as int), term@);
            assert(before.push(all[i as int]).drop_last() =~= before);
            put_by_length(&mut sorted, names[i].clone());
        }
        i = i + 1;
    }
    assert(all.take(i as int) =~= all);
    let ghost ranked = sorted.deep_view();
    let mut k: usize = 0;
    while k < sorted.len() && k < MAX_ROWS
        invariant
            k <= sorted@.len(),
            k <= MAX_ROWS,
            ranked == sorted.deep_view(),
            out@.len() == k,
            forall|x: int|
                0 <= x < k ==> (#[trigger] out@[x]).deep_view() == entry_row(term@, ranked[x]),
        decreases sorted.len() - k,
    {
        let entry = sorted[k].clone();
        let relevance = Relevance::Share {
            part: text_byte_len(term),
            whole: text_byte_len(entry.as_str()),
        };
        let row = ExtensionResult {
            title: "cheat.sh/".to_owned().concat(entry.as_str()),
            id: entry,
            subtitle: Some("Cheat sheet".to_owned()),
            relevance,
            actions: actions(),
            icon: None,
            badge: None,
        };
        assert(row.deep_view() =~= entry_row(term@, ranked[k as int]));
        out.push(row);
        k = k + 1;
    }
    assert(out.deep_view() =~= term_rows(term@, cached, bucket.deep_view()));
    out
}

// ---------------------------------------------------------------------------
// Query: the live tier
// ---------------------------------------------------------------------------

/// The first line of a sheet, trimmed, that is neither blank nor a comment.
pub open spec fn snippet_of(lines: Seq<Seq<char>>) -> Seq<char>
    decreases lines.len(),
{
    if lines.len() == 0 {
        "cheat sheet"@
    } else {
        let l = trimmed(lines[0]);
        if l.len() > 0 && !has_prefix(l, "#"@) {
            l
        } else {
            snippet_of(lines.skip(1))
        }
    }
}

/// Where the plain text of a sheet is.
pub open spec fn sheet_address(term: Seq<char>) -> Seq<char> {
    "https://cheat.sh/"@ + term + "?T"@
}

/// Whether a sheet is the page that answers an unknown term.
pub open spec fn is_unknown(sheet: Seq<char>) -> bool {
    has_prefix(trimmed_start(sheet), "Unknown topic"@)
}

/// The row for a term whose sheet was fetched.
pub open spec fn live_row(term: Seq<char>, sheet: Seq<char>) -> ResultModel {
    ResultModel {
        id: term,
        title: "cheat.sh/"@ + term,
        subtitle: Some(snippet_of(line_list(sheet))),
        relevance: Relevance::Fixed(100),
        actions: action_menu(),
        icon: None,
        badge: Some("online"@),
    }
}

/// The row of a term whose sheet was fetched, unless the term is empty or the
/// sheet says that it is unknown.
pub open spec fn confirmed(term: Seq<char>, sheet: Seq<char>) -> Option<ResultModel> {
    if term.len() == 0 || is_unknown(sheet) {
        None
    } else {
        Some(live_row(term, sheet))
    }
}

/// Where the plain text of a sheet is.
pub fn sheet_url(term: &str) -> (r: String)
    ensures
        r@ == sheet_address(term@),
{
    "https://cheat.sh/".to_owned().concat(term).concat("?T")
}

/// What the live tier fetches for a term: nothing if it is empty.
pub open spec fn live_source(term: Seq<char>) -> Option<Seq<char>> {
    if term.len() == 0 {
        None
    } else {
        Some(sheet_address(term))
    }
}

/// What the live tier fetches for a query: nothing if the term is empty.
pub fn query_url(query: &str) -> (r: Option<String>)
    ensures
        r.deep_view() == live_source(term_of(query@)),
{
    let term = search_term(query);
    query_url_lowered(term.as_str())
}

/// What the live tier fetches for a term in lower case.
pub fn query_url_lowered(term: &str) -> (r: Option<String>)
    ensures
        r.deep_view() == live_source(term@),
{
    if term.is_empty() {
        None
    } else {
        Some(sheet_url(term))
    }
}

/// The one-line preview of a sheet.
fn snippet(sheet: &str) -> (r: String)
    ensures
        r@ == snippet_of(line_list(sheet@)),
{
    let all = lines(sheet);
    let ghost ls = all.deep_view();
    let mut i: usize = 0;
    assert(ls.skip(0) =~= ls);
    while i < all.len()
        invariant
            i <= all@.len(),
            ls == all.deep_view(),
            ls == line_list(sheet@),
            snippet_of(ls) == snippet_of(ls.skip(i as int)),
        decreases all.len() - i,
    {
        let l = trim(all[i].as_str());
        assert(ls.skip(i as int).skip(1) =~= ls.skip(i + 1));
        if !l.as_str().is_empty() && !starts_with(l.as_str(), "#") {
            return l;
        }
        i = i + 1;
    }
    "cheat sheet".to_owned()
}

/// The live tier, once the sheet of the query's term was fetched: the row that
/// replaces the cached one, or nothing for an unknown term.
pub fn query(input: &str, sheet: &str) -> (r: Option<ExtensionResult>)
    ensures
        r.deep_view() == confirmed(term_of(input@), sheet@),
{
    let term = search_term(input);
    query_lowered(term.as_str(), sheet)
}

/// The live tier for a term in lower case.
pub fn query_lowered(term: &str, sheet: &str) -> (r: Option<ExtensionResult>)
    ensures
        r.deep_view() == confirmed(term@, sheet@),
{
    if term.is_empty() {
        return None;
    }
    let body = trim_start(sheet);
    if starts_with(body.as_str(), "Unknown topic") {
        return None;
    }
    let row = ExtensionResult {
        id: term.to_owned(),
        title: "cheat.sh/".to_owned().concat(term),
        subtitle: Some(snippet(sheet)),
        relevance: Relevance::Fixed(100),
        actions: actions(),
        icon: None,
        badge: Some("online".to_owned()),
    };
    assert(row.deep_view() =~= live_row(term@, sheet@));
    Some(row)
}

// ---------------------------------------------------------------------------
// Activate
// ---------------------------------------------------------------------------

/// What an activation asks for: the effects, or first the sheet to copy.
#[derive(Debug, PartialEq, Eq)]
pub enum ActivateStep {
    Done(Vec<ActivateEffect>),
    FetchToCopy { url: String },
}

/// Whether a step is what an action on the row `id` leads to.
pub open spec fn step_of(step: ActivateStep, id: Seq<char>, action: Option<Seq<char>>) -> bool {
    match step {
        ActivateStep::FetchToCopy { url } => action == Some("copy"@) && url@ == sheet_address(id),
        ActivateStep::Done(effects) => action != Some("copy"@) && effects.deep_view() == opening(
            "https://cheat.sh/"@ + id,
        ),
    }
}

/// Activates the row `id`: `copy` fetches the sheet first, any other action
/// opens it in the browser.
pub fn activate(id: &str, action: Option<&str>) -> (r: ActivateStep)
    ensures
        step_of(
            r,
            id@,
            match action {
                Some(a) => Some(a@),
                None => None,
            },
        ),
{
    let copy = match action {
        Some(a) => same(a, "copy"),
        None => false,
    };
    if copy {
        ActivateStep::FetchToCopy { url: sheet_url(id) }
    } else {
        ActivateStep::Done(crate::host::open("https://cheat.sh/".to_owned().concat(id)))
    }
}

/// The effects of copying the sheet of `id`, whose text is `body`.
pub open spec fn copied_sheet(id: Seq<char>, body: Seq<char>) -> Seq<EffectModel> {
    copying(body, "Copied cheat.sh/"@ + id)
}

/// The effects of copying the sheet of `id`, once it was fetched.
pub fn copy_sheet(id: &str, body: String) -> (r: Vec<ActivateEffect>)
    ensures
        r.deep_view() == copied_sheet(id@, body@),
{
    let msg = "Copied cheat.sh/".to_owned().concat(id);
    crate::host::copy_toast(body, msg.as_str())
}

// ---------------------------------------------------------------------------
// Preview: a sheet as sections of commands and descriptions
// ---------------------------------------------------------------------------

/// Escapes text for the preview.
pub fn html_escape(s: &str) -> (r: String)
    ensures
        r@ == html_escaped(s@, false),
{
    escape_html(s, false)
}

/// Whether a row may be split at `i`: two spaces stand there, with text before
/// and after them.
pub open spec fn splits_at(line: Seq<char>, i: int) -> bool {
    &&& 0 <= i
    &&& i + 1 < line.len()
    &&& line[i] == ' '
    &&& line[i + 1] == ' '
    &&& trimmed(line.take(i)).len() > 0
    &&& trimmed(line.skip(i)).len() > 0
}

/// The cells of a row, split at the first place at or after `i` that allows it.
pub open spec fn cells_from(line: Seq<char>, i: int) -> Seq<Seq<char>>
    decreases line.len() - i,
{
    if i >= line.len() {
        seq![trimmed(line)]
    } else if splits_at(line, i) {
        seq![trimmed(line.take(i)), trimmed(line.skip(i))]
    } else {
        cells_from(line, i + 1)
    }
}

/// The cells of a row: command and description, or the whole line.
pub open spec fn cells(line: Seq<char>) -> Seq<Seq<char>> {
    cells_from(line, 0)
}

/// Splits a row on its first run of two or more spaces that has text before
/// and after it.
pub fn split_row(line: &str) -> (r: Vec<String>)
    ensures
        r.deep_view() == cells(line@),
{
    let v = to_chars(line);
    let mut i: usize = 0;
    while i < v.len()
        invariant
            i <= v@.len(),
            v@ == line@,
            cells(line@) == cells_from(line@, i as int),
        decreases v.len() - i,
    {
        if v[i] == ' ' && i + 1 < v.len() && v[i + 1] == ' ' {
            let head = text_between(v.as_slice(), 0, i);
            let tail = text_between(v.as_slice(), i, v.len());
            assert(head@ =~= line@.take(i as int));
            assert(tail@ =~= line@.skip(i as int));
            let cmd = trim(head.as_str());
            let desc = trim(tail.as_str());
            if !cmd.as_str().is_empty() && !desc.as_str().is_empty() {
                let r = vec![cmd, desc];
                assert(r.deep_view() =~= cells(line@));
                return r;
            }
        }
        i = i + 1;
    }
    let r = vec![trim(line)];
    assert(r.deep_view() =~= cells(line@));
    r
}

/// A run of rows under one heading.
#[derive(Debug, PartialEq, Eq)]
pub struct Section {
    pub heading: Option<String>,
    pub rows: Vec<Vec<String>>,
}

#[verifier::ext_equal]
pub struct SectionModel {
    pub heading: Option<Seq<char>>,
    pub rows: Seq<Seq<Seq<char>>>,
}

impl DeepView for Section {
    type V = SectionModel;

    open spec fn deep_view(&self) -> SectionModel {
        SectionModel { heading: self.heading.deep_view(), rows: self.rows.deep_view() }
    }
}

/// The lines without the `#[cheat…` line that may head them.
pub open spec fn after_header(lines: Seq<Seq<char>>) -> Seq<Seq<char>> {
    if lines.len() > 0 && has_prefix(lines[0], "#[cheat"@) {
        lines.skip(1)
    } else {
        lines
    }
}

/// The lines after the first `---` line; none if there is none.
pub open spec fn after_fence(lines: Seq<Seq<char>>) -> Seq<Seq<char>>
    decreases lines.len(),
{
    if lines.len() == 0 {
        lines
    } else if trimmed(lines[0]) == "---"@ {
        lines.skip(1)
    } else {
        after_fence(lines.skip(1))
    }
}

/// The lines without the frontmatter that may head them, between two `---`
/// lines.
pub open spec fn after_frontmatter(lines: Seq<Seq<char>>) -> Seq<Seq<char>> {
    if lines.len() > 0 && trimmed(lines[0]) == "---"@ {
        after_fence(lines.skip(1))
    } else {
        lines
    }
}

/// The sections of the lines, where `heading` and `rows` are what precedes
/// them. A heading starts a new section once the section before it has rows;
/// `#[` lines and blank lines are left out.
pub open spec fn sections_from(
    lines: Seq<Seq<char>>,
    heading: Option<Seq<char>>,
    rows: Seq<Seq<Seq<char>>>,
) -> Seq<SectionModel>
    decreases lines.len(),
{
    if lines.len() == 0 {
        if rows.len() > 0 {
            seq![SectionModel { heading, rows }]
        } else {
            seq![]
        }
    } else {
        let line = lines[0];
        let rest = lines.skip(1);
        if has_prefix(line, "#["@) {
            sections_from(rest, heading, rows)
        } else {
            match without_prefix(line, "# "@) {
                Some(h) => if rows.len() > 0 {
                    seq![SectionModel { heading, rows }] + sections_from(
                        rest,
                        Some(trimmed(h)),
                        seq![],
                    )
                } else {
                    sections_from(rest, Some(trimmed(h)), rows)
                },
                None => if trimmed(line).len() == 0 {
                    sections_from(rest, heading, rows)
                } else {
                    sections_from(rest, heading, rows.push(cells(line)))
                },
            }
        }
    }
}

/// The sections of a sheet.
pub open spec fn sections_of(raw: Seq<char>) -> Seq<SectionModel> {
    sections_from(after_frontmatter(after_header(line_list(raw))), None, seq![])
}

pub const SHEET_OPEN: &'static str = "<div class=\"col\" style=\"gap:0;padding:14px 18px;min-height:100%\">";

pub const DIVIDER: &'static str = "<hr class=\"divider\">";

pub const SECTION_OPEN: &'static str = "<div style=\"padding:8px 0\">";

pub const HEADING_OPEN: &'static str = "<div class=\"text-label\" style=\"margin-bottom:6px\">";

pub const ROWS_OPEN: &'static str = "<div class=\"col\" style=\"gap:3px\">";

pub const SOLO_OPEN: &'static str = "<code class=\"mono accent-line\" style=\"display:block;padding-top:2px;padding-bottom:2px\">";

pub const COMMAND_OPEN: &'static str = "<div class=\"row\" style=\"align-items:baseline;gap:0\"><code class=\"mono\" style=\"color:var(--accent);white-space:nowrap;padding-right:12px;flex-shrink:0\">";

pub const DESCRIPTION_OPEN: &'static str = "</code><span class=\"text-dim\" style=\"font-size:12px\">";

/// One row in HTML: a command alone, or a command and its description.
pub open spec fn row_html(row: Seq<Seq<char>>) -> Seq<char> {
    if row.len() == 0 {
        seq![]
    } else if row.len() == 1 {
        SOLO_OPEN@ + html_escaped(row[0], false) + "</code>"@
    } else {
        COMMAND_OPEN@ + html_escaped(row[0], false) + DESCRIPTION_OPEN@ + html_escaped(
            joined(row.skip(1), "  "@),
            false,
        ) + "</span></div>"@
    }
}

/// Rows in HTML, one after the other.
pub open spec fn rows_html(rows: Seq<Seq<Seq<char>>>) -> Seq<char>
    decreases rows.len(),
{
    if rows.len() == 0 {
        seq![]
    } else {
        rows_html(rows.drop_last()) + row_html(rows.last())
    }
}

/// One section in HTML.
pub open spec fn section_html(section: SectionModel) -> Seq<char> {
    SECTION_OPEN@ + (match section.heading {
        Some(h) => HEADING_OPEN@ + html_escaped(h, false) + "</div>"@,
        None => seq![],
    }) + ROWS_OPEN@ + rows_html(section.rows) + "</div></div>"@
}

/// Sections in HTML, with a divider between them.
pub open spec fn sections_html(sections: Seq<SectionModel>) -> Seq<char>
    decreases sections.len(),
{
    if sections.len() == 0 {
        seq![]
    } else if sections.len() == 1 {
        section_html(sections[0])
    } else {
        sections_html(sections.drop_last()) + DIVIDER@ + section_html(sections.last())
    }
}

/// The preview of a sheet: its sections as HTML, or the plain text where it has
/// no sections.
pub open spec fn sheet_preview(raw: Seq<char>) -> PreviewModel {
    let sections = sections_of(raw);
    if sections.len() == 0 {
        PreviewModel::Code { lang: "text"@, content: trimmed(raw) }
    } else {
        PreviewModel::Html { content: SHEET_OPEN@ + sections_html(sections) + "</div>"@ }
    }
}

/// The index of the first line after the header and the frontmatter.
fn body_start(all: &Vec<String>) -> (i: usize)
    ensures
        i <= all@.len(),
        all.deep_view().skip(i as int) == after_frontmatter(after_header(all.deep_view())),
{
    let ghost ls = all.deep_view();
    let mut i: usize = 0;
    assert(ls.skip(0) =~= ls);
    if all.len() > 0 && starts_with(all[0].as_str(), "#[cheat") {
        i = 1;
    }
    assert(ls.skip(i as int) =~= after_header(ls));
    if i < all.len() {
        let first = trim(all[i].as_str());
        if same(first.as_str(), "---") {
            let ghost body = after_header(ls).skip(1);
            i = i + 1;
            assert(ls.skip(i as int) =~= body);
            while i < all.len()
                invariant
                    i <= all@.len(),
                    ls == all.deep_view(),
                    after_fence(body) == after_fence(ls.skip(i as int)),
                    body == after_header(ls).skip(1),
                    after_header(ls).len() > 0,
                    trimmed(after_header(ls)[0]) == "---"@,
                decreases all.len() - i,
            {
                assert(ls.skip(i as int).skip(1) =~= ls.skip(i + 1));
                let line = trim(all[i].as_str());
                if same(line.as_str(), "---") {
                    return i + 1;
                }
                i = i + 1;
            }
        }
    }
    i
}

/// The sections of a sheet.
fn sections(raw: &str) -> (r: Vec<Section>)
    ensures
        r.deep_view() == sections_of(raw@),
{
    let all = lines(raw);
    let ghost ls = all.deep_view();
    let mut i = body_start(&all);
    let ghost start = i as int;
    let mut out: Vec<Section> = Vec::new();
    let mut heading: Option<String> = None;
    let mut rows: Vec<Vec<String>> = Vec::new();
    let ghost goal = sections_of(raw@);
    assert(rows.deep_view() =~= seq![]);
    assert(out.deep_view() + goal =~= goal);
    while i < all.len()
        invariant
            i <= all@.len(),
            ls == all.deep_view(),
            out.deep_view() + sections_from(
                ls.skip(i as int),
                heading.deep_view(),
                rows.deep_view(),
            ) == goal,
        decreases all.len() - i,
    {
        let ghost rest = ls.skip(i + 1);
        let ghost before = out.deep_view();
        let ghost h0 = heading.deep_view();
        let ghost r0 = rows.deep_view();
        assert(ls.skip(i as int).skip(1) =~= rest);
        assert(ls.skip(i as int)[0] == all@[i as int]@);
        let line = &all[i];
        if !starts_with(line.as_str(), "#[") {
            match strip_prefix(line.as_str(), "# ") {
                Some(h) => {
                    if rows.len() > 0 {
                        out.push(Section { heading, rows });
                        assert(out.deep_view() =~= before.push(
                            SectionModel { heading: h0, rows: r0 },
                        ));
                        rows = Vec::new();
                        assert(rows.deep_view() =~= seq![]);
                        assert(before + (seq![SectionModel { heading: h0, rows: r0 }]
                            + sections_from(rest, Some(trimmed(h@)), seq![])) =~= out.deep_view()
                            + sections_from(rest, Some(trimmed(h@)), seq![]));
                    }
                    heading = Some(trim(h.as_str()));
                },
                None => {
                    let t = trim(line.as_str());
                    if !t.as_str().is_empty() {
                        rows.push(split_row(line.as_str()));
                        assert(rows.deep_view() =~= r0.push(cells(all@[i as int]@)));
                    }
                },
            }
        }
        i = i + 1;
    }
    let ghost before = out.deep_view();
    let ghost h0 = heading.deep_view();
    let ghost r0 = rows.deep_view();
    if rows.len() > 0 {
        out.push(Section { heading, rows });
        assert(out.deep_view() =~= before + seq![SectionModel { heading: h0, rows: r0 }]);
    } else {
        assert(before + seq![] =~= before);
    }
    out
}

/// One row in HTML, behind `out`.
fn push_row(out: &mut String, row: &Vec<String>)
    ensures
        final(out)@ == old(out)@ + row_html(row.deep_view()),
{
    let ghost before = out@;
    if row.len() == 1 {
        out.append(SOLO_OPEN);
        let cell = html_escape(row[0].as_str());
        out.append(cell.as_str());
        out.append("</code>");
        assert(out@ =~= before + row_html(row.deep_view()));
    } else if row.len() > 1 {
        out.append(COMMAND_OPEN);
        let cmd = html_escape(row[0].as_str());
        out.append(cmd.as_str());
        out.append(DESCRIPTION_OPEN);
        let mut rest: Vec<String> = Vec::new();
        let mut i: usize = 1;
        while i < row.len()
            invariant
                1 <= i <= row@.len(),
                rest@.len() == i - 1,
                forall|k: int| 0 <= k < i - 1 ==> (#[trigger] rest@[k])@ == row@[k + 1]@,
            decreases row.len() - i,
        {
            rest.push(row[i].clone());
            i = i + 1;
        }
        assert(rest.deep_view() =~= row.deep_view().skip(1));
        let text = join(&rest, "  ");
        let desc = html_escape(text.as_str());
        out.append(desc.as_str());
        out.append("</span></div>");
        assert(out@ =~= before + row_html(row.deep_view()));
    } else {
        assert(out@ =~= before + row_html(row.deep_view()));
    }
}

/// One section in HTML, behind `out`.
fn push_section(out: &mut String, section: &Section)
    ensures
        final(out)@ == old(out)@ + section_html(section.deep_view()),
{
    let ghost before = out@;
    let ghost model = section.deep_view();
    out.append(SECTION_OPEN);
    match &section.heading {
        Some(h) => {
            out.append(HEADING_OPEN);
            let text = html_escape(h.as_str());
            out.append(text.as_str());
            out.append("</div>");
        },
        None => {},
    }
    out.append(ROWS_OPEN);
    let ghost head = out@;
    let ghost rows = section.rows.deep_view();
    let mut i: usize = 0;
    assert(head + rows_html(rows.take(0)) =~= head);
    while i < section.rows.len()
        invariant
            i <= section.rows@.len(),
            rows == section.rows.deep_view(),
            out@ == head + rows_html(rows.take(i as int)),
        decreases section.rows.len() - i,
    {
        assert(rows.take(i + 1).drop_last() =~= rows.take(i as int));
        push_row(out, &section.rows[i]);
        assert(head + rows_html(rows.take(i as int)) + row_html(rows[i as int]) =~= head
            + rows_html(rows.take(i + 1)));
        i = i + 1;
    }
    assert(rows.take(i as int) =~= rows);
    out.append("</div></div>");
    assert(out@ =~= before + section_html(model));
}

/// Turns the plain text of a sheet into a preview: its sections as HTML, or a
/// code block where no structure is found.
pub fn parse_cheatsh(raw: &str) -> (r: PreviewContent)
    ensures
        r.deep_view() == sheet_preview(raw@),
{
    let all = sections(raw);
    if all.len() == 0 {
        return PreviewContent::Code { lang: "text".to_owned(), content: trim(raw) };
    }
    let ghost model = all.deep_view();
    let mut html = SHEET_OPEN.to_owned();
    let mut i: usize = 0;
    assert(html@ =~= SHEET_OPEN@ + sections_html(model.take(0)));
    while i < all.len()
        invariant
            i <= all@.len(),
            model == all.deep_view(),
            html@ == SHEET_OPEN@ + sections_html(model.take(i as int)),
        decreases all.len() - i,
    {
        assert(model.take(i + 1).drop_last() =~= model.take(i as int));
        let ghost before = html@;
        if i > 0 {
            html.append(DIVIDER);
        }
        push_section(&mut html, &all[i]);
        if i > 0 {
            assert(html@ =~= SHEET_OPEN@ + (sections_html(model.take(i as int)) + DIVIDER@
                + section_html(model[i as int])));
        } else {
            assert(html@ =~= SHEET_OPEN@ + section_html(model[0]));
        }
        i = i + 1;
    }
    assert(model.take(i as int) =~= model);
    html.append("</div>");
    PreviewContent::Html { content: html }
}

/// The preview of a row, from the plain text of its sheet.
pub fn preview(sheet: Option<&str>) -> (r: PreviewContent)
    ensures
        r.deep_view() == (match sheet {
            Some(s) => sheet_preview(s@),
            None => PreviewModel::Metadata { items: seq![] },
        }),
{
    match sheet {
        Some(s) => parse_cheatsh(s),
        None => {
            let r = PreviewContent::Metadata { items: Vec::new() };
            assert(r.deep_view() =~= PreviewModel::Metadata { items: seq![] });
            r
        },
    }
}

// ---------------------------------------------------------------------------
// What a preview shows of a sheet
// ---------------------------------------------------------------------------

/// Whether a line of a sheet is a row: it is not blank, and starts neither with a
/// heading nor with a remark.
pub open spec fn is_row(line: Seq<char>) -> bool {
    &&& trimmed(line).len() > 0
    &&& !has_prefix(line, "#["@)
    &&& !has_prefix(line, "# "@)
}

/// The text of the last heading among the lines; `start` where there is none.
pub open spec fn last_heading(lines: Seq<Seq<char>>, start: Option<Seq<char>>) -> Option<Seq<char>>
    decreases lines.len(),
{
    if lines.len() == 0 {
        start
    } else if has_prefix(lines.last(), "# "@) {
        Some(trimmed(lines.last().skip(2)))
    } else {
        last_heading(lines.drop_last(), start)
    }
}

/// The cells of each row among the lines, with the last heading above it.
pub open spec fn rows_under(lines: Seq<Seq<char>>, start: Option<Seq<char>>) -> Seq<
    (Option<Seq<char>>, Seq<Seq<char>>),
>
    decreases lines.len(),
{
    if lines.len() == 0 {
        seq![]
    } else {
        let above = lines.drop_last();
        if is_row(lines.last()) {
            rows_under(above, start).push((last_heading(above, start), cells(lines.last())))
        } else {
            rows_under(above, start)
        }
    }
}

/// Rows with a heading.
pub open spec fn headed(heading: Option<Seq<char>>, rows: Seq<Seq<Seq<char>>>) -> Seq<
    (Option<Seq<char>>, Seq<Seq<char>>),
> {
    Seq::new(rows.len(), |i: int| (heading, rows[i]))
}

/// All rows of the sections, each with the heading of its section.
pub open spec fn section_rows(sections: Seq<SectionModel>) -> Seq<
    (Option<Seq<char>>, Seq<Seq<char>>),
>
    decreases sections.len(),
{
    if sections.len() == 0 {
        seq![]
    } else {
        section_rows(sections.drop_last()) + headed(
            sections.last().heading,
            sections.last().rows,
        )
    }
}

proof fn lemma_section_rows_front(first: SectionModel, rest: Seq<SectionModel>)
    ensures
        section_rows(seq![first] + rest) == headed(first.heading, first.rows) + section_rows(rest),
    decreases rest.len(),
{
    let all = seq![first] + rest;
    let own = headed(first.heading, first.rows);
    if rest.len() == 0 {
        assert(all.drop_last() =~= seq![]);
        assert(section_rows(all.drop_last()) =~= seq![]);
        assert(all.last() == first);
        assert(section_rows(all) =~= own);
        assert(own + section_rows(rest) =~= own);
    } else {
        lemma_section_rows_front(first, rest.drop_last());
        assert(all.drop_last() =~= seq![first] + rest.drop_last());
        let end = headed(rest.last().heading, rest.last().rows);
        assert(own + section_rows(rest.drop_last()) + end =~= own + section_rows(rest));
    }
}

proof fn lemma_rows_under_front(
    line: Seq<char>,
    rest: Seq<Seq<char>>,
    start: Option<Seq<char>>,
)
    ensures
        ({
            let next = if has_prefix(line, "# "@) {
                Some(trimmed(line.skip(2)))
            } else {
                start
            };
            let own = if is_row(line) {
                seq![(start, cells(line))]
            } else {
                seq![]
            };
            &&& last_heading(seq![line] + rest, start) == last_heading(rest, next)
            &&& rows_under(seq![line] + rest, start) == own + rows_under(rest, next)
        }),
    decreases rest.len(),
{
    let all = seq![line] + rest;
    let next = if has_prefix(line, "# "@) {
        Some(trimmed(line.skip(2)))
    } else {
        start
    };
    let own = if is_row(line) {
        seq![(start, cells(line))]
    } else {
        seq![]
    };
    if rest.len() == 0 {
        assert(all.drop_last() =~= seq![]);
        assert(last_heading(all.drop_last(), start) == start);
        assert(rows_under(all.drop_last(), start) =~= seq![]);
        assert(rows_under(all, start) =~= own + rows_under(rest, next));
    } else {
        lemma_rows_under_front(line, rest.drop_last(), start);
        assert(all.drop_last() =~= seq![line] + rest.drop_last());
        assert(rows_under(all, start) =~= own + rows_under(rest, next));
    }
}

proof fn lemma_sections_keep_rows(
    lines: Seq<Seq<char>>,
    heading: Option<Seq<char>>,
    rows: Seq<Seq<Seq<char>>>,
)
    ensures
        section_rows(sections_from(lines, heading, rows)) == headed(heading, rows) + rows_under(
            lines,
            heading,
        ),
        forall|k: int|
            0 <= k < sections_from(lines, heading, rows).len() ==> (#[trigger] sections_from(
                lines,
                heading,
                rows,
            )[k]).rows.len() > 0,
    decreases lines.len(),
{
    let all = sections_from(lines, heading, rows);
    let own = SectionModel { heading, rows };
    if lines.len() == 0 {
        assert(headed(heading, rows) + rows_under(lines, heading) =~= headed(heading, rows));
        if rows.len() > 0 {
            assert(all =~= seq![own] + Seq::<SectionModel>::empty());
            lemma_section_rows_front(own, seq![]);
            assert(headed(heading, rows) + section_rows(seq![]) =~= headed(heading, rows));
        } else {
            assert(section_rows(all) =~= headed(heading, rows));
        }
    } else {
        reveal_strlit("#[");
        reveal_strlit("# ");
        let line = lines[0];
        let rest = lines.skip(1);
        assert(lines =~= seq![line] + rest);
        lemma_rows_under_front(line, rest, heading);
        if has_prefix(line, "#["@) {
            assert(!has_prefix(line, "# "@)) by {
                assert(line.take(2)[1] == line[1]);
            }
            lemma_sections_keep_rows(rest, heading, rows);
            assert(headed(heading, rows) + rows_under(lines, heading) =~= headed(heading, rows)
                + rows_under(rest, heading));
        } else if has_prefix(line, "# "@) {
            let h = Some(trimmed(line.skip(2)));
            if rows.len() > 0 {
                lemma_sections_keep_rows(rest, h, seq![]);
                let more = sections_from(rest, h, seq![]);
                lemma_section_rows_front(own, more);
                assert(headed(h, seq![]) + rows_under(rest, h) =~= rows_under(rest, h));
                assert(headed(heading, rows) + rows_under(lines, heading) =~= headed(heading, rows)
                    + rows_under(rest, h));
                assert forall|k: int| 0 <= k < all.len() implies (
                #[trigger] all[k]).rows.len() > 0 by {
                    if k > 0 {
                        assert(all[k] == more[k - 1]);
                    }
                }
            } else {
                lemma_sections_keep_rows(rest, h, rows);
                assert(headed(heading, rows) + rows_under(lines, heading) =~= headed(h, rows)
                    + rows_under(rest, h));
            }
        } else if trimmed(line).len() == 0 {
            lemma_sections_keep_rows(rest, heading, rows);
            assert(headed(heading, rows) + rows_under(lines, heading) =~= headed(heading, rows)
                + rows_under(rest, heading));
        } else {
            lemma_sections_keep_rows(rest, heading, rows.push(cells(line)));
            assert(headed(heading, rows.push(cells(line))) + rows_under(rest, heading) =~= headed(
                heading,
                rows,
            ) + rows_under(lines, heading));
        }
    }
}

/// No row of a sheet is lost: the rows of its sections are, in order, the cells of
/// every line that is one, and each stands in a section with the last heading
/// above it. No section is without rows.
pub proof fn law_sections_hold_every_row(raw: Seq<char>)
    ensures
        section_rows(sections_of(raw)) == rows_under(
            after_frontmatter(after_header(line_list(raw))),
            None,
        ),
        forall|k: int|
            0 <= k < sections_of(raw).len() ==> (#[trigger] sections_of(raw)[k]).rows.len() > 0,
{
    let body = after_frontmatter(after_header(line_list(raw)));
    lemma_sections_keep_rows(body, None, seq![]);
    assert(headed(None, seq![]) + rows_under(body, None) =~= rows_under(body, None));
}

proof fn lemma_after_fence(inner: Seq<Seq<char>>, fence: Seq<char>, rest: Seq<Seq<char>>)
    requires
        forall|i: int| 0 <= i < inner.len() ==> trimmed(#[trigger] inner[i]) != "---"@,
        trimmed(fence) == "---"@,
    ensures
        after_fence(inner + seq![fence] + rest) == rest,
        after_fence(inner) == Seq::<Seq<char>>::empty(),
    decreases inner.len(),
{
    let all = inner + seq![fence] + rest;
    if inner.len() == 0 {
        assert(all.skip(1) =~= rest);
        assert(inner =~= Seq::<Seq<char>>::empty());
    } else {
        let more = inner.skip(1);
        assert(trimmed(inner[0]) != "---"@);
        assert forall|i: int| 0 <= i < more.len() implies trimmed(#[trigger] more[i]) != "---"@ by {
            assert(more[i] == inner[i + 1]);
        }
        lemma_after_fence(more, fence, rest);
        assert(all.skip(1) =~= more + seq![fence] + rest);
    }
}

/// Only a `#[cheat` line at the top and what stands between two `---` lines below
/// it are no part of a sheet's body; where the second is missing nothing is left.
pub proof fn law_body_starts_behind_frontmatter(
    head: Seq<char>,
    open: Seq<char>,
    inner: Seq<Seq<char>>,
    close: Seq<char>,
    rest: Seq<Seq<char>>,
)
    requires
        trimmed(open) == "---"@,
        trimmed(close) == "---"@,
        forall|i: int| 0 <= i < inner.len() ==> trimmed(#[trigger] inner[i]) != "---"@,
    ensures
        after_header(seq![head] + rest) == (if has_prefix(head, "#[cheat"@) {
            rest
        } else {
            seq![head] + rest
        }),
        after_frontmatter(seq![open] + inner + seq![close] + rest) == rest,
        after_frontmatter(seq![open] + inner) == Seq::<Seq<char>>::empty(),
        trimmed(head) != "---"@ ==> after_frontmatter(seq![head] + rest) == seq![head] + rest,
{
    assert((seq![head] + rest).skip(1) =~= rest);
    lemma_after_fence(inner, close, rest);
    assert((seq![open] + inner + seq![close] + rest).skip(1) =~= inner + seq![close] + rest);
    assert((seq![open] + inner).skip(1) =~= inner);
}

proof fn lemma_cells_from(line: Seq<char>, i: int, k: int)
    requires
        0 <= i <= k < line.len(),
        splits_at(line, k),
        forall|j: int| i <= j < k ==> !#[trigger] splits_at(line, j),
    ensures
        cells_from(line, i) == seq![trimmed(line.take(k)), trimmed(line.skip(k))],
    decreases k - i,
{
    if i < k {
        assert(!splits_at(line, i));
        lemma_cells_from(line, i + 1, k);
    }
}

proof fn lemma_cells_whole(line: Seq<char>, i: int)
    requires
        0 <= i,
        forall|j: int| i <= j < line.len() ==> !#[trigger] splits_at(line, j),
    ensures
        cells_from(line, i) == seq![trimmed(line)],
    decreases line.len() - i,
{
    if i < line.len() {
        assert(!splits_at(line, i));
        lemma_cells_whole(line, i + 1);
    }
}

/// Whether two spaces stand side by side in a text.
pub open spec fn has_gap(t: Seq<char>) -> bool {
    exists|j: int| 0 <= j && j + 1 < t.len() && #[trigger] t[j] == ' ' && t[j + 1] == ' '
}

/// A row with a command, a gap of two spaces or more, and a description is split
/// there, whatever else the description holds; spaces before the command are no
/// gap, and a row without a gap is one cell.
pub proof fn law_row_is_split_at_its_gap(
    lead: Seq<char>,
    command: Seq<char>,
    gap: Seq<char>,
    description: Seq<char>,
)
    requires
        forall|i: int| 0 <= i < lead.len() ==> #[trigger] lead[i] == ' ',
        command.len() > 0 && !white(command[0]) && !white(command.last()),
        !has_gap(command),
        gap.len() >= 2 && forall|i: int| 0 <= i < gap.len() ==> #[trigger] gap[i] == ' ',
        description.len() > 0 && !white(description[0]) && !white(description.last()),
    ensures
        cells(lead + command + gap + description) == seq![command, description],
        cells(lead + command) == seq![command],
        cells(lead + command + gap) == seq![command],
{
    let none: Seq<char> = seq![];
    let line = lead + command + gap + description;
    let n = lead.len() as int;
    let k = n + command.len();
    assert forall|i: int| 0 <= i < lead.len() implies white(#[trigger] lead[i]) by {
        assert(lead[i] == ' ');
    }
    assert forall|i: int| 0 <= i < gap.len() implies white(#[trigger] gap[i]) by {
        assert(gap[i] == ' ');
    }
    assert forall|j: int| 0 <= j < k implies !#[trigger] splits_at(line, j) by {
        if line[j] == ' ' && line[j + 1] == ' ' {
            if j < n {
                lemma_blank_head(lead, j);
                assert(line.take(j) =~= lead.take(j));
            } else if j + 1 < k {
                assert(command[j - n] == ' ' && command[j - n + 1] == ' ');
            } else {
                assert(line[j] == command.last());
            }
        }
    }
    assert(line[k as int] == gap[0] && line[k + 1] == gap[1]);
    assert(line.take(k as int) =~= lead + command + none);
    lemma_trimmed_is(lead, command, none);
    assert(line.skip(k as int) =~= gap + description + none);
    lemma_trimmed_is(gap, description, none);
    assert(splits_at(line, k as int));
    lemma_cells_from(line, 0, k as int);
    let short = lead + command;
    assert(short =~= lead + command + none);
    assert forall|j: int| 0 <= j < short.len() implies !#[trigger] splits_at(short, j) by {
        if j + 1 < short.len() && short[j] == ' ' && short[j + 1] == ' ' {
            if j < n {
                lemma_blank_head(lead, j);
                assert(short.take(j) =~= lead.take(j));
            } else {
                assert(command[j - n] == ' ' && command[j - n + 1] == ' ');
            }
        }
    }
    lemma_cells_whole(short, 0);
    let open = lead + command + gap;
    lemma_trimmed_is(lead, command, gap);
    assert forall|j: int| 0 <= j < open.len() implies !#[trigger] splits_at(open, j) by {
        if j + 1 < open.len() && open[j] == ' ' && open[j + 1] == ' ' {
            if j < n {
                lemma_blank_head(lead, j);
                assert(open.take(j) =~= lead.take(j));
            } else if j + 1 < k {
                assert(command[j - n] == ' ' && command[j - n + 1] == ' ');
            } else if j < k {
                assert(open[j] == command.last());
            } else {
                let tail = open.skip(j);
                assert forall|i: int| 0 <= i < tail.len() implies white(#[trigger] tail[i]) by {
                    assert(tail[i] == gap[j - k + i]);
                }
                assert(tail =~= tail + none + none);
                lemma_trimmed_is(tail, none, none);
            }
        }
    }
    lemma_cells_whole(open, 0);
}

proof fn lemma_blank_head(lead: Seq<char>, j: int)
    requires
        0 <= j <= lead.len(),
        forall|i: int| 0 <= i < lead.len() ==> #[trigger] lead[i] == ' ',
    ensures
        trimmed(lead.take(j)).len() == 0,
{
    let none: Seq<char> = seq![];
    let head = lead.take(j);
    assert forall|i: int| 0 <= i < head.len() implies white(#[trigger] head[i]) by {
        assert(head[i] == lead[i]);
    }
    assert(head =~= head + none + none);
    lemma_trimmed_is(head, none, none);
}

/// Whether `part` stands somewhere in `whole`.
pub open spec fn stands_in(part: Seq<char>, whole: Seq<char>) -> bool {
    exists|before: Seq<char>, after: Seq<char>| whole == #[trigger] (before + part + after)
}

proof fn lemma_stands_in(part: Seq<char>, middle: Seq<char>, whole: Seq<char>)
    requires
        stands_in(part, middle),
        stands_in(middle, whole),
    ensures
        stands_in(part, whole),
{
    let (a, b) = choose|a: Seq<char>, b: Seq<char>| middle == #[trigger] (a + part + b);
    let (c, d) = choose|c: Seq<char>, d: Seq<char>| whole == #[trigger] (c + middle + d);
    assert(whole =~= (c + a) + part + (b + d));
}

/// A row of a preview shows its command before its description, each escaped; a
/// row of one cell shows that.
pub proof fn law_row_shows_its_cells(command: Seq<char>, description: Seq<char>)
    ensures
        exists|a: Seq<char>, b: Seq<char>, c: Seq<char>|
            row_html(seq![command, description]) == #[trigger] (a + html_escaped(command, false) + b
                + html_escaped(description, false) + c),
        stands_in(html_escaped(command, false), row_html(seq![command])),
{
    let row = seq![command, description];
    assert(row.skip(1) =~= seq![description]);
    lemma_joined_one(description, "  "@);
    assert(row_html(row) == COMMAND_OPEN@ + html_escaped(command, false) + DESCRIPTION_OPEN@
        + html_escaped(description, false) + "</span></div>"@);
    assert(row_html(seq![command]) == SOLO_OPEN@ + html_escaped(command, false) + "</code>"@);
}

proof fn lemma_joined_one(part: Seq<char>, sep: Seq<char>)
    ensures
        joined(seq![part], sep) == part,
{
    reveal_with_fuel(joined, 2);
    assert(joined(seq![part], sep) =~= part);
}

proof fn lemma_row_stands(rows: Seq<Seq<Seq<char>>>, j: int)
    requires
        0 <= j < rows.len(),
    ensures
        stands_in(row_html(rows[j]), rows_html(rows)),
    decreases rows.len(),
{
    let none: Seq<char> = seq![];
    let head = rows_html(rows.drop_last());
    let last = row_html(rows.last());
    if j == rows.len() - 1 {
        assert(rows_html(rows) =~= head + last + none);
    } else {
        lemma_row_stands(rows.drop_last(), j);
        assert(rows_html(rows) =~= none + head + last);
        lemma_stands_in(row_html(rows[j]), head, rows_html(rows));
    }
}

proof fn lemma_section_stands(sections: Seq<SectionModel>, k: int)
    requires
        0 <= k < sections.len(),
    ensures
        stands_in(section_html(sections[k]), sections_html(sections)),
    decreases sections.len(),
{
    let none: Seq<char> = seq![];
    let all = sections_html(sections);
    if sections.len() == 1 {
        assert(all =~= none + section_html(sections[0]) + none);
    } else {
        let head = sections_html(sections.drop_last());
        let last = section_html(sections.last());
        if k == sections.len() - 1 {
            assert(all =~= (head + DIVIDER@) + last + none);
        } else {
            lemma_section_stands(sections.drop_last(), k);
            assert(all =~= none + head + (DIVIDER@ + last));
            lemma_stands_in(section_html(sections[k]), head, all);
        }
    }
}

/// The preview of a sheet shows each of its rows, and each heading that has rows,
/// escaped; a sheet without rows is shown as plain text.
pub proof fn law_preview_shows_every_row(raw: Seq<char>, k: int, j: int)
    requires
        0 <= k < sections_of(raw).len(),
        0 <= j < sections_of(raw)[k].rows.len(),
    ensures
        sheet_preview(raw) matches PreviewModel::Html { content } && stands_in(
            row_html(sections_of(raw)[k].rows[j]),
            content,
        ) && (sections_of(raw)[k].heading matches Some(h) ==> stands_in(
            html_escaped(h, false),
            content,
        )),
{
    let none: Seq<char> = seq![];
    let sections = sections_of(raw);
    let section = sections[k];
    let all = sections_html(sections);
    let content = SHEET_OPEN@ + all + "</div>"@;
    assert(sheet_preview(raw) == PreviewModel::Html { content });
    assert(stands_in(all, content)) by {
        assert(content =~= SHEET_OPEN@ + all + "</div>"@);
    }
    lemma_section_stands(sections, k);
    lemma_stands_in(section_html(section), all, content);
    let head = match section.heading {
        Some(h) => HEADING_OPEN@ + html_escaped(h, false) + "</div>"@,
        None => seq![],
    };
    let rows = rows_html(section.rows);
    lemma_row_stands(section.rows, j);
    assert(section_html(section) =~= (SECTION_OPEN@ + head + ROWS_OPEN@) + rows + "</div></div>"@);
    lemma_stands_in(rows, section_html(section), content);
    lemma_stands_in(row_html(section.rows[j]), rows, content);
    match section.heading {
        Some(h) => {
            let t = html_escaped(h, false);
            assert(section_html(section) =~= (SECTION_OPEN@ + HEADING_OPEN@) + t + ("</div>"@
                + ROWS_OPEN@ + rows + "</div></div>"@));
            lemma_stands_in(t, section_html(section), content);
        },
        None => {},
    }
}

/// The preview of a sheet without rows is its text.
pub proof fn law_plain_sheet_is_shown_as_text(raw: Seq<char>)
    requires
        forall|i: int| 0 <= i < line_list(raw).len() ==> !is_row(#[trigger] line_list(raw)[i]),
    ensures
        sheet_preview(raw) == (PreviewModel::Code { lang: "text"@, content: trimmed(raw) }),
{
    let lines = line_list(raw);
    let body = after_frontmatter(after_header(lines));
    law_sections_hold_every_row(raw);
    lemma_body_within(lines);
    lemma_no_rows(body, None);
    let sections = sections_of(raw);
    if sections.len() > 0 {
        let last = sections.last();
        assert(last == sections[sections.len() - 1]);
        assert(section_rows(sections).len() >= last.rows.len());
    }
}

proof fn lemma_body_within(lines: Seq<Seq<char>>)
    ensures
        exists|k: int|
            0 <= k <= lines.len() && after_frontmatter(after_header(lines)) == #[trigger] lines.skip(
                k,
            ),
{
    let a = after_header(lines);
    let h: int = if lines.len() > 0 && has_prefix(lines[0], "#[cheat"@) {
        1
    } else {
        0
    };
    assert(a =~= lines.skip(h));
    if a.len() > 0 && trimmed(a[0]) == "---"@ {
        lemma_fence_within(a.skip(1));
        let k = choose|k: int| 0 <= k <= a.skip(1).len() && after_fence(a.skip(1)) == #[trigger] a.skip(1).skip(k);
        assert(a.skip(1).skip(k) =~= lines.skip(h + 1 + k));
    } else {
        assert(after_frontmatter(a) == lines.skip(h));
    }
}

proof fn lemma_fence_within(lines: Seq<Seq<char>>)
    ensures
        exists|k: int| 0 <= k <= lines.len() && after_fence(lines) == #[trigger] lines.skip(k),
    decreases lines.len(),
{
    if lines.len() == 0 {
        assert(lines =~= lines.skip(0));
    } else if trimmed(lines[0]) == "---"@ {
        assert(after_fence(lines) == lines.skip(1));
    } else {
        lemma_fence_within(lines.skip(1));
        let k = choose|k: int| 0 <= k <= lines.skip(1).len() && after_fence(lines.skip(1)) == #[trigger] lines.skip(1).skip(k);
        assert(lines.skip(1).skip(k) =~= lines.skip(k + 1));
    }
}

proof fn lemma_no_rows(lines: Seq<Seq<char>>, start: Option<Seq<char>>)
    requires
        forall|i: int| 0 <= i < lines.len() ==> !is_row(#[trigger] lines[i]),
    ensures
        rows_under(lines, start).len() == 0,
    decreases lines.len(),
{
    if lines.len() > 0 {
        let above = lines.drop_last();
        assert(!is_row(lines[lines.len() - 1]));
        assert forall|i: int| 0 <= i < above.len() implies !is_row(#[trigger] above[i]) by {
            assert(above[i] == lines[i]);
        }
        lemma_no_rows(above, start);
    }
}

// ---------------------------------------------------------------------------
// What the cache and the search promise together
// ---------------------------------------------------------------------------

/// The names of `n` bytes, in order.
pub open spec fn of_length(names: Seq<Seq<char>>, n: nat) -> Seq<Seq<char>>
    decreases names.len(),
{
    if names.len() == 0 {
        seq![]
    } else if byte_len(names.last()) == n {
        of_length(names.drop_last(), n).push(names.last())
    } else {
        of_length(names.drop_last(), n)
    }
}

/// Whether no name is longer than one that follows it.
pub open spec fn shortest_first(names: Seq<Seq<char>>) -> bool {
    forall|i: int, j: int|
        0 <= i <= j < names.len() ==> byte_len(#[trigger] names[i]) <= byte_len(#[trigger] names[j])
}

proof fn lemma_insert_by_length(sorted: Seq<Seq<char>>, e: Seq<char>, n: nat)
    ensures
        insert_by_length(sorted, e).len() == sorted.len() + 1,
        insert_by_length(sorted, e).to_multiset() == sorted.to_multiset().insert(e),
        of_length(insert_by_length(sorted, e), n) == of_length(sorted.push(e), n),
    decreases sorted.len(),
{
    broadcast use vstd::seq_lib::group_to_multiset_ensures;

    let r = insert_by_length(sorted, e);
    assert(sorted.push(e).drop_last() =~= sorted);
    if !(sorted.len() == 0 || byte_len(sorted.last()) <= byte_len(e)) {
        let init = sorted.drop_last();
        let l = sorted.last();
        lemma_insert_by_length(init, e, n);
        let ri = insert_by_length(init, e);
        assert(init.push(l) =~= sorted);
        assert(r == ri.push(l));
        assert(r.drop_last() =~= ri);
        assert(init.push(e).drop_last() =~= init);
        assert(r.to_multiset() =~= sorted.to_multiset().insert(e));
        let a = of_length(init, n);
        assert(of_length(init.push(e), n) == if byte_len(e) == n {
            a.push(e)
        } else {
            a
        });
        assert(of_length(sorted, n) == if byte_len(l) == n {
            a.push(l)
        } else {
            a
        });
        assert(of_length(r, n) == if byte_len(l) == n {
            of_length(ri, n).push(l)
        } else {
            of_length(ri, n)
        });
    }
}

proof fn lemma_insert_sorted(sorted: Seq<Seq<char>>, e: Seq<char>)
    requires
        shortest_first(sorted),
    ensures
        shortest_first(insert_by_length(sorted, e)),
        forall|i: int|
            0 <= i < insert_by_length(sorted, e).len() ==> byte_len(
                #[trigger] insert_by_length(sorted, e)[i],
            ) <= byte_len(e) || sorted.len() > 0 && byte_len(insert_by_length(sorted, e)[i])
                <= byte_len(sorted.last()),
    decreases sorted.len(),
{
    let r = insert_by_length(sorted, e);
    lemma_insert_by_length(sorted, e, 0);
    if sorted.len() == 0 || byte_len(sorted.last()) <= byte_len(e) {
        assert forall|i: int, j: int| 0 <= i <= j < r.len() implies byte_len(#[trigger] r[i])
            <= byte_len(#[trigger] r[j]) by {
            if i < sorted.len() {
                assert(byte_len(sorted[i]) <= byte_len(sorted[sorted.len() - 1]));
            }
        }
    } else {
        let init = sorted.drop_last();
        let l = sorted.last();
        assert forall|i: int, j: int| 0 <= i <= j < init.len() implies byte_len(#[trigger] init[i])
            <= byte_len(#[trigger] init[j]) by {
            assert(init[i] == sorted[i] && init[j] == sorted[j]);
        }
        lemma_insert_sorted(init, e);
        let ri = insert_by_length(init, e);
        lemma_insert_by_length(init, e, 0);
        assert forall|i: int| 0 <= i < ri.len() implies byte_len(#[trigger] ri[i]) <= byte_len(
            l,
        ) by {
            if init.len() > 0 {
                assert(byte_len(sorted[init.len() - 1]) <= byte_len(sorted[sorted.len() - 1]));
            }
        }
        assert forall|i: int, j: int| 0 <= i <= j < r.len() implies byte_len(#[trigger] r[i])
            <= byte_len(#[trigger] r[j]) by {
            if j < ri.len() {
                assert(r[i] == ri[i] && r[j] == ri[j]);
            } else if i < ri.len() {
                assert(r[i] == ri[i]);
            }
        }
    }
}

/// The search orders the matching names: the shortest first, names of one
/// length as they came, and none lost or added.
pub proof fn law_search_order(names: Seq<Seq<char>>, n: nat)
    ensures
        shortest_first(by_length(names)),
        of_length(by_length(names), n) == of_length(names, n),
        by_length(names).to_multiset() == names.to_multiset(),
    decreases names.len(),
{
    broadcast use vstd::seq_lib::group_to_multiset_ensures;

    if names.len() > 0 {
        law_search_order(names.drop_last(), n);
        let before = by_length(names.drop_last());
        lemma_insert_by_length(before, names.last(), n);
        lemma_insert_sorted(before, names.last());
        assert(before.push(names.last()).drop_last() =~= before);
        assert(names.drop_last().push(names.last()) =~= names);
    }
}

/// Rows further down score no higher: of two names that start with the term,
/// the longer one scores no more than the shorter.
pub proof fn law_shorter_scores_higher(term: Seq<char>, a: Seq<char>, b: Seq<char>)
    requires
        0 < byte_len(a) <= byte_len(b) <= usize::MAX,
        byte_len(term) <= usize::MAX,
    ensures
        !entry_row(term, b).relevance.above(entry_row(term, a).relevance),
{
    let t = byte_len(term) as int;
    let x = byte_len(a) as int;
    let y = byte_len(b) as int;
    assert(100 * t * x <= 100 * t * y) by (nonlinear_arith)
        requires
            x <= y,
            0 <= t,
    ;
}

proof fn lemma_entries(lines: Seq<Seq<char>>)
    requires
        forall|i: int| 0 <= i < lines.len() ==> !(#[trigger] lines[i]).contains('\n'),
    ensures
        forall|i: int|
            0 <= i < entries(lines).len() ==> (#[trigger] entries(lines)[i]).len() > 0
                && !entries(lines)[i].contains('\n') && !white(entries(lines)[i].last()),
    decreases lines.len(),
{
    if lines.len() > 0 {
        assert forall|i: int| 0 <= i < lines.drop_last().len() implies !(
        #[trigger] lines.drop_last()[i]).contains('\n') by {
            assert(lines.drop_last()[i] == lines[i]);
        }
        lemma_entries(lines.drop_last());
        lemma_trimmed(lines.last());
        assert(!lines[lines.len() - 1].contains('\n'));
        let before = entries(lines.drop_last());
        assert forall|i: int| 0 <= i < entries(lines).len() implies (
        #[trigger] entries(lines)[i]).len() > 0 && !entries(lines)[i].contains('\n') && !white(
            entries(lines)[i].last(),
        ) by {
            if i < before.len() {
                assert(entries(lines)[i] == before[i]);
            }
        }
    }
}

proof fn lemma_starting_with(names: Seq<Seq<char>>, c: char)
    ensures
        forall|i: int|
            0 <= i < starting_with(names, c).len() ==> names.contains(
                #[trigger] starting_with(names, c)[i],
            ),
        forall|e: Seq<char>|
            names.contains(e) && e.len() > 0 && e[0] == c ==> #[trigger] starting_with(
                names,
                c,
            ).contains(e),
    decreases names.len(),
{
    if names.len() > 0 {
        let init = names.drop_last();
        lemma_starting_with(init, c);
        let r = starting_with(names, c);
        let ri = starting_with(init, c);
        assert forall|e: Seq<char>| init.contains(e) implies names.contains(e) by {
            let k = choose|k: int| 0 <= k < init.len() && init[k] == e;
            assert(names[k] == e);
        }
        assert forall|i: int| 0 <= i < r.len() implies names.contains(#[trigger] r[i]) by {
            if i < ri.len() {
                assert(r[i] == ri[i]);
            } else {
                assert(names[names.len() - 1] == r[i]);
            }
        }
        assert forall|e: Seq<char>| names.contains(e) && e.len() > 0 && e[0]
            == c implies #[trigger] r.contains(e) by {
            let k = choose|k: int| 0 <= k < names.len() && names[k] == e;
            if k < init.len() {
                assert(init[k] == e);
                assert(ri.contains(e));
                let j = choose|j: int| 0 <= j < ri.len() && ri[j] == e;
                assert(r[j] == e);
            } else {
                assert(r[r.len() - 1] == e);
            }
        }
    }
}

/// A list is fetched and written once. The mark that it is cached is the last
/// write, and the only one under its key; where it is there, there is nowhere to
/// fetch the list from.
pub proof fn law_list_is_cached_once(raw: Seq<char>)
    ensures
        ({
            let writes = list_writes(raw);
            &&& writes.len() > 0
            &&& writes.last() == ("cached"@, "1"@)
            &&& forall|i: int| 0 <= i < writes.len() - 1 ==> (#[trigger] writes[i]).0 != "cached"@
        }),
        list_source(true) is None,
        list_source(false) == Some(LIST_URL@),
{
    reveal_strlit("cached");
    reveal_strlit("b_");
    let writes = list_writes(raw);
    assert forall|i: int| 0 <= i < writes.len() - 1 implies (#[trigger] writes[i]).0
        != "cached"@ by {
        assert(writes[i].0[0] == 'b');
        assert("cached"@[0] == 'c');
    }
}

/// What is cached for a first character reads back, line by line, as the names
/// of the list that start with it.
pub proof fn law_bucket_reads_back(raw: Seq<char>, c: char)
    ensures
        line_list(joined(starting_with(entries(line_list(raw)), c), "\n"@)) == starting_with(
            entries(line_list(raw)),
            c,
        ),
{
    lemma_lines_hold_no_newline(raw);
    lemma_entries(line_list(raw));
    let names = entries(line_list(raw));
    lemma_starting_with(names, c);
    let b = starting_with(names, c);
    assert forall|i: int| 0 <= i < b.len() implies (#[trigger] b[i]).len() > 0 && !b[i].contains(
        '\n',
    ) && b[i].last() != '\r' by {
        let k = choose|k: int| 0 <= k < names.len() && names[k] == b[i];
        assert(names[k].len() > 0);
    }
    lemma_lines_of_joined(b);
}

proof fn lemma_matching_contains(names: Seq<Seq<char>>, term: Seq<char>, e: Seq<char>)
    requires
        names.contains(e),
        has_prefix(e, term),
    ensures
        matching(names, term).contains(e),
    decreases names.len(),
{
    let k = choose|k: int| 0 <= k < names.len() && names[k] == e;
    let m = matching(names, term);
    if k == names.len() - 1 {
        assert(m[m.len() - 1] == e);
    } else {
        assert(names.drop_last()[k] == e);
        lemma_matching_contains(names.drop_last(), term, e);
        let mi = matching(names.drop_last(), term);
        let j = choose|j: int| 0 <= j < mi.len() && mi[j] == e;
        assert(m[j] == e);
    }
}

proof fn lemma_first_chars(names: Seq<Seq<char>>, e: Seq<char>)
    requires
        names.contains(e),
        e.len() > 0,
    ensures
        first_chars(names).contains(e[0]),
    decreases names.len(),
{
    let k = choose|k: int| 0 <= k < names.len() && names[k] == e;
    let r = first_chars(names);
    if k == names.len() - 1 {
        if !first_chars(names.drop_last()).contains(e[0]) {
            assert(r[r.len() - 1] == e[0]);
        }
    } else {
        assert(names.drop_last()[k] == e);
        lemma_first_chars(names.drop_last(), e);
        let ri = first_chars(names.drop_last());
        let j = choose|j: int| 0 <= j < ri.len() && ri[j] == e[0];
        assert(r[j] == e[0]);
    }
}

/// A sheet of the list is found by each beginning of its name: the cache holds
/// a bucket under the key of the term, and the names found in it include the
/// sheet's.
pub proof fn law_listed_sheet_is_found(raw: Seq<char>, entry: Seq<char>, term: Seq<char>)
    requires
        entries(line_list(raw)).contains(entry),
        term.len() > 0,
        has_prefix(entry, term),
    ensures
        exists|i: int|
            0 <= i < list_writes(raw).len() && #[trigger] list_writes(raw)[i].0 == bucket_name(
                term[0],
            ) && by_length(matching(line_list(list_writes(raw)[i].1), term)).contains(entry),
{
    let names = entries(line_list(raw));
    let c = term[0];
    assert(entry.take(term.len() as int)[0] == entry[0]);
    lemma_first_chars(names, entry);
    let chars = first_chars(names);
    let i = choose|i: int| 0 <= i < chars.len() && chars[i] == c;
    assert(list_writes(raw)[i] == (bucket_name(c), joined(starting_with(names, c), "\n"@)));
    law_bucket_reads_back(raw, c);
    lemma_starting_with(names, c);
    let b = starting_with(names, c);
    assert(b.contains(entry));
    lemma_matching_contains(b, term, entry);
    let m = matching(b, term);
    law_search_order(m, 0);
    m.to_multiset_ensures();
    by_length(m).to_multiset_ensures();
    assert(by_length(m).to_multiset().count(entry) > 0);
    assert(list_writes(raw)[i].0 == bucket_name(term[0]));
}

/// The row of a sheet that was confirmed has the id of the row that it stands in
/// for, so that it takes its place.
pub proof fn law_live_row_replaces_exact_match(term: Seq<char>, sheet: Seq<char>)
    ensures
        live_row(term, sheet).id == entry_row(term, term).id,
        live_row(term, sheet).id == uncached_row(term).id,
{
}

// ---------------------------------------------------------------------------
// What is cached and what a search finds
// ---------------------------------------------------------------------------

/// The names of a list are its lines without the blanks around them, in order, but
/// for blank ones, RFCs and pages about the site itself.
pub proof fn law_list_holds_every_name(lines: Seq<Seq<char>>)
    ensures
        entries(lines) == lines.map_values(|l: Seq<char>| trimmed(l)).filter(
            |t: Seq<char>| t.len() > 0 && !has_prefix(t, "rfc"@) && !has_prefix(t, ":"@),
        ),
    decreases lines.len(),
{
    reveal(Seq::filter);
    let f = |l: Seq<char>| trimmed(l);
    let all = lines.map_values(f);
    if lines.len() > 0 {
        law_list_holds_every_name(lines.drop_last());
        assert(all.drop_last() =~= lines.drop_last().map_values(f));
        assert(all.last() == trimmed(lines.last()));
    }
}

/// What is cached under a character are all names that start with it, in order.
pub proof fn law_bucket_holds_every_name(names: Seq<Seq<char>>, c: char)
    ensures
        starting_with(names, c) == names.filter(|n: Seq<char>| n.len() > 0 && n[0] == c),
    decreases names.len(),
{
    reveal(Seq::filter);
    if names.len() > 0 {
        law_bucket_holds_every_name(names.drop_last(), c);
    }
}

/// The key of a name is that of its first character: what a search reads is the
/// bucket that the name was put into.
pub proof fn law_keys_name_first_characters(a: char, b: char)
    ensures
        bucket_name(a) == "b_"@ + seq![a],
        a != b ==> bucket_name(a) != bucket_name(b),
{
    reveal_strlit("b_");
    assert(bucket_name(a) =~= "b_"@ + seq![a]);
    assert(bucket_name(a)[2] == a);
    assert(bucket_name(b)[2] == b);
}

/// A term finds every name that starts with it, and no other.
pub proof fn law_term_finds_what_starts_with_it(names: Seq<Seq<char>>, term: Seq<char>)
    ensures
        matching(names, term) == names.filter(|n: Seq<char>| has_prefix(n, term)),
    decreases names.len(),
{
    reveal(Seq::filter);
    if names.len() > 0 {
        law_term_finds_what_starts_with_it(names.drop_last(), term);
    }
}

/// A search shows names that start with the term, the shortest first and twenty at
/// most; each row is that of its name and leads to its sheet. Where the list is not
/// cached one row stands for the term.
pub proof fn law_search_shows_what_it_finds(term: Seq<char>, bucket: Seq<char>, i: int)
    requires
        term.len() > 0,
    ensures
        ({
            let rows = term_rows(term, true, Some(bucket));
            let names = line_list(bucket).filter(|n: Seq<char>| has_prefix(n, term));
            &&& rows.len() == (if names.len() <= 20 {
                names.len()
            } else {
                20
            })
            &&& 0 <= i < rows.len() ==> names.contains(rows[i].id)
            &&& 0 <= i < rows.len() ==> has_prefix(rows[i].id, term)
            &&& 0 <= i < rows.len() ==> rows[i].title == "cheat.sh/"@ + rows[i].id
            &&& 0 <= i < rows.len() ==> rows[i].badge is None
            &&& forall|j: int|
                0 <= j < i < rows.len() ==> byte_len((#[trigger] rows[j]).id) <= byte_len(
                    rows[i].id,
                )
        }),
        ({
            let rows = term_rows(term, false, Some(bucket));
            rows.len() == 1 && rows[0].id == term && rows[0].title == "cheat.sh/"@ + term
                && rows[0].badge == Some("uncached"@)
        }),
        term_rows(seq![], true, Some(bucket)).len() == 0,
        term_rows(term, true, None).len() == 0,
{
    let rows = term_rows(term, true, Some(bucket));
    let m = matching(line_list(bucket), term);
    let names = line_list(bucket).filter(|n: Seq<char>| has_prefix(n, term));
    law_term_finds_what_starts_with_it(line_list(bucket), term);
    law_search_order(m, 0);
    let sorted = by_length(m);
    lemma_by_length_len(m);
    if 0 <= i < rows.len() {
        assert(rows[i].id == sorted[i]);
        m.to_multiset_ensures();
        sorted.to_multiset_ensures();
        assert(sorted.contains(sorted[i]));
        assert(sorted.to_multiset().count(sorted[i]) > 0);
        assert(m.contains(sorted[i]));
        lemma_matching_prefix(line_list(bucket), term, sorted[i]);
        assert forall|j: int| 0 <= j < i implies byte_len((#[trigger] rows[j]).id) <= byte_len(
            rows[i].id,
        ) by {
            assert(rows[j].id == sorted[j]);
        }
    }
}

proof fn lemma_by_length_len(names: Seq<Seq<char>>)
    ensures
        by_length(names).len() == names.len(),
    decreases names.len(),
{
    if names.len() > 0 {
        lemma_by_length_len(names.drop_last());
        lemma_insert_by_length(by_length(names.drop_last()), names.last(), 0);
    }
}

proof fn lemma_matching_prefix(names: Seq<Seq<char>>, term: Seq<char>, e: Seq<char>)
    requires
        matching(names, term).contains(e),
    ensures
        has_prefix(e, term),
    decreases names.len(),
{
    if names.len() > 0 {
        let head = matching(names.drop_last(), term);
        if has_prefix(names.last(), term) {
            let all = head.push(names.last());
            let i = choose|i: int| 0 <= i < all.len() && all[i] == e;
            if i < head.len() {
                assert(head[i] == e);
                lemma_matching_prefix(names.drop_last(), term, e);
            }
        } else {
            lemma_matching_prefix(names.drop_last(), term, e);
        }
    }
}

/// The one-line preview of a sheet is its first line that is neither blank nor a
/// comment, without the blanks around it.
pub proof fn law_snippet_is_first_command(
    above: Seq<Seq<char>>,
    line: Seq<char>,
    below: Seq<Seq<char>>,
)
    requires
        forall|i: int|
            0 <= i < above.len() ==> trimmed(#[trigger] above[i]).len() == 0 || trimmed(above[i])[0]
                == '#',
        trimmed(line).len() > 0 && trimmed(line)[0] != '#',
    ensures
        snippet_of(above + seq![line] + below) == trimmed(line),
        snippet_of(above) == "cheat sheet"@,
    decreases above.len(),
{
    reveal_strlit("#");
    let all = above + seq![line] + below;
    if above.len() > 0 {
        let t = trimmed(above[0]);
        if t.len() > 0 {
            assert(t.take(1) =~= "#"@);
        }
        let more = above.skip(1);
        assert forall|i: int| 0 <= i < more.len() implies trimmed(#[trigger] more[i]).len() == 0
            || trimmed(more[i])[0] == '#' by {
            assert(more[i] == above[i + 1]);
        }
        law_snippet_is_first_command(more, line, below);
        assert(all.skip(1) =~= more + seq![line] + below);
        assert(all[0] == above[0]);
    } else {
        assert(all[0] == line);
        lemma_other_prefix(trimmed(line), "#"@);
    }
}

/// A sheet that was fetched confirms its term with a row that scores above all
/// others; the page that answers an unknown term confirms nothing.
pub proof fn law_fetched_sheet_confirms_term(
    term: Seq<char>,
    sheet: Seq<char>,
    space: Seq<char>,
    rest: Seq<char>,
)
    requires
        term.len() > 0,
        forall|i: int| 0 <= i < space.len() ==> white(#[trigger] space[i]),
    ensures
        confirmed(term, space + "Unknown topic"@ + rest) is None,
        confirmed(seq![], sheet) is None,
        confirmed(term, sheet) matches Some(row) ==> row.id == term && row.title == "cheat.sh/"@
            + term && row.badge == Some("online"@) && row.relevance == Relevance::Fixed(100)
            && row.subtitle == Some(snippet_of(line_list(sheet))),
        trimmed_start(sheet).len() > 0 && trimmed_start(sheet)[0] != 'U' ==> confirmed(term, sheet)
            is Some,
        live_source(term) == Some("https://cheat.sh/"@ + term + "?T"@),
        live_source(seq![]) is None,
{
    reveal_strlit("Unknown topic");
    let t = "Unknown topic"@ + rest;
    lemma_trimmed_start_is(space, t);
    assert(space + "Unknown topic"@ + rest =~= space + t);
    assert(t.take(13) =~= "Unknown topic"@);
    if trimmed_start(sheet).len() > 0 && trimmed_start(sheet)[0] != 'U' {
        lemma_other_prefix(trimmed_start(sheet), "Unknown topic"@);
    }
}

proof fn lemma_trimmed_start_is(space: Seq<char>, t: Seq<char>)
    requires
        forall|i: int| 0 <= i < space.len() ==> white(#[trigger] space[i]),
        t.len() > 0 ==> !white(t[0]),
    ensures
        trimmed_start(space + t) == t,
    decreases space.len(),
{
    let s = space + t;
    if space.len() > 0 {
        let less = space.skip(1);
        assert(white(space[0]));
        assert forall|i: int| 0 <= i < less.len() implies white(#[trigger] less[i]) by {
            assert(less[i] == space[i + 1]);
        }
        lemma_trimmed_start_is(less, t);
        assert(s.skip(1) =~= less + t);
    } else {
        assert(s =~= t);
    }
}

/// The actions on a sheet: copying fetches its plain text and copies that, whole;
/// any other action, or none, opens its page. The menu offers both.
pub proof fn law_sheet_is_opened_or_copied(
    step: ActivateStep,
    id: Seq<char>,
    action: Option<Seq<char>>,
    body: Seq<char>,
)
    ensures
        step_of(step, id, Some("copy"@)) ==> (step matches ActivateStep::FetchToCopy { url } && url@
            == "https://cheat.sh/"@ + id + "?T"@),
        action != Some("copy"@) && step_of(step, id, action) ==> (
        step matches ActivateStep::Done(effects) && effects.deep_view() == seq![
            EffectModel::OpenUrl { url: "https://cheat.sh/"@ + id },
        ]),
        copied_sheet(id, body).len() == 2,
        copied_sheet(id, body)[0] == (EffectModel::CopyText { text: body }),
        action_menu().len() == 2,
        action_menu()[0].id == "open"@,
        action_menu()[1].id == "copy"@,
        page_request(id).url == id,
        page_request(id).method is None && page_request(id).body is None,
        page_request(id).headers == seq![("User-Agent"@, "curl/7.86.0"@)],
{
}

/// A sequence ends with the first character from `A` to `Z` or from `a` to `z` behind
/// its bracket, and is dropped up to that; digits and marks do not end it.
pub proof fn law_sequence_ends_with_a_letter(
    pre: Seq<char>,
    args: Seq<char>,
    letter: char,
    rest: Seq<char>,
)
    requires
        !holds(pre, "\x1b["@),
        forall|i: int|
            0 <= i < args.len() ==> {
                let n = (#[trigger] args[i]) as int;
                n < 65 || 90 < n < 97 || 122 < n
            },
        65 <= letter as int <= 90 || 97 <= letter as int <= 122,
    ensures
        ansi_stripped(pre + "\x1b["@ + args + seq![letter] + rest) == pre + ansi_stripped(rest),
{
    law_strip_ansi_sequence(pre, args, letter, rest);
}

/// What the rows of a term offer and say: to open the sheet or copy its text; a sheet
/// that is confirmed comes before any other row, and one from the list is found by
/// the share of its name that is typed.
pub proof fn law_rows_offer_the_sheet(term: Seq<char>, entry: Seq<char>, sheet: Seq<char>)
    ensures
        ({
            let menu = action_menu();
            &&& menu.len() == 2
            &&& menu[0].id == "open"@ && menu[0].label == "Open cheat sheet"@
            &&& menu[0].hint == Some("in browser"@)
            &&& menu[1].id == "copy"@ && menu[1].label == "Copy sheet text"@
            &&& menu[1].hint == Some("fetches plain text"@)
            &&& uncached_row(term).actions == menu && entry_row(term, entry).actions == menu
                && live_row(term, sheet).actions == menu
        }),
        uncached_row(term).id == term && entry_row(term, entry).id == entry && live_row(
            term,
            sheet,
        ).id == term,
        uncached_row(term).relevance == Relevance::Fixed(50),
        live_row(term, sheet).relevance == Relevance::Fixed(100),
        uncached_row(term).badge == Some("uncached"@) && live_row(term, sheet).badge == Some(
            "online"@,
        ) && entry_row(term, entry).badge is None,
        uncached_row(term).subtitle == Some("list not cached yet - refreshing in background"@),
        entry_row(term, entry).subtitle == Some("Cheat sheet"@),
        copied_sheet(term, sheet) == copying(sheet, "Copied cheat.sh/"@ + term),
{
}

/// The characters that names start with are each listed once, and no others are.
pub proof fn law_first_characters_are_listed_once(names: Seq<Seq<char>>)
    ensures
        first_chars(names).no_duplicates(),
        forall|k: int|
            0 <= k < first_chars(names).len() ==> exists|i: int|
                0 <= i < names.len() && (#[trigger] names[i]).len() > 0 && names[i][0]
                    == #[trigger] first_chars(names)[k],
    decreases names.len(),
{
    if names.len() > 0 {
        let front = names.drop_last();
        law_first_characters_are_listed_once(front);
        let before = first_chars(front);
        let all = first_chars(names);
        assert forall|k: int| 0 <= k < all.len() implies exists|i: int|
            0 <= i < names.len() && (#[trigger] names[i]).len() > 0 && names[i][0]
                == #[trigger] all[k] by {
            if k < before.len() {
                let i = choose|i: int|
                    0 <= i < front.len() && (#[trigger] front[i]).len() > 0 && front[i][0]
                        == before[k];
                assert(names[i] == front[i]);
            } else {
                assert(names[names.len() - 1] == names.last());
            }
        }
    }
}

} // verus!
