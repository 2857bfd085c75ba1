//! Emoji by name: a small set that is searched as one types, copied on Enter.
use vstd::prelude::*;
use vstd::string::*;

use crate::host::{
    hinted_action, item, meta, plain_action, Action, ActionModel, ActivateEffect, EffectModel,
    ExtensionResult, IconAsset, MetadataItem, MetadataModel, PreviewContent, PreviewModel,
    Relevance, ResultIcon, ResultIconModel, ResultModel, ToastLevel,
};
use crate::text::{
    contains, find, holds, law_replacing_goes_through, lemma_position_from, lowercase, position, replace, replaced, same,
    to_lowercase, trim, trimmed,
};

verus! {

// ---------------------------------------------------------------------------
// The set
// ---------------------------------------------------------------------------

/// One emoji with its name and the words that it is also found by.
#[derive(Debug, Clone, Copy, PartialEq, Eq)]
pub struct Emoji {
    pub emoji: &'static str,
    pub name: &'static str,
    pub keywords: &'static str,
}

#[verifier::ext_equal]
pub struct EmojiModel {
    pub emoji: Seq<char>,
    pub name: Seq<char>,
    pub keywords: Seq<char>,
}

impl DeepView for Emoji {
    type V = EmojiModel;

    open spec fn deep_view(&self) -> EmojiModel {
        EmojiModel { emoji: self.emoji@, name: self.name@, keywords: self.keywords@ }
    }
}

/// One emoji of the set.
pub open spec fn an_emoji(emoji: Seq<char>, name: Seq<char>, keywords: Seq<char>) -> EmojiModel {
    EmojiModel { emoji, name, keywords }
}

/// All emoji, in the order in which they are listed.
pub open spec fn emoji_set() -> Seq<EmojiModel> {
    seq![
        an_emoji("😄"@, "grinning face"@, "smile happy joy"@),
        an_emoji("😂"@, "tears of joy"@, "laugh lol funny crying"@),
        an_emoji("❤️"@, "red heart"@, "love like"@),
        an_emoji("👍"@, "thumbs up"@, "ok yes approve like"@),
        an_emoji("🎉"@, "party popper"@, "celebrate congrats tada"@),
        an_emoji("🔥"@, "fire"@, "hot lit flame"@),
        an_emoji("🚀"@, "rocket"@, "launch ship fast space"@),
        an_emoji("😎"@, "smiling face with sunglasses"@, "cool"@),
        an_emoji("🤔"@, "thinking face"@, "hmm wonder"@),
        an_emoji("😭"@, "loudly crying face"@, "sad sob tears"@),
        an_emoji("🙏"@, "folded hands"@, "please thanks pray hope"@),
        an_emoji("💀"@, "skull"@, "dead death rip"@),
        an_emoji("✨"@, "sparkles"@, "shiny magic new clean"@),
        an_emoji("🐛"@, "bug"@, "insect error defect"@),
        an_emoji("🦀"@, "crab"@, "rust rustlang"@),
    ]
}

fn an(emoji: &'static str, name: &'static str, keywords: &'static str) -> (r: Emoji)
    ensures
        r.deep_view() == an_emoji(emoji@, name@, keywords@),
{
    Emoji { emoji, name, keywords }
}

/// All emoji, in the order in which they are listed.
pub fn all_emoji() -> (r: Vec<Emoji>)
    ensures
        r.deep_view() == emoji_set(),
{
    let r = vec![
        an("😄", "grinning face", "smile happy joy"),
        an("😂", "tears of joy", "laugh lol funny crying"),
        an("❤️", "red heart", "love like"),
        an("👍", "thumbs up", "ok yes approve like"),
        an("🎉", "party popper", "celebrate congrats tada"),
        an("🔥", "fire", "hot lit flame"),
        an("🚀", "rocket", "launch ship fast space"),
        an("😎", "smiling face with sunglasses", "cool"),
        an("🤔", "thinking face", "hmm wonder"),
        an("😭", "loudly crying face", "sad sob tears"),
        an("🙏", "folded hands", "please thanks pray hope"),
        an("💀", "skull", "dead death rip"),
        an("✨", "sparkles", "shiny magic new clean"),
        an("🐛", "bug", "insect error defect"),
        an("🦀", "crab", "rust rustlang"),
    ];
    assert(r.deep_view() =~= emoji_set());
    r
}

proof fn lemma_names()
    ensures
        emoji_set().len() == 15,
        forall|i: int| 0 <= i < 15 ==> 3 <= (#[trigger] emoji_set()[i]).name.len() <= 28,
        forall|i: int, j: int|
            0 <= i < j < 15 ==> (#[trigger] emoji_set()[i]).name != (#[trigger] emoji_set()[j]).name,
{
    reveal_strlit("grinning face");
    reveal_strlit("tears of joy");
    reveal_strlit("red heart");
    reveal_strlit("thumbs up");
    reveal_strlit("party popper");
    reveal_strlit("fire");
    reveal_strlit("rocket");
    reveal_strlit("smiling face with sunglasses");
    reveal_strlit("thinking face");
    reveal_strlit("loudly crying face");
    reveal_strlit("folded hands");
    reveal_strlit("skull");
    reveal_strlit("sparkles");
    reveal_strlit("bug");
    reveal_strlit("crab");
    let set = emoji_set();
    let key = |s: Seq<char>| (s.len(), s[0]);
    assert(key(set[0].name) == (13nat, 'g'));
    assert(key(set[1].name) == (12nat, 't'));
    assert(key(set[2].name) == (9nat, 'r'));
    assert(key(set[3].name) == (9nat, 't'));
    assert(key(set[4].name) == (12nat, 'p'));
    assert(key(set[5].name) == (4nat, 'f'));
    assert(key(set[6].name) == (6nat, 'r'));
    assert(key(set[7].name) == (28nat, 's'));
    assert(key(set[8].name) == (13nat, 't'));
    assert(key(set[9].name) == (18nat, 'l'));
    assert(key(set[10].name) == (12nat, 'f'));
    assert(key(set[11].name) == (5nat, 's'));
    assert(key(set[12].name) == (8nat, 's'));
    assert(key(set[13].name) == (3nat, 'b'));
    assert(key(set[14].name) == (4nat, 'c'));
}

// ---------------------------------------------------------------------------
// Looking up
// ---------------------------------------------------------------------------

/// The first of the emoji with that name.
pub open spec fn named_in(set: Seq<EmojiModel>, id: Seq<char>) -> Option<EmojiModel>
    decreases set.len(),
{
    if set.len() == 0 {
        None
    } else if set[0].name == id {
        Some(set[0])
    } else {
        named_in(set.skip(1), id)
    }
}

/// The emoji of that name.
pub open spec fn named(id: Seq<char>) -> Option<EmojiModel> {
    named_in(emoji_set(), id)
}

/// The emoji of that name.
pub fn entry(id: &str) -> (r: Option<Emoji>)
    ensures
        r.deep_view() == named(id@),
{
    let all = all_emoji();
    let ghost set = all.deep_view();
    let mut i: usize = 0;
    assert(set.skip(0) =~= set);
    while i < all.len()
        invariant
            i <= all.len(),
            set == all.deep_view(),
            set == emoji_set(),
            named_in(set, id@) == named_in(set.skip(i as int), id@),
        decreases all.len() - i,
    {
        assert(set.skip(i as int)[0] == all[i as int].deep_view());
        if same(all[i].name, id) {
            return Some(all[i]);
        }
        assert(set.skip(i as int).skip(1) =~= set.skip(i + 1));
        i = i + 1;
    }
    None
}

/// The emoji itself of that name; nothing where there is none.
pub open spec fn emoji_of(id: Seq<char>) -> Option<Seq<char>> {
    match named(id) {
        Some(e) => Some(e.emoji),
        None => None,
    }
}

/// The emoji itself of that name.
pub fn lookup(id: &str) -> (r: Option<&'static str>)
    ensures
        match r {
            Some(e) => emoji_of(id@) == Some(e@),
            None => emoji_of(id@) is None,
        },
{
    match entry(id) {
        Some(e) => Some(e.emoji),
        None => None,
    }
}

/// Whether an emoji takes a skin tone.
pub open spec fn takes_tone(id: Seq<char>) -> bool {
    id == "thumbs up"@ || id == "folded hands"@
}

/// The modifier for a tone.
pub open spec fn tone_modifier(tone: Option<Seq<char>>) -> Seq<char> {
    if tone == Some("light"@) {
        "\u{1F3FB}"@
    } else if tone == Some("medium"@) {
        "\u{1F3FD}"@
    } else if tone == Some("dark"@) {
        "\u{1F3FF}"@
    } else {
        ""@
    }
}

/// The emoji of that name in the tone of the setting, if it takes one.
pub open spec fn toned(id: Seq<char>, tone: Option<Seq<char>>) -> Seq<char> {
    let base = match emoji_of(id) {
        Some(e) => e,
        None => ""@,
    };
    if takes_tone(id) {
        base + tone_modifier(tone)
    } else {
        base
    }
}

/// The emoji of that name in the tone of the setting, if it takes one.
pub fn toned_emoji(id: &str, tone: &Option<String>) -> (r: String)
    ensures
        r@ == toned(id@, tone.deep_view()),
{
    let base = match lookup(id) {
        Some(e) => e.to_owned(),
        None => "".to_owned(),
    };
    if !same(id, "thumbs up") && !same(id, "folded hands") {
        return base;
    }
    let modifier = match tone {
        Some(t) => if same(t.as_str(), "light") {
            "\u{1F3FB}"
        } else if same(t.as_str(), "medium") {
            "\u{1F3FD}"
        } else if same(t.as_str(), "dark") {
            "\u{1F3FF}"
        } else {
            ""
        },
        None => "",
    };
    base.concat(modifier)
}

// ---------------------------------------------------------------------------
// Searching
// ---------------------------------------------------------------------------

/// What can be done with an emoji.
pub open spec fn emoji_menu() -> Seq<ActionModel> {
    seq![
        plain_action("copy"@, "Copy emoji"@),
        hinted_action("copy-name"@, "Copy name"@, "as :shortcode: text"@),
    ]
}

/// What can be done with an emoji.
pub fn actions() -> (r: Vec<Action>)
    ensures
        r.deep_view() == emoji_menu(),
{
    let r = vec![
        Action::plain("copy", "Copy emoji"),
        Action::hinted("copy-name", "Copy name", "as :shortcode: text"),
    ];
    assert(r.deep_view() =~= emoji_menu());
    r
}

/// The row of an emoji. Its name is its id.
pub open spec fn emoji_row(e: EmojiModel, relevance: Relevance) -> ResultModel {
    ResultModel {
        id: e.name,
        title: e.emoji + " "@ + e.name,
        subtitle: Some(e.keywords),
        relevance,
        actions: emoji_menu(),
        icon: Some(ResultIconModel::Asset(IconAsset::Emoji)),
        badge: None,
    }
}

/// The row of an emoji.
pub fn to_result(e: &Emoji, relevance: Relevance) -> (r: ExtensionResult)
    ensures
        r.deep_view() == emoji_row(e.deep_view(), relevance),
{
    let r = ExtensionResult {
        id: e.name.to_owned(),
        title: e.emoji.to_owned().concat(" ").concat(e.name),
        subtitle: Some(e.keywords.to_owned()),
        relevance,
        actions: actions(),
        icon: Some(ResultIcon::Asset(IconAsset::Emoji)),
        badge: None,
    };
    assert(r.deep_view() =~= emoji_row(e.deep_view(), relevance));
    r
}

/// How well an emoji fits: the earlier the term stands in its name the better;
/// a term among its keywords comes after those.
pub open spec fn fit(e: EmojiModel, term: Seq<char>) -> Option<u32> {
    match position(e.name, term) {
        Some(pos) => Some((90 - pos) as u32),
        None => if holds(e.keywords, term) {
            Some(60)
        } else {
            None
        },
    }
}

/// The rows of the emoji that fit.
pub open spec fn fitting(set: Seq<EmojiModel>, term: Seq<char>) -> Seq<ResultModel>
    decreases set.len(),
{
    if set.len() == 0 {
        seq![]
    } else {
        let head = fitting(set.drop_last(), term);
        match fit(set.last(), term) {
            Some(score) => head.push(emoji_row(set.last(), Relevance::Fixed(score))),
            None => head,
        }
    }
}

/// All rows, in the order of the set.
pub open spec fn browse_rows() -> Seq<ResultModel> {
    Seq::new(
        emoji_set().len(),
        |i: int| emoji_row(emoji_set()[i], Relevance::Fixed((80 - i) as u32)),
    )
}

/// The rows that a term in lower case finds; all of them where it is empty.
pub open spec fn term_rows(term: Seq<char>) -> Seq<ResultModel> {
    if term.len() == 0 {
        browse_rows()
    } else {
        fitting(emoji_set(), term)
    }
}

/// The rows of a search; all of them where nothing is typed.
pub open spec fn search_rows(query: Seq<char>) -> Seq<ResultModel> {
    term_rows(lowercase(trimmed(query)))
}

fn browse() -> (r: Vec<ExtensionResult>)
    ensures
        r.deep_view() == browse_rows(),
{
    let all = all_emoji();
    let ghost rows = browse_rows();
    let mut out: Vec<ExtensionResult> = Vec::new();
    let mut i: usize = 0;
    proof {
        lemma_names();
        assert(all.deep_view().len() == all.len());
    }
    while i < all.len()
        invariant
            i <= all.len(),
            all.len() == 15,
            rows == browse_rows(),
            all.deep_view() == emoji_set(),
            out.deep_view() == rows.take(i as int),
        decreases all.len() - i,
    {
        let ghost before = out.deep_view();
        let row = to_result(&all[i], Relevance::Fixed((80 - i) as u32));
        assert(all.deep_view()[i as int] == all[i as int].deep_view());
        assert(row.deep_view() == rows[i as int]);
        out.push(row);
        assert(out.deep_view() =~= before.push(rows[i as int]));
        assert(rows.take(i + 1) =~= before.push(rows[i as int]));
        i = i + 1;
    }
    assert(rows.take(i as int) =~= rows);
    out
}

/// The rows of a search; all of them where nothing is typed.
pub fn search(query: &str) -> (r: Vec<ExtensionResult>)
    ensures
        r.deep_view() == search_rows(query@),
{
    let typed = trim(query);
    let term = to_lowercase(typed.as_str());
    search_lowered(term.as_str())
}

/// The rows that a term in lower case finds; all of them where it is empty.
pub fn search_lowered(term: &str) -> (r: Vec<ExtensionResult>)
    ensures
        r.deep_view() == term_rows(term@),
{
    if term.is_empty() {
        return browse();
    }
    let all = all_emoji();
    let ghost set = all.deep_view();
    let mut out: Vec<ExtensionResult> = Vec::new();
    let mut i: usize = 0;
    proof {
        lemma_names();
        assert(set.take(0) =~= seq![]);
        assert(out.deep_view() =~= fitting(set.take(0), term@));
    }
    while i < all.len()
        invariant
            i <= all.len(),
            set == all.deep_view(),
            forall|k: int| 0 <= k < set.len() ==> (#[trigger] set[k]).name.len() <= 28,
            out.deep_view() == fitting(set.take(i as int), term@),
        decreases all.len() - i,
    {
        let ghost before = out.deep_view();
        let e = &all[i];
        proof {
            assert(set.take(i + 1).drop_last() =~= set.take(i as int));
            assert(set.take(i + 1).last() == e.deep_view());
            assert(set[i as int] == e.deep_view());
            lemma_position_from(e.name@, term@, 0);
        }
        let score = match find(e.name, term) {
            Some(pos) => Some(90 - pos as u32),
            None => if contains(e.keywords, term) {
                Some(60)
            } else {
                None
            },
        };
        assert(score == fit(e.deep_view(), term@));
        if let Some(score) = score {
            let row = to_result(e, Relevance::Fixed(score));
            out.push(row);
            assert(out.deep_view() =~= before.push(row.deep_view()));
        }
        i = i + 1;
    }
    assert(set.take(i as int) =~= set);
    out
}

// ---------------------------------------------------------------------------
// Activating and previewing
// ---------------------------------------------------------------------------

/// What activating an emoji does: it is copied, or its name as a shortcode.
pub open spec fn effects_of(
    id: Seq<char>,
    action: Option<Seq<char>>,
    tone: Option<Seq<char>>,
) -> Seq<EffectModel> {
    if action == Some("copy-name"@) {
        seq![
            EffectModel::CopyText { text: ":"@ + replaced(id, ' ', "_"@) + ":"@ },
            EffectModel::ShowToast {
                message: "Copied :"@ + id + ":"@,
                level: ToastLevel::Success,
            },
        ]
    } else {
        seq![EffectModel::CopyText { text: toned(id, tone) }]
    }
}

/// What activating an emoji does.
pub fn activate(id: &str, action: Option<&str>, tone: &Option<String>) -> (r: Vec<ActivateEffect>)
    ensures
        r.deep_view() == effects_of(
            id@,
            match action {
                Some(a) => Some(a@),
                None => None,
            },
            tone.deep_view(),
        ),
{
    let by_name = match action {
        Some(a) => same(a, "copy-name"),
        None => false,
    };
    if by_name {
        let code = replace(id, ' ', "_");
        vec![
            ActivateEffect::CopyText { text: ":".to_owned().concat(code.as_str()).concat(":") },
            ActivateEffect::ShowToast {
                message: "Copied :".to_owned().concat(id).concat(":"),
                level: ToastLevel::Success,
            },
        ]
    } else {
        vec![ActivateEffect::CopyText { text: toned_emoji(id, tone) }]
    }
}

/// What is shown of an emoji; nothing where there is none of that name.
pub open spec fn shown(id: Seq<char>) -> PreviewModel {
    PreviewModel::Metadata {
        items: match named(id) {
            Some(e) => seq![
                meta("Emoji"@, e.emoji),
                meta("Name"@, e.name),
                meta("Keywords"@, e.keywords),
                meta("Enter"@, "copy to clipboard"@),
            ],
            None => seq![],
        },
    }
}

/// What is shown of an emoji.
pub fn preview(id: &str) -> (r: PreviewContent)
    ensures
        r.deep_view() == shown(id@),
{
    match entry(id) {
        Some(e) => {
            let items = vec![
                item("Emoji", e.emoji.to_owned()),
                item("Name", e.name.to_owned()),
                item("Keywords", e.keywords.to_owned()),
                item("Enter", "copy to clipboard".to_owned()),
            ];
            let r = PreviewContent::Metadata { items };
            assert(r.deep_view() =~= shown(id@));
            r
        },
        None => {
            let items: Vec<MetadataItem> = Vec::new();
            assert(items.deep_view() =~= Seq::<MetadataModel>::empty());
            PreviewContent::Metadata { items }
        },
    }
}

// ---------------------------------------------------------------------------
// What holds of the rows
// ---------------------------------------------------------------------------

proof fn lemma_named_in(set: Seq<EmojiModel>, k: int)
    requires
        0 <= k < set.len(),
        forall|i: int, j: int|
            0 <= i < j < set.len() ==> (#[trigger] set[i]).name != (#[trigger] set[j]).name,
    ensures
        named_in(set, set[k].name) == Some(set[k]),
    decreases k,
{
    if k > 0 {
        assert(set[0].name != set[k].name);
        let rest = set.skip(1);
        assert forall|i: int, j: int| 0 <= i < j < rest.len() implies (#[trigger] rest[i]).name != (
        #[trigger] rest[j]).name by {
            assert(set[i + 1] == rest[i] && set[j + 1] == rest[j]);
        }
        lemma_named_in(rest, k - 1);
        assert(rest[k - 1] == set[k]);
    }
}

/// The id of each row names the emoji that it is for: Enter copies it, and the
/// preview shows it.
pub proof fn law_row_leads_to_its_emoji(k: int, relevance: Relevance)
    requires
        0 <= k < emoji_set().len(),
    ensures
        ({
            let e = emoji_set()[k];
            let id = emoji_row(e, relevance).id;
            &&& named(id) == Some(e)
            &&& effects_of(id, None, None) == seq![EffectModel::CopyText { text: e.emoji }]
            &&& shown(id) == (PreviewModel::Metadata {
                items: seq![
                    meta("Emoji"@, e.emoji),
                    meta("Name"@, e.name),
                    meta("Keywords"@, e.keywords),
                    meta("Enter"@, "copy to clipboard"@),
                ],
            })
        }),
{
    lemma_names();
    lemma_named_in(emoji_set(), k);
    reveal_strlit("");
    let e = emoji_set()[k];
    assert(e.emoji + ""@ =~= e.emoji);
}

/// A term in a name ranks above one among keywords, and the earlier it stands in
/// a name the higher it ranks.
pub proof fn law_name_hits_rank_higher(i: int, j: int, term: Seq<char>)
    requires
        0 <= i < emoji_set().len(),
        0 <= j < emoji_set().len(),
        position(emoji_set()[i].name, term) is Some,
        term.len() > 0,
    ensures
        ({
            let a = emoji_set()[i];
            let b = emoji_set()[j];
            match position(b.name, term) {
                Some(q) => position(a.name, term)->0 < q ==> fit(a, term)->0 > fit(b, term)->0,
                None => fit(b, term) is Some ==> fit(a, term)->0 > fit(b, term)->0,
            }
        }),
{
    lemma_names();
    lemma_position_from(emoji_set()[i].name, term, 0);
    lemma_position_from(emoji_set()[j].name, term, 0);
}

/// Where nothing is typed all emoji are listed, and ranked in their order.
pub proof fn law_browsing_lists_all(query: Seq<char>, i: int, j: int)
    requires
        0 <= i < j < emoji_set().len(),
    ensures
        lowercase(trimmed(query)).len() == 0 ==> {
            &&& search_rows(query).len() == emoji_set().len()
            &&& search_rows(query)[i].id == emoji_set()[i].name
            &&& search_rows(query)[i].relevance.above(search_rows(query)[j].relevance)
        },
{
    lemma_names();
}

/// A term finds every emoji whose name or keywords hold it, in the order of the
/// set, and no other; its row is named after it and shows it.
pub proof fn law_term_finds_every_emoji(set: Seq<EmojiModel>, term: Seq<char>)
    ensures
        ({
            let found = set.filter(
                |e: EmojiModel| holds(e.name, term) || holds(e.keywords, term),
            );
            let rows = fitting(set, term);
            &&& rows.len() == found.len()
            &&& forall|i: int|
                0 <= i < rows.len() ==> (#[trigger] rows[i]).id == found[i].name && rows[i].title
                    == found[i].emoji + " "@ + found[i].name && rows[i].subtitle == Some(
                    found[i].keywords,
                )
        }),
    decreases set.len(),
{
    reveal(Seq::filter);
    if set.len() > 0 {
        law_term_finds_every_emoji(set.drop_last(), term);
        let p = |e: EmojiModel| holds(e.name, term) || holds(e.keywords, term);
        let found = set.filter(p);
        let rows = fitting(set, term);
        let before = set.drop_last().filter(p);
        let head = fitting(set.drop_last(), term);
        assert forall|i: int| 0 <= i < rows.len() implies (#[trigger] rows[i]).id == found[i].name
            && rows[i].title == found[i].emoji + " "@ + found[i].name && rows[i].subtitle == Some(
            found[i].keywords,
        ) by {
            if i < head.len() {
                assert(rows[i] == head[i]);
                assert(found[i] == before[i]);
            }
        }
    }
}

/// A name as a shortcode: its words with underscores between them, and a colon
/// before and behind.
pub proof fn law_name_is_copied_as_shortcode(
    a: Seq<char>,
    b: Seq<char>,
    tone: Option<Seq<char>>,
)
    requires
        !a.contains(' ') && !b.contains(' '),
    ensures
        effects_of(a, Some("copy-name"@), tone)[0] == (EffectModel::CopyText {
            text: ":"@ + a + ":"@,
        }),
        effects_of(a + " "@ + b, Some("copy-name"@), tone)[0] == (EffectModel::CopyText {
            text: ":"@ + a + "_"@ + b + ":"@,
        }),
        effects_of(a, Some("copy-name"@), tone).len() == 2,
        effects_of(a, Some("copy-name"@), tone)[1] matches EffectModel::ShowToast { .. },
{
    reveal_strlit(" ");
    assert(" "@ =~= seq![' ']);
    law_replacing_goes_through(a, b, ' ', "_"@);
    law_replacing_goes_through(b, a, ' ', "_"@);
    assert(":"@ + (a + "_"@ + b) + ":"@ =~= ":"@ + a + "_"@ + b + ":"@);
}

/// Only the emoji of hands take a tone; the tones of the setting differ, and any
/// other leaves the emoji as it is. Whatever the tone, it is the emoji of the name
/// that is copied, also where no action is asked for.
pub proof fn law_tone_is_for_hands(k: int, tone: Seq<char>)
    requires
        0 <= k < emoji_set().len(),
    ensures
        ({
            let e = emoji_set()[k];
            let hand = e.name == "thumbs up"@ || e.name == "folded hands"@;
            &&& effects_of(e.name, Some("copy"@), Some(tone)) == effects_of(
                e.name,
                None,
                Some(tone),
            )
            &&& !hand ==> effects_of(e.name, None, Some(tone)) == seq![
                EffectModel::CopyText { text: e.emoji },
            ]
            &&& hand && tone == "light"@ ==> effects_of(e.name, None, Some(tone)) == seq![
                EffectModel::CopyText { text: e.emoji + "\u{1F3FB}"@ },
            ]
            &&& hand && tone == "medium"@ ==> effects_of(e.name, None, Some(tone)) == seq![
                EffectModel::CopyText { text: e.emoji + "\u{1F3FD}"@ },
            ]
            &&& hand && tone == "dark"@ ==> effects_of(e.name, None, Some(tone)) == seq![
                EffectModel::CopyText { text: e.emoji + "\u{1F3FF}"@ },
            ]
            &&& tone != "light"@ && tone != "medium"@ && tone != "dark"@ ==> effects_of(
                e.name,
                None,
                Some(tone),
            ) == seq![EffectModel::CopyText { text: e.emoji }]
        }),
{
    lemma_names();
    lemma_named_in(emoji_set(), k);
    reveal_strlit("");
    reveal_strlit("copy");
    reveal_strlit("copy-name");
    reveal_strlit("light");
    reveal_strlit("medium");
    reveal_strlit("dark");
    assert("copy"@.len() != "copy-name"@.len());
    assert("light"@.len() == 5 && "medium"@.len() == 6 && "dark"@.len() == 4);
    let e = emoji_set()[k];
    assert(e.emoji + ""@ =~= e.emoji);
}

/// An emoji with the term in its name scores ninety less the place where the term
/// starts; one with the term among its keywords alone scores sixty, below every name
/// in which the term starts within the first thirty characters.
pub proof fn law_names_rank_before_keywords(e: EmojiModel, f: EmojiModel, term: Seq<char>, at: int)
    requires
        position(e.name, term) == Some(at),
        0 <= at < 90,
        position(f.name, term) is None,
        holds(f.keywords, term),
    ensures
        fit(e, term) == Some((90 - at) as u32),
        fit(f, term) == Some(60u32),
        at < 30 ==> (fit(e, term) matches Some(a) && (fit(f, term) matches Some(b) && a > b)),
{
}

/// Where nothing is typed, the rows rank by their place in the set, from eighty
/// down.
pub proof fn law_browsing_ranks_by_place(i: int)
    requires
        0 <= i < browse_rows().len(),
    ensures
        i <= 80 ==> browse_rows()[i].relevance == Relevance::Fixed((80 - i) as u32),
        browse_rows()[i].id == emoji_set()[i].name,
{
}

/// What is offered with an emoji: to copy it, or its name.
pub proof fn law_menu_offers_emoji_and_name()
    ensures
        ({
            let menu = emoji_menu();
            &&& menu.len() == 2
            &&& menu[0].id == "copy"@ && menu[0].label == "Copy emoji"@ && menu[0].hint is None
            &&& menu[1].id == "copy-name"@ && menu[1].label == "Copy name"@
            &&& menu[1].hint == Some("as :shortcode: text"@)
        }),
{
}

} // verus!
