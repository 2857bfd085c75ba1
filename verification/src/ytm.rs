//! YouTube Music: songs and the queue, through a companion in the browser. The
//! rows carry all that activating or previewing them needs: their ids are
//! "song:" or "qitem:" before a JSON text.
use vstd::prelude::*;
use vstd::string::*;

use crate::encode::{
    base64, base64_decoded, base64_encode, escape_html, html_escaped, law_base64_length,
    law_base64_round_trip, urlencode, urlencoded,
};
use crate::host::{
    law_ranked_descending, open, opening, toast, toasting, Action, ActionModel, ActivateEffect,
    EffectModel, ExtensionResult, IconAsset, MetadataItem, MetadataModel, PreviewContent,
    PreviewModel, Relevance, Request, RequestModel, ResultIcon, ResultIconModel, ResultModel,
    ToastLevel,
};
use crate::json::{
    array_field, field, member, nonempty_text_field, number_field, text_field, text_field_or_empty,
    true_field, Json,
};
use crate::text::{
    at_most, contains, copy_option, cut_at_char, decimal, decimal_text, has_prefix, holds,
    last_char_index, law_last_one_is_found, lemma_cut_at_char, lemma_other_prefix, lemma_without_prefix, lowercase, same,
    split_last, split_once_char, starts_with, strip_prefix, to_lowercase, trim, trimmed,
    without_prefix,
};

verus! {

/// How long the companion may take for a search.
pub const SEARCH_TIMEOUT_MS: u64 = 8000;

/// How long the companion may take for an action.
pub const ACTION_TIMEOUT_MS: u64 = 5000;

/// How many songs are read from an answer.
pub const MAX_SONGS: usize = 15;

/// How many pictures are fetched for one list.
pub const ART_FETCH_BUDGET: usize = 16;

// ---------------------------------------------------------------------------
// Songs
// ---------------------------------------------------------------------------

/// A song that the companion found.
#[derive(Debug, PartialEq, Eq)]
pub struct Song {
    pub video_id: String,
    pub title: String,
    pub artist: String,
    pub album: String,
    pub duration: Option<String>,
    pub thumb_url: Option<String>,
}

#[verifier::ext_equal]
pub struct SongModel {
    pub video_id: Seq<char>,
    pub title: Seq<char>,
    pub artist: Seq<char>,
    pub album: Seq<char>,
    pub duration: Option<Seq<char>>,
    pub thumb_url: Option<Seq<char>>,
}

impl DeepView for Song {
    type V = SongModel;

    open spec fn deep_view(&self) -> SongModel {
        SongModel {
            video_id: self.video_id@,
            title: self.title@,
            artist: self.artist@,
            album: self.album@,
            duration: self.duration.deep_view(),
            thumb_url: self.thumb_url.deep_view(),
        }
    }
}

/// What the id of a row carries: the video, artist, album, duration, picture,
/// and for a row of the queue its position.
#[derive(Debug, PartialEq, Eq)]
pub struct SongMeta {
    pub v: String,
    pub a: String,
    pub al: String,
    pub d: Option<String>,
    pub t: Option<String>,
    pub i: Option<usize>,
}

#[verifier::ext_equal]
pub struct SongMetaModel {
    pub v: Seq<char>,
    pub a: Seq<char>,
    pub al: Seq<char>,
    pub d: Option<Seq<char>>,
    pub t: Option<Seq<char>>,
    pub i: Option<usize>,
}

impl DeepView for SongMeta {
    type V = SongMetaModel;

    open spec fn deep_view(&self) -> SongMetaModel {
        SongMetaModel {
            v: self.v@,
            a: self.a@,
            al: self.al@,
            d: self.d.deep_view(),
            t: self.t.deep_view(),
            i: self.i,
        }
    }
}

impl SongModel {
    /// What the id of the song's row carries.
    pub open spec fn meta(self) -> SongMetaModel {
        SongMetaModel {
            v: self.video_id,
            a: self.artist,
            al: self.album,
            d: self.duration,
            t: self.thumb_url,
            i: None,
        }
    }
}

impl Song {
    /// What the id of the song's row carries.
    pub fn meta(&self) -> (r: SongMeta)
        ensures
            r.deep_view() == self.deep_view().meta(),
    {
        SongMeta {
            v: self.video_id.clone(),
            a: self.artist.clone(),
            al: self.album.clone(),
            d: copy_option(&self.duration),
            t: copy_option(&self.thumb_url),
            i: None,
        }
    }
}

/// One track of the queue.
#[derive(Debug, PartialEq, Eq)]
pub struct QueueRow {
    pub index: usize,
    pub video_id: String,
    pub title: String,
    pub artist: String,
    pub duration: Option<String>,
    pub thumb: Option<String>,
    pub current: bool,
}

#[verifier::ext_equal]
pub struct QueueRowModel {
    pub index: usize,
    pub video_id: Seq<char>,
    pub title: Seq<char>,
    pub artist: Seq<char>,
    pub duration: Option<Seq<char>>,
    pub thumb: Option<Seq<char>>,
    pub current: bool,
}

impl DeepView for QueueRow {
    type V = QueueRowModel;

    open spec fn deep_view(&self) -> QueueRowModel {
        QueueRowModel {
            index: self.index,
            video_id: self.video_id@,
            title: self.title@,
            artist: self.artist@,
            duration: self.duration.deep_view(),
            thumb: self.thumb.deep_view(),
            current: self.current,
        }
    }
}

impl QueueRowModel {
    /// What the id of the track's row carries.
    pub open spec fn meta(self) -> SongMetaModel {
        SongMetaModel {
            v: self.video_id,
            a: self.artist,
            al: ""@,
            d: self.duration,
            t: self.thumb,
            i: Some(self.index),
        }
    }
}

impl QueueRow {
    /// What the id of the track's row carries.
    pub fn meta(&self) -> (r: SongMeta)
        ensures
            r.deep_view() == self.deep_view().meta(),
    {
        SongMeta {
            v: self.video_id.clone(),
            a: self.artist.clone(),
            al: "".to_owned(),
            d: copy_option(&self.duration),
            t: copy_option(&self.thumb),
            i: Some(self.index),
        }
    }

    /// A copy of the track.
    pub fn copy(&self) -> (r: QueueRow)
        ensures
            r.deep_view() == self.deep_view(),
    {
        QueueRow {
            index: self.index,
            video_id: self.video_id.clone(),
            title: self.title.clone(),
            artist: self.artist.clone(),
            duration: copy_option(&self.duration),
            thumb: copy_option(&self.thumb),
            current: self.current,
        }
    }
}

/// The JSON text in the id of a song's or a track's row.
pub open spec fn payload(id: Seq<char>) -> Option<Seq<char>> {
    match without_prefix(id, "song:"@) {
        Some(json) => Some(json),
        None => without_prefix(id, "qitem:"@),
    }
}

/// The JSON text in the id of a song's or a track's row, which holds a
/// `SongMeta`.
pub fn decode_meta(id: &str) -> (r: Option<String>)
    ensures
        r.deep_view() == payload(id@),
{
    match strip_prefix(id, "song:") {
        Some(json) => Some(json),
        None => strip_prefix(id, "qitem:"),
    }
}

// ---------------------------------------------------------------------------
// Rows
// ---------------------------------------------------------------------------

/// An action with a hint or none, and a shortcut or none.
pub open spec fn an_action(
    id: Seq<char>,
    label: Seq<char>,
    hint: Option<Seq<char>>,
    opens_form: bool,
    shortcut: Option<Seq<char>>,
) -> ActionModel {
    ActionModel { id, label, hint, opens_form, shortcut }
}

fn an(id: &str, label: &str, hint: Option<&str>, opens_form: bool, shortcut: Option<&str>) -> (r:
    Action)
    ensures
        r.deep_view() == an_action(
            id@,
            label@,
            match hint {
                Some(h) => Some(h@),
                None => None,
            },
            opens_form,
            match shortcut {
                Some(s) => Some(s@),
                None => None,
            },
        ),
{
    Action {
        id: id.to_owned(),
        label: label.to_owned(),
        hint: match hint {
            Some(h) => Some(h.to_owned()),
            None => None,
        },
        opens_form,
        shortcut: match shortcut {
            Some(s) => Some(s.to_owned()),
            None => None,
        },
    }
}

/// What can be done with a song. What queues it keeps the launcher open, which
/// is marked as for a form so that it does not hide first.
pub open spec fn song_menu() -> Seq<ActionModel> {
    seq![
        an_action("play_now"@, "Play now"@, Some("in YouTube Music"@), false, None),
        an_action("play_next"@, "Play next"@, Some("after current track"@), true, Some("ctrl+n"@)),
        an_action("queue_last"@, "Add to queue"@, Some("end of the queue"@), true, Some("ctrl+q"@)),
        an_action("open"@, "Open in browser"@, None, false, Some("ctrl+o"@)),
    ]
}

/// What can be done with a song.
pub fn song_actions() -> (r: Vec<Action>)
    ensures
        r.deep_view() == song_menu(),
{
    let r = vec![
        an("play_now", "Play now", Some("in YouTube Music"), false, None),
        an("play_next", "Play next", Some("after current track"), true, Some("ctrl+n")),
        an("queue_last", "Add to queue", Some("end of the queue"), true, Some("ctrl+q")),
        an("open", "Open in browser", None, false, Some("ctrl+o")),
    ];
    assert(r.deep_view() =~= song_menu());
    r
}

/// What can be done with a track of the queue.
pub open spec fn queue_menu() -> Seq<ActionModel> {
    seq![
        an_action("skip_to"@, "Skip to"@, Some("play this track"@), true, None),
        an_action("remove"@, "Remove from queue"@, None, true, Some("ctrl+d"@)),
        an_action("open"@, "Open in browser"@, None, false, Some("ctrl+o"@)),
    ]
}

/// What can be done with a track of the queue.
pub fn queue_actions() -> (r: Vec<Action>)
    ensures
        r.deep_view() == queue_menu(),
{
    let r = vec![
        an("skip_to", "Skip to", Some("play this track"), true, None),
        an("remove", "Remove from queue", None, true, Some("ctrl+d")),
        an("open", "Open in browser", None, false, Some("ctrl+o")),
    ];
    assert(r.deep_view() =~= queue_menu());
    r
}

/// The icon of rows without a picture of their own.
pub open spec fn music_icon() -> ResultIconModel {
    ResultIconModel::Asset(IconAsset::Music)
}

/// The icon of rows without a picture of their own.
pub fn icon() -> (r: ResultIcon)
    ensures
        r.deep_view() == music_icon(),
{
    ResultIcon::Asset(IconAsset::Music)
}

/// The artist, if one is known.
pub open spec fn artist_line(artist: Seq<char>) -> Option<Seq<char>> {
    if artist.len() == 0 {
        None
    } else {
        Some(artist)
    }
}

fn line_of_artist(artist: &String) -> (r: Option<String>)
    ensures
        r.deep_view() == artist_line(artist@),
{
    if artist.as_str().is_empty() {
        None
    } else {
        Some(artist.clone())
    }
}

/// The row of a song. `json` is the text of what its id carries.
pub open spec fn song_row(
    s: SongModel,
    json: Seq<char>,
    relevance: Relevance,
    icon: ResultIconModel,
) -> ResultModel {
    ResultModel {
        id: "song:"@ + json,
        title: s.title,
        subtitle: artist_line(s.artist),
        relevance,
        actions: song_menu(),
        icon: Some(icon),
        badge: s.duration,
    }
}

/// The row of a song. `json` is the text of what its id carries.
pub fn song_result(s: &Song, json: &str, relevance: Relevance, row_icon: ResultIcon) -> (r:
    ExtensionResult)
    ensures
        r.deep_view() == song_row(s.deep_view(), json@, relevance, row_icon.deep_view()),
{
    let r = ExtensionResult {
        id: "song:".to_owned().concat(json),
        title: s.title.clone(),
        subtitle: line_of_artist(&s.artist),
        relevance,
        actions: song_actions(),
        icon: Some(row_icon),
        badge: copy_option(&s.duration),
    };
    assert(r.deep_view() =~= song_row(s.deep_view(), json@, relevance, row_icon.deep_view()));
    r
}

/// The score of the `i`-th of `n` songs, so that the companion's order is kept.
pub fn ranked(i: usize, n: usize) -> (r: Relevance)
    ensures
        r == song_rank(i as int, n as int),
{
    Relevance::Ranked { index: i, count: n, top: 100, span: 40 }
}

/// The score of the `i`-th of `n` songs.
pub open spec fn song_rank(i: int, n: int) -> Relevance {
    Relevance::Ranked { index: i as usize, count: n as usize, top: 100, span: 40 }
}

/// The score of a track of a queue of `n`: the one that plays comes first, the
/// others in their order.
pub open spec fn queue_rank(r: QueueRowModel, n: int) -> Relevance {
    if r.current {
        Relevance::Fixed(100)
    } else {
        Relevance::Ranked { index: r.index, count: n as usize, top: 99, span: 90 }
    }
}

/// The row of a track of a queue of `n`. `json` is the text of what its id
/// carries.
pub open spec fn track_row(
    r: QueueRowModel,
    json: Seq<char>,
    n: int,
    icon: ResultIconModel,
) -> ResultModel {
    ResultModel {
        id: "qitem:"@ + json,
        title: r.title,
        subtitle: artist_line(r.artist),
        relevance: queue_rank(r, n),
        actions: queue_menu(),
        icon: Some(icon),
        badge: if r.current {
            Some("\u{25B6} Now playing"@)
        } else {
            r.duration
        },
    }
}

/// The row of a track of a queue of `n`. `json` is the text of what its id
/// carries.
pub fn queue_result(r: &QueueRow, json: &str, n: usize, row_icon: ResultIcon) -> (row:
    ExtensionResult)
    ensures
        row.deep_view() == track_row(r.deep_view(), json@, n as int, row_icon.deep_view()),
{
    let relevance = if r.current {
        Relevance::Fixed(100)
    } else {
        Relevance::Ranked { index: r.index, count: n, top: 99, span: 90 }
    };
    let badge = if r.current {
        Some("\u{25B6} Now playing".to_owned())
    } else {
        copy_option(&r.duration)
    };
    let row = ExtensionResult {
        id: "qitem:".to_owned().concat(json),
        title: r.title.clone(),
        subtitle: line_of_artist(&r.artist),
        relevance,
        actions: queue_actions(),
        icon: Some(row_icon),
        badge,
    };
    assert(row.deep_view() =~= track_row(
        r.deep_view(),
        json@,
        n as int,
        row_icon.deep_view(),
    ));
    row
}

/// The row of a message.
pub open spec fn message_row(title: Seq<char>, subtitle: Seq<char>) -> ResultModel {
    ResultModel {
        id: "msg"@,
        title,
        subtitle: Some(subtitle),
        relevance: Relevance::Fixed(50),
        actions: seq![],
        icon: Some(music_icon()),
        badge: None,
    }
}

/// The row of a message.
pub fn emit_message(title: &str, subtitle: &str) -> (r: ExtensionResult)
    ensures
        r.deep_view() == message_row(title@, subtitle@),
{
    let r = ExtensionResult {
        id: "msg".to_owned(),
        title: title.to_owned(),
        subtitle: Some(subtitle.to_owned()),
        relevance: Relevance::Fixed(50),
        actions: Vec::new(),
        icon: Some(icon()),
        badge: None,
    };
    assert(r.deep_view() =~= message_row(title@, subtitle@));
    r
}

// ---------------------------------------------------------------------------
// Pictures
// ---------------------------------------------------------------------------

/// The key under which the picture of a video is kept.
pub open spec fn art_key_text(video_id: Seq<char>) -> Option<Seq<char>> {
    if video_id.len() == 0 {
        None
    } else {
        Some("art:"@ + video_id)
    }
}

/// The key under which the picture of a video is kept.
pub fn art_key(video_id: &str) -> (r: Option<String>)
    ensures
        r.deep_view() == art_key_text(video_id@),
{
    if video_id.is_empty() {
        None
    } else {
        Some("art:".to_owned().concat(video_id))
    }
}

/// How a picture is kept: its type and its data, with a tab between them.
pub open spec fn art_entry(mime: Seq<char>, b64: Seq<char>) -> Seq<char> {
    mime + "\t"@ + b64
}

/// The picture of a video, as far as one is kept.
pub open spec fn kept_art(video_id: Seq<char>, stored: Option<Seq<char>>) -> Option<ResultIconModel> {
    match stored {
        Some(entry) if video_id.len() > 0 => match cut_at_char(entry, '\t') {
            Some((mime, b64)) => Some(ResultIconModel::Inline { mime, data_base64: b64 }),
            None => None,
        },
        _ => None,
    }
}

/// The picture of a video, as far as one is kept. `stored` is what stands under
/// its key.
pub fn cached_icon(video_id: &str, stored: &Option<String>) -> (r: Option<ResultIcon>)
    ensures
        r.deep_view() == kept_art(video_id@, stored.deep_view()),
{
    if video_id.is_empty() {
        return None;
    }
    match stored {
        Some(entry) => match split_once_char(entry.as_str(), '\t') {
            Some((mime, b64)) => Some(ResultIcon::Inline { mime, data_base64: b64 }),
            None => None,
        },
        None => None,
    }
}

/// The size that a picture is asked for in.
pub open spec fn size_suffix(px: u32) -> Seq<char> {
    "=w"@ + decimal(px as nat) + "-h"@ + decimal(px as nat)
}

/// The address of a small variant of a picture. Those of two hosts are known:
/// one has small pictures under a name of their own, the other takes the size
/// behind an equals sign. Any other address stays as it is.
pub open spec fn small_thumb(url: Seq<char>, px: u32) -> Seq<char> {
    if holds(url, "ytimg.com"@) {
        match last_char_index(url, '/') {
            Some(k) => url.take(k) + "/default.jpg"@,
            None => url,
        }
    } else if holds(url, "googleusercontent.com"@) {
        match last_char_index(url, '=') {
            Some(k) => url.take(k) + size_suffix(px) + "-l90-rj"@,
            None => url + size_suffix(px),
        }
    } else {
        url
    }
}

/// The address of a small variant of a picture.
pub fn small_thumb_url(url: &str, px: u32) -> (r: String)
    ensures
        r@ == small_thumb(url@, px),
{
    if contains(url, "ytimg.com") {
        return match split_last(url, '/') {
            Some((head, _)) => head.concat("/default.jpg"),
            None => url.to_owned(),
        };
    }
    if !contains(url, "googleusercontent.com") {
        return url.to_owned();
    }
    let n = decimal_text(px as u64);
    let size = "=w".to_owned().concat(n.as_str()).concat("-h").concat(n.as_str());
    match split_last(url, '=') {
        Some((head, _)) => head.concat(size.as_str()).concat("-l90-rj"),
        None => url.to_owned().concat(size.as_str()),
    }
}

/// The type of the picture at an address.
pub open spec fn image_type(url: Seq<char>) -> Seq<char> {
    if holds(url, ".png"@) {
        "image/png"@
    } else if holds(url, ".webp"@) {
        "image/webp"@
    } else {
        "image/jpeg"@
    }
}

fn type_of_image(url: &str) -> (r: &'static str)
    ensures
        r@ == image_type(url@),
{
    if contains(url, ".png") {
        "image/png"
    } else if contains(url, ".webp") {
        "image/webp"
    } else {
        "image/jpeg"
    }
}

/// Whether an answer brings a picture that is not too large.
pub open spec fn usable(status: u16, len: nat, cap: nat) -> bool {
    status == 200 && 0 < len <= cap
}

/// The picture for a row that an answer brings, as type and data. One of more
/// than 20 KiB is not used.
pub open spec fn icon_data(url: Seq<char>, status: u16, body: Seq<u8>) -> Option<
    (Seq<char>, Seq<char>),
> {
    if usable(status, body.len(), 20_480) {
        Some((image_type(url), base64(body)))
    } else {
        None
    }
}

/// The picture for a row that an answer brings, as type and data.
pub fn fetch_icon_b64(url: &str, status: u16, body: &[u8]) -> (r: Option<(String, String)>)
    ensures
        r.deep_view() == icon_data(url@, status, body@),
{
    if status != 200 || body.len() == 0 || body.len() > 20_480 {
        return None;
    }
    Some((type_of_image(url).to_owned(), base64_encode(body)))
}

/// The picture for a preview that an answer brings, as an address of its own.
/// A preview may take 128 KiB: a picture whose address would not stay under that
/// is not used.
pub open spec fn data_uri(url: Seq<char>, status: u16, body: Seq<u8>) -> Option<Seq<char>> {
    if usable(status, body.len(), 98_286) {
        Some("data:"@ + image_type(url) + ";base64,"@ + base64(body))
    } else {
        None
    }
}

/// The picture for a preview that an answer brings, as an address of its own.
pub fn fetch_thumb_data_uri(url: &str, status: u16, body: &[u8]) -> (r: Option<String>)
    ensures
        r.deep_view() == data_uri(url@, status, body@),
{
    if status != 200 || body.len() == 0 || body.len() > 98_286 {
        return None;
    }
    let data = base64_encode(body);
    Some("data:".to_owned().concat(type_of_image(url)).concat(";base64,").concat(data.as_str()))
}

/// The address, if there is one.
pub open spec fn nonempty(url: Option<Seq<char>>) -> Option<Seq<char>> {
    match url {
        Some(u) if u.len() > 0 => Some(u),
        _ => None,
    }
}

/// The picture of a row: at hand, or to be fetched from an address.
#[derive(Debug, PartialEq, Eq)]
pub enum RowArt {
    Ready(ResultIcon),
    Fetch(String),
}

#[verifier::ext_equal]
pub enum RowArtModel {
    Ready(ResultIconModel),
    Fetch(Seq<char>),
}

impl DeepView for RowArt {
    type V = RowArtModel;

    open spec fn deep_view(&self) -> RowArtModel {
        match self {
            RowArt::Ready(icon) => RowArtModel::Ready(icon.deep_view()),
            RowArt::Fetch(url) => RowArtModel::Fetch(url@),
        }
    }
}

/// The picture of a row: the one that is kept, or else a small one to be
/// fetched while there is budget, or else the common icon.
pub open spec fn art_of(
    video_id: Seq<char>,
    thumb: Option<Seq<char>>,
    stored: Option<Seq<char>>,
    budget: usize,
) -> RowArtModel {
    match kept_art(video_id, stored) {
        Some(icon) => RowArtModel::Ready(icon),
        None => match nonempty(thumb) {
            Some(url) if budget > 0 && video_id.len() > 0 => RowArtModel::Fetch(
                small_thumb(url, 48),
            ),
            _ => RowArtModel::Ready(music_icon()),
        },
    }
}

/// The picture of a row.
pub fn row_icon(video_id: &str, thumb: &Option<String>, stored: &Option<String>, budget: usize) -> (r:
    RowArt)
    ensures
        r.deep_view() == art_of(video_id@, thumb.deep_view(), stored.deep_view(), budget),
{
    if let Some(icon) = cached_icon(video_id, stored) {
        return RowArt::Ready(icon);
    }
    if budget == 0 || video_id.is_empty() {
        return RowArt::Ready(icon());
    }
    match thumb {
        Some(url) => if url.as_str().is_empty() {
            RowArt::Ready(icon())
        } else {
            RowArt::Fetch(small_thumb_url(url.as_str(), 48))
        },
        None => RowArt::Ready(icon()),
    }
}

/// What is left of the budget after a fetch: it goes down where a picture came.
pub open spec fn budget_after(budget: usize, fetched: bool) -> usize {
    if fetched && budget > 0 {
        (budget - 1) as usize
    } else {
        budget
    }
}

/// The icon of a row whose picture was fetched: the picture, or the common icon
/// where none came. A picture is kept, so there is a key and an entry for it.
pub fn row_fetched(video_id: &str, picture: Option<(String, String)>, budget: &mut usize) -> (r: (
    ResultIcon,
    Option<(String, String)>,
))
    ensures
        *final(budget) == budget_after(*old(budget), picture is Some),
        r.0.deep_view() == (match picture.deep_view() {
            Some((mime, b64)) => ResultIconModel::Inline { mime, data_base64: b64 },
            None => music_icon(),
        }),
        r.1.deep_view() == (match picture.deep_view() {
            Some((mime, b64)) => Some(("art:"@ + video_id@, art_entry(mime, b64))),
            None => None,
        }),
        video_id@.len() > 0 ==> match r.1.deep_view() {
            Some((key, _)) => art_key_text(video_id@) == Some(key),
            None => picture is None,
        },
{
    match picture {
        Some((mime, b64)) => {
            if *budget > 0 {
                *budget = *budget - 1;
            }
            let entry = mime.clone().concat("\t").concat(b64.as_str());
            let key = "art:".to_owned().concat(video_id);
            (ResultIcon::Inline { mime, data_base64: b64 }, Some((key, entry)))
        },
        None => (icon(), None),
    }
}

// ---------------------------------------------------------------------------
// Lists
// ---------------------------------------------------------------------------

/// A track with what its row is made of: the text of what its id carries, and
/// what is kept under the key of its picture.
#[derive(Debug, PartialEq, Eq)]
pub struct QueueEntry {
    pub row: QueueRow,
    pub json: String,
    pub stored: Option<String>,
}

/// A song with what its row is made of.
#[derive(Debug, PartialEq, Eq)]
pub struct SongEntry {
    pub song: Song,
    pub json: String,
    pub stored: Option<String>,
}

/// A list that is shown with the pictures at hand, and whether others can be
/// fetched.
#[derive(Debug, PartialEq, Eq)]
pub struct FirstPass {
    pub rows: Vec<ExtensionResult>,
    pub any_miss: bool,
}

/// The picture that is kept, or the common icon.
pub open spec fn art_at_hand(video_id: Seq<char>, stored: Option<Seq<char>>) -> ResultIconModel {
    match kept_art(video_id, stored) {
        Some(icon) => icon,
        None => music_icon(),
    }
}

/// Whether a picture is not kept and could be fetched.
pub open spec fn missing(
    video_id: Seq<char>,
    thumb: Option<Seq<char>>,
    stored: Option<Seq<char>>,
) -> bool {
    kept_art(video_id, stored) is None && video_id.len() > 0 && nonempty(thumb) is Some
}

fn art_now(video_id: &str, thumb: &Option<String>, stored: &Option<String>) -> (r: (
    ResultIcon,
    bool,
))
    ensures
        r.0.deep_view() == art_at_hand(video_id@, stored.deep_view()),
        r.1 == missing(video_id@, thumb.deep_view(), stored.deep_view()),
{
    match cached_icon(video_id, stored) {
        Some(icon) => (icon, false),
        None => {
            let fetchable = match thumb {
                Some(url) => !url.as_str().is_empty(),
                None => false,
            };
            (icon(), !video_id.is_empty() && fetchable)
        },
    }
}

/// The rows of a queue of `n` with the pictures at hand.
pub open spec fn queue_rows(entries: Seq<QueueEntry>, n: int) -> Seq<ResultModel> {
    Seq::new(
        entries.len(),
        |i: int|
            track_row(
                entries[i].row.deep_view(),
                entries[i].json@,
                n,
                art_at_hand(entries[i].row.video_id@, entries[i].stored.deep_view()),
            ),
    )
}

/// Whether the picture of a track is not kept and could be fetched.
pub open spec fn track_misses(e: QueueEntry) -> bool {
    missing(e.row.video_id@, e.row.thumb.deep_view(), e.stored.deep_view())
}

/// A queue of `n` with the pictures at hand, and whether others can be fetched.
/// A list whose pictures are all kept is shown once and does not flicker.
pub fn emit_queue(entries: &Vec<QueueEntry>, n: usize) -> (r: FirstPass)
    ensures
        r.rows.deep_view() == queue_rows(entries@, n as int),
        r.any_miss == exists|i: int| 0 <= i < entries@.len() && track_misses(#[trigger] entries@[i]),
{
    let ghost all = queue_rows(entries@, n as int);
    let mut rows: Vec<ExtensionResult> = Vec::new();
    let mut any_miss = false;
    let mut i: usize = 0;
    while i < entries.len()
        invariant
            i <= entries.len(),
            all == queue_rows(entries@, n as int),
            rows.deep_view() == all.take(i as int),
            any_miss == exists|k: int| 0 <= k < i && track_misses(#[trigger] entries@[k]),
        decreases entries.len() - i,
    {
        let ghost before = rows.deep_view();
        let e = &entries[i];
        let (icon, miss) = art_now(e.row.video_id.as_str(), &e.row.thumb, &e.stored);
        assert(miss == track_misses(entries@[i as int]));
        if miss {
            any_miss = true;
        }
        let row = queue_result(&e.row, e.json.as_str(), n, icon);
        assert(row.deep_view() == all[i as int]);
        rows.push(row);
        assert(rows.deep_view() =~= before.push(all[i as int]));
        assert(all.take(i + 1) =~= before.push(all[i as int]));
        i = i + 1;
    }
    assert(all.take(i as int) =~= all);
    FirstPass { rows, any_miss }
}

/// The rows of songs with the pictures at hand.
pub open spec fn song_rows(entries: Seq<SongEntry>) -> Seq<ResultModel> {
    Seq::new(
        entries.len(),
        |i: int|
            song_row(
                entries[i].song.deep_view(),
                entries[i].json@,
                song_rank(i, entries.len() as int),
                art_at_hand(entries[i].song.video_id@, entries[i].stored.deep_view()),
            ),
    )
}

/// Whether the picture of a song is not kept and could be fetched.
pub open spec fn song_misses(e: SongEntry) -> bool {
    missing(e.song.video_id@, e.song.thumb_url.deep_view(), e.stored.deep_view())
}

/// Songs with the pictures at hand, and whether others can be fetched.
pub fn emit_songs(entries: &Vec<SongEntry>) -> (r: FirstPass)
    ensures
        r.rows.deep_view() == song_rows(entries@),
        r.any_miss == exists|i: int| 0 <= i < entries@.len() && song_misses(#[trigger] entries@[i]),
{
    let ghost all = song_rows(entries@);
    let n = entries.len();
    let mut rows: Vec<ExtensionResult> = Vec::new();
    let mut any_miss = false;
    let mut i: usize = 0;
    while i < n
        invariant
            i <= n,
            n == entries.len(),
            all == song_rows(entries@),
            rows.deep_view() == all.take(i as int),
            any_miss == exists|k: int| 0 <= k < i && song_misses(#[trigger] entries@[k]),
        decreases n - i,
    {
        let ghost before = rows.deep_view();
        let e = &entries[i];
        let (icon, miss) = art_now(e.song.video_id.as_str(), &e.song.thumb_url, &e.stored);
        assert(miss == song_misses(entries@[i as int]));
        if miss {
            any_miss = true;
        }
        let row = song_result(&e.song, e.json.as_str(), ranked(i, n), icon);
        assert(row.deep_view() == all[i as int]);
        rows.push(row);
        assert(rows.deep_view() =~= before.push(all[i as int]));
        assert(all.take(i + 1) =~= before.push(all[i as int]));
        i = i + 1;
    }
    assert(all.take(i as int) =~= all);
    FirstPass { rows, any_miss }
}

/// The request for a picture.
pub open spec fn picture_request(url: Seq<char>) -> RequestModel {
    RequestModel { method: Some("GET"@), url, headers: seq![], body: None }
}

/// The request for a picture.
pub fn art_request(url: &str) -> (r: Request)
    ensures
        r.deep_view() == picture_request(url@),
{
    Request {
        method: Some("GET".to_owned()),
        url: url.to_owned(),
        headers: Vec::new(),
        body: None,
    }
}

/// Whether a term occurs in a title or an artist, all in lower case. An empty one
/// occurs in all.
pub open spec fn track_fits(title: Seq<char>, artist: Seq<char>, term: Seq<char>) -> bool {
    ||| term.len() == 0
    ||| holds(title, term)
    ||| holds(artist, term)
}

/// Whether a term, in whatever case, occurs in the title or the artist of a
/// track. A blank one occurs in all.
pub open spec fn track_matches(r: QueueRowModel, term: Seq<char>) -> bool {
    track_fits(lowercase(r.title), lowercase(r.artist), lowercase(trimmed(term)))
}

/// The tracks that a term matches.
pub open spec fn matching_tracks(rows: Seq<QueueRowModel>, term: Seq<char>) -> Seq<QueueRowModel>
    decreases rows.len(),
{
    if rows.len() == 0 {
        seq![]
    } else {
        let head = matching_tracks(rows.drop_last(), term);
        if track_matches(rows.last(), term) {
            head.push(rows.last())
        } else {
            head
        }
    }
}

/// Whether a term occurs in a title or an artist, all in lower case.
pub fn matches_lowered(title: &str, artist: &str, term: &str) -> (r: bool)
    ensures
        r == track_fits(title@, artist@, term@),
{
    term.is_empty() || contains(title, term) || contains(artist, term)
}

/// The tracks that a term matches.
pub fn visible_tracks(rows: &Vec<QueueRow>, term: &str) -> (r: Vec<QueueRow>)
    ensures
        r.deep_view() == matching_tracks(rows.deep_view(), term@),
{
    let typed = trim(term);
    let t = to_lowercase(typed.as_str());
    let ghost all = rows.deep_view();
    let mut out: Vec<QueueRow> = Vec::new();
    let mut i: usize = 0;
    assert(all.take(0) =~= seq![]);
    assert(out.deep_view() =~= matching_tracks(all.take(0), term@));
    while i < rows.len()
        invariant
            i <= rows.len(),
            all == rows.deep_view(),
            t@ == lowercase(trimmed(term@)),
            out.deep_view() == matching_tracks(all.take(i as int), term@),
        decreases rows.len() - i,
    {
        let ghost before = out.deep_view();
        assert(all.take(i + 1).drop_last() =~= all.take(i as int));
        assert(all.take(i + 1).last() == rows[i as int].deep_view());
        let row = &rows[i];
        let title = to_lowercase(row.title.as_str());
        let artist = to_lowercase(row.artist.as_str());
        if matches_lowered(title.as_str(), artist.as_str(), t.as_str()) {
            out.push(row.copy());
            assert(out.deep_view() =~= before.push(all[i as int]));
        }
        i = i + 1;
    }
    assert(all.take(i as int) =~= all);
    out
}

// ---------------------------------------------------------------------------
// The companion
// ---------------------------------------------------------------------------

/// An object of texts.
pub open spec fn is_texts(j: Json, members: Seq<(Seq<char>, Seq<char>)>) -> bool {
    j matches Json::Object(m) && m@.len() == members.len() && forall|i: int|
        0 <= i < members.len() ==> (#[trigger] m@[i]).0@ == members[i].0 && (
        m@[i].1 matches Json::Text(t) && t@ == members[i].1)
}

/// An object with an operation and a position.
pub open spec fn is_op_at(j: Json, op: Seq<char>, index: usize) -> bool {
    j matches Json::Object(m) && m@.len() == 2 && m@[0].0@ == "op"@ && (
    m@[0].1 matches Json::Text(t) && t@ == op) && m@[1].0@ == "index"@ && m@[1].1 == Json::Number(
        Some(index as u64),
    )
}

/// What asks the companion for the queue.
pub fn queue_request() -> (r: Json)
    ensures
        is_texts(r, seq![("op"@, "get_queue"@)]),
{
    Json::Object(vec![("op".to_owned(), Json::Text("get_queue".to_owned()))])
}

/// What asks the companion for songs.
pub fn search_request(term: &str) -> (r: Json)
    ensures
        is_texts(r, seq![("op"@, "search"@), ("q"@, term@)]),
{
    Json::Object(
        vec![
            ("op".to_owned(), Json::Text("search".to_owned())),
            ("q".to_owned(), Json::Text(term.to_owned())),
        ],
    )
}

fn play_request(op: &str, video_id: &str) -> (r: Json)
    ensures
        is_texts(r, seq![("op"@, op@), ("videoId"@, video_id@)]),
{
    Json::Object(
        vec![
            ("op".to_owned(), Json::Text(op.to_owned())),
            ("videoId".to_owned(), Json::Text(video_id.to_owned())),
        ],
    )
}

fn move_request(op: &str, index: usize) -> (r: Json)
    ensures
        is_op_at(r, op@, index),
{
    Json::Object(
        vec![
            ("op".to_owned(), Json::Text(op.to_owned())),
            ("index".to_owned(), Json::Number(Some(index as u64))),
        ],
    )
}

/// Why the companion refused, in its words or in ours.
pub open spec fn refusal(reply: Json, ours: Seq<char>) -> Seq<char> {
    match text_field(reply, "error"@) {
        Some(e) => e,
        None => ours,
    }
}

fn why_refused(reply: &Json, ours: &str) -> (r: String)
    ensures
        r@ == refusal(*reply, ours@),
{
    match reply.get_text("error") {
        Some(e) => e,
        None => ours.to_owned(),
    }
}

/// The track in one item of an answer, which stands at `place` there; none where
/// it has no title.
pub open spec fn track_in(item: Json, place: usize) -> Option<QueueRowModel> {
    let title = text_field_or_empty(item, "title"@);
    if title.len() == 0 {
        None
    } else {
        Some(
            QueueRowModel {
                index: match number_field(item, "index"@) {
                    Some(n) => n as usize,
                    None => place,
                },
                video_id: text_field_or_empty(item, "videoId"@),
                title,
                artist: text_field_or_empty(item, "artist"@),
                duration: nonempty_text_field(item, "duration"@),
                thumb: nonempty_text_field(item, "thumbnail"@),
                current: true_field(item, "current"@),
            },
        )
    }
}

fn read_track(item: &Json, place: usize) -> (r: Option<QueueRow>)
    ensures
        r.deep_view() == track_in(*item, place),
{
    let title = item.get_text_or_empty("title");
    if title.as_str().is_empty() {
        return None;
    }
    let index = match item.get_number("index") {
        Some(n) => n as usize,
        None => place,
    };
    let row = QueueRow {
        index,
        video_id: item.get_text_or_empty("videoId"),
        title,
        artist: item.get_text_or_empty("artist"),
        duration: item.get_nonempty_text("duration"),
        thumb: item.get_nonempty_text("thumbnail"),
        current: item.get_true("current"),
    };
    Some(row)
}

/// The tracks in an answer.
pub open spec fn tracks_in(items: Seq<Json>) -> Seq<QueueRowModel>
    decreases items.len(),
{
    if items.len() == 0 {
        seq![]
    } else {
        let head = tracks_in(items.drop_last());
        match track_in(items.last(), (items.len() - 1) as usize) {
            Some(row) => head.push(row),
            None => head,
        }
    }
}

/// The queue in an answer of the companion, or why there is none.
pub open spec fn queue_in(reply: Json) -> Result<Seq<QueueRowModel>, Seq<char>> {
    if true_field(reply, "ok"@) {
        Ok(tracks_in(array_field(reply, "items"@)))
    } else {
        Err(refusal(reply, "companion error"@))
    }
}

/// The queue in an answer of the companion, or why there is none.
pub fn companion_get_queue(reply: &Json) -> (r: Result<Vec<QueueRow>, String>)
    ensures
        match r {
            Ok(rows) => queue_in(*reply) == Ok::<Seq<QueueRowModel>, Seq<char>>(rows.deep_view()),
            Err(e) => queue_in(*reply) == Err::<Seq<QueueRowModel>, Seq<char>>(e@),
        },
{
    if !reply.get_true("ok") {
        return Err(why_refused(reply, "companion error"));
    }
    let mut out: Vec<QueueRow> = Vec::new();
    if let Some(items) = reply.get_array("items") {
        let mut i: usize = 0;
        assert(items@.take(0) =~= seq![]);
        assert(out.deep_view() =~= tracks_in(items@.take(0)));
        while i < items.len()
            invariant
                i <= items.len(),
                out.deep_view() == tracks_in(items@.take(i as int)),
            decreases items.len() - i,
        {
            let ghost before = out.deep_view();
            assert(items@.take(i + 1).drop_last() =~= items@.take(i as int));
            assert(items@.take(i + 1).last() == items[i as int]);
            if let Some(row) = read_track(&items[i], i) {
                let ghost model = row.deep_view();
                out.push(row);
                assert(out.deep_view() =~= before.push(model));
            }
            i = i + 1;
        }
        assert(items@.take(i as int) =~= items@);
    } else {
        assert(out.deep_view() =~= tracks_in(seq![]));
    }
    Ok(out)
}

/// The song in one item of an answer; none where it has no video or no title.
pub open spec fn song_in(item: Json) -> Option<SongModel> {
    let title = text_field_or_empty(item, "title"@);
    match nonempty_text_field(item, "videoId"@) {
        Some(video_id) if title.len() > 0 => Some(
            SongModel {
                video_id,
                title,
                artist: text_field_or_empty(item, "artist"@),
                album: text_field_or_empty(item, "album"@),
                duration: nonempty_text_field(item, "duration"@),
                thumb_url: nonempty_text_field(item, "thumbnail"@),
            },
        ),
        _ => None,
    }
}

fn read_song(item: &Json) -> (r: Option<Song>)
    ensures
        r.deep_view() == song_in(*item),
{
    let video_id = match item.get_nonempty_text("videoId") {
        Some(v) => v,
        None => return None,
    };
    let title = item.get_text_or_empty("title");
    if title.as_str().is_empty() {
        return None;
    }
    let song = Song {
        video_id,
        title,
        artist: item.get_text_or_empty("artist"),
        album: item.get_text_or_empty("album"),
        duration: item.get_nonempty_text("duration"),
        thumb_url: item.get_nonempty_text("thumbnail"),
    };
    Some(song)
}

/// The songs in the items of an answer.
pub open spec fn songs_in(items: Seq<Json>) -> Seq<SongModel>
    decreases items.len(),
{
    if items.len() == 0 {
        seq![]
    } else {
        let head = songs_in(items.drop_last());
        match song_in(items.last()) {
            Some(song) => head.push(song),
            None => head,
        }
    }
}

/// The songs in an answer of the companion, of its first fifteen items, or why
/// there are none.
pub open spec fn found_in(reply: Json) -> Result<Seq<SongModel>, Seq<char>> {
    if true_field(reply, "ok"@) {
        Ok(songs_in(at_most(array_field(reply, "results"@), 15)))
    } else {
        Err(refusal(reply, "companion error"@))
    }
}

/// The songs in an answer of the companion, or why there are none.
pub fn companion_search(reply: &Json) -> (r: Result<Vec<Song>, String>)
    ensures
        match r {
            Ok(songs) => found_in(*reply) == Ok::<Seq<SongModel>, Seq<char>>(songs.deep_view()),
            Err(e) => found_in(*reply) == Err::<Seq<SongModel>, Seq<char>>(e@),
        },
{
    if !reply.get_true("ok") {
        return Err(why_refused(reply, "companion error"));
    }
    let mut out: Vec<Song> = Vec::new();
    if let Some(items) = reply.get_array("results") {
        let n = if items.len() > MAX_SONGS {
            MAX_SONGS
        } else {
            items.len()
        };
        let mut i: usize = 0;
        assert(items@.take(0) =~= seq![]);
        assert(out.deep_view() =~= songs_in(items@.take(0)));
        while i < n
            invariant
                i <= n <= items.len(),
                out.deep_view() == songs_in(items@.take(i as int)),
            decreases n - i,
        {
            let ghost before = out.deep_view();
            assert(items@.take(i + 1).drop_last() =~= items@.take(i as int));
            assert(items@.take(i + 1).last() == items[i as int]);
            if let Some(song) = read_song(&items[i]) {
                let ghost model = song.deep_view();
                out.push(song);
                assert(out.deep_view() =~= before.push(model));
            }
            i = i + 1;
        }
        assert(items@.take(n as int) =~= at_most(items@, 15));
    } else {
        assert(out.deep_view() =~= songs_in(at_most(seq![], 15)));
    }
    Ok(out)
}

// ---------------------------------------------------------------------------
// Searching
// ---------------------------------------------------------------------------

/// The row that stands until songs come.
pub open spec fn searching(term: Seq<char>) -> ResultModel {
    ResultModel {
        id: "searching:"@ + term,
        title: "Search YouTube Music for \u{201c}"@ + term + "\u{201d}\u{2026}"@,
        subtitle: Some("Press Enter to open the web search"@),
        relevance: Relevance::Fixed(50),
        actions: seq![],
        icon: Some(music_icon()),
        badge: None,
    }
}

/// The instant tier: one row that says that a search is under way. The queue has
/// none, so that no stray row lingers among its tracks.
pub open spec fn search_rows(cmd: Seq<char>, query: Seq<char>) -> Seq<ResultModel> {
    let term = trimmed(query);
    if cmd == "queue"@ || term.len() == 0 {
        seq![]
    } else {
        seq![searching(term)]
    }
}

/// The instant tier.
pub fn search(cmd: &str, query: &str) -> (r: Vec<ExtensionResult>)
    ensures
        r.deep_view() == search_rows(cmd@, query@),
{
    let term = trim(query);
    if same(cmd, "queue") || term.as_str().is_empty() {
        return Vec::new();
    }
    let row = ExtensionResult {
        id: "searching:".to_owned().concat(term.as_str()),
        title: "Search YouTube Music for \u{201c}".to_owned().concat(term.as_str()).concat(
            "\u{201d}\u{2026}",
        ),
        subtitle: Some("Press Enter to open the web search".to_owned()),
        relevance: Relevance::Fixed(50),
        actions: Vec::new(),
        icon: Some(icon()),
        badge: None,
    };
    assert(row.deep_view() =~= searching(term@));
    let r = vec![row];
    assert(r.deep_view() =~= seq![searching(term@)]);
    r
}

/// What is asked of the companion for a command.
#[derive(Debug, PartialEq, Eq)]
pub enum QueryPlan {
    Nothing,
    /// The queue; what is typed narrows it down.
    Queue { request: Json, term: String },
    /// Songs.
    Search { request: Json },
}

/// Whether a plan is what is asked of the companion for a command.
pub open spec fn plan_of(plan: QueryPlan, cmd: Seq<char>, input: Seq<char>) -> bool {
    let term = trimmed(input);
    if cmd == "queue"@ {
        plan matches QueryPlan::Queue { request, term: t } && is_texts(
            request,
            seq![("op"@, "get_queue"@)],
        ) && t@ == term
    } else if term.len() == 0 {
        plan is Nothing
    } else {
        plan matches QueryPlan::Search { request } && is_texts(
            request,
            seq![("op"@, "search"@), ("q"@, term)],
        )
    }
}

/// What is asked of the companion for a command.
pub fn query(cmd: &str, input: &str) -> (r: QueryPlan)
    ensures
        plan_of(r, cmd@, input@),
{
    let term = trim(input);
    if same(cmd, "queue") {
        return QueryPlan::Queue { request: queue_request(), term };
    }
    if term.as_str().is_empty() {
        return QueryPlan::Nothing;
    }
    QueryPlan::Search { request: search_request(term.as_str()) }
}

/// What becomes of the companion's answer on the queue: the tracks that are
/// shown, of how many; or a message, and a line for the log.
#[derive(Debug, PartialEq, Eq)]
pub enum QueueOutcome {
    Tracks { shown: Vec<QueueRow>, count: usize },
    Message { row: ExtensionResult, log: Option<String> },
}

#[verifier::ext_equal]
pub enum QueueOutcomeModel {
    Tracks { shown: Seq<QueueRowModel>, count: usize },
    Message { row: ResultModel, log: Option<Seq<char>> },
}

impl DeepView for QueueOutcome {
    type V = QueueOutcomeModel;

    open spec fn deep_view(&self) -> QueueOutcomeModel {
        match self {
            QueueOutcome::Tracks { shown, count } => QueueOutcomeModel::Tracks {
                shown: shown.deep_view(),
                count: *count,
            },
            QueueOutcome::Message { row, log } => QueueOutcomeModel::Message {
                row: row.deep_view(),
                log: log.deep_view(),
            },
        }
    }
}

/// The message where the companion does not answer.
pub open spec fn not_connected() -> ResultModel {
    message_row(
        "Firefox companion not connected"@,
        "Open music.youtube.com and load the companion add-on"@,
    )
}

fn say_not_connected() -> (r: ExtensionResult)
    ensures
        r.deep_view() == not_connected(),
{
    emit_message(
        "Firefox companion not connected",
        "Open music.youtube.com and load the companion add-on",
    )
}

/// What becomes of the queue, or of why there is none.
pub open spec fn queue_outcome(
    queue: Result<Seq<QueueRowModel>, Seq<char>>,
    term: Seq<char>,
) -> QueueOutcomeModel {
    match queue {
        Err(e) => QueueOutcomeModel::Message {
            row: not_connected(),
            log: Some("get_queue failed: "@ + e),
        },
        Ok(rows) => if rows.len() == 0 {
            QueueOutcomeModel::Message {
                row: message_row("Queue is empty"@, "Play something in YouTube Music"@),
                log: None,
            }
        } else if matching_tracks(rows, term).len() == 0 {
            QueueOutcomeModel::Message {
                row: message_row("No matching tracks"@, "Nothing in the queue matches that"@),
                log: None,
            }
        } else {
            QueueOutcomeModel::Tracks {
                shown: matching_tracks(rows, term),
                count: rows.len() as usize,
            }
        },
    }
}

/// What the companion's answer brings, or that it could not be had and why.
pub open spec fn queue_of(reply: Result<Json, String>) -> Result<Seq<QueueRowModel>, Seq<char>> {
    match reply {
        Ok(j) => queue_in(j),
        Err(e) => Err(e@),
    }
}

/// What becomes of the companion's answer on the queue.
pub fn queue_answered(reply: &Result<Json, String>, term: &str) -> (r: QueueOutcome)
    ensures
        r.deep_view() == queue_outcome(queue_of(*reply), term@),
{
    let queue = match reply {
        Ok(j) => companion_get_queue(j),
        Err(e) => Err(e.clone()),
    };
    match queue {
        Err(e) => QueueOutcome::Message {
            row: say_not_connected(),
            log: Some("get_queue failed: ".to_owned().concat(e.as_str())),
        },
        Ok(rows) => {
            assert(rows.deep_view().len() == rows.len());
            if rows.len() == 0 {
                return QueueOutcome::Message {
                    row: emit_message("Queue is empty", "Play something in YouTube Music"),
                    log: None,
                };
            }
            let shown = visible_tracks(&rows, term);
            assert(shown.deep_view().len() == shown.len());
            if shown.len() == 0 {
                return QueueOutcome::Message {
                    row: emit_message("No matching tracks", "Nothing in the queue matches that"),
                    log: None,
                };
            }
            QueueOutcome::Tracks { shown, count: rows.len() }
        },
    }
}

/// How many songs are shown: the setting, within 1 and 15; 5 where there is none.
pub open spec fn results_max(setting: Option<usize>) -> usize {
    match setting {
        Some(n) => if n < 1 {
            1
        } else if n > 15 {
            15
        } else {
            n
        },
        None => 5,
    }
}

/// How many songs are shown.
pub fn max_results(setting: Option<usize>) -> (r: usize)
    ensures
        r == results_max(setting),
        1 <= r <= 15,
{
    match setting {
        Some(n) => if n < 1 {
            1
        } else if n > 15 {
            15
        } else {
            n
        },
        None => 5,
    }
}

/// What becomes of the companion's answer on a search: the songs that are shown;
/// or a message, and a line for the log.
#[derive(Debug, PartialEq, Eq)]
pub enum SearchOutcome {
    Songs(Vec<Song>),
    Message { row: ExtensionResult, log: Option<String> },
}

#[verifier::ext_equal]
pub enum SearchOutcomeModel {
    Songs(Seq<SongModel>),
    Message { row: ResultModel, log: Option<Seq<char>> },
}

impl DeepView for SearchOutcome {
    type V = SearchOutcomeModel;

    open spec fn deep_view(&self) -> SearchOutcomeModel {
        match self {
            SearchOutcome::Songs(songs) => SearchOutcomeModel::Songs(songs.deep_view()),
            SearchOutcome::Message { row, log } => SearchOutcomeModel::Message {
                row: row.deep_view(),
                log: log.deep_view(),
            },
        }
    }
}

/// What becomes of the songs, or of why there are none.
pub open spec fn search_outcome(
    found: Result<Seq<SongModel>, Seq<char>>,
    max: usize,
) -> SearchOutcomeModel {
    match found {
        Err(e) => SearchOutcomeModel::Message {
            row: not_connected(),
            log: Some("companion search failed: "@ + e),
        },
        Ok(songs) => if songs.len() == 0 {
            SearchOutcomeModel::Message {
                row: message_row("No songs found"@, "Try a different search"@),
                log: None,
            }
        } else {
            SearchOutcomeModel::Songs(at_most(songs, max as int))
        },
    }
}

/// What the companion's answer brings, or that it could not be had and why.
pub open spec fn found_of(reply: Result<Json, String>) -> Result<Seq<SongModel>, Seq<char>> {
    match reply {
        Ok(j) => found_in(j),
        Err(e) => Err(e@),
    }
}

/// What becomes of the companion's answer on a search, of which at most `max`
/// songs are shown.
pub fn search_answered(reply: &Result<Json, String>, max: usize) -> (r: SearchOutcome)
    ensures
        r.deep_view() == search_outcome(found_of(*reply), max),
{
    let found = match reply {
        Ok(j) => companion_search(j),
        Err(e) => Err(e.clone()),
    };
    match found {
        Err(e) => SearchOutcome::Message {
            row: say_not_connected(),
            log: Some("companion search failed: ".to_owned().concat(e.as_str())),
        },
        Ok(songs) => {
            assert(songs.deep_view().len() == songs.len());
            if songs.len() == 0 {
                return SearchOutcome::Message {
                    row: emit_message("No songs found", "Try a different search"),
                    log: None,
                };
            }
            let mut songs = songs;
            let ghost all = songs.deep_view();
            if songs.len() > max {
                songs.truncate(max);
            }
            assert(songs.deep_view() =~= at_most(all, max as int));
            SearchOutcome::Songs(songs)
        },
    }
}

// ---------------------------------------------------------------------------
// Activating
// ---------------------------------------------------------------------------

/// The page of a video.
pub open spec fn watch_page(video_id: Seq<char>) -> Seq<char> {
    "https://music.youtube.com/watch?v="@ + video_id
}

fn open_video(video_id: &str) -> (r: Vec<ActivateEffect>)
    ensures
        r.deep_view() == opening(watch_page(video_id@)),
{
    open("https://music.youtube.com/watch?v=".to_owned().concat(video_id))
}

/// What activating a row leads to: effects, or a call of the companion. `queue`
/// says which of the two lists the row stands in.
#[derive(Debug, PartialEq, Eq)]
pub enum ActivateStep {
    Effects(Vec<ActivateEffect>),
    Call { op: String, request: Json, queue: bool },
}

/// Whether a step is these effects.
pub open spec fn does(step: ActivateStep, effects: Seq<EffectModel>) -> bool {
    step matches ActivateStep::Effects(e) && e.deep_view() == effects
}

/// What the companion is asked to do with a song.
pub open spec fn play_op(action: Seq<char>) -> Seq<char> {
    if action == "play_next"@ {
        "queue_next"@
    } else if action == "queue_last"@ {
        "queue_last"@
    } else {
        "play_now"@
    }
}

/// Whether a step is what an action on a song leads to. Without a video there is
/// nothing to do.
pub open spec fn song_step(
    step: ActivateStep,
    action: Seq<char>,
    meta: Option<SongMetaModel>,
) -> bool {
    match meta {
        Some(m) if m.v.len() > 0 => if action == "open"@ {
            does(step, opening(watch_page(m.v)))
        } else {
            step matches ActivateStep::Call { op, request, queue } && !queue && op@ == play_op(
                action,
            ) && is_texts(request, seq![("op"@, play_op(action)), ("videoId"@, m.v)])
        },
        _ => does(step, seq![]),
    }
}

/// What the companion is asked to do with a track of the queue.
pub open spec fn move_op(action: Seq<char>) -> Seq<char> {
    if action == "remove"@ {
        "remove_from_queue"@
    } else {
        "skip_to"@
    }
}

/// Whether a step is what an action on a track of the queue leads to.
pub open spec fn queue_step(
    step: ActivateStep,
    action: Seq<char>,
    meta: Option<SongMetaModel>,
) -> bool {
    match meta {
        Some(m) => if action == "open"@ {
            does(
                step,
                if m.v.len() == 0 {
                    seq![]
                } else {
                    opening(watch_page(m.v))
                },
            )
        } else {
            match m.i {
                Some(index) => step matches ActivateStep::Call { op, request, queue } && queue
                    && op@ == move_op(action) && is_op_at(request, move_op(action), index),
                None => does(step, toasting("Missing queue position"@, ToastLevel::Error)),
            }
        },
        None => does(step, seq![]),
    }
}

fn no_effects() -> (r: Vec<ActivateEffect>)
    ensures
        r.deep_view() == Seq::<EffectModel>::empty(),
{
    let r: Vec<ActivateEffect> = Vec::new();
    assert(r.deep_view() =~= Seq::<EffectModel>::empty());
    r
}

/// What an action on a track of the queue leads to.
pub fn activate_queue(action: &str, meta: &Option<SongMeta>) -> (r: ActivateStep)
    ensures
        queue_step(r, action@, meta.deep_view()),
{
    let m = match meta {
        Some(m) => m,
        None => return ActivateStep::Effects(no_effects()),
    };
    if same(action, "open") {
        return ActivateStep::Effects(
            if m.v.as_str().is_empty() {
                no_effects()
            } else {
                open_video(m.v.as_str())
            },
        );
    }
    let index = match m.i {
        Some(index) => index,
        None => return ActivateStep::Effects(
            toast("Missing queue position".to_owned(), ToastLevel::Error),
        ),
    };
    let op = if same(action, "remove") {
        "remove_from_queue"
    } else {
        "skip_to"
    };
    ActivateStep::Call { op: op.to_owned(), request: move_request(op, index), queue: true }
}

fn activate_song(action: &str, meta: &Option<SongMeta>) -> (r: ActivateStep)
    ensures
        song_step(r, action@, meta.deep_view()),
{
    let m = match meta {
        Some(m) => m,
        None => return ActivateStep::Effects(no_effects()),
    };
    if m.v.as_str().is_empty() {
        return ActivateStep::Effects(no_effects());
    }
    if same(action, "open") {
        return ActivateStep::Effects(open_video(m.v.as_str()));
    }
    let op = if same(action, "play_next") {
        "queue_next"
    } else if same(action, "queue_last") {
        "queue_last"
    } else {
        "play_now"
    };
    ActivateStep::Call {
        op: op.to_owned(),
        request: play_request(op, m.v.as_str()),
        queue: false,
    }
}

/// Whether a step is what activating a row leads to. `meta` is what the row's id
/// carries.
pub open spec fn step_of(
    step: ActivateStep,
    id: Seq<char>,
    action: Option<Seq<char>>,
    meta: Option<SongMetaModel>,
) -> bool {
    let action = match action {
        Some(a) => a,
        None => "play_now"@,
    };
    match without_prefix(id, "searching:"@) {
        Some(term) => does(
            step,
            opening("https://music.youtube.com/search?q="@ + urlencoded(term)),
        ),
        None => if has_prefix(id, "qitem:"@) {
            queue_step(step, action, meta)
        } else {
            song_step(step, action, meta)
        },
    }
}

/// What activating a row leads to. `meta` is what the row's id carries.
pub fn activate(id: &str, action: Option<&str>, meta: &Option<SongMeta>) -> (r: ActivateStep)
    ensures
        step_of(
            r,
            id@,
            match action {
                Some(a) => Some(a@),
                None => None,
            },
            meta.deep_view(),
        ),
{
    let action = match action {
        Some(a) => a,
        None => "play_now",
    };
    if let Some(term) = strip_prefix(id, "searching:") {
        let q = urlencode(term.as_str());
        return ActivateStep::Effects(
            open("https://music.youtube.com/search?q=".to_owned().concat(q.as_str())),
        );
    }
    if starts_with(id, "qitem:") {
        activate_queue(action, meta)
    } else {
        activate_song(action, meta)
    }
}

/// What an operation is called.
pub open spec fn op_name(op: Seq<char>) -> Seq<char> {
    if op == "queue_next"@ {
        "play next"@
    } else if op == "queue_last"@ {
        "add to queue"@
    } else {
        "play"@
    }
}

/// What an operation is called.
pub fn human_op(op: &str) -> (r: &'static str)
    ensures
        r@ == op_name(op@),
{
    if same(op, "queue_next") {
        "play next"
    } else if same(op, "queue_last") {
        "add to queue"
    } else {
        "play"
    }
}

/// The effects of a call that did not do what it should: a toast says why.
pub open spec fn failed_effects(verb: Seq<char>, reply: Result<Json, String>) -> Seq<EffectModel> {
    match reply {
        Ok(j) => toasting(
            "Couldn't "@ + verb + ": "@ + refusal(j, "companion refused the action"@),
            ToastLevel::Error,
        ),
        Err(_) => toasting("Firefox companion not connected"@, ToastLevel::Error),
    }
}

/// The line for the log of such a call.
pub open spec fn failed_log(op: Seq<char>, reply: Result<Json, String>) -> Seq<char> {
    match reply {
        Ok(j) => op + " failed: "@ + refusal(j, "companion refused the action"@),
        Err(e) => op + " bus error: "@ + e@,
    }
}

fn say_failed(op: &str, verb: &str, reply: &Result<Json, String>) -> (r: (
    Vec<ActivateEffect>,
    String,
))
    ensures
        r.0.deep_view() == failed_effects(verb@, *reply),
        r.1@ == failed_log(op@, *reply),
{
    match reply {
        Ok(j) => {
            let why = why_refused(j, "companion refused the action");
            (
                toast(
                    "Couldn't ".to_owned().concat(verb).concat(": ").concat(why.as_str()),
                    ToastLevel::Error,
                ),
                op.to_owned().concat(" failed: ").concat(why.as_str()),
            )
        },
        Err(e) => (
            toast("Firefox companion not connected".to_owned(), ToastLevel::Error),
            op.to_owned().concat(" bus error: ").concat(e.as_str()),
        ),
    }
}

/// Whether the companion did what it was asked to.
pub open spec fn done(reply: Result<Json, String>) -> bool {
    reply matches Ok(j) && true_field(j, "ok"@)
}

fn is_done(reply: &Result<Json, String>) -> (r: bool)
    ensures
        r == done(*reply),
{
    match reply {
        Ok(j) => j.get_true("ok"),
        Err(_) => false,
    }
}

/// What is shown once a song was handed over: queueing keeps the launcher open
/// for more, playing hides it.
pub open spec fn played_effects(op: Seq<char>, reply: Result<Json, String>) -> Seq<EffectModel> {
    if done(reply) {
        if op == "queue_next"@ {
            toasting("Queued next"@, ToastLevel::Success).push(EffectModel::KeepOpen)
        } else if op == "queue_last"@ {
            toasting("Added to queue"@, ToastLevel::Success).push(EffectModel::KeepOpen)
        } else {
            toasting("Playing"@, ToastLevel::Success).push(EffectModel::Hide)
        }
    } else {
        failed_effects(op_name(op), reply)
    }
}

/// The line for the log that a call gives; none where it did what it should.
pub open spec fn call_log(op: Seq<char>, reply: Result<Json, String>) -> Option<Seq<char>> {
    if done(reply) {
        None
    } else {
        Some(failed_log(op, reply))
    }
}

fn say_and(message: &str, effect: ActivateEffect) -> (r: Vec<ActivateEffect>)
    ensures
        r.deep_view() == toasting(message@, ToastLevel::Success).push(effect.deep_view()),
{
    let mut r = toast(message.to_owned(), ToastLevel::Success);
    let ghost before = r.deep_view();
    let ghost model = effect.deep_view();
    r.push(effect);
    assert(r.deep_view() =~= before.push(model));
    r
}

/// What is shown once a song was handed over, and a line for the log.
pub fn play_answered(op: &str, reply: &Result<Json, String>) -> (r: (
    Vec<ActivateEffect>,
    Option<String>,
))
    ensures
        r.0.deep_view() == played_effects(op@, *reply),
        r.1.deep_view() == call_log(op@, *reply),
{
    if !is_done(reply) {
        let (effects, line) = say_failed(op, human_op(op), reply);
        return (effects, Some(line));
    }
    let effects = if same(op, "queue_next") {
        say_and("Queued next", ActivateEffect::KeepOpen)
    } else if same(op, "queue_last") {
        say_and("Added to queue", ActivateEffect::KeepOpen)
    } else {
        say_and("Playing", ActivateEffect::Hide)
    };
    (effects, None)
}

/// What is shown once the queue was changed: the list is pulled anew, and the
/// launcher stays open.
pub open spec fn moved_effects(op: Seq<char>, reply: Result<Json, String>) -> Seq<EffectModel> {
    if done(reply) {
        toasting(
            if op == "remove_from_queue"@ {
                "Removed from queue"@
            } else {
                "Skipping"@
            },
            ToastLevel::Success,
        ).push(EffectModel::RefreshResults).push(EffectModel::KeepOpen)
    } else {
        failed_effects(
            if op == "remove_from_queue"@ {
                "remove"@
            } else {
                "skip"@
            },
            reply,
        )
    }
}

/// What is shown once the queue was changed, and a line for the log.
pub fn move_answered(op: &str, reply: &Result<Json, String>) -> (r: (
    Vec<ActivateEffect>,
    Option<String>,
))
    ensures
        r.0.deep_view() == moved_effects(op@, *reply),
        r.1.deep_view() == call_log(op@, *reply),
{
    let removing = same(op, "remove_from_queue");
    if !is_done(reply) {
        let verb = if removing {
            "remove"
        } else {
            "skip"
        };
        let (effects, line) = say_failed(op, verb, reply);
        return (effects, Some(line));
    }
    let message = if removing {
        "Removed from queue"
    } else {
        "Skipping"
    };
    let mut effects = say_and(message, ActivateEffect::RefreshResults);
    let ghost before = effects.deep_view();
    effects.push(ActivateEffect::KeepOpen);
    assert(effects.deep_view() =~= before.push(EffectModel::KeepOpen));
    (effects, None)
}

// ---------------------------------------------------------------------------
// Previewing
// ---------------------------------------------------------------------------

/// Escapes text for interpolation into the preview.
pub fn html_escape(s: &str) -> (r: String)
    ensures
        r@ == html_escaped(s@, true),
{
    escape_html(s, true)
}

/// One line of the card; none for a blank value.
pub open spec fn card_line(label: Seq<char>, value: Seq<char>) -> Seq<char> {
    if trimmed(value).len() == 0 {
        ""@
    } else {
        "<div class=\"row\" style=\"gap:0;align-items:baseline;padding:2px 0\"><span class=\"text-label\" style=\"width:72px;flex-shrink:0\">"@
            + html_escaped(label, true) + "</span><span style=\"font-size:13px\">"@ + html_escaped(
            value,
            true,
        ) + "</span></div>"@
    }
}

/// Puts one line of the card out; none for a blank value.
pub fn meta_row(out: &mut String, label: &str, value: &str)
    ensures
        final(out)@ == old(out)@ + card_line(label@, value@),
{
    let text = trim(value);
    if text.as_str().is_empty() {
        proof {
            reveal_strlit("");
            assert(out@ + ""@ =~= out@);
        }
        return;
    }
    let label = html_escape(label);
    let value = html_escape(value);
    let line = "<div class=\"row\" style=\"gap:0;align-items:baseline;padding:2px 0\"><span class=\"text-label\" style=\"width:72px;flex-shrink:0\">".to_owned().concat(
        label.as_str(),
    ).concat("</span><span style=\"font-size:13px\">").concat(value.as_str()).concat(
        "</span></div>",
    );
    out.append(line.as_str());
}

/// The picture of the card, if there is one.
pub open spec fn card_art(art: Option<Seq<char>>) -> Seq<char> {
    match art {
        Some(uri) => "<img src=\""@ + uri
            + "\" alt=\"\" style=\"width:200px;height:200px;border-radius:8px;object-fit:cover\">"@,
        None => ""@,
    }
}

/// The card of a song: its picture, title, artist, album and duration, as far as
/// they are known.
pub open spec fn card(title: Seq<char>, meta: SongMetaModel, art: Option<Seq<char>>) -> Seq<char> {
    "<div class=\"col\" style=\"gap:14px;padding:16px;align-items:center\">"@ + card_art(art)
        + "<div class=\"col\" style=\"gap:4px;width:100%\">"@
        + "<div style=\"font-size:15px;font-weight:600;text-align:center;margin-bottom:6px\">"@
        + html_escaped(title, true) + "</div>"@ + card_line("Artist"@, meta.a) + card_line(
        "Album"@,
        meta.al,
    ) + (match meta.d {
        Some(d) => card_line("Duration"@, d),
        None => ""@,
    }) + "</div></div>"@
}

/// What is shown of a row; nothing where its id carries nothing.
pub open spec fn shown(
    title: Seq<char>,
    meta: Option<SongMetaModel>,
    art: Option<Seq<char>>,
) -> PreviewModel {
    match meta {
        Some(m) => PreviewModel::Html { content: card(title, m, art) },
        None => PreviewModel::Metadata { items: seq![] },
    }
}

/// What is shown of a row. `meta` is what its id carries, `art` the picture that
/// was fetched for it.
pub fn preview(title: &str, meta: &Option<SongMeta>, art: &Option<String>) -> (r: PreviewContent)
    ensures
        r.deep_view() == shown(title@, meta.deep_view(), art.deep_view()),
{
    let m = match meta {
        Some(m) => m,
        None => {
            let items: Vec<MetadataItem> = Vec::new();
            assert(items.deep_view() =~= Seq::<MetadataModel>::empty());
            return PreviewContent::Metadata { items };
        },
    };
    proof {
        reveal_strlit("");
    }
    let mut html =
        "<div class=\"col\" style=\"gap:14px;padding:16px;align-items:center\">".to_owned();
    let ghost start = html@;
    if let Some(uri) = art {
        let img = "<img src=\"".to_owned().concat(uri.as_str()).concat(
            "\" alt=\"\" style=\"width:200px;height:200px;border-radius:8px;object-fit:cover\">",
        );
        html.append(img.as_str());
    }
    assert(html@ =~= start + card_art(art.deep_view()));
    let title = html_escape(title);
    html.append("<div class=\"col\" style=\"gap:4px;width:100%\">");
    html.append("<div style=\"font-size:15px;font-weight:600;text-align:center;margin-bottom:6px\">");
    html.append(title.as_str());
    html.append("</div>");
    meta_row(&mut html, "Artist", m.a.as_str());
    meta_row(&mut html, "Album", m.al.as_str());
    let ghost before = html@;
    if let Some(d) = &m.d {
        meta_row(&mut html, "Duration", d.as_str());
    }
    assert(html@ =~= before + (match m.d.deep_view() {
        Some(d) => card_line("Duration"@, d),
        None => ""@,
    }));
    html.append("</div></div>");
    PreviewContent::Html { content: html }
}

// ---------------------------------------------------------------------------
// What holds of the rows
// ---------------------------------------------------------------------------

/// What was packed into the id of a row is found in it again.
pub proof fn law_rows_carry_their_payload(
    s: SongModel,
    r: QueueRowModel,
    json: Seq<char>,
    relevance: Relevance,
    n: int,
    icon: ResultIconModel,
)
    ensures
        payload(song_row(s, json, relevance, icon).id) == Some(json),
        payload(track_row(r, json, n, icon).id) == Some(json),
        has_prefix(track_row(r, json, n, icon).id, "qitem:"@),
        !has_prefix(song_row(s, json, relevance, icon).id, "qitem:"@),
        without_prefix(track_row(r, json, n, icon).id, "searching:"@) is None,
        without_prefix(song_row(s, json, relevance, icon).id, "searching:"@) is None,
{
    reveal_strlit("song:");
    reveal_strlit("qitem:");
    reveal_strlit("searching:");
    lemma_without_prefix("song:"@, json);
    lemma_without_prefix("qitem:"@, json);
    let song = "song:"@ + json;
    let track = "qitem:"@ + json;
    assert(song[0] == 's' && track[0] == 'q');
    lemma_other_prefix(track, "song:"@);
    lemma_other_prefix(track, "searching:"@);
    lemma_other_prefix(song, "qitem:"@);
    if has_prefix(song, "searching:"@) {
        assert(song.take(10)[1] == song[1]);
        assert(song[1] == 'o');
    }
}

/// The row that stands until songs come leads to the same search on the site.
pub proof fn law_searching_row_leads_to_search(
    term: Seq<char>,
    step: ActivateStep,
    action: Option<Seq<char>>,
    meta: Option<SongMetaModel>,
)
    ensures
        step_of(step, searching(term).id, action, meta) == does(
            step,
            opening("https://music.youtube.com/search?q="@ + urlencoded(term)),
        ),
{
    lemma_without_prefix("searching:"@, term);
}

/// The track that plays ranks above all others, and those in their order.
pub proof fn law_playing_track_first(a: QueueRowModel, b: QueueRowModel, n: int)
    requires
        !b.current,
        a.current || a.index < b.index,
        0 <= n <= usize::MAX,
    ensures
        queue_rank(a, n).above(queue_rank(b, n)),
{
    let x = queue_rank(a, n);
    let y = queue_rank(b, n);
    let d = y.denominator();
    assert(d > 0);
    if a.current {
        assert(b.index * 90 >= 0) by (nonlinear_arith);
        assert(100 * d > (99 * d - b.index * 90) * 1) by (nonlinear_arith)
            requires
                d > 0,
                b.index * 90 >= 0,
        ;
    } else {
        law_ranked_descending(a.index, b.index, n as usize, 99, 90);
    }
}

/// A picture that was kept is read back.
pub proof fn law_kept_art_reads_back(video_id: Seq<char>, mime: Seq<char>, b64: Seq<char>)
    requires
        video_id.len() > 0,
        !mime.contains('\t'),
    ensures
        kept_art(video_id, Some(art_entry(mime, b64))) == Some(
            ResultIconModel::Inline { mime, data_base64: b64 },
        ),
{
    reveal_strlit("\t");
    assert(art_entry(mime, b64) =~= mime.push('\t') + b64);
    lemma_cut_at_char(mime, '\t', b64);
}

/// The type of a picture holds no tab, so that any picture that is fetched is
/// read back.
pub proof fn law_fetched_art_reads_back(
    video_id: Seq<char>,
    url: Seq<char>,
    status: u16,
    body: Seq<u8>,
)
    requires
        video_id.len() > 0,
    ensures
        icon_data(url, status, body) matches Some((mime, b64)) ==> kept_art(
            video_id,
            Some(art_entry(mime, b64)),
        ) == Some(ResultIconModel::Inline { mime, data_base64: b64 }),
{
    reveal_strlit("image/png");
    reveal_strlit("image/webp");
    reveal_strlit("image/jpeg");
    match icon_data(url, status, body) {
        Some((mime, b64)) => {
            law_kept_art_reads_back(video_id, mime, b64);
        },
        None => {},
    }
}

/// Without budget nothing is fetched, and what is kept costs none.
pub proof fn law_budget_bounds_fetches(
    video_id: Seq<char>,
    thumb: Option<Seq<char>>,
    stored: Option<Seq<char>>,
    budget: usize,
)
    ensures
        art_of(video_id, thumb, stored, 0) is Ready,
        art_of(video_id, thumb, stored, budget) is Fetch ==> budget_after(budget, true) < budget
            && kept_art(video_id, stored) is None,
        kept_art(video_id, stored) matches Some(icon) ==> art_of(video_id, thumb, stored, budget)
            == RowArtModel::Ready(icon),
{
}

/// A picture of a row takes at most 27308 characters, well under 32 KiB.
pub proof fn law_icon_within_cap(url: Seq<char>, status: u16, body: Seq<u8>)
    ensures
        icon_data(url, status, body) matches Some((_, b64)) ==> b64.len() <= 27_308 < 32_768,
{
    law_base64_length(body);
}

/// A picture of a preview stays under 128 KiB as an address of its own.
pub proof fn law_data_uri_within_cap(url: Seq<char>, status: u16, body: Seq<u8>)
    ensures
        data_uri(url, status, body) matches Some(uri) ==> uri.len() < 131_072,
{
    law_base64_length(body);
    reveal_strlit("data:");
    reveal_strlit(";base64,");
    reveal_strlit("image/png");
    reveal_strlit("image/webp");
    reveal_strlit("image/jpeg");
}

/// No list of songs is longer than the fifteen that are read of an answer.
pub proof fn law_at_most_fifteen_songs(reply: Json)
    ensures
        found_in(reply) matches Ok(songs) ==> songs.len() <= 15,
{
    lemma_songs_len(at_most(array_field(reply, "results"@), 15));
}

proof fn lemma_songs_len(items: Seq<Json>)
    ensures
        songs_in(items).len() <= items.len(),
    decreases items.len(),
{
    if items.len() > 0 {
        lemma_songs_len(items.drop_last());
    }
}

/// A row keeps its id when its picture comes, so that it is updated in place.
pub proof fn law_art_keeps_ids(
    s: SongModel,
    r: QueueRowModel,
    json: Seq<char>,
    relevance: Relevance,
    n: int,
    before: ResultIconModel,
    after: ResultIconModel,
)
    ensures
        song_row(s, json, relevance, before).id == song_row(s, json, relevance, after).id,
        track_row(r, json, n, before).id == track_row(r, json, n, after).id,
{
}

/// What is left of a budget after fetches one after the other; `came` says of
/// each whether it would bring a picture. None is made without budget.
pub open spec fn budget_left(budget: usize, came: Seq<bool>) -> usize
    decreases came.len(),
{
    if came.len() == 0 {
        budget
    } else {
        budget_after(budget_left(budget, came.drop_last()), came.last())
    }
}

/// How many pictures those fetches bring.
pub open spec fn new_pictures(budget: usize, came: Seq<bool>) -> nat
    decreases came.len(),
{
    if came.len() == 0 {
        0
    } else if came.last() && budget_left(budget, came.drop_last()) > 0 {
        new_pictures(budget, came.drop_last()) + 1
    } else {
        new_pictures(budget, came.drop_last())
    }
}

/// However many rows a list has, no more new pictures come than its budget
/// allows.
pub proof fn law_budget_bounds_new_pictures(budget: usize, came: Seq<bool>)
    ensures
        new_pictures(budget, came) + budget_left(budget, came) == budget,
        new_pictures(budget, came) <= budget,
    decreases came.len(),
{
    if came.len() > 0 {
        law_budget_bounds_new_pictures(budget, came.drop_last());
    }
}

// ---------------------------------------------------------------------------
// What the actions do
// ---------------------------------------------------------------------------

/// Whether a step asks the companion for an operation on a video.
pub open spec fn asks_to_play(step: ActivateStep, op: Seq<char>, video_id: Seq<char>) -> bool {
    step matches ActivateStep::Call { op: o, request, queue } && !queue && o@ == op && text_field(
        request,
        "op"@,
    ) == Some(op) && text_field(request, "videoId"@) == Some(video_id)
}

/// Whether a step asks the companion for an operation at a position of the queue.
pub open spec fn asks_to_move(step: ActivateStep, op: Seq<char>, index: usize) -> bool {
    step matches ActivateStep::Call { op: o, request, queue } && queue && o@ == op && text_field(
        request,
        "op"@,
    ) == Some(op) && number_field(request, "index"@) == Some(index as u64)
}

proof fn lemma_texts_read(j: Json, a: Seq<char>, x: Seq<char>, b: Seq<char>, y: Seq<char>)
    requires
        is_texts(j, seq![(a, x), (b, y)]),
        a != b,
    ensures
        text_field(j, a) == Some(x),
        text_field(j, b) == Some(y),
{
    reveal_with_fuel(member, 3);
    let members = seq![(a, x), (b, y)];
    match j {
        Json::Object(m) => {
            assert(m@[0].0@ == members[0].0);
            assert(m@[1].0@ == members[1].0);
            assert(m@.skip(1)[0] == m@[1]);
        },
        _ => {},
    }
}

proof fn lemma_op_at_reads(j: Json, op: Seq<char>, index: usize)
    requires
        is_op_at(j, op, index),
    ensures
        text_field(j, "op"@) == Some(op),
        number_field(j, "index"@) == Some(index as u64),
{
    reveal_with_fuel(member, 3);
    reveal_strlit("op");
    reveal_strlit("index");
    assert("op"@.len() != "index"@.len());
    match j {
        Json::Object(m) => {
            assert(m@.skip(1)[0] == m@[1]);
        },
        _ => {},
    }
}

proof fn lemma_action_words()
    ensures
        "play_now"@.len() == 8 && "play_next"@.len() == 9 && "queue_last"@.len() == 10,
        "open"@.len() == 4 && "remove"@.len() == 6 && "skip_to"@.len() == 7,
        "queue_next"@.len() == 10 && "queue_next"@[6] == 'n' && "queue_last"@[6] == 'l',
        "remove_from_queue"@.len() == 17,
        "op"@.len() == 2 && "videoId"@.len() == 7,
{
    reveal_strlit("play_now");
    reveal_strlit("play_next");
    reveal_strlit("queue_last");
    reveal_strlit("queue_next");
    reveal_strlit("open");
    reveal_strlit("remove");
    reveal_strlit("skip_to");
    reveal_strlit("remove_from_queue");
    reveal_strlit("op");
    reveal_strlit("videoId");
}

/// The actions on a song do what the menu says: it is played now, after the
/// current track, or at the end of the queue, or opened in the browser; without
/// an action it is played. Each is about the song's own video.
pub proof fn law_song_actions_do_what_they_say(
    step: ActivateStep,
    json: Seq<char>,
    meta: SongMetaModel,
)
    requires
        meta.v.len() > 0,
    ensures
        ({
            let id = "song:"@ + json;
            &&& step_of(step, id, Some("play_now"@), Some(meta)) ==> asks_to_play(
                step,
                "play_now"@,
                meta.v,
            )
            &&& step_of(step, id, None, Some(meta)) ==> asks_to_play(step, "play_now"@, meta.v)
            &&& step_of(step, id, Some("play_next"@), Some(meta)) ==> asks_to_play(
                step,
                "queue_next"@,
                meta.v,
            )
            &&& step_of(step, id, Some("queue_last"@), Some(meta)) ==> asks_to_play(
                step,
                "queue_last"@,
                meta.v,
            )
            &&& step_of(step, id, Some("open"@), Some(meta)) ==> does(
                step,
                seq![
                    EffectModel::OpenUrl {
                        url: "https://music.youtube.com/watch?v="@ + meta.v,
                    },
                ],
            )
        }),
{
    lemma_action_words();
    lemma_song_id(json);
    match step {
        ActivateStep::Call { op, request, queue } => {
            if is_texts(request, seq![("op"@, "play_now"@), ("videoId"@, meta.v)]) {
                lemma_texts_read(request, "op"@, "play_now"@, "videoId"@, meta.v);
            }
            if is_texts(request, seq![("op"@, "queue_next"@), ("videoId"@, meta.v)]) {
                lemma_texts_read(request, "op"@, "queue_next"@, "videoId"@, meta.v);
            }
            if is_texts(request, seq![("op"@, "queue_last"@), ("videoId"@, meta.v)]) {
                lemma_texts_read(request, "op"@, "queue_last"@, "videoId"@, meta.v);
            }
        },
        _ => {},
    }
}

proof fn lemma_song_id(json: Seq<char>)
    ensures
        without_prefix("song:"@ + json, "searching:"@) is None,
        !has_prefix("song:"@ + json, "qitem:"@),
        without_prefix("qitem:"@ + json, "searching:"@) is None,
        has_prefix("qitem:"@ + json, "qitem:"@),
{
    reveal_strlit("song:");
    reveal_strlit("qitem:");
    reveal_strlit("searching:");
    let song = "song:"@ + json;
    let track = "qitem:"@ + json;
    assert(song[0] == 's' && song[1] == 'o' && track[0] == 'q');
    lemma_other_prefix(song, "qitem:"@);
    lemma_other_prefix(track, "searching:"@);
    if has_prefix(song, "searching:"@) {
        assert(song.take(10)[1] == song[1]);
    }
    lemma_without_prefix("qitem:"@, json);
}

/// Different actions of a song's menu never lead to the same call or page.
pub proof fn law_song_actions_differ(
    a: ActivateStep,
    b: ActivateStep,
    json: Seq<char>,
    meta: SongMetaModel,
    i: int,
    j: int,
)
    requires
        meta.v.len() > 0,
        0 <= i < j < song_menu().len(),
        step_of(a, "song:"@ + json, Some(song_menu()[i].id), Some(meta)),
        step_of(b, "song:"@ + json, Some(song_menu()[j].id), Some(meta)),
    ensures
        match (a, b) {
            (
                ActivateStep::Call { op: x, request: p, .. },
                ActivateStep::Call { op: y, request: q, .. },
            ) => x@ != y@ && text_field(p, "op"@) != text_field(q, "op"@),
            (ActivateStep::Effects(_), ActivateStep::Effects(_)) => false,
            _ => true,
        },
{
    lemma_action_words();
    law_song_actions_do_what_they_say(a, json, meta);
    law_song_actions_do_what_they_say(b, json, meta);
}

/// The actions on a track of the queue do what the menu says, at the track's own
/// position: it is skipped to, also without an action, or removed, or opened in
/// the browser.
pub proof fn law_queue_actions_do_what_they_say(
    step: ActivateStep,
    json: Seq<char>,
    meta: SongMetaModel,
    index: usize,
)
    requires
        meta.i == Some(index),
    ensures
        ({
            let id = "qitem:"@ + json;
            &&& step_of(step, id, Some("skip_to"@), Some(meta)) ==> asks_to_move(
                step,
                "skip_to"@,
                index,
            )
            &&& step_of(step, id, None, Some(meta)) ==> asks_to_move(step, "skip_to"@, index)
            &&& step_of(step, id, Some("remove"@), Some(meta)) ==> asks_to_move(
                step,
                "remove_from_queue"@,
                index,
            )
            &&& step_of(step, id, Some("open"@), Some(meta)) && meta.v.len() > 0 ==> does(
                step,
                seq![
                    EffectModel::OpenUrl {
                        url: "https://music.youtube.com/watch?v="@ + meta.v,
                    },
                ],
            )
        }),
{
    lemma_action_words();
    lemma_song_id(json);
    match step {
        ActivateStep::Call { op, request, queue } => {
            if is_op_at(request, "skip_to"@, index) {
                lemma_op_at_reads(request, "skip_to"@, index);
            }
            if is_op_at(request, "remove_from_queue"@, index) {
                lemma_op_at_reads(request, "remove_from_queue"@, index);
            }
        },
        _ => {},
    }
}

/// What carries no song does nothing, and a track without a position says so.
pub proof fn law_rows_without_song_do_nothing(
    step: ActivateStep,
    json: Seq<char>,
    action: Option<Seq<char>>,
    meta: SongMetaModel,
)
    ensures
        step_of(step, "song:"@ + json, action, None) ==> does(step, seq![]),
        step_of(step, "qitem:"@ + json, action, None) ==> does(step, seq![]),
        step_of(step, "song:"@ + json, action, Some(meta)) && meta.v.len() == 0 ==> does(
            step,
            seq![],
        ),
        step_of(step, "qitem:"@ + json, action, Some(meta)) && meta.i is None && action != Some(
            "open"@,
        ) ==> (step matches ActivateStep::Effects(e) && e.deep_view().len() == 1 && (
        e.deep_view()[0] matches EffectModel::ShowToast { level, .. } && level
            == ToastLevel::Error)),
{
    lemma_action_words();
    lemma_song_id(json);
}

/// What is said of a call follows from what the companion says of it. A song that
/// was queued keeps the launcher open, one that plays hides it; a change of the
/// queue pulls the list anew and keeps the launcher open. What was refused is an
/// error in the companion's words, and changes nothing else.
pub proof fn law_answers_are_told(reply: Result<Json, String>)
    ensures
        done(reply) <==> (reply matches Ok(j) && field(j, "ok"@) == Some(Json::Bool(true))),
        done(reply) ==> ({
            &&& played_effects("play_now"@, reply) == seq![
                EffectModel::ShowToast { message: "Playing"@, level: ToastLevel::Success },
                EffectModel::Hide,
            ]
            &&& played_effects("queue_next"@, reply) == seq![
                EffectModel::ShowToast { message: "Queued next"@, level: ToastLevel::Success },
                EffectModel::KeepOpen,
            ]
            &&& played_effects("queue_last"@, reply) == seq![
                EffectModel::ShowToast { message: "Added to queue"@, level: ToastLevel::Success },
                EffectModel::KeepOpen,
            ]
            &&& moved_effects("remove_from_queue"@, reply) == seq![
                EffectModel::ShowToast {
                    message: "Removed from queue"@,
                    level: ToastLevel::Success,
                },
                EffectModel::RefreshResults,
                EffectModel::KeepOpen,
            ]
            &&& moved_effects("skip_to"@, reply) == seq![
                EffectModel::ShowToast { message: "Skipping"@, level: ToastLevel::Success },
                EffectModel::RefreshResults,
                EffectModel::KeepOpen,
            ]
        }),
        !done(reply) && reply is Ok ==> ({
            let why = match text_field(reply->Ok_0, "error"@) {
                Some(e) => e,
                None => "companion refused the action"@,
            };
            &&& played_effects("play_now"@, reply) == could_not("play"@, why)
            &&& played_effects("queue_next"@, reply) == could_not("play next"@, why)
            &&& played_effects("queue_last"@, reply) == could_not("add to queue"@, why)
            &&& moved_effects("remove_from_queue"@, reply) == could_not("remove"@, why)
            &&& moved_effects("skip_to"@, reply) == could_not("skip"@, why)
        }),
        reply is Err ==> forall|op: Seq<char>| #[trigger]
            played_effects(op, reply) == not_there() && moved_effects(op, reply) == not_there(),
{
    lemma_action_words();
    assert(done(reply) ==> played_effects("play_now"@, reply) =~= seq![
        EffectModel::ShowToast { message: "Playing"@, level: ToastLevel::Success },
        EffectModel::Hide,
    ]);
    assert(done(reply) ==> moved_effects("skip_to"@, reply) =~= seq![
        EffectModel::ShowToast { message: "Skipping"@, level: ToastLevel::Success },
        EffectModel::RefreshResults,
        EffectModel::KeepOpen,
    ]);
}

/// The error that says what could not be done, and why.
pub open spec fn could_not(verb: Seq<char>, why: Seq<char>) -> Seq<EffectModel> {
    seq![
        EffectModel::ShowToast {
            message: "Couldn't "@ + verb + ": "@ + why,
            level: ToastLevel::Error,
        },
    ]
}

/// The error that says that the companion is not there.
pub open spec fn not_there() -> Seq<EffectModel> {
    seq![
        EffectModel::ShowToast {
            message: "Firefox companion not connected"@,
            level: ToastLevel::Error,
        },
    ]
}

// ---------------------------------------------------------------------------
// What the lists and the card show
// ---------------------------------------------------------------------------

/// A term leaves the tracks whose title or artist holds it, whatever the case and
/// the blanks around it; all of them where it is blank.
pub proof fn law_term_narrows_queue(rows: Seq<QueueRowModel>, term: Seq<char>)
    ensures
        matching_tracks(rows, term) == rows.filter(
            |r: QueueRowModel|
                {
                    let t = lowercase(trimmed(term));
                    t.len() == 0 || holds(lowercase(r.title), t) || holds(lowercase(r.artist), t)
                },
        ),
    decreases rows.len(),
{
    reveal(Seq::filter);
    if rows.len() > 0 {
        law_term_narrows_queue(rows.drop_last(), term);
    }
}

/// Every item of the queue that has a title is a track, in order, and no other:
/// with its own video, artist, duration and picture, and marked where it plays.
pub proof fn law_queue_holds_every_track(items: Seq<Json>)
    ensures
        ({
            let titled = items.filter(|j: Json| text_field_or_empty(j, "title"@).len() > 0);
            let rows = tracks_in(items);
            &&& rows.len() == titled.len()
            &&& forall|k: int|
                0 <= k < rows.len() ==> reads_track(#[trigger] rows[k], titled[k])
        }),
    decreases items.len(),
{
    reveal(Seq::filter);
    if items.len() > 0 {
        law_queue_holds_every_track(items.drop_last());
        let p = |j: Json| text_field_or_empty(j, "title"@).len() > 0;
        let titled = items.filter(p);
        let before = items.drop_last().filter(p);
        let rows = tracks_in(items);
        let head = tracks_in(items.drop_last());
        assert forall|k: int| 0 <= k < rows.len() implies reads_track(
            #[trigger] rows[k],
            titled[k],
        ) by {
            if k < head.len() {
                assert(rows[k] == head[k]);
                assert(titled[k] == before[k]);
            }
        }
    }
}

/// Whether a track says what an item of the queue says.
pub open spec fn reads_track(row: QueueRowModel, item: Json) -> bool {
    &&& row.title == text_field_or_empty(item, "title"@)
    &&& row.video_id == text_field_or_empty(item, "videoId"@)
    &&& row.artist == text_field_or_empty(item, "artist"@)
    &&& row.duration == nonempty_text_field(item, "duration"@)
    &&& row.thumb == nonempty_text_field(item, "thumbnail"@)
    &&& row.current == true_field(item, "current"@)
    &&& number_field(item, "index"@) matches Some(n) ==> row.index == n as usize
}

/// A track without a position of its own has that of its item.
pub proof fn law_track_position(item: Json, place: usize)
    requires
        text_field_or_empty(item, "title"@).len() > 0,
    ensures
        track_in(item, place) is Some,
        number_field(item, "index"@) is None ==> track_in(item, place)->0.index == place,
{
}

/// Every item of an answer that has a video and a title is a song, in order, and no
/// other: with its own artist, album, duration and picture.
pub proof fn law_answer_holds_every_song(items: Seq<Json>)
    ensures
        ({
            let whole = items.filter(
                |j: Json|
                    text_field_or_empty(j, "title"@).len() > 0 && text_field_or_empty(
                        j,
                        "videoId"@,
                    ).len() > 0,
            );
            let songs = songs_in(items);
            &&& songs.len() == whole.len()
            &&& forall|k: int| 0 <= k < songs.len() ==> reads_song(#[trigger] songs[k], whole[k])
        }),
    decreases items.len(),
{
    reveal(Seq::filter);
    if items.len() > 0 {
        law_answer_holds_every_song(items.drop_last());
        let p = |j: Json|
            text_field_or_empty(j, "title"@).len() > 0 && text_field_or_empty(
                j,
                "videoId"@,
            ).len() > 0;
        let whole = items.filter(p);
        let before = items.drop_last().filter(p);
        let songs = songs_in(items);
        let head = songs_in(items.drop_last());
        assert forall|k: int| 0 <= k < songs.len() implies reads_song(
            #[trigger] songs[k],
            whole[k],
        ) by {
            if k < head.len() {
                assert(songs[k] == head[k]);
                assert(whole[k] == before[k]);
            }
        }
    }
}

/// Whether a song says what an item of an answer says.
pub open spec fn reads_song(song: SongModel, item: Json) -> bool {
    &&& song.title == text_field_or_empty(item, "title"@)
    &&& song.video_id == text_field_or_empty(item, "videoId"@)
    &&& song.artist == text_field_or_empty(item, "artist"@)
    &&& song.album == text_field_or_empty(item, "album"@)
    &&& song.duration == nonempty_text_field(item, "duration"@)
    &&& song.thumb_url == nonempty_text_field(item, "thumbnail"@)
}

/// What becomes of an answer: the queue is shown as far as the term leaves it, with
/// its whole length; songs as many as are wanted, from the front. An empty list and
/// a companion that is not there are told, and the latter goes to the log.
pub proof fn law_answers_become_lists(
    rows: Seq<QueueRowModel>,
    songs: Seq<SongModel>,
    term: Seq<char>,
    error: Seq<char>,
    max: usize,
)
    requires
        rows.len() <= usize::MAX,
    ensures
        matching_tracks(rows, term).len() > 0 ==> queue_outcome(Ok(rows), term) == (
        QueueOutcomeModel::Tracks {
            shown: matching_tracks(rows, term),
            count: rows.len() as usize,
        }),
        rows.len() == 0 ==> queue_outcome(Ok(rows), term) == (QueueOutcomeModel::Message {
            row: message_row("Queue is empty"@, "Play something in YouTube Music"@),
            log: None,
        }),
        rows.len() > 0 && matching_tracks(rows, term).len() == 0 ==> queue_outcome(Ok(rows), term)
            == (QueueOutcomeModel::Message {
            row: message_row("No matching tracks"@, "Nothing in the queue matches that"@),
            log: None,
        }),
        queue_outcome(Err(error), term) matches QueueOutcomeModel::Message { row, log } && row.title
            == "Firefox companion not connected"@ && log == Some("get_queue failed: "@ + error),
        songs.len() > 0 ==> (search_outcome(Ok(songs), max) matches SearchOutcomeModel::Songs(shown)
            && shown.len() == (if songs.len() <= max {
            songs.len() as int
        } else {
            max as int
        }) && (forall|i: int| 0 <= i < shown.len() ==> #[trigger] shown[i] == songs[i])),
        songs.len() == 0 ==> search_outcome(Ok(songs), max) == (SearchOutcomeModel::Message {
            row: message_row("No songs found"@, "Try a different search"@),
            log: None,
        }),
        search_outcome(Err(error), max) matches SearchOutcomeModel::Message { row, log }
            && row.title == "Firefox companion not connected"@ && log == Some(
            "companion search failed: "@ + error,
        ),
{
    if rows.len() == 0 {
        assert(matching_tracks(rows, term).len() == 0);
    }
}

/// How many songs are shown lies within 1 and 15, and is the setting where that
/// does; five without one.
pub proof fn law_song_count_is_kept_within_bounds(n: usize)
    ensures
        1 <= results_max(Some(n)) <= 15,
        1 <= n <= 15 ==> results_max(Some(n)) == n,
        n == 0 ==> results_max(Some(n)) == 1,
        n > 15 ==> results_max(Some(n)) == 15,
        results_max(None) == 5,
{
}

/// The rows of songs and tracks say what they stand for: title, artist and
/// duration, but for the track that plays, which says so; and carry the menus of
/// their kind.
pub proof fn law_rows_say_what_they_stand_for(
    s: SongModel,
    r: QueueRowModel,
    json: Seq<char>,
    relevance: Relevance,
    n: int,
    icon: ResultIconModel,
)
    ensures
        ({
            let row = song_row(s, json, relevance, icon);
            &&& row.title == s.title && row.badge == s.duration && row.relevance == relevance
            &&& row.icon == Some(icon)
            &&& s.artist.len() > 0 ==> row.subtitle == Some(s.artist)
            &&& s.artist.len() == 0 ==> row.subtitle is None
            &&& row.actions.len() == 4 && row.actions[0].id == "play_now"@ && row.actions[1].id
                == "play_next"@ && row.actions[2].id == "queue_last"@ && row.actions[3].id
                == "open"@
        }),
        ({
            let row = track_row(r, json, n, icon);
            &&& row.title == r.title && row.icon == Some(icon)
            &&& !r.current ==> row.badge == r.duration
            &&& r.current ==> row.badge == Some("\u{25B6} Now playing"@)
            &&& r.artist.len() > 0 ==> row.subtitle == Some(r.artist)
            &&& r.artist.len() == 0 ==> row.subtitle is None
            &&& row.actions.len() == 3 && row.actions[0].id == "skip_to"@ && row.actions[1].id
                == "remove"@ && row.actions[2].id == "open"@
        }),
{
}

/// Songs are listed in the order of the answer, each with the picture at hand, and
/// scored in that order; so are the tracks of a queue that do not play.
pub proof fn law_lists_keep_their_order(
    songs: Seq<SongEntry>,
    tracks: Seq<QueueEntry>,
    n: int,
    i: usize,
    j: usize,
)
    requires
        i < j,
    ensures
        song_rows(songs).len() == songs.len(),
        queue_rows(tracks, n).len() == tracks.len(),
        j < songs.len() ==> song_rows(songs)[i as int].title == songs[i as int].song.title@
            && song_rows(songs)[i as int].id == "song:"@ + songs[i as int].json@ && song_rows(
            songs,
        )[i as int].relevance.above(song_rows(songs)[j as int].relevance),
        j < tracks.len() ==> queue_rows(tracks, n)[i as int].title == tracks[i as int].row.title@
            && queue_rows(tracks, n)[i as int].id == "qitem:"@ + tracks[i as int].json@,
{
    law_ranked_descending(i, j, songs.len() as usize, 100, 40);
}

/// Whether `part` stands somewhere in `whole`.
pub open spec fn stands_in(part: Seq<char>, whole: Seq<char>) -> bool {
    exists|before: Seq<char>, after: Seq<char>| whole == #[trigger] (before + part + after)
}

/// The card of a song shows its picture, title, artist, album and duration, as far
/// as they are known, escaped and each under its own label; nothing of what is
/// blank. What carries no song shows nothing.
pub proof fn law_card_shows_the_song(
    title: Seq<char>,
    meta: SongMetaModel,
    art: Option<Seq<char>>,
)
    ensures
        shown(title, None, art) == (PreviewModel::Metadata { items: seq![] }),
        shown(title, Some(meta), art) matches PreviewModel::Html { content } && ({
            &&& stands_in(html_escaped(title, true), content)
            &&& trimmed(meta.a).len() > 0 ==> stands_in(labelled("Artist"@, meta.a), content)
            &&& trimmed(meta.al).len() > 0 ==> stands_in(labelled("Album"@, meta.al), content)
            &&& meta.d matches Some(d) ==> trimmed(d).len() > 0 ==> stands_in(
                labelled("Duration"@, d),
                content,
            )
            &&& art matches Some(uri) ==> stands_in("<img src=\""@ + uri + "\""@, content)
        }),
        trimmed(meta.a).len() == 0 ==> card_line("Artist"@, meta.a).len() == 0,
{
    reveal_strlit("");
    let open = "<div class=\"col\" style=\"gap:14px;padding:16px;align-items:center\">"@;
    let col = "<div class=\"col\" style=\"gap:4px;width:100%\">"@;
    let big =
        "<div style=\"font-size:15px;font-weight:600;text-align:center;margin-bottom:6px\">"@;
    let t = html_escaped(title, true);
    let a = card_line("Artist"@, meta.a);
    let al = card_line("Album"@, meta.al);
    let d = match meta.d {
        Some(d) => card_line("Duration"@, d),
        None => ""@,
    };
    let pic = card_art(art);
    let end = "</div></div>"@;
    let close = "</div>"@;
    let content = card(title, meta, art);
    assert(content == open + pic + col + big + t + close + a + al + d + end);
    let head = open + pic + col + big;
    lemma_card_parts(open, pic, col, big, t, close, a, al, d, end);
    if trimmed(meta.a).len() > 0 {
        lemma_line_stands("Artist"@, meta.a, head + t + close, al + d + end);
    }
    if trimmed(meta.al).len() > 0 {
        lemma_line_stands("Album"@, meta.al, head + t + close + a, d + end);
    }
    match meta.d {
        Some(x) => {
            if trimmed(x).len() > 0 {
                lemma_line_stands("Duration"@, x, head + t + close + a + al, end);
            }
        },
        None => {},
    }
    match art {
        Some(uri) => {
            lemma_picture_stands(uri, open, col + big + t + close + a + al + d + end);
        },
        None => {},
    }
}

proof fn lemma_card_parts(
    open: Seq<char>,
    pic: Seq<char>,
    col: Seq<char>,
    big: Seq<char>,
    t: Seq<char>,
    close: Seq<char>,
    a: Seq<char>,
    al: Seq<char>,
    d: Seq<char>,
    end: Seq<char>,
)
    ensures
        ({
            let whole = open + pic + col + big + t + close + a + al + d + end;
            let head = open + pic + col + big;
            &&& stands_in(t, whole)
            &&& whole == head + t + close + a + (al + d + end)
            &&& whole == head + t + close + a + al + (d + end)
            &&& whole == open + pic + (col + big + t + close + a + al + d + end)
        }),
{
    let whole = open + pic + col + big + t + close + a + al + d + end;
    let head = open + pic + col + big;
    assert(whole =~= head + t + (close + a + al + d + end));
    assert(whole =~= head + t + close + a + (al + d + end));
    assert(whole =~= head + t + close + a + al + (d + end));
    assert(whole =~= open + pic + (col + big + t + close + a + al + d + end));
}

proof fn lemma_picture_stands(uri: Seq<char>, before: Seq<char>, after: Seq<char>)
    ensures
        stands_in("<img src=\""@ + uri + "\""@, before + card_art(Some(uri)) + after),
{
    reveal_strlit("\"");
    let whole =
        "\" alt=\"\" style=\"width:200px;height:200px;border-radius:8px;object-fit:cover\">"@;
    assert(whole.len() > 0 && whole[0] == '"') by {
        reveal_strlit(
            "\" alt=\"\" style=\"width:200px;height:200px;border-radius:8px;object-fit:cover\">",
        );
    }
    let style = whole.skip(1);
    assert("\""@ + style =~= whole);
    let part = "<img src=\""@ + uri + "\""@;
    assert(card_art(Some(uri)) =~= part + style);
    assert(before + card_art(Some(uri)) + after =~= before + part + (style + after));
}

/// A label and a value, escaped, with what stands between them on the card.
pub open spec fn labelled(label: Seq<char>, value: Seq<char>) -> Seq<char> {
    html_escaped(label, true) + "</span><span style=\"font-size:13px\">"@ + html_escaped(
        value,
        true,
    ) + "</span>"@
}

proof fn lemma_line_stands(
    label: Seq<char>,
    value: Seq<char>,
    before: Seq<char>,
    after: Seq<char>,
)
    requires
        trimmed(value).len() > 0,
    ensures
        stands_in(labelled(label, value), before + card_line(label, value) + after),
{
    reveal_strlit("</span></div>");
    reveal_strlit("</span>");
    reveal_strlit("</div>");
    assert("</span>"@ + "</div>"@ =~= "</span></div>"@);
    let open =
        "<div class=\"row\" style=\"gap:0;align-items:baseline;padding:2px 0\"><span class=\"text-label\" style=\"width:72px;flex-shrink:0\">"@;
    let part = labelled(label, value);
    assert(card_line(label, value) =~= open + part + "</div>"@);
    assert(before + card_line(label, value) + after =~= (before + open) + part + ("</div>"@
        + after));
}

/// The small picture of a video: on the one host its file is another, on the other
/// the size that is asked for stands behind the last equals sign; any other address
/// stays.
pub proof fn law_small_pictures(a: Seq<char>, b: Seq<char>, px: u32, url: Seq<char>)
    requires
        !b.contains('/') && !b.contains('='),
    ensures
        holds(a + "/"@ + b, "ytimg.com"@) ==> small_thumb(a + "/"@ + b, px) == a + "/default.jpg"@,
        holds(a + "="@ + b, "googleusercontent.com"@) && !holds(a + "="@ + b, "ytimg.com"@)
            ==> small_thumb(a + "="@ + b, px) == a + "=w"@ + decimal(px as nat) + "-h"@ + decimal(
            px as nat,
        ) + "-l90-rj"@,
        !holds(url, "ytimg.com"@) && !holds(url, "googleusercontent.com"@) ==> small_thumb(url, px)
            == url,
{
    reveal_strlit("/");
    reveal_strlit("=");
    assert(a + "/"@ + b =~= a + seq!['/'] + b);
    assert(a + "="@ + b =~= a + seq!['='] + b);
    law_last_one_is_found(a, '/', b);
    law_last_one_is_found(a, '=', b);
    assert((a + "/"@ + b).take(a.len() as int) =~= a);
    assert((a + "="@ + b).take(a.len() as int) =~= a);
    let n = decimal(px as nat);
    assert(a + ("=w"@ + n + "-h"@ + n) + "-l90-rj"@ =~= a + "=w"@ + n + "-h"@ + n + "-l90-rj"@);
}

/// A picture is used just where one came that is not too large: up to twenty
/// kilobytes in a row, up to what fits a preview on a card. Its data can be read
/// back from what is shown.
pub proof fn law_pictures_are_used_whole(url: Seq<char>, body: Seq<u8>, status: u16)
    ensures
        0 < body.len() <= 20_480 ==> (icon_data(url, 200, body) matches Some((mime, data))
            && base64_decoded(data) == body && mime == image_type(url)),
        body.len() == 0 || body.len() > 20_480 ==> icon_data(url, 200, body) is None,
        0 < body.len() <= 98_286 ==> (data_uri(url, 200, body) matches Some(uri) && uri == "data:"@
            + image_type(url) + ";base64,"@ + base64(body)),
        body.len() == 0 || body.len() > 98_286 ==> data_uri(url, 200, body) is None,
        status != 200 ==> data_uri(url, status, body) is None && icon_data(url, status, body)
            is None,
        holds(url, ".png"@) ==> image_type(url) == "image/png"@,
        !holds(url, ".png"@) && holds(url, ".webp"@) ==> image_type(url) == "image/webp"@,
        !holds(url, ".png"@) && !holds(url, ".webp"@) ==> image_type(url) == "image/jpeg"@,
{
    law_base64_round_trip(body);
}

/// Until songs come one row stands for the search; none for the queue, nor where
/// nothing is typed.
pub proof fn law_search_shows_one_row(cmd: Seq<char>, query: Seq<char>)
    ensures
        search_rows("queue"@, query).len() == 0,
        trimmed(query).len() == 0 ==> search_rows(cmd, query).len() == 0,
        cmd != "queue"@ && trimmed(query).len() > 0 ==> search_rows(cmd, query).len() == 1
            && search_rows(cmd, query)[0].id == "searching:"@ + trimmed(query),
{
}

/// The companion is asked for the queue, which the term then narrows down, or for
/// the songs that the term finds; nothing is asked where nothing is typed.
pub proof fn law_companion_is_asked_for_the_term(plan: QueryPlan, cmd: Seq<char>, input: Seq<char>)
    requires
        plan_of(plan, cmd, input),
    ensures
        cmd == "queue"@ ==> (plan matches QueryPlan::Queue { request, term } && text_field(
            request,
            "op"@,
        ) == Some("get_queue"@) && term@ == trimmed(input)),
        cmd != "queue"@ && trimmed(input).len() > 0 ==> (plan matches QueryPlan::Search { request }
            && text_field(request, "op"@) == Some("search"@) && text_field(request, "q"@) == Some(
            trimmed(input),
        )),
        cmd != "queue"@ && trimmed(input).len() == 0 ==> plan == QueryPlan::Nothing,
{
    reveal_strlit("op");
    reveal_strlit("q");
    assert("op"@.len() != "q"@.len());
    match plan {
        QueryPlan::Search { request } => {
            lemma_texts_read(request, "op"@, "search"@, "q"@, trimmed(input));
        },
        QueryPlan::Queue { request, term } => {
            match request {
                Json::Object(m) => {
                    let members = seq![("op"@, "get_queue"@)];
                    assert(m@[0].0@ == members[0].0);
                },
                _ => {},
            }
        },
        _ => {},
    }
}

/// What the companion answers with "ok" is read from its list; anything else is a
/// refusal in its words, or in ours where it has none.
pub proof fn law_answers_are_read(reply: Json)
    ensures
        field(reply, "ok"@) == Some(Json::Bool(true)) ==> ({
            &&& field(reply, "items"@) matches Some(Json::Array(items)) ==> queue_in(reply) == Ok::<
                Seq<QueueRowModel>,
                Seq<char>,
            >(tracks_in(items@))
            &&& field(reply, "results"@) matches Some(Json::Array(items)) ==> items@.len() <= 15
                ==> found_in(reply) == Ok::<Seq<SongModel>, Seq<char>>(songs_in(items@))
            &&& field(reply, "results"@) matches Some(Json::Array(items)) ==> items@.len() > 15
                ==> found_in(reply) == Ok::<Seq<SongModel>, Seq<char>>(songs_in(items@.take(15)))
        }),
        field(reply, "ok"@) != Some(Json::Bool(true)) ==> ({
            let why = match field(reply, "error"@) {
                Some(Json::Text(t)) => t@,
                _ => "companion error"@,
            };
            &&& queue_in(reply) == Err::<Seq<QueueRowModel>, Seq<char>>(why)
            &&& found_in(reply) == Err::<Seq<SongModel>, Seq<char>>(why)
        }),
{
}

/// Each video has a key of its own for its picture; without a video there is none.
pub proof fn law_pictures_have_their_own_keys(a: Seq<char>, b: Seq<char>)
    requires
        a.len() > 0 && b.len() > 0 && a != b,
    ensures
        art_key_text(a) is Some && art_key_text(b) is Some,
        art_key_text(a) != art_key_text(b),
        art_key_text(seq![]) is None,
        picture_request(a).url == a,
        picture_request(a).method == Some("GET"@) && picture_request(a).body is None,
{
    let x = "art:"@ + a;
    let y = "art:"@ + b;
    assert(x.skip("art:"@.len() as int) =~= a);
    assert(y.skip("art:"@.len() as int) =~= b);
}

/// What a row shows of its picture: the one that is kept; else the one that is
/// fetched while there is budget, and the common icon where there is none to fetch.
pub proof fn law_row_picture(
    video_id: Seq<char>,
    thumb: Seq<char>,
    stored: Option<Seq<char>>,
    budget: usize,
)
    requires
        video_id.len() > 0 && thumb.len() > 0,
        kept_art(video_id, stored) is None,
    ensures
        budget > 0 ==> art_of(video_id, Some(thumb), stored, budget) == RowArtModel::Fetch(
            small_thumb(thumb, 48),
        ),
        art_of(video_id, None, stored, budget) == RowArtModel::Ready(music_icon()),
        art_of(seq![], Some(thumb), stored, budget) == RowArtModel::Ready(music_icon()),
        missing(video_id, Some(thumb), stored),
        !missing(video_id, None, stored),
        art_at_hand(video_id, stored) == music_icon(),
{
}

/// What a call that failed leaves in the log: the operation and the reason; one
/// that did what it should leaves nothing.
pub proof fn law_failures_are_logged(op: Seq<char>, reply: Result<Json, String>)
    ensures
        done(reply) ==> call_log(op, reply) is None,
        reply matches Err(e) ==> call_log(op, reply) == Some(op + " bus error: "@ + e@),
        !done(reply) && reply is Ok ==> call_log(op, reply) == Some(
            op + " failed: "@ + (match text_field(reply->Ok_0, "error"@) {
                Some(e) => e,
                None => "companion refused the action"@,
            }),
        ),
{
}

/// What the id of a row carries is its own song: the video, artist, album, duration
/// and picture of a song; the video, artist, duration, picture and position of a
/// track.
pub proof fn law_rows_carry_their_own_song(s: SongModel, r: QueueRowModel)
    ensures
        s.meta().v == s.video_id && s.meta().a == s.artist && s.meta().al == s.album,
        s.meta().d == s.duration && s.meta().t == s.thumb_url && s.meta().i is None,
        r.meta().v == r.video_id && r.meta().a == r.artist && r.meta().al.len() == 0,
        r.meta().d == r.duration && r.meta().t == r.thumb && r.meta().i == Some(r.index),
{
    reveal_strlit("");
}

/// The labels of the menus name what their actions do; what changes the queue keeps
/// the launcher open, which is marked as for a form.
pub proof fn law_labels_name_the_actions()
    ensures
        ({
            let m = song_menu();
            &&& m[0].id == "play_now"@ && m[0].label == "Play now"@ && !m[0].opens_form
            &&& m[1].id == "play_next"@ && m[1].label == "Play next"@ && m[1].opens_form
            &&& m[2].id == "queue_last"@ && m[2].label == "Add to queue"@ && m[2].opens_form
            &&& m[3].id == "open"@ && m[3].label == "Open in browser"@ && !m[3].opens_form
            &&& m[0].shortcut is None && m[1].shortcut == Some("ctrl+n"@) && m[2].shortcut == Some(
                "ctrl+q"@,
            ) && m[3].shortcut == Some("ctrl+o"@)
        }),
        ({
            let m = queue_menu();
            &&& m[0].id == "skip_to"@ && m[0].label == "Skip to"@ && m[0].opens_form
            &&& m[1].id == "remove"@ && m[1].label == "Remove from queue"@ && m[1].opens_form
            &&& m[2].id == "open"@ && m[2].label == "Open in browser"@ && !m[2].opens_form
            &&& m[0].shortcut is None && m[1].shortcut == Some("ctrl+d"@) && m[2].shortcut == Some(
                "ctrl+o"@,
            )
        }),
{
}

/// The rows that carry no song say what they are given, offer nothing, and rank in
/// the middle.
pub proof fn law_messages_say_what_they_are_given(title: Seq<char>, subtitle: Seq<char>)
    ensures
        ({
            let row = message_row(title, subtitle);
            &&& row.id == "msg"@ && row.title == title && row.subtitle == Some(subtitle)
            &&& row.actions.len() == 0 && row.badge is None
            &&& row.relevance == Relevance::Fixed(50)
        }),
        ({
            let row = searching(title);
            &&& row.id == "searching:"@ + title
            &&& row.title == "Search YouTube Music for \u{201c}"@ + title + "\u{201d}\u{2026}"@
            &&& row.subtitle == Some("Press Enter to open the web search"@)
            &&& row.actions.len() == 0 && row.badge is None
            &&& row.relevance == Relevance::Fixed(50)
        }),
        not_connected().title == "Firefox companion not connected"@,
        not_connected().subtitle == Some("Open music.youtube.com and load the companion add-on"@),
{
}

/// The hints of the menus say where a song goes.
pub proof fn law_hints_say_where_songs_go()
    ensures
        song_menu()[0].hint == Some("in YouTube Music"@),
        song_menu()[1].hint == Some("after current track"@),
        song_menu()[2].hint == Some("end of the queue"@),
        song_menu()[3].hint is None,
        queue_menu()[0].hint == Some("play this track"@),
        queue_menu()[1].hint is None && queue_menu()[2].hint is None,
{
}

} // verus!
