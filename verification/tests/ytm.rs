use portunus_extensions::host::{
    ActivateEffect, IconAsset, PreviewContent, Relevance, ResultIcon, ToastLevel,
};
use portunus_extensions::json::Json;
use portunus_extensions::ytm::{
    activate, art_key, art_request, cached_icon, companion_get_queue, companion_search,
    decode_meta, emit_message, emit_queue, emit_songs, fetch_icon_b64, fetch_thumb_data_uri,
    html_escape, human_op, matches_lowered, max_results, meta_row, move_answered, play_answered, preview, query,
    queue_actions, queue_answered, queue_request, queue_result, ranked, row_fetched, row_icon,
    search, search_answered, search_request, small_thumb_url, song_actions, song_result,
    ActivateStep, QueryPlan, QueueEntry, QueueOutcome, QueueRow, RowArt, SearchOutcome, Song,
    SongEntry, SongMeta,
};

fn text(s: &str) -> Json {
    Json::Text(s.to_string())
}

fn object(members: Vec<(&str, Json)>) -> Json {
    Json::Object(members.into_iter().map(|(k, v)| (k.to_string(), v)).collect())
}

fn song(id: &str) -> Song {
    Song {
        video_id: id.to_string(),
        title: format!("Song {id}"),
        artist: "Artist".to_string(),
        album: "Album".to_string(),
        duration: Some("3:21".to_string()),
        thumb_url: Some("https://lh3.googleusercontent.com/x=w120-h120".to_string()),
    }
}

fn track(index: usize, current: bool) -> QueueRow {
    QueueRow {
        index,
        video_id: format!("v{index}"),
        title: format!("Track {index}"),
        artist: String::new(),
        duration: None,
        thumb: None,
        current,
    }
}

fn meta(v: &str, i: Option<usize>) -> Option<SongMeta> {
    Some(SongMeta {
        v: v.to_string(),
        a: "A & B".to_string(),
        al: String::new(),
        d: Some("3:21".to_string()),
        t: None,
        i,
    })
}

fn music() -> ResultIcon {
    ResultIcon::Asset(IconAsset::Music)
}

fn toast(message: &str, level: ToastLevel) -> ActivateEffect {
    ActivateEffect::ShowToast { message: message.to_string(), level }
}

#[test]
fn metadata_of_songs_and_tracks() {
    let m = song("abc").meta();
    assert_eq!(m.v, "abc");
    assert_eq!(m.al, "Album");
    assert_eq!(m.i, None);
    let t = track(4, false).meta();
    assert_eq!(t.i, Some(4));
    assert_eq!(t.al, "");
}

#[test]
fn payload_is_found_in_the_id() {
    let row = song_result(&song("a"), "{\"v\":\"a\"}", ranked(0, 1), music());
    assert_eq!(decode_meta(&row.id), Some("{\"v\":\"a\"}".to_string()));
    let row = queue_result(&track(0, false), "{}", 1, music());
    assert_eq!(decode_meta(&row.id), Some("{}".to_string()));
    assert_eq!(decode_meta("msg"), None);
}

#[test]
fn action_menus() {
    let ids: Vec<String> = song_actions().into_iter().map(|a| a.id).collect();
    assert_eq!(ids, vec!["play_now", "play_next", "queue_last", "open"]);
    assert_eq!(song_actions()[1].shortcut.as_deref(), Some("ctrl+n"));
    assert!(song_actions()[2].opens_form);
    let ids: Vec<String> = queue_actions().into_iter().map(|a| a.id).collect();
    assert_eq!(ids, vec!["skip_to", "remove", "open"]);
    assert_eq!(queue_actions()[1].shortcut.as_deref(), Some("ctrl+d"));
}

#[test]
fn song_rows() {
    let row = song_result(&song("a"), "J", ranked(1, 4), music());
    assert_eq!(row.id, "song:J");
    assert_eq!(row.subtitle.as_deref(), Some("Artist"));
    assert_eq!(row.badge.as_deref(), Some("3:21"));
    assert_eq!(row.relevance, Relevance::Ranked { index: 1, count: 4, top: 100, span: 40 });
}

#[test]
fn playing_track_ranks_first() {
    let now = queue_result(&track(3, true), "J", 5, music());
    assert_eq!(now.relevance, Relevance::Fixed(100));
    assert_eq!(now.badge.as_deref(), Some("\u{25B6} Now playing"));
    let other = queue_result(&track(3, false), "J", 5, music());
    assert_eq!(other.relevance, Relevance::Ranked { index: 3, count: 5, top: 99, span: 90 });
    assert_eq!(other.badge, None);
    assert_eq!(other.subtitle, None);
}

#[test]
fn kept_art_is_read_back() {
    let mut budget: usize = 2;
    let (icon, write) =
        row_fetched("v", Some(("image/png".to_string(), "QUJD".to_string())), &mut budget);
    assert_eq!(budget, 1);
    let (key, entry) = write.unwrap();
    assert_eq!(Some(key), art_key("v"));
    assert_eq!(entry, "image/png\tQUJD");
    assert_eq!(cached_icon("v", &Some(entry)), Some(icon));
    assert_eq!(cached_icon("", &Some("a\tb".to_string())), None);
    assert_eq!(cached_icon("v", &Some("no tab".to_string())), None);
    assert_eq!(cached_icon("v", &None), None);
    assert_eq!(art_key(""), None);
    let (icon, write) = row_fetched("v", None, &mut budget);
    assert_eq!((icon, write, budget), (music(), None, 1));
}

#[test]
fn small_pictures_per_host() {
    assert_eq!(
        small_thumb_url("https://i.ytimg.com/vi/x/hq720.jpg?sqp=1", 48),
        "https://i.ytimg.com/vi/x/default.jpg"
    );
    assert_eq!(
        small_thumb_url("https://lh3.googleusercontent.com/a=w544-h544-l90-rj", 48),
        "https://lh3.googleusercontent.com/a=w48-h48-l90-rj"
    );
    assert_eq!(
        small_thumb_url("https://lh3.googleusercontent.com/a", 48),
        "https://lh3.googleusercontent.com/a=w48-h48"
    );
    assert_eq!(small_thumb_url("https://example.org/a.jpg?x=1", 48), "https://example.org/a.jpg?x=1");
}

#[test]
fn fetched_pictures_are_bounded() {
    assert_eq!(
        fetch_icon_b64("https://x/a.png", 200, b"foo"),
        Some(("image/png".to_string(), "Zm9v".to_string()))
    );
    assert_eq!(
        fetch_icon_b64("https://x/a.webp", 200, b"foo").unwrap().0,
        "image/webp"
    );
    assert_eq!(fetch_icon_b64("https://x/a", 200, b"foo").unwrap().0, "image/jpeg");
    assert_eq!(fetch_icon_b64("u", 404, b"foo"), None);
    assert_eq!(fetch_icon_b64("u", 200, b""), None);
    let largest = vec![0u8; 20 * 1024];
    assert_eq!(fetch_icon_b64("u", 200, &largest).unwrap().1.len(), 27_308);
    assert_eq!(fetch_icon_b64("u", 200, &vec![0u8; 20 * 1024 + 1]), None);
    assert_eq!(
        fetch_thumb_data_uri("https://x/a.png", 200, b"foo"),
        Some("data:image/png;base64,Zm9v".to_string())
    );
    assert_eq!(fetch_thumb_data_uri("u", 500, b"foo"), None);
    assert_eq!(fetch_thumb_data_uri("u", 200, b""), None);
    assert_eq!(fetch_thumb_data_uri("u", 200, &vec![0u8; 98_286]).unwrap().len(), 128 * 1024 - 1);
    assert_eq!(fetch_thumb_data_uri("u", 200, &vec![0u8; 98_287]), None);
    assert_eq!(fetch_thumb_data_uri("u", 200, &vec![0u8; 96 * 1024]), None);
    let r = art_request("https://x");
    assert_eq!(r.method.as_deref(), Some("GET"));
    assert_eq!(r.url, "https://x");
}

#[test]
fn row_pictures_come_from_cache_budget_or_icon() {
    let thumb = Some("https://i.ytimg.com/vi/x/hq.jpg".to_string());
    let stored = Some("image/png\tQ".to_string());
    assert_eq!(
        row_icon("v", &thumb, &stored, 0),
        RowArt::Ready(ResultIcon::Inline { mime: "image/png".to_string(), data_base64: "Q".to_string() })
    );
    assert_eq!(
        row_icon("v", &thumb, &None, 1),
        RowArt::Fetch("https://i.ytimg.com/vi/x/default.jpg".to_string())
    );
    assert_eq!(row_icon("v", &thumb, &None, 0), RowArt::Ready(music()));
    assert_eq!(row_icon("", &thumb, &None, 1), RowArt::Ready(music()));
    assert_eq!(row_icon("v", &None, &None, 1), RowArt::Ready(music()));
    assert_eq!(row_icon("v", &Some(String::new()), &None, 1), RowArt::Ready(music()));
}

#[test]
fn first_pass_uses_art_at_hand() {
    let entries = vec![
        SongEntry { song: song("a"), json: "1".to_string(), stored: Some("m\tb".to_string()) },
        SongEntry { song: song("b"), json: "2".to_string(), stored: None },
    ];
    let pass = emit_songs(&entries);
    assert!(pass.any_miss);
    assert_eq!(
        pass.rows[0].icon,
        Some(ResultIcon::Inline { mime: "m".to_string(), data_base64: "b".to_string() })
    );
    assert_eq!(pass.rows[1].icon, Some(music()));
    assert_eq!(pass.rows[1].relevance, Relevance::Ranked { index: 1, count: 2, top: 100, span: 40 });
    let entries = vec![QueueEntry { row: track(0, true), json: "1".to_string(), stored: None }];
    let pass = emit_queue(&entries, 7);
    assert!(!pass.any_miss);
    assert_eq!(pass.rows[0].id, "qitem:1");
}

#[test]
fn queue_answers_are_read() {
    let reply = object(vec![
        ("ok", Json::Bool(true)),
        (
            "items",
            Json::Array(vec![
                object(vec![("title", text("One")), ("index", Json::Number(Some(9))), ("current", Json::Bool(true))]),
                object(vec![("title", text(""))]),
                object(vec![("title", text("Two")), ("videoId", text("v")), ("duration", text("")), ("thumbnail", text("t"))]),
            ]),
        ),
    ]);
    let rows = companion_get_queue(&reply).unwrap();
    assert_eq!(rows.len(), 2);
    assert_eq!((rows[0].index, rows[0].current), (9, true));
    assert_eq!((rows[1].index, rows[1].duration.clone()), (2, None));
    assert_eq!(rows[1].thumb.as_deref(), Some("t"));
    assert_eq!(
        companion_get_queue(&object(vec![("ok", Json::Bool(false)), ("error", text("no tab"))])),
        Err("no tab".to_string())
    );
    assert_eq!(companion_get_queue(&Json::Null), Err("companion error".to_string()));
}

#[test]
fn search_answers_are_read() {
    let item = |id: &str, title: &str| {
        object(vec![("videoId", text(id)), ("title", text(title)), ("artist", text("A")), ("album", text("B"))])
    };
    let many: Vec<Json> = (0..20).map(|i| item(&format!("v{i}"), "T")).collect();
    let reply = object(vec![("ok", Json::Bool(true)), ("results", Json::Array(many))]);
    assert_eq!(companion_search(&reply).unwrap().len(), 15);
    let reply = object(vec![
        ("ok", Json::Bool(true)),
        ("results", Json::Array(vec![item("", "T"), item("v", ""), item("w", "T")])),
    ]);
    let songs = companion_search(&reply).unwrap();
    assert_eq!(songs.len(), 1);
    assert_eq!(songs[0].video_id, "w");
    assert_eq!(songs[0].album, "B");
    assert_eq!(companion_search(&object(vec![])), Err("companion error".to_string()));
}

#[test]
fn requests_to_the_companion() {
    assert_eq!(queue_request(), object(vec![("op", text("get_queue"))]));
    assert_eq!(search_request("x y"), object(vec![("op", text("search")), ("q", text("x y"))]));
    assert_eq!(
        query("queue", " a "),
        QueryPlan::Queue { request: queue_request(), term: "a".to_string() }
    );
    assert_eq!(query("ytm", "  "), QueryPlan::Nothing);
    assert_eq!(query("ytm", " a "), QueryPlan::Search { request: search_request("a") });
}

#[test]
fn instant_tier_shows_a_placeholder() {
    let rows = search("ytm", " daft punk ");
    assert_eq!(rows[0].id, "searching:daft punk");
    assert_eq!(rows[0].title, "Search YouTube Music for \u{201c}daft punk\u{201d}\u{2026}");
    assert_eq!(rows[0].relevance, Relevance::Fixed(50));
    assert!(search("ytm", " ").is_empty());
    assert!(search("queue", "x").is_empty());
}

#[test]
fn queue_outcomes() {
    let item = object(vec![("title", text("Song")), ("artist", text("Band"))]);
    let reply = |items: Vec<Json>| {
        Ok(object(vec![("ok", Json::Bool(true)), ("items", Json::Array(items))]))
    };
    match queue_answered(&reply(vec![item]), "BAND") {
        QueueOutcome::Tracks { shown, count } => {
            assert_eq!((shown.len(), count), (1, 1));
        }
        other => panic!("{other:?}"),
    }
    let message = |o: QueueOutcome| match o {
        QueueOutcome::Message { row, log } => (row.title, log),
        other => panic!("{other:?}"),
    };
    let item = object(vec![("title", text("Song"))]);
    assert_eq!(message(queue_answered(&reply(vec![item]), "zzz")), ("No matching tracks".to_string(), None));
    assert_eq!(message(queue_answered(&reply(vec![]), "")), ("Queue is empty".to_string(), None));
    assert_eq!(
        message(queue_answered(&Err("timeout".to_string()), "")),
        (
            "Firefox companion not connected".to_string(),
            Some("get_queue failed: timeout".to_string())
        )
    );
}

#[test]
fn search_outcomes() {
    let item = |id: &str| object(vec![("videoId", text(id)), ("title", text("T"))]);
    let reply = |items: Vec<Json>| {
        Ok(object(vec![("ok", Json::Bool(true)), ("results", Json::Array(items))]))
    };
    match search_answered(&reply(vec![item("a"), item("b"), item("c")]), 2) {
        SearchOutcome::Songs(songs) => assert_eq!(songs.len(), 2),
        other => panic!("{other:?}"),
    }
    match search_answered(&reply(vec![]), 5) {
        SearchOutcome::Message { row, log } => {
            assert_eq!(row.title, "No songs found");
            assert_eq!(log, None);
        }
        other => panic!("{other:?}"),
    }
    match search_answered(&Ok(Json::Null), 5) {
        SearchOutcome::Message { row, log } => {
            assert_eq!(row, emit_message(
                "Firefox companion not connected",
                "Open music.youtube.com and load the companion add-on"
            ));
            assert_eq!(log.as_deref(), Some("companion search failed: companion error"));
        }
        other => panic!("{other:?}"),
    }
    assert_eq!(max_results(None), 5);
    assert_eq!(max_results(Some(0)), 1);
    assert_eq!(max_results(Some(50)), 15);
}

#[test]
fn songs_are_played_through_the_companion() {
    match activate("song:{}", None, &meta("v", None)) {
        ActivateStep::Call { op, request, queue } => {
            assert_eq!(op, "play_now");
            assert!(!queue);
            assert_eq!(request, object(vec![("op", text("play_now")), ("videoId", text("v"))]));
        }
        other => panic!("{other:?}"),
    }
    match activate("song:{}", Some("play_next"), &meta("v", None)) {
        ActivateStep::Call { op, .. } => assert_eq!(op, "queue_next"),
        other => panic!("{other:?}"),
    }
    let open = |url: &str| ActivateStep::Effects(vec![ActivateEffect::OpenUrl { url: url.to_string() }]);
    assert_eq!(
        activate("song:{}", Some("open"), &meta("v", None)),
        open("https://music.youtube.com/watch?v=v")
    );
    assert_eq!(activate("song:x", None, &None), ActivateStep::Effects(vec![]));
    assert_eq!(activate("song:x", None, &meta("", None)), ActivateStep::Effects(vec![]));
    assert_eq!(
        activate("searching:a b", None, &None),
        open("https://music.youtube.com/search?q=a%20b")
    );
}

#[test]
fn tracks_are_moved_through_the_companion() {
    match activate("qitem:{}", Some("remove"), &meta("v", Some(3))) {
        ActivateStep::Call { op, request, queue } => {
            assert_eq!(op, "remove_from_queue");
            assert!(queue);
            assert_eq!(
                request,
                object(vec![("op", text("remove_from_queue")), ("index", Json::Number(Some(3)))])
            );
        }
        other => panic!("{other:?}"),
    }
    match activate("qitem:{}", None, &meta("v", Some(3))) {
        ActivateStep::Call { op, .. } => assert_eq!(op, "skip_to"),
        other => panic!("{other:?}"),
    }
    assert_eq!(
        activate("qitem:{}", None, &meta("v", None)),
        ActivateStep::Effects(vec![toast("Missing queue position", ToastLevel::Error)])
    );
    assert_eq!(activate("qitem:{}", Some("open"), &meta("", Some(1))), ActivateStep::Effects(vec![]));
    assert_eq!(activate("qitem:{}", None, &None), ActivateStep::Effects(vec![]));
}

#[test]
fn answers_to_actions() {
    let ok = Ok(object(vec![("ok", Json::Bool(true))]));
    let refused = Ok(object(vec![("ok", Json::Bool(false)), ("error", text("no tab"))]));
    let down = Err("gone".to_string());
    assert_eq!(
        play_answered("queue_next", &ok),
        (vec![toast("Queued next", ToastLevel::Success), ActivateEffect::KeepOpen], None)
    );
    assert_eq!(
        play_answered("queue_last", &ok).0,
        vec![toast("Added to queue", ToastLevel::Success), ActivateEffect::KeepOpen]
    );
    assert_eq!(
        play_answered("play_now", &ok).0,
        vec![toast("Playing", ToastLevel::Success), ActivateEffect::Hide]
    );
    assert_eq!(
        play_answered("queue_next", &refused),
        (
            vec![toast("Couldn't play next: no tab", ToastLevel::Error)],
            Some("queue_next failed: no tab".to_string())
        )
    );
    assert_eq!(
        play_answered("play_now", &Ok(Json::Null)).0,
        vec![toast("Couldn't play: companion refused the action", ToastLevel::Error)]
    );
    assert_eq!(
        play_answered("play_now", &down),
        (
            vec![toast("Firefox companion not connected", ToastLevel::Error)],
            Some("play_now bus error: gone".to_string())
        )
    );
    assert_eq!(
        move_answered("remove_from_queue", &ok).0,
        vec![
            toast("Removed from queue", ToastLevel::Success),
            ActivateEffect::RefreshResults,
            ActivateEffect::KeepOpen
        ]
    );
    assert_eq!(move_answered("skip_to", &ok).0[0], toast("Skipping", ToastLevel::Success));
    assert_eq!(
        move_answered("skip_to", &refused).0,
        vec![toast("Couldn't skip: no tab", ToastLevel::Error)]
    );
    assert_eq!(
        move_answered("remove_from_queue", &refused).0,
        vec![toast("Couldn't remove: no tab", ToastLevel::Error)]
    );
    assert_eq!(human_op("queue_last"), "add to queue");
}

#[test]
fn preview_card() {
    let mut line = String::new();
    meta_row(&mut line, "Album", " ");
    assert_eq!(line, "");
    meta_row(&mut line, "Artist", "A & B");
    let row = |label: &str, value: &str| {
        format!("<div class=\"row\" style=\"gap:0;align-items:baseline;padding:2px 0\"><span class=\"text-label\" style=\"width:72px;flex-shrink:0\">{label}</span><span style=\"font-size:13px\">{value}</span></div>")
    };
    assert_eq!(line, row("Artist", "A &amp; B"));
    let head = "<div class=\"col\" style=\"gap:14px;padding:16px;align-items:center\">";
    let title = "<div class=\"col\" style=\"gap:4px;width:100%\"><div style=\"font-size:15px;font-weight:600;text-align:center;margin-bottom:6px\">&lt;T&gt;</div>";
    let rows = format!("{}{}</div></div>", row("Artist", "A &amp; B"), row("Duration", "3:21"));
    assert_eq!(
        preview("<T>", &meta("v", None), &None),
        PreviewContent::Html { content: format!("{head}{title}{rows}") }
    );
    let img = "<img src=\"data:x\" alt=\"\" style=\"width:200px;height:200px;border-radius:8px;object-fit:cover\">";
    assert_eq!(
        preview("<T>", &meta("v", None), &Some("data:x".to_string())),
        PreviewContent::Html { content: format!("{head}{img}{title}{rows}") }
    );
    assert_eq!(preview("T", &None, &None), PreviewContent::Metadata { items: vec![] });
    assert_eq!(html_escape("\"<&>\""), "&quot;&lt;&amp;&gt;&quot;");
}

#[test]
fn rows_keep_their_ids_when_art_comes() {
    let inline = || ResultIcon::Inline { mime: "m".to_string(), data_base64: "b".to_string() };
    assert_eq!(
        song_result(&song("a"), "J", ranked(0, 1), music()).id,
        song_result(&song("a"), "J", ranked(0, 1), inline()).id
    );
    assert_eq!(
        queue_result(&track(1, false), "J", 2, music()).id,
        queue_result(&track(1, false), "J", 2, inline()).id
    );
}

#[test]
fn new_pictures_are_bounded_by_the_budget() {
    let thumb = Some("https://i.ytimg.com/vi/x/hq.jpg".to_string());
    let mut budget: usize = portunus_extensions::ytm::ART_FETCH_BUDGET;
    let mut fetched = 0;
    for i in 0..40 {
        let id = format!("v{i}");
        if let RowArt::Fetch(_) = row_icon(&id, &thumb, &None, budget) {
            let picture = if i % 3 == 0 { None } else { Some(("m".to_string(), "b".to_string())) };
            if picture.is_some() {
                fetched += 1;
            }
            row_fetched(&id, picture, &mut budget);
        }
    }
    assert_eq!((fetched, budget), (16, 0));
}

#[test]
fn lowered_tracks_are_matched() {
    assert!(matches_lowered("yellow", "band", "low"));
    assert!(matches_lowered("yellow", "band", "ban"));
    assert!(matches_lowered("yellow", "band", ""));
    assert!(!matches_lowered("Yellow", "band", "yel"));
}
