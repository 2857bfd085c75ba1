use portunus_extensions::cheatsh::{
    activate, bucket_key, copy_sheet, fetch_text, fetched_text, list_cache, list_url, parse_cheatsh,
    preview, query, query_lowered, query_url, query_url_lowered, search, search_lowered, sheet_url,
    split_row, strip_ansi, ActivateStep, LIST_URL,
};
use portunus_extensions::host::{ActivateEffect, PreviewContent, Relevance, ToastLevel};

#[test]
fn ansi_sequences_are_stripped() {
    assert_eq!(strip_ansi("\u{1b}[38;5;248mtar\u{1b}[0m x"), "tar x");
    assert_eq!(strip_ansi("\u{1b}[38;5"), "");
    assert_eq!(strip_ansi("\u{1b}]0;t"), "\u{1b}]0;t");
    assert_eq!(strip_ansi("a\u{1b}"), "a\u{1b}");
}

#[test]
fn text_without_escapes_is_kept() {
    assert_eq!(strip_ansi("plain [1m text"), "plain [1m text");
    assert_eq!(strip_ansi("\u{1b}(B a\u{1b}\u{1b} [b"), "\u{1b}(B a\u{1b}\u{1b} [b");
}

#[test]
fn escape_sequence_goes_from_the_middle() {
    assert_eq!(strip_ansi("a\u{1b}\u{1b}[1;31mb\u{1b}[0mc"), "a\u{1b}bc");
    assert_eq!(strip_ansi("a [\u{1b}[Kb"), "a [b");
    assert_eq!(strip_ansi("ab\u{1b}[1;3"), "ab");
}

#[test]
fn pages_are_fetched_as_curl() {
    let r = fetch_text(LIST_URL);
    assert_eq!(r.url, "https://cheat.sh/:list");
    assert_eq!(r.method, None);
    assert_eq!(r.headers, vec![("User-Agent".to_string(), "curl/7.86.0".to_string())]);
    assert_eq!(fetched_text(b"\x1b[1mls\x1b[0m\xff"), "ls\u{fffd}");
}

#[test]
fn bucket_is_the_first_character() {
    assert_eq!(bucket_key("tar"), Some("b_t".to_string()));
    assert_eq!(bucket_key("\u{e9}x"), Some("b_\u{e9}".to_string()));
    assert_eq!(bucket_key(""), None);
}

#[test]
fn list_is_cached_by_first_character() {
    let writes = list_cache("tar\n:help\nrfc/1\n  tail \n\nls\n");
    let mut sorted = writes;
    sorted.sort();
    assert_eq!(
        sorted,
        vec![
            ("b_l".to_string(), "ls".to_string()),
            ("b_t".to_string(), "tar\ntail".to_string()),
            ("cached".to_string(), "1".to_string()),
        ]
    );
}

#[test]
fn listed_sheet_is_found_again() {
    let writes = list_cache("tar\ntailwind\ntail\ntac\n");
    let bucket = writes.iter().find(|w| w.0 == "b_t").map(|w| w.1.clone());
    let rows = search(" TAI ", true, bucket);
    let ids: Vec<&str> = rows.iter().map(|r| r.id.as_str()).collect();
    assert_eq!(ids, vec!["tail", "tailwind"]);
    assert_eq!(rows[0].relevance, Relevance::Share { part: 3, whole: 4 });
    assert_eq!(rows[0].title, "cheat.sh/tail");
    assert_eq!(rows[0].subtitle.as_deref(), Some("Cheat sheet"));
}

#[test]
fn shortest_names_come_first_and_ties_keep_order() {
    let rows = search("a", true, Some("abcd\nab\nax\na\nb".to_string()));
    let ids: Vec<&str> = rows.iter().map(|r| r.id.as_str()).collect();
    assert_eq!(ids, vec!["a", "ab", "ax", "abcd"]);
}

#[test]
fn at_most_twenty_rows() {
    let names: Vec<String> = (0..30).map(|i| format!("x{i}")).collect();
    assert_eq!(search("x", true, Some(names.join("\n"))).len(), 20);
}

#[test]
fn search_before_the_list_is_cached() {
    let rows = search("tar", false, None);
    assert_eq!(rows.len(), 1);
    assert_eq!(rows[0].id, "tar");
    assert_eq!(rows[0].relevance, Relevance::Fixed(50));
    assert_eq!(rows[0].badge.as_deref(), Some("uncached"));
    assert!(search("  ", false, None).is_empty());
    assert!(search("tar", true, None).is_empty());
}

#[test]
fn query_streams_the_live_sheet() {
    assert_eq!(query_url(" Tar "), Some("https://cheat.sh/tar?T".to_string()));
    assert_eq!(query_url(" "), None);
    let row = query("Tar", "# tar\n\n  tar -xf a.tar \n").unwrap();
    assert_eq!(row.id, "tar");
    assert_eq!(row.subtitle.as_deref(), Some("tar -xf a.tar"));
    assert_eq!(row.relevance, Relevance::Fixed(100));
    assert_eq!(row.badge.as_deref(), Some("online"));
    assert_eq!(query("x", "# only comments").unwrap().subtitle.as_deref(), Some("cheat sheet"));
    assert!(query("x", "\nUnknown topic.\n").is_none());
    assert!(query(" ", "text").is_none());
}

#[test]
fn activate_opens_or_copies() {
    assert_eq!(
        activate("tar", None),
        ActivateStep::Done(vec![ActivateEffect::OpenUrl { url: "https://cheat.sh/tar".to_string() }])
    );
    assert_eq!(
        activate("tar", Some("copy")),
        ActivateStep::FetchToCopy { url: sheet_url("tar") }
    );
    assert_eq!(
        copy_sheet("tar", "body".to_string()),
        vec![
            ActivateEffect::CopyText { text: "body".to_string() },
            ActivateEffect::ShowToast {
                message: "Copied cheat.sh/tar".to_string(),
                level: ToastLevel::Success
            },
        ]
    );
}

#[test]
fn rows_split_at_two_spaces() {
    assert_eq!(split_row("ls -l   list files"), vec!["ls -l", "list files"]);
    assert_eq!(split_row("  ls -l"), vec!["ls -l"]);
    assert_eq!(split_row("  cmd   desc  more"), vec!["cmd", "desc  more"]);
    assert_eq!(split_row("one"), vec!["one"]);
}

#[test]
fn sheet_becomes_sections() {
    let raw = "#[cheat:tar]\n---\ntags: x\n---\n# Create\ntar -cf a.tar  pack & go\n\n# List\ntar -tf a.tar\n";
    let expected = concat_all(&[
        "<div class=\"col\" style=\"gap:0;padding:14px 18px;min-height:100%\">",
        "<div style=\"padding:8px 0\">",
        "<div class=\"text-label\" style=\"margin-bottom:6px\">Create</div>",
        "<div class=\"col\" style=\"gap:3px\">",
        "<div class=\"row\" style=\"align-items:baseline;gap:0\"><code class=\"mono\" style=\"color:var(--accent);white-space:nowrap;padding-right:12px;flex-shrink:0\">tar -cf a.tar</code><span class=\"text-dim\" style=\"font-size:12px\">pack &amp; go</span></div>",
        "</div></div>",
        "<hr class=\"divider\">",
        "<div style=\"padding:8px 0\">",
        "<div class=\"text-label\" style=\"margin-bottom:6px\">List</div>",
        "<div class=\"col\" style=\"gap:3px\">",
        "<code class=\"mono accent-line\" style=\"display:block;padding-top:2px;padding-bottom:2px\">tar -tf a.tar</code>",
        "</div></div>",
        "</div>",
    ]);
    assert_eq!(parse_cheatsh(raw), PreviewContent::Html { content: expected });
}

fn concat_all(parts: &[&str]) -> String {
    parts.concat()
}

#[test]
fn sheet_without_rows_is_shown_as_code() {
    assert_eq!(
        parse_cheatsh("# Only a heading\n"),
        PreviewContent::Code { lang: "text".to_string(), content: "# Only a heading".to_string() }
    );
    assert_eq!(preview(None), PreviewContent::Metadata { items: vec![] });
    assert_eq!(preview(Some("# h\n")), parse_cheatsh("# h\n"));
}

#[test]
fn live_row_has_the_id_of_the_exact_match() {
    let live = query("tar", "tar -x").unwrap();
    let rows = search("tar", true, Some("tar\ntarball".to_string()));
    assert_eq!(live.id, rows[0].id);
    assert_eq!(live.id, search("tar", false, None)[0].id);
}

#[test]
fn cached_list_is_not_fetched_again() {
    assert_eq!(list_url(false), Some("https://cheat.sh/:list".to_string()));
    assert_eq!(list_url(true), None);
    let writes = list_cache("tar\n");
    assert_eq!(writes.last(), Some(&("cached".to_string(), "1".to_string())));
    assert_eq!(list_cache(""), vec![("cached".to_string(), "1".to_string())]);
}

#[test]
fn lowered_terms_are_taken_as_they_are() {
    let bucket = || Some("tar\ntail".to_string());
    let ids = |rows: Vec<portunus_extensions::host::ExtensionResult>| -> Vec<String> {
        rows.into_iter().map(|r| r.id).collect()
    };
    assert_eq!(ids(search_lowered("ta", true, bucket())), vec!["tar", "tail"]);
    assert!(search_lowered("TA", true, bucket()).is_empty());
    assert_eq!(ids(search("TA", true, bucket())), vec!["tar", "tail"]);
    assert_eq!(search_lowered("x", false, None)[0].badge.as_deref(), Some("uncached"));
    assert!(search_lowered("", true, bucket()).is_empty());
    assert_eq!(query_url_lowered("tar"), Some("https://cheat.sh/tar?T".to_string()));
    assert_eq!(query_url_lowered(""), None);
    assert_eq!(query_lowered("tar", "# tar\ntar -x\n").unwrap().subtitle.as_deref(), Some("tar -x"));
    assert_eq!(query_lowered("tar", "Unknown topic."), None);
    assert_eq!(query_lowered("", "x"), None);
}
