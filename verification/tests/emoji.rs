use portunus_extensions::emoji::{
    activate, all_emoji, entry, lookup, preview, search, search_lowered, toned_emoji,
};
use portunus_extensions::host::{
    ActivateEffect, IconAsset, PreviewContent, Relevance, ResultIcon, ToastLevel,
};

#[test]
fn browsing_lists_the_whole_set_in_order() {
    let rows = search("   ");
    assert_eq!(rows.len(), 15);
    assert_eq!(rows[0].title, "\u{1F604} grinning face");
    assert_eq!(rows[0].relevance, Relevance::Fixed(80));
    assert_eq!(rows[14].id, "crab");
    assert_eq!(rows[14].relevance, Relevance::Fixed(66));
}

#[test]
fn name_hits_rank_above_keyword_hits() {
    let rows = search("TEARS");
    assert_eq!(rows.len(), 2);
    assert_eq!(rows[0].id, "tears of joy");
    assert_eq!(rows[0].relevance, Relevance::Fixed(90));
    assert_eq!(rows[1].id, "loudly crying face");
    assert_eq!(rows[1].relevance, Relevance::Fixed(60));
    let face = search("face");
    assert_eq!(face[0].relevance, Relevance::Fixed(81));
    assert_eq!(face[1].id, "smiling face with sunglasses");
    assert_eq!(face[1].relevance, Relevance::Fixed(82));
}

#[test]
fn lowercase_is_unicode() {
    assert!(search("\u{130}").is_empty());
    assert_eq!(search("RUSTLANG")[0].id, "crab");
}

#[test]
fn no_hit_gives_no_rows() {
    assert!(search("zzz").is_empty());
}

#[test]
fn rows_have_actions_and_icon() {
    let row = &search("crab")[0];
    assert_eq!(row.actions.len(), 2);
    assert_eq!(row.actions[0].id, "copy");
    assert_eq!(row.actions[1].hint.as_deref(), Some("as :shortcode: text"));
    assert_eq!(row.icon, Some(ResultIcon::Asset(IconAsset::Emoji)));
    assert_eq!(row.subtitle.as_deref(), Some("rust rustlang"));
    assert_eq!(row.badge, None);
}

#[test]
fn every_row_leads_to_its_emoji() {
    for e in all_emoji() {
        assert_eq!(lookup(e.name), Some(e.emoji));
        assert_eq!(entry(e.name).unwrap().keywords, e.keywords);
        assert_eq!(
            activate(e.name, None, &None),
            vec![ActivateEffect::CopyText { text: e.emoji.to_string() }]
        );
    }
}

#[test]
fn tones_apply_to_hands_only() {
    let dark = Some("dark".to_string());
    assert_eq!(toned_emoji("thumbs up", &dark), "\u{1F44D}\u{1F3FF}");
    assert_eq!(toned_emoji("folded hands", &Some("light".to_string())), "\u{1F64F}\u{1F3FB}");
    assert_eq!(toned_emoji("folded hands", &Some("medium".to_string())), "\u{1F64F}\u{1F3FD}");
    assert_eq!(toned_emoji("thumbs up", &Some("default".to_string())), "\u{1F44D}");
    assert_eq!(toned_emoji("thumbs up", &None), "\u{1F44D}");
    assert_eq!(toned_emoji("fire", &dark), "\u{1F525}");
    assert_eq!(toned_emoji("unknown", &dark), "");
}

#[test]
fn copy_name_gives_a_shortcode() {
    assert_eq!(
        activate("red heart", Some("copy-name"), &None),
        vec![
            ActivateEffect::CopyText { text: ":red_heart:".to_string() },
            ActivateEffect::ShowToast {
                message: "Copied :red heart:".to_string(),
                level: ToastLevel::Success
            },
        ]
    );
}

#[test]
fn preview_shows_the_entry() {
    match preview("skull") {
        PreviewContent::Metadata { items } => {
            assert_eq!(items.len(), 4);
            assert_eq!(items[0].value, "\u{1F480}");
            assert_eq!(items[2].value, "dead death rip");
            assert_eq!(items[3].value, "copy to clipboard");
        }
        _ => panic!("not metadata"),
    }
    assert_eq!(preview("nothing"), PreviewContent::Metadata { items: vec![] });
}

#[test]
fn lowered_term_finds_what_the_typed_one_does() {
    assert_eq!(search_lowered("heart"), search(" HEART "));
    assert_eq!(search_lowered("heart").len(), 1);
    assert_eq!(search_lowered("heart")[0].relevance, Relevance::Fixed(86));
    assert!(search_lowered("HEART").is_empty());
    assert_eq!(search_lowered(""), search(""));
}
