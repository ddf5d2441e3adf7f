use tineplayer::align::{reference_row, result_page, Decision};
use tineplayer::languages::{audio_entry, distinct_in_order, file_facts, name_width, subtitle_tag};

fn strings(items: &[&str]) -> Vec<String> {
    items.iter().map(|s| s.to_string()).collect()
}

#[test]
fn each_language_is_named_once_in_the_order_met() {
    let names = strings(&["English", "Français", "English", "Deutsch", "Français"]);
    assert_eq!(distinct_in_order(&names), strings(&["English", "Français", "Deutsch"]));
    assert!(distinct_in_order(&[]).is_empty());
}

#[test]
fn a_described_track_says_so() {
    assert_eq!(audio_entry("English", true), "English (Described)");
    assert_eq!(audio_entry("English", false), "English");
}

#[test]
fn a_subtitle_label_begins_with_its_tag() {
    assert_eq!(subtitle_tag("eng"), "eng");
    assert_eq!(subtitle_tag("eng - Forced"), "eng");
    assert_eq!(subtitle_tag("en.hi"), "en");
    assert_eq!(subtitle_tag("pt.br - SDH"), "pt");
    assert_eq!(subtitle_tag("a-b"), "a-b");
    assert_eq!(subtitle_tag(""), "");
}

#[test]
fn only_known_facts_are_stated() {
    let facts = vec![
        ("Resolution".to_string(), Some("1920x1080".to_string())),
        ("Codec".to_string(), None),
        ("Container".to_string(), Some("Matroska".to_string())),
    ];
    assert_eq!(
        file_facts(facts),
        vec![
            ("Resolution".to_string(), "1920x1080".to_string()),
            ("Container".to_string(), "Matroska".to_string()),
        ]
    );
}

#[test]
fn the_alignment_result_says_which_way() {
    let late = result_page(Decision::Offset { lag_frames: 25 });
    assert_eq!(late.hint, "The audio file runs 250ms late, and has been adjusted to sync with the video.");
    assert!(!late.retry);
    assert_eq!(late.done, "Finish");
    let early = result_page(Decision::Offset { lag_frames: -3 });
    assert_eq!(early.hint, "The audio file runs 30ms early, and has been adjusted to sync with the video.");
    let level = result_page(Decision::Offset { lag_frames: 0 });
    assert_eq!(level.hint, "The audio file is already in sync with the video, no adjustment needed.");
    let stretched = result_page(Decision::RateMismatch { first_lag: 1, last_lag: 90 });
    assert_eq!(
        stretched.hint,
        "The audio file runs at a different speed than the video and cannot be automatically adjusted."
    );
    assert!(stretched.retry);
    assert_eq!(stretched.done, "Cancel");
    let lost = result_page(Decision::Unsure);
    assert_eq!(lost.hint, "The audio file could not be matched with the video.");
}

#[test]
fn the_reference_is_the_first_track_that_is_not_a_description() {
    assert_eq!(reference_row(&[true, false, false]), 1);
    assert_eq!(reference_row(&[false]), 0);
    assert_eq!(reference_row(&[true, true]), 0);
    assert_eq!(reference_row(&[]), 0);
}

#[test]
fn the_fact_names_take_a_column_of_twelve_to_twenty() {
    assert_eq!(name_width(&[]), 12);
    assert_eq!(name_width(&strings(&["Codec", "Bitrate"])), 12);
    assert_eq!(name_width(&strings(&["Codec", "A rather long name"])), 19);
    assert_eq!(name_width(&strings(&["A name far too long to be shown whole"])), 20);
}
