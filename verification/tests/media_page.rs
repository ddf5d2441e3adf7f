use tineplayer::page::{can_play, page_buttons, page_rows, PageButton, PageRow};
use tineplayer::rows::Role;

fn shape(rows: Vec<(Option<String>, PageRow, bool)>) -> Vec<(Option<&'static str>, PageRow, bool)> {
    rows.into_iter()
        .map(|(heading, row, enabled)| {
            let heading = heading.map(|h| match h.as_str() {
                "FIRST OUTPUT" => "FIRST OUTPUT",
                "SECOND OUTPUT" => "SECOND OUTPUT",
                "SUBTITLES" => "SUBTITLES",
                _ => "?",
            });
            (heading, row, enabled)
        })
        .collect()
}

#[test]
fn a_page_without_a_video_offers_only_the_devices() {
    assert_eq!(
        shape(page_rows(false, false, (false, false))),
        vec![
            (Some("FIRST OUTPUT"), PageRow::Device(Role::Primary), true),
            (None, PageRow::Track(Role::Primary), false),
            (Some("SECOND OUTPUT"), PageRow::Device(Role::Secondary), true),
            (None, PageRow::Track(Role::Secondary), false),
            (Some("SUBTITLES"), PageRow::Subtitles, false),
        ]
    );
}

#[test]
fn alignment_rows_appear_beside_their_files() {
    assert_eq!(
        shape(page_rows(true, true, (true, true))),
        vec![
            (Some("FIRST OUTPUT"), PageRow::Device(Role::Primary), true),
            (None, PageRow::Track(Role::Primary), true),
            (None, PageRow::Align(Role::Primary), true),
            (Some("SECOND OUTPUT"), PageRow::Device(Role::Secondary), true),
            (None, PageRow::Track(Role::Secondary), true),
            (None, PageRow::Align(Role::Secondary), true),
            (Some("SUBTITLES"), PageRow::Subtitles, true),
        ]
    );
    // No second device: its track cannot be chosen and it has nothing to align.
    let rows = shape(page_rows(true, false, (false, true)));
    assert_eq!(rows.len(), 5);
    assert_eq!(rows[3], (None, PageRow::Track(Role::Secondary), false));
}

#[test]
fn playing_needs_a_video_and_an_output() {
    assert!(can_play(true, true));
    assert!(!can_play(true, false));
    assert!(!can_play(false, true));
}

#[test]
fn the_buttons_along_the_top() {
    assert_eq!(
        page_buttons(true, false, true),
        vec![PageButton::Play, PageButton::Restart, PageButton::Open, PageButton::Settings, PageButton::Fullscreen, PageButton::Close]
    );
    assert_eq!(page_buttons(false, true, false), vec![PageButton::Play, PageButton::Settings, PageButton::Close]);
}
