use tineplayer::browser::{crumbs, open_enabled, opening, row_step, type_ahead, Crumb, Entry, Errand, RowStep};
use tineplayer::server::{address_for, server_address, trim_text, wait_step, Answer, Wait, TRIES};

fn shown(level: usize) -> Crumb {
    Crumb { trimmed: false, level }
}

#[test]
fn a_short_path_shows_every_folder() {
    assert_eq!(crumbs(3), vec![shown(0), shown(1), shown(2)]);
    assert_eq!(crumbs(4), vec![shown(0), shown(1), shown(2), shown(3)]);
    assert!(crumbs(0).is_empty());
}

#[test]
fn a_deep_path_keeps_the_last_four_behind_an_ellipsis() {
    assert_eq!(
        crumbs(7),
        vec![Crumb { trimmed: true, level: 2 }, shown(3), shown(4), shown(5), shown(6)]
    );
}

fn labels(names: &[&str]) -> Vec<String> {
    names.iter().map(|name| name.to_string()).collect()
}

#[test]
fn typing_jumps_to_the_first_name_and_walks_on() {
    let names = labels(&["alien", "the birds", "the thing", "up"]);
    assert_eq!(type_ahead(&names, "t", false, None), Some(1));
    assert_eq!(type_ahead(&names, "t", true, Some(1)), Some(2));
    assert_eq!(type_ahead(&names, "t", true, Some(2)), Some(1));
    assert_eq!(type_ahead(&names, "u", true, Some(3)), Some(3));
    assert_eq!(type_ahead(&names, "z", false, None), None);
    assert_eq!(type_ahead(&[], "a", false, None), None);
}

#[test]
fn an_address_without_a_scheme_is_plain_http() {
    assert_eq!(server_address("  hoth:8096 "), "http://hoth:8096");
    assert_eq!(server_address("https://media.example.org"), "https://media.example.org");
    assert_eq!(address_for("jellyfin.local"), "http://jellyfin.local");
    assert_eq!(address_for("http:/x"), "http://http:/x");
}

#[test]
fn a_code_is_asked_about_for_five_minutes_at_most() {
    assert_eq!(wait_step(0, None, true), Wait::Ask(0));
    assert_eq!(wait_step(0, None, false), Wait::Abandon);
    assert_eq!(wait_step(3, Some(Answer::Waiting), true), Wait::Ask(3));
    assert_eq!(wait_step(3, Some(Answer::Approved), false), Wait::Paired);
    assert_eq!(wait_step(3, Some(Answer::Failed), true), Wait::Fail);
    assert_eq!(wait_step(TRIES, Some(Answer::Waiting), true), Wait::TooLate);
    assert_eq!(TRIES, 150);
}

#[test]
fn a_row_is_taken_for_what_the_browser_was_opened_to_find() {
    assert_eq!(row_step(Some(Entry::Folder), Errand::Subtitle, true), RowStep::OpenFolder);
    assert_eq!(row_step(Some(Entry::File), Errand::Subtitle, true), RowStep::UseSubtitle);
    assert_eq!(row_step(Some(Entry::File), Errand::Audio, true), RowStep::UseAudio);
    assert_eq!(row_step(Some(Entry::File), Errand::Video, true), RowStep::OpenVideo);
    assert_eq!(row_step(Some(Entry::Up), Errand::Video, true), RowStep::GoUp);
    assert_eq!(row_step(Some(Entry::Up), Errand::Video, false), RowStep::Nothing);
    assert_eq!(row_step(None, Errand::Video, true), RowStep::Nothing);
}

#[test]
fn the_browser_opens_on_the_folder_just_left() {
    assert_eq!(opening(&[false, false, true], &[false, true, true]), 2);
    assert_eq!(opening(&[false, false, false], &[false, true, true]), 1);
    assert_eq!(opening(&[false], &[false]), 0);
    assert_eq!(opening(&[], &[]), 0);
    assert!(open_enabled(&[false, true], Some(1)));
    assert!(!open_enabled(&[false, true], Some(0)));
    assert!(!open_enabled(&[false, true], Some(5)));
    assert!(!open_enabled(&[false, true], None));
}

#[test]
fn trimming_goes_by_unicode_white_space() {
    assert_eq!(server_address("\u{3000}\u{a0}jf.local:8096\u{2028}\n"), "http://jf.local:8096");
    assert_eq!(server_address("  "), "http://");
}

#[test]
fn trimming_agrees_with_the_standard_library() {
    let samples = [
        "", " ", "plain", "  both  ", "\tinner space kept\r\n", "\u{85}\u{1680}x\u{205f}", "\u{200b}zero width\u{200b}",
        "\u{2000}\u{200a}\u{202f}é\u{3000}", "\u{b}\u{c}a\u{d}",
    ];
    for sample in samples {
        assert_eq!(trim_text(sample), sample.trim(), "{sample:?}");
    }
}
