use tineplayer::input::{key_pressed, key_released_ends_scrub, pad_pressed, Key, KeyFacts, PadAction, PadFacts, Step};
use tineplayer::strip::MediaCommand;

fn facts(playing: bool) -> KeyFacts {
    KeyFacts { playing, shift: false, command: false, external: false, choosing: true, settings: false }
}

fn pad(playing: bool) -> PadFacts {
    PadFacts { shortcuts: false, playing, settings: false, on_buttons: false }
}

#[test]
fn space_is_the_rows_in_the_menus_and_pause_in_a_film() {
    assert_eq!(key_pressed(Key::Space, facts(true)), Step::TogglePause);
    assert_eq!(key_pressed(Key::Space, facts(false)), Step::Pass);
}

#[test]
fn f1_and_escape_work_everywhere() {
    for playing in [false, true] {
        assert_eq!(key_pressed(Key::F1, facts(playing)), Step::ToggleShortcuts);
        assert_eq!(key_pressed(Key::Escape, facts(playing)), Step::BackOut);
        assert_eq!(pad_pressed(PadAction::Back, pad(playing)), Step::BackOut);
    }
}

#[test]
fn arrows_seek_in_a_film_and_move_in_the_menus() {
    assert_eq!(key_pressed(Key::Left, facts(true)), Step::Seek(-1));
    assert_eq!(key_pressed(Key::Right, facts(false)), Step::Sideways(1));
    let settings = KeyFacts { settings: true, ..facts(false) };
    assert_eq!(key_pressed(Key::Left, settings), Step::SliderOnly(-1));
    assert_eq!(key_pressed(Key::Up, facts(true)), Step::EnterControls);
    assert_eq!(key_pressed(Key::Up, facts(false)), Step::Pass);
    assert_eq!(key_pressed(Key::PageDown, facts(false)), Step::MoveSelection(8));
    assert_eq!(key_pressed(Key::PageUp, facts(true)), Step::MoveSelection(-8));
}

#[test]
fn letters_belong_to_type_ahead_outside_a_film() {
    assert_eq!(key_pressed(Key::M, facts(true)), Step::ToggleMute);
    assert_eq!(key_pressed(Key::M, facts(false)), Step::Pass);
    assert_eq!(key_pressed(Key::A, facts(true)), Step::CycleAudio(false));
    assert_eq!(key_pressed(Key::S, facts(true)), Step::CycleAudio(true));
    assert_eq!(key_pressed(Key::P, facts(false)), Step::PlayFromPage);
    assert_eq!(key_pressed(Key::Other, facts(true)), Step::WakeControls);
    assert_eq!(key_pressed(Key::Other, facts(false)), Step::Pass);
}

#[test]
fn shortcuts_with_the_command_key() {
    let command = KeyFacts { command: true, ..facts(false) };
    assert_eq!(key_pressed(Key::L, command), Step::PasteUri);
    assert_eq!(key_pressed(Key::O, command), Step::BrowseForFile);
    assert_eq!(key_pressed(Key::C, command), Step::Copy);
    let launched = KeyFacts { external: true, ..command };
    assert_eq!(key_pressed(Key::L, launched), Step::Pass);
    let elsewhere = KeyFacts { choosing: false, ..command };
    assert_eq!(key_pressed(Key::O, elsewhere), Step::Pass);
    // During a film the letter is the subtitles first.
    let playing = KeyFacts { command: true, ..facts(true) };
    assert_eq!(key_pressed(Key::C, playing), Step::ToggleSubtitles);
}

#[test]
fn tab_and_shift_tab() {
    assert_eq!(key_pressed(Key::Tab, facts(false)), Step::FocusStop(1));
    let shifted = KeyFacts { shift: true, ..facts(false) };
    assert_eq!(key_pressed(Key::Tab, shifted), Step::FocusStop(-1));
    assert_eq!(key_pressed(Key::LeftTab, facts(false)), Step::FocusStop(-1));
}

#[test]
fn media_keys_are_only_taken_during_a_film() {
    assert_eq!(key_pressed(Key::AudioNext, facts(true)), Step::Media(MediaCommand::Next));
    assert_eq!(key_pressed(Key::AudioRewind, facts(true)), Step::Media(MediaCommand::Previous));
    assert_eq!(key_pressed(Key::AudioPlay, facts(false)), Step::Pass);
    assert!(key_released_ends_scrub(Key::Left));
    assert!(!key_released_ends_scrub(Key::Up));
}

#[test]
fn the_gamepad_does_what_the_keys_do() {
    assert_eq!(pad_pressed(PadAction::Up, pad(false)), Step::MoveSelection(-1));
    assert_eq!(pad_pressed(PadAction::Up, pad(true)), Step::EnterControls);
    let reading = PadFacts { shortcuts: true, ..pad(true) };
    assert_eq!(pad_pressed(PadAction::Down, reading), Step::ScrollShortcuts(1));
    assert_eq!(pad_pressed(PadAction::Activate, pad(true)), Step::TogglePause);
    let held = PadFacts { on_buttons: true, ..pad(true) };
    assert_eq!(pad_pressed(PadAction::Activate, held), Step::PressActivate);
    assert_eq!(pad_pressed(PadAction::PlayPause, pad(false)), Step::PlayFromPage);
    assert_eq!(pad_pressed(PadAction::Left, pad(false)), Step::SidewaysOrFocus(-1));
    assert_eq!(pad_pressed(PadAction::Subtitles, pad(false)), Step::Nothing);
}
