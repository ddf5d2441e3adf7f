use tineplayer::choices::{
    device_choices, font_choices, handover, handover_choices, interface_language_choices, kind_choices,
    language_choices, opening_row, pick_device, pick_handover, pick_interface_language, pick_kind, pick_listed, pick_subtitle,
    pick_subtitle_language, pick_track, position_of, subtitle_choices, subtitle_language_choices,
    subtitle_language_current, track_choices, AudioFile, Choices, DevicePick, SubtitlePick, TrackPick,
};

fn strings(items: &[&str]) -> Vec<String> {
    items.iter().map(|s| s.to_string()).collect()
}

fn rows(choices: &Choices) -> Vec<(String, Option<usize>)> {
    choices.entries.clone()
}

fn row(text: &str, choice: Option<usize>) -> (String, Option<usize>) {
    (text.to_string(), choice)
}

#[test]
fn a_soundtrack_chooser_lists_tracks_then_files_then_browse() {
    let tracks = strings(&["English", "Commentary"]);
    let found = strings(&["film.dub.mka"]);
    let choices = track_choices(&tracks, &[1, 2], Some(2), &found, AudioFile::Absent);
    assert_eq!(
        rows(&choices),
        vec![
            row("None", None),
            row("English", Some(0)),
            row("Commentary", Some(1)),
            row("film.dub.mka", Some(2)),
            row("Browse...", Some(3)),
        ]
    );
    assert_eq!(choices.current, Some(1));
    assert_eq!(
        choices.dividers,
        vec![(1, None), (3, Some("AUDIO FILES".to_string())), (4, None)]
    );
}

#[test]
fn a_file_in_force_is_what_the_chooser_opens_on() {
    let tracks = strings(&["English"]);
    let found = strings(&["a.mka", "b.mka"]);
    let beside = track_choices(&tracks, &[1], Some(1), &found, AudioFile::Beside(1));
    assert_eq!(beside.current, Some(2));
    let elsewhere = track_choices(&tracks, &[1], Some(1), &found, AudioFile::Elsewhere("far.mka".to_string()));
    assert_eq!(elsewhere.current, Some(3));
    assert_eq!(elsewhere.entries.last().unwrap(), &row("far.mka", Some(3)));
    let none = track_choices(&tracks, &[1], None, &[], AudioFile::Absent);
    assert_eq!(none.current, None);
    assert_eq!(none.dividers, vec![(1, None), (2, None)]);
}

#[test]
fn picking_a_soundtrack_row_does_what_it_says() {
    let streams = [1u32, 2];
    assert_eq!(pick_track(None, &streams, 1), TrackPick::UseTrack(None));
    assert_eq!(pick_track(Some(1), &streams, 1), TrackPick::UseTrack(Some(2)));
    assert_eq!(pick_track(Some(2), &streams, 1), TrackPick::UseFound(0));
    assert_eq!(pick_track(Some(3), &streams, 1), TrackPick::Browse);
    assert_eq!(pick_track(Some(9), &streams, 1), TrackPick::Nothing);
}

#[test]
fn only_the_secondary_output_can_be_switched_off() {
    let devices = strings(&["Speakers", "Headphones"]);
    let primary = device_choices(false, &devices, &Some("Headphones".to_string()), true);
    assert_eq!(rows(&primary), vec![row("Speakers", Some(0)), row("Headphones", Some(1))]);
    assert_eq!(primary.current, Some(1));
    assert!(primary.dividers.is_empty());
    let secondary = device_choices(true, &devices, &None, true);
    assert_eq!(secondary.entries[0], row("None", None));
    assert_eq!(secondary.current, None);
    assert_eq!(secondary.dividers, vec![(1, None)]);

    assert!(matches!(pick_device(false, None, &devices), DevicePick::Unchanged));
    assert!(matches!(pick_device(true, None, &devices), DevicePick::SwitchOff));
    assert!(matches!(pick_device(true, Some(7), &devices), DevicePick::SwitchOff));
    match pick_device(false, Some(1), &devices) {
        DevicePick::Use(name) => assert_eq!(name, "Headphones"),
        _ => panic!("a device row did not choose its device"),
    }
}

#[test]
fn a_device_list_still_being_searched_says_so() {
    let searching = device_choices(false, &[], &None, false);
    assert_eq!(rows(&searching), vec![row("Searching for outputs...", None)]);
    let nothing = device_choices(false, &[], &None, true);
    assert!(nothing.entries.is_empty());
}

#[test]
fn the_subtitle_language_round_trips() {
    let places = strings(&["primary", "secondary"]);
    let labels = strings(&["Follow primary", "Follow secondary"]);
    let codes = strings(&["en", "fr", "de"]);
    let names = strings(&["English", "French", "German"]);
    let order = [0usize, 2, 1];
    let choices = subtitle_language_choices(&labels, &places, &names, &codes, &order, &"de".to_string());
    assert_eq!(
        rows(&choices),
        vec![
            row("Follow primary", Some(0)),
            row("Follow secondary", Some(1)),
            row("English", Some(2)),
            row("German", Some(4)),
            row("French", Some(3)),
        ]
    );
    assert_eq!(choices.current, Some(4));
    assert_eq!(choices.dividers, vec![(2, None)]);
    for setting in ["primary", "secondary", "en", "fr", "de"] {
        let at = subtitle_language_current(&places, &codes, &setting.to_string());
        assert_eq!(pick_subtitle_language(at, &places, &codes).as_deref(), Some(setting));
    }
    assert_eq!(subtitle_language_current(&places, &codes, &"xx".to_string()), None);
    assert_eq!(pick_subtitle_language(None, &places, &codes), None);
}

#[test]
fn a_language_chooser_leads_with_the_unset_row() {
    let codes = strings(&["en", "fr"]);
    let names = strings(&["English", "French"]);
    let first = language_choices(false, &names, &codes, &[1, 0], &Some("fr".to_string()));
    assert_eq!(rows(&first), vec![row("First track", None), row("French", Some(1)), row("English", Some(0))]);
    assert_eq!(first.current, Some(1));
    let second = language_choices(true, &names, &codes, &[0, 1], &None);
    assert_eq!(second.entries[0], row("Second track", None));
    assert_eq!(second.current, None);
    assert_eq!(pick_listed(Some(1), &codes).as_deref(), Some("fr"));
    assert_eq!(pick_listed(Some(5), &codes), None);
    assert_eq!(position_of(&codes, &"fr".to_string()), Some(1));
}

#[test]
fn kinds_fonts_and_interface_languages() {
    let kinds = strings(&["none", "forced", "full"]);
    let labels = strings(&["None", "Forced Only", "Full"]);
    let chooser = kind_choices(&labels, &kinds, &"forced".to_string());
    assert_eq!(chooser.current, Some(1));
    assert_eq!(chooser.dividers, vec![(1, None)]);
    assert_eq!(pick_kind(Some(2), &kinds).as_deref(), Some("full"));

    let fonts = strings(&["Sans Bold", "Sans", "Serif Bold", "Serif", "Monospace Bold"]);
    let chooser = font_choices(&fonts, &"Serif".to_string());
    assert_eq!(chooser.current, Some(3));
    assert_eq!(chooser.entries.len(), 5);

    let offered = strings(&["Use the system language", "English", "Deutsch"]);
    let codes = vec![None, Some("en".to_string()), Some("de".to_string())];
    assert_eq!(interface_language_choices(&offered, &codes, &None).current, Some(0));
    assert_eq!(interface_language_choices(&offered, &codes, &Some("de".to_string())).current, Some(2));
    assert_eq!(interface_language_choices(&offered, &codes, &Some("xx".to_string())).current, None);
    assert_eq!(pick_interface_language(Some(2), &codes).as_deref(), Some("de"));
    assert_eq!(pick_interface_language(Some(0), &codes), None);
}

#[test]
fn the_handover_is_one_list() {
    assert_eq!(handover(), strings(&["Show Track Selection Menu", "Play Video Immediately"]));
    let chooser = handover_choices(true);
    assert_eq!(chooser.current, Some(1));
    assert_eq!(chooser.entries[0], row("Show Track Selection Menu", Some(0)));
    assert_eq!(pick_handover(Some(1)), Some(true));
    assert_eq!(pick_handover(Some(0)), Some(false));
    assert_eq!(pick_handover(None), None);
}

#[test]
fn the_subtitle_chooser_ends_by_browsing() {
    let labels = strings(&["English", "French (Forced)"]);
    let chooser = subtitle_choices(&labels, Some(1));
    assert_eq!(
        rows(&chooser),
        vec![row("None", None), row("English", Some(0)), row("French (Forced)", Some(1)), row("Browse...", Some(2))]
    );
    assert_eq!(chooser.dividers, vec![(1, None), (3, None)]);
    assert_eq!(pick_subtitle(Some(2), 2), SubtitlePick::Browse);
    assert_eq!(pick_subtitle(Some(0), 2), SubtitlePick::Show(Some(0)));
    assert_eq!(pick_subtitle(Some(5), 2), SubtitlePick::Show(None));
    assert_eq!(pick_subtitle(None, 2), SubtitlePick::Show(None));
}

#[test]
fn a_chooser_opens_on_what_is_in_force() {
    let devices = strings(&["Speakers", "Headphones"]);
    let chooser = device_choices(true, &devices, &Some("Headphones".to_string()), true);
    assert_eq!(opening_row(&chooser), 2);
    let unset = device_choices(true, &devices, &None, true);
    assert_eq!(opening_row(&unset), 0);
    let gone = device_choices(false, &devices, &Some("HDMI".to_string()), true);
    assert_eq!(opening_row(&gone), 0);
}

/// A chooser opens on a row it holds, or on none; no two rows stand for the
/// same choice; and every group begins within the list.
fn assert_sound(choices: &Choices) {
    assert!(choices.current.is_none() || choices.entries.iter().any(|(_, choice)| *choice == choices.current));
    let picks: Vec<usize> = choices.entries.iter().filter_map(|(_, choice)| *choice).collect();
    for (i, a) in picks.iter().enumerate() {
        assert!(!picks[i + 1..].contains(a), "{a} stands twice");
    }
    assert!(choices.dividers.iter().all(|(at, _)| *at <= choices.entries.len()));
}

#[test]
fn every_chooser_is_sound() {
    let names = strings(&["English", "French", "German"]);
    let codes = strings(&["en", "fr", "de"]);
    let places = strings(&["primary", "secondary"]);
    let labels = strings(&["Follow primary", "Follow secondary"]);
    let found = strings(&["a.mka"]);
    assert_sound(&track_choices(&names, &[4, 5, 6], Some(5), &found, AudioFile::Absent));
    assert_sound(&track_choices(&names, &[4, 5, 6], Some(9), &found, AudioFile::Beside(0)));
    assert_sound(&device_choices(true, &names, &Some("French".to_string()), false));
    assert_sound(&subtitle_choices(&names, Some(3)));
    assert_sound(&language_choices(false, &names, &codes, &[2, 0, 1], &Some("de".to_string())));
    assert_sound(&subtitle_language_choices(&labels, &places, &names, &codes, &[1, 2, 0], &"fr".to_string()));
    assert_sound(&kind_choices(&names, &codes, &"fr".to_string()));
    assert_sound(&font_choices(&names, &"German".to_string()));
    assert_sound(&interface_language_choices(&names, &[None, Some("fr".to_string()), None], &None));
    assert_sound(&handover_choices(false));
}
