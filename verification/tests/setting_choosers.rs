use tineplayer::choices::{add_subtitle_file, audio_file_of, kodi_type_choices, AudioFile, Choices};
use tineplayer::chooser::{chooser_entries, ChooserState, KodiInstall};
use tineplayer::rows::Setting;
use tineplayer::session::{Output, Session};

fn strings(items: &[&str]) -> Vec<String> {
    items.iter().map(|s| s.to_string()).collect()
}

fn row(text: &str, choice: Option<usize>) -> (String, Option<usize>) {
    (text.to_string(), choice)
}

fn output(sink: Option<&str>, track: Option<u32>, file: Option<&str>) -> Output {
    Output { sink: sink.map(|s| s.to_string()), track, file: file.map(|f| f.to_string()), baseline_ms: 0 }
}

fn state() -> ChooserState {
    ChooserState {
        session: Session {
            primary: output(Some("Speakers"), Some(2), None),
            secondary: output(Some("Headphones"), Some(1), Some("/films/film.ad.mka")),
        },
        devices: strings(&["Speakers", "Headphones"]),
        scanned: true,
        subtitles: strings(&["English", "French"]),
        subtitle: Some(1),
        tracks: strings(&["English", "Commentary"]),
        streams: vec![1, 2],
        found: strings(&["/films/film.dub.mka", "/films/film.ad.mka"]),
        language_names: strings(&["English", "French", "German"]),
        language_codes: strings(&["en", "fr", "de"]),
        language_order: vec![0, 2, 1],
        primary_language: Some("de".to_string()),
        secondary_language: None,
        kind_labels: strings(&["None", "Forced only", "All"]),
        kinds: strings(&["none", "forced", "all"]),
        subtitle_kind: "forced".to_string(),
        place_labels: strings(&["Follow primary", "Follow secondary"]),
        places: strings(&["primary", "secondary"]),
        subtitle_language: "fr".to_string(),
        fonts: strings(&["Sans", "Serif"]),
        subtitle_font: "Serif".to_string(),
        interface_labels: strings(&["Use the system language", "Deutsch"]),
        interface_codes: vec![None, Some("de".to_string())],
        interface_language: Some("de".to_string()),
        kodi: vec![KodiInstall {
            types: strings(&["Not used", "Video player", "Remove"]),
            state: 1,
            configured: true,
            plays: true,
        }],
    }
}

fn assert_sound(choices: &Choices) {
    assert!(choices.current.is_none() || choices.entries.iter().any(|(_, choice)| *choice == choices.current));
    let picks: Vec<usize> = choices.entries.iter().filter_map(|(_, choice)| *choice).collect();
    for (i, a) in picks.iter().enumerate() {
        assert!(!picks[i + 1..].contains(a), "{a} stands twice");
    }
    assert!(choices.dividers.iter().all(|(at, _)| *at <= choices.entries.len()));
}

#[test]
fn the_chooser_for_every_setting_is_sound() {
    let state = state();
    let settings = [
        Setting::PrimaryDevice,
        Setting::PrimaryTrack,
        Setting::SecondaryDevice,
        Setting::SecondaryTrack,
        Setting::Subtitles,
        Setting::PrimaryLanguage,
        Setting::SecondaryLanguage,
        Setting::SubtitleKind,
        Setting::SubtitleLanguage,
        Setting::SubtitleFont,
        Setting::InterfaceLanguage,
        Setting::KodiType(0),
        Setting::KodiType(3),
        Setting::KodiHandover(0),
        Setting::KodiHandover(3),
    ];
    for setting in settings {
        assert_sound(&chooser_entries(setting, &state));
    }
}

#[test]
fn a_file_beside_the_video_is_chosen_among_the_found_files() {
    let choices = chooser_entries(Setting::SecondaryTrack, &state());
    assert_eq!(
        choices.entries,
        vec![
            row("None", None),
            row("English", Some(0)),
            row("Commentary", Some(1)),
            row("/films/film.dub.mka", Some(2)),
            row("/films/film.ad.mka", Some(3)),
            row("Browse...", Some(4)),
        ]
    );
    assert_eq!(choices.current, Some(3));
}

#[test]
fn a_file_from_elsewhere_takes_the_last_row() {
    let mut state = state();
    state.session.secondary.file = Some("/elsewhere/other.mka".to_string());
    let choices = chooser_entries(Setting::SecondaryTrack, &state);
    assert_eq!(choices.entries.last(), Some(&row("/elsewhere/other.mka", Some(4))));
    assert_eq!(choices.current, Some(4));
}

#[test]
fn the_primary_track_chooser_opens_on_its_stream() {
    let choices = chooser_entries(Setting::PrimaryTrack, &state());
    assert_eq!(choices.current, Some(1));
    assert_eq!(choices.entries.last(), Some(&row("Browse...", Some(4))));
}

#[test]
fn the_device_choosers_open_on_their_own_outputs() {
    let state = state();
    let primary = chooser_entries(Setting::PrimaryDevice, &state);
    assert_eq!(primary.entries, vec![row("Speakers", Some(0)), row("Headphones", Some(1))]);
    assert_eq!(primary.current, Some(0));
    let secondary = chooser_entries(Setting::SecondaryDevice, &state);
    assert_eq!(secondary.entries[0], row("None", None));
    assert_eq!(secondary.current, Some(1));
    assert_eq!(secondary.dividers, vec![(1, None)]);
}

#[test]
fn the_language_choosers_follow_the_display_order() {
    let state = state();
    let primary = chooser_entries(Setting::PrimaryLanguage, &state);
    assert_eq!(
        primary.entries,
        vec![row("First track", None), row("English", Some(0)), row("German", Some(2)), row("French", Some(1))]
    );
    assert_eq!(primary.current, Some(2));
    let secondary = chooser_entries(Setting::SecondaryLanguage, &state);
    assert_eq!(secondary.entries[0], row("Second track", None));
    assert_eq!(secondary.current, None);
    let subtitle = chooser_entries(Setting::SubtitleLanguage, &state);
    assert_eq!(subtitle.entries.len(), 5);
    assert_eq!(subtitle.current, Some(3));
    assert_eq!(subtitle.dividers, vec![(2, None)]);
}

#[test]
fn the_listed_choosers_open_on_what_is_in_force() {
    let state = state();
    assert_eq!(chooser_entries(Setting::SubtitleKind, &state).current, Some(1));
    assert_eq!(chooser_entries(Setting::SubtitleFont, &state).current, Some(1));
    assert_eq!(chooser_entries(Setting::InterfaceLanguage, &state).current, Some(1));
    assert_eq!(chooser_entries(Setting::Subtitles, &state).current, Some(1));
}

#[test]
fn a_kodi_type_chooser_rules_off_removal_only_when_registered() {
    let state = state();
    let registered = chooser_entries(Setting::KodiType(0), &state);
    assert_eq!(
        registered.entries,
        vec![row("Not used", Some(0)), row("Video player", Some(1)), row("Remove", Some(2))]
    );
    assert_eq!(registered.current, Some(1));
    assert_eq!(registered.dividers, vec![(2, None)]);
    let fresh = kodi_type_choices(&strings(&["Not used", "Video player", "Music player"]), 0, false);
    assert!(fresh.dividers.is_empty());
    assert_eq!(fresh.current, Some(0));
}

#[test]
fn a_kodi_that_is_gone_offers_nothing() {
    let state = state();
    let gone = chooser_entries(Setting::KodiType(5), &state);
    assert!(gone.entries.is_empty());
    assert_eq!(gone.current, None);
    assert!(gone.dividers.is_empty());
    assert_eq!(chooser_entries(Setting::KodiHandover(5), &state).current, Some(0));
    assert_eq!(chooser_entries(Setting::KodiHandover(0), &state).current, Some(1));
}

#[test]
fn an_audio_file_is_told_apart_by_where_it_was_found() {
    let found = strings(&["/a.mka", "/b.mka", "/a.mka"]);
    assert!(matches!(audio_file_of(&None, &found), AudioFile::Absent));
    assert!(matches!(audio_file_of(&Some("/a.mka".to_string()), &found), AudioFile::Beside(0)));
    assert!(matches!(audio_file_of(&Some("/b.mka".to_string()), &found), AudioFile::Beside(1)));
    match audio_file_of(&Some("/c.mka".to_string()), &found) {
        AudioFile::Elsewhere(path) => assert_eq!(path, "/c.mka"),
        _ => panic!("a file not found beside the video is from elsewhere"),
    }
}

#[test]
fn a_subtitle_file_chosen_twice_is_listed_once() {
    let mut offered = strings(&["English", "/subs/film.fr.srt"]);
    assert_eq!(add_subtitle_file(&mut offered, "/subs/film.de.srt".to_string()), 2);
    assert_eq!(offered, strings(&["English", "/subs/film.fr.srt", "/subs/film.de.srt"]));
    assert_eq!(add_subtitle_file(&mut offered, "/subs/film.de.srt".to_string()), 2);
    assert_eq!(add_subtitle_file(&mut offered, "/subs/film.fr.srt".to_string()), 1);
    assert_eq!(offered.len(), 3);
}
