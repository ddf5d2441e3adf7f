use tineplayer::tracks::{kodi_item_fits, nth_meeting, playback_audio, starting_tracks, AudioSource, Criterion, Track, Want};

fn track(index: u32, described: bool, known: bool) -> Track {
    Track { index, described, known }
}

fn want(description: bool, matching: Option<Vec<bool>>, count: usize) -> Want {
    match matching {
        Some(matching) => Want { description, language: true, matching },
        None => Want { description, language: false, matching: vec![false; count] },
    }
}

#[test]
fn with_nothing_asked_the_outputs_take_the_first_two_plain_tracks() {
    let tracks = [track(1, true, true), track(2, false, true), track(3, false, true)];
    let chosen = starting_tracks(&tracks, &want(false, None, 3), &want(false, None, 3), None, true);
    assert_eq!(chosen, (Some(2), Some(3)));
}

#[test]
fn a_language_picks_its_first_plain_track() {
    let tracks = [track(1, false, true), track(2, true, true), track(3, false, true)];
    let french = Some(vec![false, true, true]);
    let chosen = starting_tracks(&tracks, &want(false, french, 3), &want(false, None, 3), None, true);
    assert_eq!(chosen, (Some(3), Some(3)));
}

#[test]
fn description_is_in_the_language_asked_or_unstated() {
    let tracks = [track(1, false, true), track(2, true, true), track(3, true, false)];
    // Asked in a language the tagged description is not in: the untagged one.
    let german = Some(vec![false, false, false]);
    let chosen = starting_tracks(&tracks, &want(true, german, 3), &want(false, None, 3), None, false);
    assert_eq!(chosen, (Some(3), None));
    // In the language asked for.
    let english = Some(vec![true, true, false]);
    let chosen = starting_tracks(&tracks, &want(true, english, 3), &want(false, None, 3), None, false);
    assert_eq!(chosen.0, Some(2));
    // No language named: the first described track.
    let chosen = starting_tracks(&tracks, &want(true, None, 3), &want(false, None, 3), None, false);
    assert_eq!(chosen.0, Some(2));
}

#[test]
fn description_alone_is_still_played() {
    let tracks = [track(4, true, true)];
    let chosen = starting_tracks(&tracks, &want(false, None, 1), &want(false, None, 1), None, true);
    assert_eq!(chosen, (Some(4), None));
}

#[test]
fn a_saved_pair_stands_unless_the_file_lost_it() {
    let tracks = [track(1, false, true), track(2, false, true)];
    let chosen = starting_tracks(&tracks, &want(false, None, 2), &want(false, None, 2), Some((None, Some(1))), true);
    assert_eq!(chosen, (None, Some(1)));
    let chosen = starting_tracks(&tracks, &want(false, None, 2), &want(false, None, 2), Some((Some(9), Some(2))), false);
    assert_eq!(chosen, (None, None));
}

#[test]
fn searches_count_along_the_tracks_they_want() {
    let tracks = [track(1, true, true), track(2, false, true), track(3, false, false)];
    let matching = [false, false, true];
    assert_eq!(nth_meeting(&tracks, &matching, Criterion::Pool(true), 1), Some(3));
    assert_eq!(nth_meeting(&tracks, &matching, Criterion::Pool(false), 0), Some(1));
    assert_eq!(nth_meeting(&tracks, &matching, Criterion::PoolMatching(true), 0), Some(3));
    assert_eq!(nth_meeting(&tracks, &matching, Criterion::DescribedUnknown, 0), None);
    assert_eq!(nth_meeting(&tracks, &matching, Criterion::Pool(true), 2), None);
}

#[test]
fn a_file_wins_and_no_device_plays_nothing() {
    let audio = playback_audio(true, Some(1), Some("a.mka"), Some(2), None::<&str>);
    assert!(matches!(audio.primary, Some(AudioSource::File("a.mka"))));
    assert!(matches!(audio.secondary, Some(AudioSource::Track(2))));
    assert_eq!(audio.secondary_track, Some(2));
    let audio = playback_audio(false, None, None, Some(2), Some("b.mka"));
    assert!(audio.primary.is_none());
    assert!(audio.secondary.is_none());
    assert_eq!(audio.secondary_track, None);
}

#[test]
fn kodi_lengths_must_agree_within_five_seconds() {
    assert!(kodi_item_fits(100, 104_000_000_000));
    assert!(kodi_item_fits(100, 95_500_000_000));
    assert!(!kodi_item_fits(100, 106_000_000_000));
    assert!(!kodi_item_fits(100, 94_000_000_000));
    assert!(kodi_item_fits(0, 500_000_000_000));
    assert!(kodi_item_fits(100, 0));
}
