use tineplayer::readings::{offset_label, scale_label, version_status, episode_code, season_label, volume_label, MAX_OFFSET_MS, READING_CHARS};

/// A shift in milliseconds as the settings screen holds it, rounded to the
/// millisecond the way the reading is.
fn ms(value: f64) -> i64 {
    value.round() as i64
}

/// A level between nought and one, in whole per cent.
fn percent(level: f64) -> u64 {
    (level * 100.0).round() as u64
}

#[test]
fn a_shifted_output_reads_with_its_direction() {
    assert_eq!(offset_label(ms(150.0)), "+150ms");
    assert_eq!(offset_label(ms(-150.0)), "-150ms");
    assert_eq!(offset_label(MAX_OFFSET_MS), "+1000ms");
    assert_eq!(offset_label(-MAX_OFFSET_MS), "-1000ms");
}

#[test]
fn an_unshifted_output_reads_without_a_sign() {
    assert_eq!(offset_label(ms(0.0)), "0ms");
    assert_eq!(offset_label(ms(-0.0)), "0ms");
    assert_eq!(offset_label(ms(-0.4)), "0ms");
    assert_eq!(offset_label(ms(0.4)), "0ms");
}

#[test]
fn a_reading_is_rounded_to_the_millisecond() {
    assert_eq!(offset_label(ms(149.6)), "+150ms");
    assert_eq!(offset_label(ms(-149.6)), "-150ms");
}

#[test]
fn every_reading_fits_the_space_kept_for_it() {
    let longest = [
        offset_label(-MAX_OFFSET_MS),
        offset_label(MAX_OFFSET_MS),
        volume_label(percent(1.0), false),
        volume_label(percent(0.0), true),
    ];
    for reading in longest {
        assert!(
            reading.chars().count() <= READING_CHARS as usize,
            "{reading:?} is wider than the space kept for it"
        );
    }
}

#[test]
fn a_silenced_output_says_so_whatever_its_level() {
    assert_eq!(volume_label(percent(0.75), true), "Muted");
    assert_eq!(volume_label(percent(0.0), true), "Muted");
    assert_eq!(volume_label(percent(0.75), false), "75%");
    assert_eq!(volume_label(percent(0.0), false), "0%");
    assert_eq!(volume_label(percent(1.0), false), "100%");
}

#[test]
fn a_size_reads_without_trailing_noughts() {
    assert_eq!(scale_label(100), "1x");
    assert_eq!(scale_label(150), "1.5x");
    assert_eq!(scale_label(33), "0.33x");
    assert_eq!(scale_label(300), "3x");
    assert_eq!(scale_label(105), "1.05x");
}

#[test]
fn the_version_row_says_what_it_knows() {
    assert_eq!(version_status(false, Some("v1.4.0")), "");
    assert_eq!(version_status(true, Some("v1.4.0")), "Update available: v1.4.0");
    assert_eq!(version_status(true, Some("1.4")), "Update available: v1.4");
    assert_eq!(version_status(true, Some("Vv2.0")), "Update available: v2.0");
    assert_eq!(version_status(true, None), "Up to date");
}

#[test]
fn an_episode_is_coded_with_two_digits_each() {
    assert_eq!(episode_code(2, 5), "S02E05");
    assert_eq!(episode_code(12, 105), "S12E105");
}

#[test]
fn a_season_is_named_by_the_library_before_its_number() {
    assert_eq!(season_label("Specials", Some((0, 3))), "Specials");
    assert_eq!(season_label("", Some((2, 5))), "Season 2");
    assert_eq!(season_label("", None), "");
}
