use tineplayer::choices::{DevicePick, TrackPick};
use tineplayer::rows::Role;
use tineplayer::session::{offset_for, set_level, Level, Nav, Output, Session};

fn output(sink: &str, track: Option<u32>, file: Option<&str>, baseline_ms: i64) -> Output {
    Output { sink: Some(sink.to_string()), track, file: file.map(|f| f.to_string()), baseline_ms }
}

fn session() -> Session {
    Session {
        primary: output("Speakers", Some(1), None, 0),
        secondary: output("Headphones", Some(2), Some("film.ad.mka"), -830),
    }
}

#[test]
fn switching_the_second_output_off_clears_it() {
    let mut s = session();
    s.apply_device(true, DevicePick::SwitchOff);
    assert_eq!(s.secondary.sink, None);
    assert_eq!(s.secondary.track, None);
    assert_eq!(s.secondary.file, None);
    assert_eq!(s.secondary.baseline_ms, 0);
    assert_eq!(s.primary.sink.as_deref(), Some("Speakers"));
    assert_eq!(s.primary.track, Some(1));
}

#[test]
fn a_device_is_put_on_its_own_output() {
    let mut s = session();
    s.apply_device(false, DevicePick::Use("HDMI".to_string()));
    assert_eq!(s.primary.sink.as_deref(), Some("HDMI"));
    assert_eq!(s.secondary.sink.as_deref(), Some("Headphones"));
    s.apply_device(false, DevicePick::Unchanged);
    assert_eq!(s.primary.sink.as_deref(), Some("HDMI"));
}

#[test]
fn a_track_inside_the_video_drops_the_file_and_its_alignment() {
    let mut s = session();
    s.apply_track(Role::Secondary, TrackPick::UseTrack(Some(3)), &[], None);
    assert_eq!(s.secondary.track, Some(3));
    assert_eq!(s.secondary.file, None);
    assert_eq!(s.secondary.baseline_ms, 0);
}

#[test]
fn a_found_file_is_taken_with_its_alignment() {
    let mut s = session();
    let found = vec!["a.mka".to_string(), "b.mka".to_string()];
    s.apply_track(Role::Primary, TrackPick::UseFound(1), &found, Some(250));
    assert_eq!(s.primary.file.as_deref(), Some("b.mka"));
    assert_eq!(s.primary.track, Some(1));
    assert_eq!(s.primary.baseline_ms, -250);
    s.apply_track(Role::Primary, TrackPick::Browse, &found, None);
    assert_eq!(s.primary.file.as_deref(), Some("b.mka"));
    s.forget_tracks();
    assert_eq!((s.primary.track, s.secondary.track), (None, None));
    assert_eq!(s.primary.file.as_deref(), Some("b.mka"));
}

#[test]
fn turning_a_level_up_unmutes_it() {
    let mut level = Level { value: 20_000, muted: true };
    set_level(&mut level, 45_000);
    assert_eq!(level, Level { value: 45_000, muted: false });
    set_level(&mut level, 150_000);
    assert_eq!(level.value, 100_000);
}

#[test]
fn the_baseline_counts_only_with_its_file() {
    assert_eq!(offset_for(100, -830, true), -730);
    assert_eq!(offset_for(100, -830, false), 100);
}

#[test]
fn a_popover_gives_the_navigation_back() {
    let mut nav = Nav { list: None, header: vec![], middle: vec![], footer: vec![], header_entry: None, stops: vec![], copy_root: None };
    nav.wire(Some(7), vec![1, 2], vec![3], None);
    nav.set_middle(vec![8, 9]);
    nav.header_entry = Some(2);
    nav.copy_root = Some(6);
    let saved = nav.take();
    nav.wire(Some(99), vec![], vec![], None);
    assert!(nav.middle.is_empty());
    assert_eq!(nav.stops, vec![99]);
    nav.put(saved);
    assert_eq!(nav.list, Some(7));
    assert_eq!(nav.header, vec![1, 2]);
    assert_eq!(nav.middle, vec![8, 9]);
    assert_eq!(nav.footer, vec![3]);
    assert_eq!(nav.stops, vec![1, 2, 7, 3]);
    assert_eq!(nav.header_entry, Some(2));
    assert_eq!(nav.copy_root, Some(6));
}

#[test]
fn wiring_a_screen_lists_its_stops_in_order() {
    let mut nav = Nav { list: Some(1), header: vec![], middle: vec![5], footer: vec![], header_entry: Some(5), stops: vec![], copy_root: Some(4) };
    nav.wire(Some(10), vec![20, 21], vec![30, 31], Some(40));
    assert_eq!(nav.stops, vec![20, 21, 40, 10, 30, 31]);
    assert!(nav.middle.is_empty());
    assert_eq!(nav.header_entry, None);
    assert_eq!(nav.copy_root, None);
}
