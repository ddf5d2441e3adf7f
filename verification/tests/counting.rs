use tineplayer::timing::{press, release, settle, tick, KeyHold, PressStep, Settle, Ticks};

#[test]
fn kodi_hears_every_thirty_seconds_and_jellyfin_every_ten() {
    let mut ticks = Ticks { since_kodi: 0, since_jellyfin: 0 };
    let mut kodi = 0;
    let mut jellyfin = 0;
    for _ in 0..600 {
        let reports = tick(&mut ticks);
        kodi += reports.kodi as u32;
        jellyfin += reports.jellyfin as u32;
    }
    assert_eq!(kodi, 2);
    assert_eq!(jellyfin, 6);
    assert_eq!(ticks, Ticks { since_kodi: 0, since_jellyfin: 0 });
}

#[test]
fn holding_enter_presses_once() {
    let mut key = KeyHold { releases: 0, held: false, hold_started: false };
    assert_eq!(press(&mut key, true), PressStep::PressHold);
    // Two repeats, each a release and a press.
    let first = release(&mut key);
    assert_eq!(press(&mut key, true), PressStep::Ignore);
    let second = release(&mut key);
    assert_eq!(press(&mut key, true), PressStep::Ignore);
    assert_eq!(settle(&mut key, first), Settle::Overtaken);
    assert_eq!(settle(&mut key, second), Settle::Overtaken);
    // The real release.
    let last = release(&mut key);
    assert_eq!(settle(&mut key, last), Settle::Released { finish_hold: true });
    assert!(!key.held);
    assert_eq!(press(&mut key, false), PressStep::Activate);
}
