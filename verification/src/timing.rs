//! Things counted in time: the playback tick's reports, and a key held down
//! on the control strip.

use vstd::prelude::*;

verus! {

/// Ticks, of a tenth of a second, between reports of the position to Kodi:
/// thirty seconds, so a player killed outright still leaves Kodi's library
/// close to where you got to.
pub const KODI_TICKS: u32 = 300;

/// Ticks between reports to Jellyfin: ten seconds, what its own clients send.
pub const JELLYFIN_TICKS: u32 = 100;

/// The playback tick's counters.
#[derive(Clone, Copy, PartialEq, Eq, Debug, Structural)]
pub struct Ticks {
    /// Ticks since Kodi was last told where playback had reached.
    pub since_kodi: u32,
    /// Ticks since Jellyfin was.
    pub since_jellyfin: u32,
}

/// What one tick reports.
#[derive(Clone, Copy, PartialEq, Eq, Debug, Structural)]
pub struct Reports {
    pub kodi: bool,
    pub jellyfin: bool,
}

/// One tick of playback: each counter moves on, and the one that reaches its
/// period is reported and starts again.
pub fn tick(ticks: &mut Ticks) -> (reports: Reports)
    requires
        old(ticks).since_kodi < u32::MAX,
        old(ticks).since_jellyfin < u32::MAX,
    ensures
        reports.kodi == (old(ticks).since_kodi + 1 >= KODI_TICKS),
        reports.jellyfin == (old(ticks).since_jellyfin + 1 >= JELLYFIN_TICKS),
        final(ticks).since_kodi == if reports.kodi { 0 } else { old(ticks).since_kodi + 1 },
        final(ticks).since_jellyfin == if reports.jellyfin { 0 } else { old(ticks).since_jellyfin + 1 },
{
    ticks.since_kodi = ticks.since_kodi + 1;
    let kodi = ticks.since_kodi >= KODI_TICKS;
    if kodi {
        ticks.since_kodi = 0;
    }
    ticks.since_jellyfin = ticks.since_jellyfin + 1;
    let jellyfin = ticks.since_jellyfin >= JELLYFIN_TICKS;
    if jellyfin {
        ticks.since_jellyfin = 0;
    }
    Reports { kodi, jellyfin }
}

/// Counters that start from nothing stay below their periods, so a tick
/// never overflows one, and every period's last tick reports: from a fresh
/// start the three-hundredth tick tells Kodi and the hundredth tells
/// Jellyfin.
pub proof fn reports_keep_their_period(ticks: Ticks)
    requires
        ticks.since_kodi < KODI_TICKS,
        ticks.since_jellyfin < JELLYFIN_TICKS,
    ensures
        ({
            let kodi = ticks.since_kodi + 1 >= KODI_TICKS;
            let jellyfin = ticks.since_jellyfin + 1 >= JELLYFIN_TICKS;
            &&& (if kodi { 0 } else { ticks.since_kodi + 1 }) < KODI_TICKS
            &&& (if jellyfin { 0 } else { ticks.since_jellyfin + 1 }) < JELLYFIN_TICKS
            &&& kodi == (ticks.since_kodi == KODI_TICKS - 1)
            &&& jellyfin == (ticks.since_jellyfin == JELLYFIN_TICKS - 1)
        }),
{
}

/// Enter held on the control strip.
///
/// A key held down does not simply repeat: it sends a release before each
/// repeat. So a release is held back, and believed only if no press follows
/// it before a short gap has passed.
#[derive(Clone, Copy, PartialEq, Eq, Debug, Structural)]
pub struct KeyHold {
    /// Counts presses and releases, so that one waiting to be believed can
    /// be told it was overtaken.
    pub releases: u64,
    /// The key is down.
    pub held: bool,
    /// The press that put it down began a hold, which only a real release
    /// finishes.
    pub hold_started: bool,
}

/// What a press of Enter on the strip does.
#[derive(Clone, Copy, PartialEq, Eq, Debug, Structural)]
pub enum PressStep {
    /// Nothing: the key is already down, and this is a repeat.
    Ignore,
    /// Begin holding the highlighted button, which may do something else
    /// when held long enough.
    PressHold,
    /// Press the highlighted button.
    Activate,
}

/// What a press does to the key's state, and what it presses.
pub open spec fn pressed(state: KeyHold, holds: bool) -> (KeyHold, PressStep) {
    let counted = (state.releases + 1) as u64;
    if state.held {
        (KeyHold { releases: counted, ..state }, PressStep::Ignore)
    } else {
        (
            KeyHold { releases: counted, held: true, hold_started: holds },
            if holds { PressStep::PressHold } else { PressStep::Activate },
        )
    }
}

/// What a release does to the key's state, and the mark it is believed by.
pub open spec fn released(state: KeyHold) -> (KeyHold, u64) {
    let mark = (state.releases + 1) as u64;
    (KeyHold { releases: mark, ..state }, mark)
}

/// What a release marked `mark` does once the gap after it has passed.
pub open spec fn settled(state: KeyHold, mark: u64) -> (KeyHold, Settle) {
    if state.releases != mark {
        (state, Settle::Overtaken)
    } else {
        (
            KeyHold { releases: mark, held: false, hold_started: false },
            Settle::Released { finish_hold: state.hold_started },
        )
    }
}

/// A press of Enter: acted on once however long the key is held, starting a
/// hold where the highlighted button is one that is held (`holds`). Any
/// release still waiting to be believed is overtaken.
pub fn press(state: &mut KeyHold, holds: bool) -> (step: PressStep)
    requires
        old(state).releases < u64::MAX,
    ensures
        (*final(state), step) == pressed(*old(state), holds),
{
    state.releases = state.releases + 1;
    if state.held {
        return PressStep::Ignore;
    }
    state.held = true;
    state.hold_started = holds;
    if holds { PressStep::PressHold } else { PressStep::Activate }
}

/// A release of Enter: noted, and given a mark to be believed by when the
/// gap has passed.
pub fn release(state: &mut KeyHold) -> (mark: u64)
    requires
        old(state).releases < u64::MAX,
    ensures
        (*final(state), mark) == released(*old(state)),
{
    state.releases = state.releases + 1;
    state.releases
}

/// What a release does once the gap after it has passed.
#[derive(Clone, Copy, PartialEq, Eq, Debug, Structural)]
pub enum Settle {
    /// Something came after it: it was a repeat, not a release.
    Overtaken,
    /// It was real. The key is up; `finish_hold` says whether a hold the
    /// press began is to be finished, which presses the button if the hold
    /// itself did nothing.
    Released { finish_hold: bool },
}

/// What a release marked `mark` does once the gap after it has passed.
pub fn settle(state: &mut KeyHold, mark: u64) -> (step: Settle)
    ensures
        (*final(state), step) == settled(*old(state), mark),
{
    if state.releases != mark {
        return Settle::Overtaken;
    }
    state.held = false;
    let finish_hold = state.hold_started;
    state.hold_started = false;
    Settle::Released { finish_hold }
}

/// Holding Enter presses once. A press from a key that is up acts; the
/// repeat that follows - a release, then a press before the gap has passed -
/// is ignored, and the release it sent is never believed; a release that
/// nothing follows is believed, and puts the key back up, finishing the hold
/// the press began.
pub proof fn holding_presses_once(state: KeyHold, holds: bool)
    requires
        !state.held,
        state.releases < u64::MAX - 3,
    ensures
        ({
            let (down, first) = pressed(state, holds);
            let (let_go, mark) = released(down);
            let (again, repeat) = pressed(let_go, holds);
            &&& first != PressStep::Ignore
            &&& repeat == PressStep::Ignore
            &&& settled(again, mark).1 == Settle::Overtaken
            &&& settled(let_go, mark) == (
                KeyHold { releases: mark, held: false, hold_started: false },
                Settle::Released { finish_hold: holds },
            )
        }),
{
}

} // verus!
