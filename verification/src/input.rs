//! What a key or a gamepad button does, given what is on screen.
//!
//! The keyboard and the gamepad answer to one set of steps, so that the key
//! list can promise that a key and a button which look alike do the same.

use vstd::prelude::*;
use crate::navigation::PAGE_ROWS;
use crate::strip::MediaCommand;

verus! {

/// A key the application answers to. A letter stands for both its cases;
/// anything not named here is `Other`.
#[derive(Clone, Copy, PartialEq, Eq, Debug, Structural)]
pub enum Key {
    Space,
    AudioPlay,
    AudioPause,
    AudioStop,
    AudioNext,
    AudioForward,
    AudioPrev,
    AudioRewind,
    Left,
    Right,
    Up,
    Down,
    F1,
    Plus,
    Equal,
    KeypadAdd,
    Minus,
    KeypadSubtract,
    Escape,
    Tab,
    /// Shift+Tab, as X11 and Wayland both deliver it.
    LeftTab,
    Return,
    KeypadEnter,
    PageUp,
    PageDown,
    Home,
    End,
    F,
    F11,
    P,
    C,
    M,
    T,
    A,
    S,
    L,
    O,
    Other,
}

/// What the key handler needs to know about the moment a key arrives.
#[derive(Clone, Copy, PartialEq, Eq, Debug, Structural)]
pub struct KeyFacts {
    /// A film is running.
    pub playing: bool,
    /// Shift is held.
    pub shift: bool,
    /// The platform's command modifier is held: Control, or Command on a Mac.
    pub command: bool,
    /// Something else chose the video and is waiting on this playback of it.
    pub external: bool,
    /// The menu or the choice of a video is on display, the two screens a
    /// video can be chosen from.
    pub choosing: bool,
    /// The settings screen is on display.
    pub settings: bool,
}

/// What a key or a button does.
///
/// The key is taken for every step but `WakeControls` and `Pass`; a step
/// that tries something (`FocusStop`, `Sideways`, `AboutEdge`, `PlayFromPage`
/// and `Copy`) takes it only when that something was done, and `SliderOnly`
/// takes it whether or not there was a bar to move.
#[derive(Clone, Copy, PartialEq, Eq, Debug, Structural)]
pub enum Step {
    /// Pause or play the film, and bring up the strip.
    TogglePause,
    /// A media command.
    Media(MediaCommand),
    /// Left or right through the strip or the film.
    Seek(i8),
    /// Show or hide the key list.
    ToggleShortcuts,
    /// The level over both outputs, up or down a step.
    NudgeMain(i8),
    /// Along the bar on the selected settings row, where there is one;
    /// nothing else on that screen answers left and right.
    SliderOnly(i8),
    /// Along the bar on the selected row, or else to the list beside.
    Sideways(i8),
    /// The same, and else wherever the toolkit's own search finds.
    SidewaysOrFocus(i8),
    /// Take hold of the strip, or climb it.
    EnterControls,
    /// Down the strip, or let go of it.
    LeaveControls,
    /// One rung of backing out.
    BackOut,
    /// To the next stop on the screen, or the previous one.
    FocusStop(i8),
    /// Press what has the focus.
    Activate,
    /// Move the selection by this many rows.
    MoveSelection(i32),
    /// To the top of the About page's text, or to its end.
    AboutEdge(bool),
    ToggleFullscreen,
    /// Play the video from its page.
    PlayFromPage,
    ToggleSubtitles,
    ToggleMute,
    ToggleTimeReadout,
    /// Step the primary output through the film's soundtracks, or the
    /// secondary one.
    CycleAudio(bool),
    /// Open the panel a video's address is pasted into.
    PasteUri,
    /// Copy the selected text.
    Copy,
    /// Choose a video file.
    BrowseForFile,
    /// Bring up the timeline without taking the key.
    WakeControls,
    /// Scroll the key list.
    ScrollShortcuts(i8),
    /// Press the highlighted button on the strip, which may be held.
    PressActivate,
    /// Let go of it.
    ReleaseActivate,
    /// A seek held down has been let go.
    EndScrub,
    /// The subtitles button, held for silence and tapped for subtitles.
    PressSubtitles,
    ReleaseSubtitles,
    /// Nothing.
    Nothing,
    /// Not ours: the key goes on to whatever else would take it.
    Pass,
}

/// What a key does.
pub open spec fn key_step(key: Key, facts: KeyFacts) -> Step {
    let playing = facts.playing;
    match key {
        Key::Space => if playing { Step::TogglePause } else { Step::Pass },
        Key::AudioPlay | Key::AudioPause => if playing { Step::Media(MediaCommand::PlayPause) } else { Step::Pass },
        Key::AudioStop => if playing { Step::Media(MediaCommand::Stop) } else { Step::Pass },
        Key::AudioNext | Key::AudioForward => if playing { Step::Media(MediaCommand::Next) } else { Step::Pass },
        Key::AudioPrev | Key::AudioRewind => if playing { Step::Media(MediaCommand::Previous) } else { Step::Pass },
        Key::Left => if playing { Step::Seek(-1i8) } else if facts.settings { Step::SliderOnly(-1i8) } else { Step::Sideways(-1i8) },
        Key::Right => if playing { Step::Seek(1i8) } else if facts.settings { Step::SliderOnly(1i8) } else { Step::Sideways(1i8) },
        Key::F1 => Step::ToggleShortcuts,
        Key::Plus | Key::Equal | Key::KeypadAdd => if playing { Step::NudgeMain(1i8) } else { Step::Pass },
        Key::Minus | Key::KeypadSubtract => if playing { Step::NudgeMain(-1i8) } else { Step::Pass },
        Key::Up => if playing { Step::EnterControls } else { Step::Pass },
        Key::Down => if playing { Step::LeaveControls } else { Step::Pass },
        Key::Escape => Step::BackOut,
        Key::Tab => if facts.shift { Step::FocusStop(-1i8) } else { Step::FocusStop(1i8) },
        Key::LeftTab => Step::FocusStop(-1i8),
        Key::Return | Key::KeypadEnter => Step::Activate,
        Key::PageUp => Step::MoveSelection((-PAGE_ROWS) as i32),
        Key::PageDown => Step::MoveSelection(PAGE_ROWS),
        Key::Home => if playing { Step::WakeControls } else { Step::AboutEdge(false) },
        Key::End => if playing { Step::WakeControls } else { Step::AboutEdge(true) },
        Key::F | Key::F11 => Step::ToggleFullscreen,
        Key::P => if playing { Step::WakeControls } else { Step::PlayFromPage },
        Key::C => if playing { Step::ToggleSubtitles } else if facts.command { Step::Copy } else { Step::Pass },
        Key::M => if playing { Step::ToggleMute } else { Step::Pass },
        Key::T => if playing { Step::ToggleTimeReadout } else { Step::Pass },
        Key::A => if playing { Step::CycleAudio(false) } else { Step::Pass },
        Key::S => if playing { Step::CycleAudio(true) } else { Step::Pass },
        Key::L => if facts.command && !facts.external && facts.choosing {
            Step::PasteUri
        } else if playing {
            Step::WakeControls
        } else {
            Step::Pass
        },
        Key::O => if facts.command && !facts.external && facts.choosing {
            Step::BrowseForFile
        } else if playing {
            Step::WakeControls
        } else {
            Step::Pass
        },
        Key::Other => if playing { Step::WakeControls } else { Step::Pass },
    }
}

/// What a key does; see `key_step`.
pub fn key_pressed(key: Key, facts: KeyFacts) -> (step: Step)
    ensures
        step == key_step(key, facts),
{
    let playing = facts.playing;
    match key {
        Key::Space => if playing { Step::TogglePause } else { Step::Pass },
        Key::AudioPlay | Key::AudioPause => if playing { Step::Media(MediaCommand::PlayPause) } else { Step::Pass },
        Key::AudioStop => if playing { Step::Media(MediaCommand::Stop) } else { Step::Pass },
        Key::AudioNext | Key::AudioForward => if playing { Step::Media(MediaCommand::Next) } else { Step::Pass },
        Key::AudioPrev | Key::AudioRewind => if playing { Step::Media(MediaCommand::Previous) } else { Step::Pass },
        Key::Left => if playing { Step::Seek(-1i8) } else if facts.settings { Step::SliderOnly(-1i8) } else { Step::Sideways(-1i8) },
        Key::Right => if playing { Step::Seek(1i8) } else if facts.settings { Step::SliderOnly(1i8) } else { Step::Sideways(1i8) },
        Key::F1 => Step::ToggleShortcuts,
        Key::Plus | Key::Equal | Key::KeypadAdd => if playing { Step::NudgeMain(1i8) } else { Step::Pass },
        Key::Minus | Key::KeypadSubtract => if playing { Step::NudgeMain(-1i8) } else { Step::Pass },
        Key::Up => if playing { Step::EnterControls } else { Step::Pass },
        Key::Down => if playing { Step::LeaveControls } else { Step::Pass },
        Key::Escape => Step::BackOut,
        Key::Tab => if facts.shift { Step::FocusStop(-1i8) } else { Step::FocusStop(1i8) },
        Key::LeftTab => Step::FocusStop(-1i8),
        Key::Return | Key::KeypadEnter => Step::Activate,
        Key::PageUp => Step::MoveSelection(-PAGE_ROWS),
        Key::PageDown => Step::MoveSelection(PAGE_ROWS),
        Key::Home => if playing { Step::WakeControls } else { Step::AboutEdge(false) },
        Key::End => if playing { Step::WakeControls } else { Step::AboutEdge(true) },
        Key::F | Key::F11 => Step::ToggleFullscreen,
        Key::P => if playing { Step::WakeControls } else { Step::PlayFromPage },
        Key::C => if playing { Step::ToggleSubtitles } else if facts.command { Step::Copy } else { Step::Pass },
        Key::M => if playing { Step::ToggleMute } else { Step::Pass },
        Key::T => if playing { Step::ToggleTimeReadout } else { Step::Pass },
        Key::A => if playing { Step::CycleAudio(false) } else { Step::Pass },
        Key::S => if playing { Step::CycleAudio(true) } else { Step::Pass },
        Key::L => if facts.command && !facts.external && facts.choosing {
            Step::PasteUri
        } else if playing {
            Step::WakeControls
        } else {
            Step::Pass
        },
        Key::O => if facts.command && !facts.external && facts.choosing {
            Step::BrowseForFile
        } else if playing {
            Step::WakeControls
        } else {
            Step::Pass
        },
        Key::Other => if playing { Step::WakeControls } else { Step::Pass },
    }
}

/// Whether letting go of a key ends a seek being held.
pub fn key_released_ends_scrub(key: Key) -> (ends: bool)
    ensures
        ends == (key == Key::Left || key == Key::Right),
{
    key == Key::Left || key == Key::Right
}

/// A gamepad button, or the release of one.
#[derive(Clone, Copy, PartialEq, Eq, Debug, Structural)]
pub enum PadAction {
    Shortcuts,
    Up,
    Down,
    Left,
    Right,
    Activate,
    PlayPause,
    ActivateReleased,
    DirectionReleased,
    PageUp,
    PageDown,
    FocusNext,
    FocusPrevious,
    Back,
    Fullscreen,
    Subtitles,
    SubtitlesReleased,
    TimeReadout,
}

/// What the gamepad handler needs to know about the moment a button
/// arrives.
#[derive(Clone, Copy, PartialEq, Eq, Debug, Structural)]
pub struct PadFacts {
    /// The key list is open.
    pub shortcuts: bool,
    /// A film is running.
    pub playing: bool,
    /// The settings screen is on display.
    pub settings: bool,
    /// The strip has a button highlighted, which activation presses.
    pub on_buttons: bool,
}

/// What a gamepad button does.
pub open spec fn pad_step(action: PadAction, facts: PadFacts) -> Step {
    let playing = facts.playing;
    match action {
        PadAction::Shortcuts => Step::ToggleShortcuts,
        PadAction::Up => if facts.shortcuts {
            Step::ScrollShortcuts(-1i8)
        } else if playing {
            Step::EnterControls
        } else {
            Step::MoveSelection(-1i32)
        },
        PadAction::Down => if facts.shortcuts {
            Step::ScrollShortcuts(1i8)
        } else if playing {
            Step::LeaveControls
        } else {
            Step::MoveSelection(1i32)
        },
        PadAction::Left => if playing { Step::Seek(-1i8) } else if facts.settings { Step::SliderOnly(-1i8) } else { Step::SidewaysOrFocus(-1i8) },
        PadAction::Right => if playing { Step::Seek(1i8) } else if facts.settings { Step::SliderOnly(1i8) } else { Step::SidewaysOrFocus(1i8) },
        PadAction::Activate => if playing {
            if facts.on_buttons { Step::PressActivate } else { Step::TogglePause }
        } else {
            Step::Activate
        },
        PadAction::PlayPause => if playing { Step::TogglePause } else { Step::PlayFromPage },
        PadAction::ActivateReleased => if playing { Step::ReleaseActivate } else { Step::Nothing },
        PadAction::DirectionReleased => Step::EndScrub,
        PadAction::PageUp => Step::MoveSelection((-PAGE_ROWS) as i32),
        PadAction::PageDown => Step::MoveSelection(PAGE_ROWS),
        PadAction::FocusNext => Step::FocusStop(1i8),
        PadAction::FocusPrevious => Step::FocusStop(-1i8),
        PadAction::Back => Step::BackOut,
        PadAction::Fullscreen => Step::ToggleFullscreen,
        PadAction::Subtitles => if playing { Step::PressSubtitles } else { Step::Nothing },
        PadAction::SubtitlesReleased => if playing { Step::ReleaseSubtitles } else { Step::Nothing },
        PadAction::TimeReadout => Step::ToggleTimeReadout,
    }
}

/// What a gamepad button does; see `pad_step`.
pub fn pad_pressed(action: PadAction, facts: PadFacts) -> (step: Step)
    ensures
        step == pad_step(action, facts),
{
    let playing = facts.playing;
    match action {
        PadAction::Shortcuts => Step::ToggleShortcuts,
        PadAction::Up => if facts.shortcuts {
            Step::ScrollShortcuts(-1i8)
        } else if playing {
            Step::EnterControls
        } else {
            Step::MoveSelection(-1i32)
        },
        PadAction::Down => if facts.shortcuts {
            Step::ScrollShortcuts(1i8)
        } else if playing {
            Step::LeaveControls
        } else {
            Step::MoveSelection(1i32)
        },
        PadAction::Left => if playing { Step::Seek(-1i8) } else if facts.settings { Step::SliderOnly(-1i8) } else { Step::SidewaysOrFocus(-1i8) },
        PadAction::Right => if playing { Step::Seek(1i8) } else if facts.settings { Step::SliderOnly(1i8) } else { Step::SidewaysOrFocus(1i8) },
        PadAction::Activate => if playing {
            if facts.on_buttons { Step::PressActivate } else { Step::TogglePause }
        } else {
            Step::Activate
        },
        PadAction::PlayPause => if playing { Step::TogglePause } else { Step::PlayFromPage },
        PadAction::ActivateReleased => if playing { Step::ReleaseActivate } else { Step::Nothing },
        PadAction::DirectionReleased => Step::EndScrub,
        PadAction::PageUp => Step::MoveSelection(-PAGE_ROWS),
        PadAction::PageDown => Step::MoveSelection(PAGE_ROWS),
        PadAction::FocusNext => Step::FocusStop(1i8),
        PadAction::FocusPrevious => Step::FocusStop(-1i8),
        PadAction::Back => Step::BackOut,
        PadAction::Fullscreen => Step::ToggleFullscreen,
        PadAction::Subtitles => if playing { Step::PressSubtitles } else { Step::Nothing },
        PadAction::SubtitlesReleased => if playing { Step::ReleaseSubtitles } else { Step::Nothing },
        PadAction::TimeReadout => Step::ToggleTimeReadout,
    }
}

/// Whether a step belongs to a running film.
pub open spec fn is_playback_step(step: Step) -> bool {
    match step {
        Step::TogglePause | Step::Media(_) | Step::Seek(_) | Step::NudgeMain(_) | Step::EnterControls
            | Step::LeaveControls | Step::ToggleSubtitles | Step::ToggleMute | Step::CycleAudio(_)
            | Step::WakeControls | Step::PressActivate | Step::ReleaseActivate | Step::PressSubtitles
            | Step::ReleaseSubtitles => true,
        _ => false,
    }
}

/// What the key list promises of the keys:
/// - the key list itself is on F1 wherever you are, including the screen
///   where you have forgotten what any of the others do;
/// - Escape backs out one rung everywhere, the same rung as the gamepad's
///   back button, and never leaves more than that;
/// - the menus keep their keys: with no film running no key does anything
///   that belongs to playback, Space belongs to the focused row, and the
///   letters stay free for jumping through a list;
/// - a video cannot be chosen by a shortcut while something else chose it.
pub proof fn keys_keep_their_promises(key: Key, facts: KeyFacts, pad: PadFacts)
    ensures
        key_step(Key::F1, facts) == Step::ToggleShortcuts,
        pad_step(PadAction::Shortcuts, pad) == Step::ToggleShortcuts,
        key_step(Key::Escape, facts) == pad_step(PadAction::Back, pad),
        key_step(Key::Escape, facts) == Step::BackOut,
        !facts.playing ==> !is_playback_step(key_step(key, facts)),
        !pad.playing ==> !is_playback_step(pad_step(PadAction::Left, pad)),
        !facts.playing ==> key_step(Key::Space, facts) == Step::Pass,
        !facts.playing && !facts.command && (key == Key::C || key == Key::M || key == Key::T || key == Key::A
            || key == Key::S || key == Key::L || key == Key::O) ==> key_step(key, facts) == Step::Pass,
        facts.external ==> key_step(key, facts) != Step::PasteUri && key_step(key, facts) != Step::BrowseForFile,
        key_step(Key::PageDown, facts) == pad_step(PadAction::PageDown, pad),
        key_step(Key::PageUp, facts) == pad_step(PadAction::PageUp, pad),
        key_step(Key::LeftTab, facts) == pad_step(PadAction::FocusPrevious, pad),
{
}

/// Whether `lower` and `higher` are one move made in opposite directions:
/// the same kind of step, the first by a negative amount and the second by
/// the same amount positive - or both nothing at all.
pub open spec fn opposite_moves(lower: Step, higher: Step) -> bool {
    match (lower, higher) {
        (Step::Seek(a), Step::Seek(b)) => a < 0 && b > 0 && a == -b,
        (Step::NudgeMain(a), Step::NudgeMain(b)) => a < 0 && b > 0 && a == -b,
        (Step::SliderOnly(a), Step::SliderOnly(b)) => a < 0 && b > 0 && a == -b,
        (Step::Sideways(a), Step::Sideways(b)) => a < 0 && b > 0 && a == -b,
        (Step::FocusStop(a), Step::FocusStop(b)) => a < 0 && b > 0 && a == -b,
        (Step::MoveSelection(a), Step::MoveSelection(b)) => a < 0 && b > 0 && a == -b,
        (Step::Pass, Step::Pass) => true,
        _ => false,
    }
}

/// Keys that come in pairs do opposite things, and a key's sign is the
/// direction it is labelled with: during playback Minus (on either
/// keyboard) turns the main level down a step and Plus, Equal (its unshifted
/// key) and the keypad's Plus turn it up the same step; Left seeks back and
/// Right forward; Page Up goes up a page of rows and Page Down down one; Tab
/// goes forward a stop and Shift+Tab back. Without a film, Plus and Minus
/// do nothing.
pub proof fn paired_keys_do_opposite_things(facts: KeyFacts)
    ensures
        key_step(Key::Plus, facts) == key_step(Key::Equal, facts),
        key_step(Key::Plus, facts) == key_step(Key::KeypadAdd, facts),
        key_step(Key::Minus, facts) == key_step(Key::KeypadSubtract, facts),
        opposite_moves(key_step(Key::Minus, facts), key_step(Key::Plus, facts)),
        facts.playing ==> (key_step(Key::Minus, facts) matches Step::NudgeMain(n) && n < 0),
        facts.playing ==> (key_step(Key::Plus, facts) matches Step::NudgeMain(n) && n > 0),
        !facts.playing ==> key_step(Key::Minus, facts) == Step::Pass && key_step(Key::Plus, facts) == Step::Pass,
        opposite_moves(key_step(Key::Left, facts), key_step(Key::Right, facts)),
        facts.playing ==> (key_step(Key::Left, facts) matches Step::Seek(n) && n < 0),
        opposite_moves(key_step(Key::PageUp, facts), key_step(Key::PageDown, facts)),
        opposite_moves(key_step(Key::LeftTab, facts), key_step(Key::Tab, KeyFacts { shift: false, ..facts })),
        key_step(Key::Tab, KeyFacts { shift: true, ..facts }) == key_step(Key::LeftTab, facts),
{
}

} // verus!
