//! The screens of the application, and what "back" means on each.

use vstd::prelude::*;

verus! {

/// What is on display.
#[derive(Clone, Copy, PartialEq, Eq, Debug, Structural)]
pub enum Screen {
    Menu,
    Settings,
    Browser,
    PasteUri,
    VideoSource,
    Opening,
    /// Which track to measure an audio file against.
    AlignChoose,
    /// The measuring itself.
    AlignProgress,
    /// What the measuring found.
    AlignResult,
    Confirm,
    Notices,
    /// The key and button list, when there is no picture to lay it over.
    Shortcuts,
    KodiFolder,
    KodiConfirm,
    KodiPermission,
    KodiError,
    /// The Quick Connect code, while it waits to be approved.
    JellyfinConnect,
    /// Anything else the Jellyfin pane opens over itself.
    JellyfinPanel,
    ConfirmQuit,
    Error,
    Playing,
}

/// What going back one level does.
#[derive(Clone, Copy, PartialEq, Eq, Debug, Structural)]
pub enum BackStep {
    /// Out of the film.
    LeavePlayback,
    ShowSettings,
    /// Back to the Kodi pane, which every Kodi panel is opened from; on a
    /// confirmation it is the same as pressing Cancel.
    ReturnToKodiSettings,
    /// Back to the Jellyfin pane, abandoning a pairing under way.
    LeaveJellyfinConnect,
    /// Close the window: there is nothing to go back to.
    CloseWindow,
    ShowPasteUri,
    /// Back to whatever the modal was opened over.
    ReturnToOrigin,
    /// Out of a settings pane to the list of categories.
    HoldSettingsCategories,
    ShowMenu,
    /// Ask whether to quit.
    AskToQuit,
}

/// What going back one level does from `screen`; `in_pane` says whether
/// a settings pane, rather than the list of categories, holds the focus,
/// and `fatal` whether an error on display is about the video the
/// application was started for.
pub open spec fn back_step(screen: Screen, in_pane: bool, fatal: bool) -> BackStep {
    match screen {
        Screen::Playing => BackStep::LeavePlayback,
        Screen::Confirm | Screen::Notices => BackStep::ShowSettings,
        Screen::KodiConfirm | Screen::KodiFolder | Screen::KodiPermission | Screen::KodiError => BackStep::ReturnToKodiSettings,
        Screen::JellyfinConnect | Screen::JellyfinPanel => BackStep::LeaveJellyfinConnect,
        Screen::Error => if fatal { BackStep::CloseWindow } else { BackStep::ShowMenu },
        Screen::Opening => BackStep::ShowPasteUri,
        Screen::PasteUri | Screen::Browser | Screen::Shortcuts | Screen::AlignChoose
            | Screen::AlignProgress | Screen::AlignResult => BackStep::ReturnToOrigin,
        Screen::Settings => if in_pane { BackStep::HoldSettingsCategories } else { BackStep::ShowMenu },
        Screen::VideoSource | Screen::ConfirmQuit => BackStep::ShowMenu,
        Screen::Menu => BackStep::AskToQuit,
    }
}

/// One level up, shared by Escape and the gamepad's back button so that the
/// two can never disagree about what "back" means.
pub fn go_back(screen: Screen, in_pane: bool, fatal: bool) -> (step: BackStep)
    ensures
        step == back_step(screen, in_pane, fatal),
{
    match screen {
        Screen::Playing => BackStep::LeavePlayback,
        Screen::Confirm | Screen::Notices => BackStep::ShowSettings,
        Screen::KodiConfirm | Screen::KodiFolder | Screen::KodiPermission | Screen::KodiError => BackStep::ReturnToKodiSettings,
        Screen::JellyfinConnect | Screen::JellyfinPanel => BackStep::LeaveJellyfinConnect,
        Screen::Error => if fatal { BackStep::CloseWindow } else { BackStep::ShowMenu },
        Screen::Opening => BackStep::ShowPasteUri,
        Screen::PasteUri | Screen::Browser | Screen::Shortcuts | Screen::AlignChoose
            | Screen::AlignProgress | Screen::AlignResult => BackStep::ReturnToOrigin,
        Screen::Settings => if in_pane { BackStep::HoldSettingsCategories } else { BackStep::ShowMenu },
        Screen::VideoSource | Screen::ConfirmQuit => BackStep::ShowMenu,
        Screen::Menu => BackStep::AskToQuit,
    }
}

/// Going back never quits by surprise: the window closes only from an error
/// about the one video the application was started for, and from the menu
/// it asks first. Settings are left in the two steps they are entered in.
pub proof fn back_never_quits_by_surprise(screen: Screen, in_pane: bool, fatal: bool)
    ensures
        back_step(screen, in_pane, fatal) == BackStep::CloseWindow ==> screen == Screen::Error && fatal,
        screen == Screen::Menu ==> back_step(screen, in_pane, fatal) == BackStep::AskToQuit,
        screen == Screen::Settings && in_pane ==> back_step(screen, in_pane, fatal) == BackStep::HoldSettingsCategories,
{
}

/// Whether a screen is one a modal can be opened over and return to.
pub open spec fn is_origin(screen: Screen) -> bool {
    screen == Screen::Menu || screen == Screen::VideoSource
}

/// The screen a modal about to open returns to: the one on display if a
/// modal can return to it, and otherwise the one already noted, so that one
/// modal replacing another leaves the pair's origin alone.
pub fn remember_origin(screen: Screen, origin: Screen) -> (noted: Screen)
    ensures
        noted == (if is_origin(screen) { screen } else { origin }),
{
    if screen == Screen::Menu || screen == Screen::VideoSource {
        screen
    } else {
        origin
    }
}

/// A modal is never its own origin: once the origin is a screen a modal can
/// return to, noting a new one keeps it so, whatever is on display - so
/// backing out of a modal always leaves the modals.
pub proof fn origin_is_never_a_modal(screen: Screen, origin: Screen)
    requires
        is_origin(origin),
    ensures
        is_origin(if is_origin(screen) { screen } else { origin }),
{
}


/// What toggling fullscreen does to the window.
#[derive(Clone, Copy, PartialEq, Eq, Debug, Structural)]
pub enum FullscreenStep {
    /// Nothing: a launcher asked for fullscreen, and it is not the viewer's
    /// to change.
    Nothing,
    /// Go fullscreen, noting whether the window was maximized, since a
    /// fullscreen window reports itself maximized either way.
    Enter { was_maximized: bool },
    /// Leave fullscreen, and put back the state it was entered from, said
    /// outright in both directions: maximize, or unmaximize.
    Leave { maximize: bool },
}

/// What toggling fullscreen does: `locked` says whether a launcher asked
/// for it, `fullscreen` and `maximized` what the window is now, and
/// `maximized_before` what was noted on the way in - unmaximized for a
/// window that started fullscreen.
pub open spec fn fullscreen_step_of(locked: bool, fullscreen: bool, maximized: bool, maximized_before: bool) -> FullscreenStep {
    if locked {
        FullscreenStep::Nothing
    } else if !fullscreen {
        FullscreenStep::Enter { was_maximized: maximized }
    } else {
        FullscreenStep::Leave { maximize: maximized_before }
    }
}

/// What toggling fullscreen does; see `fullscreen_step_of`.
pub fn toggle_fullscreen(locked: bool, fullscreen: bool, maximized: bool, maximized_before: bool) -> (step: FullscreenStep)
    ensures
        step == fullscreen_step_of(locked, fullscreen, maximized, maximized_before),
{
    if locked {
        FullscreenStep::Nothing
    } else if !fullscreen {
        FullscreenStep::Enter { was_maximized: maximized }
    } else {
        FullscreenStep::Leave { maximize: maximized_before }
    }
}

/// Leaving fullscreen puts back the state it was entered from: a window
/// maximized on purpose comes back maximized, and one that was not comes back
/// at its own size - whatever the window reports while it is fullscreen.
pub proof fn fullscreen_comes_back_as_it_went(maximized: bool, reported: bool)
    ensures
        fullscreen_step_of(false, false, maximized, reported) matches FullscreenStep::Enter { was_maximized }
            && fullscreen_step_of(false, true, reported, was_maximized) == (FullscreenStep::Leave { maximize: maximized }),
{
}

} // verus!
