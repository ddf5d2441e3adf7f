//! The control strip over a playing film, and how Up, Down, Left, Right and
//! back move through it.

use vstd::prelude::*;

verus! {

/// Which part of the control strip is being driven.
#[derive(Clone, Copy, PartialEq, Eq, Debug, Structural)]
pub enum Row {
    /// Nothing: the strip may be showing, but nobody is driving it.
    Idle,
    /// The row of buttons.
    Buttons,
    /// The timeline above them.
    Timeline,
    /// The volume menu, opened upward out of its button.
    Volume,
    /// The soundtrack chooser.
    Audio,
    /// The subtitle chooser.
    Subtitles,
}

/// What a press does to the strip.
#[derive(Clone, Copy, PartialEq, Eq, Debug, Structural)]
pub enum StripStep {
    /// Drive this part of the strip from now on.
    SetRow(Row),
    /// Move through the outputs of the volume menu, up for negative.
    MoveOutput(i8),
    /// Move through the soundtrack chooser.
    MoveAudio(i8),
    /// Move through the subtitle chooser.
    MoveSubtitle(i8),
    /// Put away a strip that is showing without being driven.
    Hide,
    /// Nothing to do.
    Nothing,
}

/// Up: take hold of the strip at its buttons, then climb to the timeline;
/// in an open menu or chooser, climb its rows.
pub open spec fn up_step(row: Row) -> StripStep {
    match row {
        Row::Idle => StripStep::SetRow(Row::Buttons),
        Row::Buttons => StripStep::SetRow(Row::Timeline),
        Row::Timeline => StripStep::Nothing,
        Row::Volume => StripStep::MoveOutput(-1i8),
        Row::Audio => StripStep::MoveAudio(-1i8),
        Row::Subtitles => StripStep::MoveSubtitle(-1i8),
    }
}

/// What Up does to the strip.
pub fn enter_controls(row: Row) -> (step: StripStep)
    ensures
        step == up_step(row),
{
    match row {
        Row::Idle => StripStep::SetRow(Row::Buttons),
        Row::Buttons => StripStep::SetRow(Row::Timeline),
        Row::Timeline => StripStep::Nothing,
        Row::Volume => StripStep::MoveOutput(-1i8),
        Row::Audio => StripStep::MoveAudio(-1i8),
        Row::Subtitles => StripStep::MoveSubtitle(-1i8),
    }
}

/// Down: back to the buttons from the timeline, then let go of the strip;
/// down an open menu or chooser, and off its bottom back to the button it
/// came out of. `at_last` says whether an open menu or chooser is on its
/// last row, and `showing` whether the strip is on screen.
pub open spec fn down_step(row: Row, at_last: bool, showing: bool) -> StripStep {
    match row {
        Row::Timeline => StripStep::SetRow(Row::Buttons),
        Row::Buttons => StripStep::SetRow(Row::Idle),
        Row::Volume => if at_last { StripStep::SetRow(Row::Buttons) } else { StripStep::MoveOutput(1i8) },
        Row::Audio => if at_last { StripStep::SetRow(Row::Buttons) } else { StripStep::MoveAudio(1i8) },
        Row::Subtitles => if at_last { StripStep::SetRow(Row::Buttons) } else { StripStep::MoveSubtitle(1i8) },
        Row::Idle => if showing { StripStep::Hide } else { StripStep::Nothing },
    }
}

/// What Down does to the strip.
pub fn leave_controls(row: Row, at_last: bool, showing: bool) -> (step: StripStep)
    ensures
        step == down_step(row, at_last, showing),
{
    match row {
        Row::Timeline => StripStep::SetRow(Row::Buttons),
        Row::Buttons => StripStep::SetRow(Row::Idle),
        Row::Volume => if at_last { StripStep::SetRow(Row::Buttons) } else { StripStep::MoveOutput(1i8) },
        Row::Audio => if at_last { StripStep::SetRow(Row::Buttons) } else { StripStep::MoveAudio(1i8) },
        Row::Subtitles => if at_last { StripStep::SetRow(Row::Buttons) } else { StripStep::MoveSubtitle(1i8) },
        Row::Idle => if showing { StripStep::Hide } else { StripStep::Nothing },
    }
}

/// Down undoes Up: from letting go of the strip or from its buttons, Up
/// then Down comes back to where it started.
pub proof fn down_undoes_up(row: Row, at_last: bool, showing: bool)
    requires
        row == Row::Idle || row == Row::Buttons,
    ensures
        up_step(row) matches StripStep::SetRow(above) && down_step(above, at_last, showing) == StripStep::SetRow(row),
{
}

/// What back does with the strip up, one rung at a time.
#[derive(Clone, Copy, PartialEq, Eq, Debug, Structural)]
pub enum BackOut {
    /// Put away the key list, which lies over everything else.
    CloseShortcuts,
    /// Drive this part of the strip from now on.
    SetRow(Row),
    /// Put away a strip that is showing without being driven.
    Hide,
    /// Nothing is left over the film, or there is no film: go back a screen.
    GoBack,
}

/// Escape, and the gamepad's back button. The ladder, from the top: the key
/// list, then an open menu or chooser, then the strip itself, and only once
/// all of that is gone does it leave the film. `shortcuts` says whether the
/// key list is open; `row` is the part of the strip being driven, `None`
/// when there is no strip; `showing` whether the strip is on screen.
pub open spec fn back_out_step(shortcuts: bool, row: Option<Row>, showing: bool) -> BackOut {
    if shortcuts {
        BackOut::CloseShortcuts
    } else {
        match row {
            None => BackOut::GoBack,
            Some(Row::Volume) | Some(Row::Audio) | Some(Row::Subtitles) => BackOut::SetRow(Row::Buttons),
            Some(Row::Buttons) | Some(Row::Timeline) => BackOut::SetRow(Row::Idle),
            Some(Row::Idle) => if showing { BackOut::Hide } else { BackOut::GoBack },
        }
    }
}

/// The rung of the ladder one press of back takes.
pub fn back_out(shortcuts: bool, row: Option<Row>, showing: bool) -> (step: BackOut)
    ensures
        step == back_out_step(shortcuts, row, showing),
{
    if shortcuts {
        return BackOut::CloseShortcuts;
    }
    match row {
        None => BackOut::GoBack,
        Some(Row::Volume) | Some(Row::Audio) | Some(Row::Subtitles) => BackOut::SetRow(Row::Buttons),
        Some(Row::Buttons) | Some(Row::Timeline) => BackOut::SetRow(Row::Idle),
        Some(Row::Idle) => if showing { BackOut::Hide } else { BackOut::GoBack },
    }
}

/// Leaving the film is the last rung and never a shortcut past the others:
/// back goes back a screen only once no key list, menu, chooser or strip is
/// left over the film. From an open chooser it takes exactly three presses:
/// to the buttons, off the strip, and then out.
pub proof fn leaving_is_the_last_rung(shortcuts: bool, row: Option<Row>, showing: bool)
    ensures
        back_out_step(shortcuts, row, showing) == BackOut::GoBack
            ==> !shortcuts && (row is None || (row == Some(Row::Idle) && !showing)),
        row == Some(Row::Audio) ==> ({
            let first = back_out_step(false, row, showing);
            &&& first == BackOut::SetRow(Row::Buttons)
            &&& back_out_step(false, Some(Row::Buttons), showing) == BackOut::SetRow(Row::Idle)
            &&& back_out_step(false, Some(Row::Idle), false) == BackOut::GoBack
        }),
{
}

/// What Left or Right does during playback.
#[derive(Clone, Copy, PartialEq, Eq, Debug, Structural)]
pub enum SideStep {
    /// Nothing: there is nowhere sideways to go in an open chooser, and
    /// seeking the film out from under it would be worse.
    Nothing,
    /// Turn the output highlighted in the volume menu up or down.
    AdjustLevel(i8),
    /// Move along the row of buttons.
    MoveFocus(i8),
    /// Seek through the film.
    Scrub(i8),
}

/// Left and right: along the buttons while the button row is held, the
/// level in the volume menu, nothing in a chooser, and through the video
/// everywhere else. `direction` is negative for left.
pub open spec fn side_step(row: Row, direction: i8) -> SideStep {
    match row {
        Row::Subtitles | Row::Audio => SideStep::Nothing,
        Row::Volume => SideStep::AdjustLevel(direction),
        Row::Buttons => SideStep::MoveFocus(direction),
        Row::Idle | Row::Timeline => SideStep::Scrub(direction),
    }
}

/// What Left or Right does during playback; see `side_step`.
pub fn controls_left_right(row: Row, direction: i8) -> (step: SideStep)
    ensures
        step == side_step(row, direction),
{
    match row {
        Row::Subtitles | Row::Audio => SideStep::Nothing,
        Row::Volume => SideStep::AdjustLevel(direction),
        Row::Buttons => SideStep::MoveFocus(direction),
        Row::Idle | Row::Timeline => SideStep::Scrub(direction),
    }
}

/// A media command, from a key on a keyboard, a headset or a remote.
#[derive(Clone, Copy, PartialEq, Eq, Debug, Structural)]
pub enum MediaCommand {
    Play,
    Pause,
    PlayPause,
    Stop,
    Next,
    Previous,
}

/// What a media command does.
#[derive(Clone, Copy, PartialEq, Eq, Debug, Structural)]
pub enum MediaStep {
    /// Start playing the chosen video.
    Start,
    /// Pause a playing film, or play a paused one.
    Flip,
    /// Nothing, because what was asked for is already true; the key is
    /// still taken.
    Keep,
    /// Back out of the film, as Escape does.
    GoBack,
    /// A step forward through the film, or back.
    Skip(bool),
    /// Not ours: the key goes to whatever else would have played.
    Decline,
}

/// What a media command does: `playing` is `None` with no film running,
/// and otherwise whether it is playing rather than paused; `ready` says
/// whether a video is chosen and there is an output to play it through.
pub open spec fn media_step(command: MediaCommand, playing: Option<bool>, ready: bool) -> MediaStep {
    match playing {
        None => match command {
            MediaCommand::Play | MediaCommand::PlayPause => if ready { MediaStep::Start } else { MediaStep::Decline },
            _ => MediaStep::Decline,
        },
        Some(is_playing) => match command {
            MediaCommand::PlayPause => MediaStep::Flip,
            MediaCommand::Play => if !is_playing { MediaStep::Flip } else { MediaStep::Keep },
            MediaCommand::Pause => if is_playing { MediaStep::Flip } else { MediaStep::Keep },
            MediaCommand::Stop => MediaStep::GoBack,
            MediaCommand::Next => MediaStep::Skip(true),
            MediaCommand::Previous => MediaStep::Skip(false),
        },
    }
}

/// What a media command does, and whether the key was ours; see
/// `media_step`.
pub fn handle_media(command: MediaCommand, playing: Option<bool>, ready: bool) -> (step: MediaStep)
    ensures
        step == media_step(command, playing, ready),
{
    match playing {
        None => match command {
            MediaCommand::Play | MediaCommand::PlayPause => if ready { MediaStep::Start } else { MediaStep::Decline },
            _ => MediaStep::Decline,
        },
        Some(is_playing) => match command {
            MediaCommand::PlayPause => MediaStep::Flip,
            MediaCommand::Play => if !is_playing { MediaStep::Flip } else { MediaStep::Keep },
            MediaCommand::Pause => if is_playing { MediaStep::Flip } else { MediaStep::Keep },
            MediaCommand::Stop => MediaStep::GoBack,
            MediaCommand::Next => MediaStep::Skip(true),
            MediaCommand::Previous => MediaStep::Skip(false),
        },
    }
}

/// Separate play and pause keys mean what they say: after Play a film is
/// playing and after Pause it is paused, whichever it was before; and every
/// key is taken while a film is running.
pub proof fn play_and_pause_mean_what_they_say(is_playing: bool, command: MediaCommand, ready: bool)
    ensures
        command == MediaCommand::Play ==> ((media_step(command, Some(is_playing), ready) == MediaStep::Flip) != is_playing),
        command == MediaCommand::Pause ==> ((media_step(command, Some(is_playing), ready) == MediaStep::Flip) == is_playing),
        media_step(command, Some(is_playing), ready) != MediaStep::Decline,
{
}


/// A command from a Jellyfin app acting as a remote, without what it carries.
#[derive(Clone, Copy, PartialEq, Eq, Debug, Structural)]
pub enum RemoteCommand {
    /// Play an item of the library.
    Play,
    Pause,
    Unpause,
    PlayPause,
    Stop,
    /// Seek to a position.
    Seek,
    /// Set the level over both outputs.
    SetVolume,
    Mute,
    Unmute,
    ToggleMute,
    /// Play one of the film's soundtracks, by the library's number for it.
    SetAudioStream,
    /// Show one of its subtitles, or none.
    SetSubtitleStream,
    /// The pairing was revoked while it was held.
    SignedOut,
}

/// What a command from a remote does.
#[derive(Clone, Copy, PartialEq, Eq, Debug, Structural)]
pub enum RemoteStep {
    /// Look the item up and play it.
    PlayItem,
    /// Pause a playing film or play a paused one, and bring up the strip.
    Flip,
    /// Nothing, because what was asked for is already true or there is no
    /// film to do it to.
    Nothing,
    /// Back out of the film.
    GoBack,
    /// Seek, where there is a film, and tell the system where it now is.
    Seek,
    /// Move the level over both outputs, as the person in the room would.
    SetLevel,
    /// Silence everything, or undo that; `None` turns it over.
    Hush(Option<bool>),
    /// Choose a soundtrack from the first output's list.
    ChooseAudio,
    /// Choose from the subtitle list.
    ChooseSubtitle,
    /// Put the pairing down rather than retrying it.
    SignOut,
}

/// What a command from a remote does: `playing` is `None` with no film
/// running, and otherwise whether it is playing rather than paused.
pub open spec fn remote_step(command: RemoteCommand, playing: Option<bool>) -> RemoteStep {
    match command {
        RemoteCommand::Play => RemoteStep::PlayItem,
        RemoteCommand::Pause => if playing == Some(true) { RemoteStep::Flip } else { RemoteStep::Nothing },
        RemoteCommand::Unpause => if playing == Some(false) { RemoteStep::Flip } else { RemoteStep::Nothing },
        RemoteCommand::PlayPause => if playing is Some { RemoteStep::Flip } else { RemoteStep::Nothing },
        RemoteCommand::Stop => if playing is Some { RemoteStep::GoBack } else { RemoteStep::Nothing },
        RemoteCommand::Seek => RemoteStep::Seek,
        RemoteCommand::SetVolume => RemoteStep::SetLevel,
        RemoteCommand::Mute => RemoteStep::Hush(Some(true)),
        RemoteCommand::Unmute => RemoteStep::Hush(Some(false)),
        RemoteCommand::ToggleMute => RemoteStep::Hush(None),
        RemoteCommand::SetAudioStream => RemoteStep::ChooseAudio,
        RemoteCommand::SetSubtitleStream => RemoteStep::ChooseSubtitle,
        RemoteCommand::SignedOut => RemoteStep::SignOut,
    }
}

/// What a command from a remote does; see `remote_step`. The remote moves
/// the same level and picks from the same lists the person in the room does.
pub fn handle_remote(command: RemoteCommand, playing: Option<bool>) -> (step: RemoteStep)
    ensures
        step == remote_step(command, playing),
{
    match command {
        RemoteCommand::Play => RemoteStep::PlayItem,
        RemoteCommand::Pause => if playing == Some(true) { RemoteStep::Flip } else { RemoteStep::Nothing },
        RemoteCommand::Unpause => if playing == Some(false) { RemoteStep::Flip } else { RemoteStep::Nothing },
        RemoteCommand::PlayPause => if playing.is_some() { RemoteStep::Flip } else { RemoteStep::Nothing },
        RemoteCommand::Stop => if playing.is_some() { RemoteStep::GoBack } else { RemoteStep::Nothing },
        RemoteCommand::Seek => RemoteStep::Seek,
        RemoteCommand::SetVolume => RemoteStep::SetLevel,
        RemoteCommand::Mute => RemoteStep::Hush(Some(true)),
        RemoteCommand::Unmute => RemoteStep::Hush(Some(false)),
        RemoteCommand::ToggleMute => RemoteStep::Hush(None),
        RemoteCommand::SetAudioStream => RemoteStep::ChooseAudio,
        RemoteCommand::SetSubtitleStream => RemoteStep::ChooseSubtitle,
        RemoteCommand::SignedOut => RemoteStep::SignOut,
    }
}

/// A remote's pause never starts a paused film and its unpause never stops a
/// playing one; and with no film running, nothing a remote sends plays,
/// pauses or leaves anything.
pub proof fn remote_pause_means_pause(command: RemoteCommand, playing: Option<bool>)
    ensures
        command == RemoteCommand::Pause && remote_step(command, playing) == RemoteStep::Flip ==> playing == Some(true),
        command == RemoteCommand::Unpause && remote_step(command, playing) == RemoteStep::Flip ==> playing == Some(false),
        playing is None ==> remote_step(command, playing) != RemoteStep::Flip && remote_step(command, playing) != RemoteStep::GoBack,
{
}

} // verus!
