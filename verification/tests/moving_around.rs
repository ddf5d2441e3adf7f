use tineplayer::navigation::{button_landing, list_landing, neighbour_list, next_stop, ButtonRow, Landing, ListFocus, PAGE_ROWS};
use tineplayer::screens::{go_back, remember_origin, toggle_fullscreen, BackStep, FullscreenStep, Screen};
use tineplayer::strip::{
    back_out, controls_left_right, enter_controls, handle_media, handle_remote, leave_controls, BackOut, MediaCommand,
    MediaStep, RemoteCommand, RemoteStep, Row, SideStep, StripStep,
};

#[test]
fn a_list_has_hard_edges_and_buttons_beyond_them() {
    assert_eq!(list_landing(ListFocus::Row(3), 1, 9), Landing::Row(4));
    assert_eq!(list_landing(ListFocus::Row(0), -1, 9), Landing::Header);
    assert_eq!(list_landing(ListFocus::Row(9), 1, 9), Landing::Footer);
    assert_eq!(list_landing(ListFocus::Row(3), -PAGE_ROWS, 9), Landing::Row(0));
    assert_eq!(list_landing(ListFocus::Row(5), PAGE_ROWS, 9), Landing::Row(9));
    assert_eq!(list_landing(ListFocus::Header, 1, 9), Landing::Row(0));
    assert_eq!(list_landing(ListFocus::Header, -1, 9), Landing::Stay);
    assert_eq!(list_landing(ListFocus::Footer, -1, 9), Landing::Row(9));
    assert_eq!(list_landing(ListFocus::Footer, 1, 9), Landing::Stay);
}

#[test]
fn an_empty_middle_row_of_buttons_is_stepped_over() {
    assert_eq!(button_landing(1, ButtonRow::Header, true, false, true), Some(ButtonRow::Footer));
    assert_eq!(button_landing(1, ButtonRow::Header, true, true, true), Some(ButtonRow::Middle));
    assert_eq!(button_landing(-1, ButtonRow::Footer, true, false, true), Some(ButtonRow::Header));
    assert_eq!(button_landing(-1, ButtonRow::Middle, false, true, true), None);
    assert_eq!(button_landing(1, ButtonRow::Elsewhere, true, true, true), None);
}

#[test]
fn tab_goes_round_the_stops() {
    assert_eq!(next_stop(Some(2), 1, 3), Some(0));
    assert_eq!(next_stop(Some(0), -1, 3), Some(2));
    assert_eq!(next_stop(Some(1), 1, 3), Some(2));
    assert_eq!(next_stop(None, 1, 3), Some(0));
    assert_eq!(next_stop(None, -1, 3), Some(2));
    assert_eq!(next_stop(None, 1, 0), None);
    assert_eq!(next_stop(Some(1), -7, 3), Some(0));
    assert_eq!(next_stop(Some(1), 8, 3), Some(0));
}

#[test]
fn left_and_right_move_between_lists_only() {
    let lists = [false, true, true, false];
    assert_eq!(neighbour_list(Some(1), 1, &lists, false), Some(2));
    assert_eq!(neighbour_list(Some(2), -1, &lists, false), Some(1));
    assert_eq!(neighbour_list(Some(2), 1, &lists, false), None);
    assert_eq!(neighbour_list(Some(0), 1, &lists, false), None);
    assert_eq!(neighbour_list(Some(1), 1, &lists, true), None);
    assert_eq!(neighbour_list(None, 1, &lists, false), None);
}

#[test]
fn back_goes_one_level_up() {
    assert_eq!(go_back(Screen::Playing, false, false), BackStep::LeavePlayback);
    assert_eq!(go_back(Screen::Menu, false, false), BackStep::AskToQuit);
    assert_eq!(go_back(Screen::Error, false, true), BackStep::CloseWindow);
    assert_eq!(go_back(Screen::Error, false, false), BackStep::ShowMenu);
    assert_eq!(go_back(Screen::Settings, true, false), BackStep::HoldSettingsCategories);
    assert_eq!(go_back(Screen::Settings, false, false), BackStep::ShowMenu);
    assert_eq!(go_back(Screen::KodiConfirm, false, false), BackStep::ReturnToKodiSettings);
    assert_eq!(go_back(Screen::Browser, false, false), BackStep::ReturnToOrigin);
    assert_eq!(go_back(Screen::Opening, false, false), BackStep::ShowPasteUri);
}

#[test]
fn a_modal_never_becomes_its_own_origin() {
    assert_eq!(remember_origin(Screen::VideoSource, Screen::Menu), Screen::VideoSource);
    assert_eq!(remember_origin(Screen::Browser, Screen::VideoSource), Screen::VideoSource);
    assert_eq!(remember_origin(Screen::PasteUri, Screen::Menu), Screen::Menu);
}

#[test]
fn the_strip_is_climbed_and_let_go() {
    assert_eq!(enter_controls(Row::Idle), StripStep::SetRow(Row::Buttons));
    assert_eq!(enter_controls(Row::Buttons), StripStep::SetRow(Row::Timeline));
    assert_eq!(enter_controls(Row::Timeline), StripStep::Nothing);
    assert_eq!(enter_controls(Row::Audio), StripStep::MoveAudio(-1));
    assert_eq!(leave_controls(Row::Timeline, false, true), StripStep::SetRow(Row::Buttons));
    assert_eq!(leave_controls(Row::Buttons, false, true), StripStep::SetRow(Row::Idle));
    assert_eq!(leave_controls(Row::Volume, true, true), StripStep::SetRow(Row::Buttons));
    assert_eq!(leave_controls(Row::Volume, false, true), StripStep::MoveOutput(1));
    assert_eq!(leave_controls(Row::Idle, false, true), StripStep::Hide);
    assert_eq!(leave_controls(Row::Idle, false, false), StripStep::Nothing);
}

#[test]
fn back_takes_one_rung_at_a_time() {
    assert_eq!(back_out(true, Some(Row::Audio), true), BackOut::CloseShortcuts);
    assert_eq!(back_out(false, Some(Row::Audio), true), BackOut::SetRow(Row::Buttons));
    assert_eq!(back_out(false, Some(Row::Buttons), true), BackOut::SetRow(Row::Idle));
    assert_eq!(back_out(false, Some(Row::Idle), true), BackOut::Hide);
    assert_eq!(back_out(false, Some(Row::Idle), false), BackOut::GoBack);
    assert_eq!(back_out(false, None, false), BackOut::GoBack);
}

#[test]
fn sideways_depends_on_what_is_held() {
    assert_eq!(controls_left_right(Row::Audio, 1), SideStep::Nothing);
    assert_eq!(controls_left_right(Row::Volume, -1), SideStep::AdjustLevel(-1));
    assert_eq!(controls_left_right(Row::Buttons, 1), SideStep::MoveFocus(1));
    assert_eq!(controls_left_right(Row::Idle, -1), SideStep::Scrub(-1));
}

#[test]
fn media_keys_mean_what_they_say() {
    assert_eq!(handle_media(MediaCommand::Play, None, true), MediaStep::Start);
    assert_eq!(handle_media(MediaCommand::Play, None, false), MediaStep::Decline);
    assert_eq!(handle_media(MediaCommand::Stop, None, true), MediaStep::Decline);
    assert_eq!(handle_media(MediaCommand::Play, Some(true), true), MediaStep::Keep);
    assert_eq!(handle_media(MediaCommand::Play, Some(false), true), MediaStep::Flip);
    assert_eq!(handle_media(MediaCommand::Pause, Some(true), true), MediaStep::Flip);
    assert_eq!(handle_media(MediaCommand::Next, Some(true), true), MediaStep::Skip(true));
    assert_eq!(handle_media(MediaCommand::Stop, Some(false), true), MediaStep::GoBack);
}

#[test]
fn a_remote_drives_what_the_room_drives() {
    assert_eq!(handle_remote(RemoteCommand::Pause, Some(true)), RemoteStep::Flip);
    assert_eq!(handle_remote(RemoteCommand::Pause, Some(false)), RemoteStep::Nothing);
    assert_eq!(handle_remote(RemoteCommand::Unpause, Some(false)), RemoteStep::Flip);
    assert_eq!(handle_remote(RemoteCommand::Stop, None), RemoteStep::Nothing);
    assert_eq!(handle_remote(RemoteCommand::Mute, None), RemoteStep::Hush(Some(true)));
    assert_eq!(handle_remote(RemoteCommand::ToggleMute, Some(true)), RemoteStep::Hush(None));
    assert_eq!(handle_remote(RemoteCommand::SignedOut, None), RemoteStep::SignOut);
}

#[test]
fn fullscreen_gives_back_the_window_it_took() {
    assert_eq!(toggle_fullscreen(true, false, false, false), FullscreenStep::Nothing);
    assert_eq!(toggle_fullscreen(false, false, true, false), FullscreenStep::Enter { was_maximized: true });
    assert_eq!(toggle_fullscreen(false, true, true, true), FullscreenStep::Leave { maximize: true });
    assert_eq!(toggle_fullscreen(false, true, true, false), FullscreenStep::Leave { maximize: false });
}
