//! A video's page: which rows its list holds and which of them can be
//! worked, whether it can be played, and the buttons along its top.

use vstd::prelude::*;
use crate::rows::Role;

verus! {

/// What a row of a video's page opens.
#[derive(Clone, Copy, PartialEq, Eq, Debug, Structural)]
pub enum PageRow {
    /// The output device chooser for one output.
    Device(Role),
    /// The soundtrack chooser for one output.
    Track(Role),
    /// Measuring how far an output's separate audio file is out.
    Align(Role),
    /// The subtitle chooser.
    Subtitles,
}

/// A row of the page as a contract sees it: the heading its group opens
/// with, what it opens, and whether it can be worked.
pub type PageRowView = (Option<Seq<char>>, PageRow, bool);

/// The rows of a video's page. Each output has its device and its track,
/// and an alignment row where it plays a separate audio file that can be
/// measured (`aligns`); a track can only be chosen with a video loaded, and
/// the second output's only with a device to play it on, which is also the
/// only way its alignment row appears. The subtitles come last.
pub open spec fn page_rows_of(has_file: bool, has_secondary: bool, aligns: (bool, bool)) -> Seq<PageRowView> {
    seq![
        (Some("FIRST OUTPUT"@), PageRow::Device(Role::Primary), true),
        (None, PageRow::Track(Role::Primary), has_file),
    ]
        + (if aligns.0 { seq![(None::<Seq<char>>, PageRow::Align(Role::Primary), true)] } else { Seq::empty() })
        + seq![
            (Some("SECOND OUTPUT"@), PageRow::Device(Role::Secondary), true),
            (None, PageRow::Track(Role::Secondary), has_file && has_secondary),
        ]
        + (if has_secondary && aligns.1 {
            seq![(None::<Seq<char>>, PageRow::Align(Role::Secondary), true)]
        } else {
            Seq::empty()
        })
        + seq![(Some("SUBTITLES"@), PageRow::Subtitles, has_file)]
}

/// A row of the page as a contract sees it.
pub open spec fn page_row_view(row: (Option<String>, PageRow, bool)) -> PageRowView {
    (
        match row.0 {
            Some(heading) => Some(heading@),
            None => None,
        },
        row.1,
        row.2,
    )
}

fn heading(text: &str) -> (row: Option<String>)
    ensures
        row matches Some(s) && s@ == text@,
{
    Some(text.to_owned())
}

/// The rows of a video's page; see `page_rows_of`. `aligns` says, output by
/// output, whether it plays a separate audio file that can be measured.
pub fn page_rows(has_file: bool, has_secondary: bool, aligns: (bool, bool)) -> (rows: Vec<(Option<String>, PageRow, bool)>)
    ensures
        rows@.map_values(|row: (Option<String>, PageRow, bool)| page_row_view(row))
            =~= page_rows_of(has_file, has_secondary, aligns),
{
    let mut rows: Vec<(Option<String>, PageRow, bool)> = Vec::new();
    rows.push((heading("FIRST OUTPUT"), PageRow::Device(Role::Primary), true));
    rows.push((None, PageRow::Track(Role::Primary), has_file));
    if aligns.0 {
        rows.push((None, PageRow::Align(Role::Primary), true));
    }
    rows.push((heading("SECOND OUTPUT"), PageRow::Device(Role::Secondary), true));
    rows.push((None, PageRow::Track(Role::Secondary), has_file && has_secondary));
    if has_secondary && aligns.1 {
        rows.push((None, PageRow::Align(Role::Secondary), true));
    }
    rows.push((heading("SUBTITLES"), PageRow::Subtitles, has_file));
    rows
}

/// Whether the video can be played: there is a video, and an output to
/// play it through.
pub fn can_play(has_file: bool, has_primary_device: bool) -> (plays: bool)
    ensures
        plays == (has_file && has_primary_device),
{
    has_file && has_primary_device
}

/// A button along the top of a video's page.
#[derive(Clone, Copy, PartialEq, Eq, Debug, Structural)]
pub enum PageButton {
    /// Play, or resume from where the video was left.
    Play,
    /// Start again from the beginning, beside a resume.
    Restart,
    /// Choose another video.
    Open,
    /// The settings.
    Settings,
    /// Fullscreen, where the viewer may change it.
    Fullscreen,
    Close,
}

/// The buttons along the top of the page, left to right: play, and restart
/// beside it when there is a position to resume from; the way to another
/// video unless something else chose this one; the settings; fullscreen
/// where it is offered; and close.
pub open spec fn page_buttons_of(resumable: bool, external: bool, fullscreen: bool) -> Seq<PageButton> {
    seq![PageButton::Play]
        + (if resumable { seq![PageButton::Restart] } else { Seq::empty() })
        + (if !external { seq![PageButton::Open] } else { Seq::empty() })
        + seq![PageButton::Settings]
        + (if fullscreen { seq![PageButton::Fullscreen] } else { Seq::empty() })
        + seq![PageButton::Close]
}

/// The buttons along the top of the page; see `page_buttons_of`.
pub fn page_buttons(resumable: bool, external: bool, fullscreen: bool) -> (buttons: Vec<PageButton>)
    ensures
        buttons@ =~= page_buttons_of(resumable, external, fullscreen),
{
    let mut buttons: Vec<PageButton> = Vec::new();
    buttons.push(PageButton::Play);
    if resumable {
        buttons.push(PageButton::Restart);
    }
    if !external {
        buttons.push(PageButton::Open);
    }
    buttons.push(PageButton::Settings);
    if fullscreen {
        buttons.push(PageButton::Fullscreen);
    }
    buttons.push(PageButton::Close);
    buttons
}

/// A row of a video's page is worked only when what it works on exists: a
/// track chooser only with a video loaded, the second output's track only
/// with a device for it too, and nothing about the second output's
/// alignment without that device. Every page has both devices, both tracks
/// and the subtitles, and opens with the first output's heading.
pub proof fn page_rows_need_what_they_work_on(has_file: bool, has_secondary: bool, aligns: (bool, bool))
    ensures
        ({
            let rows = page_rows_of(has_file, has_secondary, aligns);
            &&& forall|i: int| 0 <= i < rows.len() && (#[trigger] rows[i]).1 == PageRow::Track(Role::Primary) ==> rows[i].2 == has_file
            &&& forall|i: int| 0 <= i < rows.len() && (#[trigger] rows[i]).1 == PageRow::Track(Role::Secondary)
                ==> rows[i].2 == (has_file && has_secondary)
            &&& forall|i: int| 0 <= i < rows.len() ==> (#[trigger] rows[i]).1 != PageRow::Align(Role::Secondary) || has_secondary
            &&& rows[0] == (Some("FIRST OUTPUT"@), PageRow::Device(Role::Primary), true)
            &&& rows.last() == (Some("SUBTITLES"@), PageRow::Subtitles, has_file)
            &&& rows.len() == 5 + (if aligns.0 { 1int } else { 0 }) + (if has_secondary && aligns.1 { 1int } else { 0 })
        }),
{
    let rows = page_rows_of(has_file, has_secondary, aligns);
    assert forall|i: int| 0 <= i < rows.len() implies {
        &&& ((#[trigger] rows[i]).1 == PageRow::Track(Role::Primary) ==> rows[i].2 == has_file)
        &&& (rows[i].1 == PageRow::Track(Role::Secondary) ==> rows[i].2 == (has_file && has_secondary))
        &&& (rows[i].1 != PageRow::Align(Role::Secondary) || has_secondary)
    } by {
        let a: int = if aligns.0 { 1 } else { 0 };
        if i == 0 {
        } else if i == 1 {
        } else if i < 2 + a {
        } else if i == 2 + a {
        } else if i == 3 + a {
        } else {
        }
    }
}

} // verus!
