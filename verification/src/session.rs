//! What the menu holds for the video loaded - the device, track, audio file
//! and alignment of each output, and their levels - and how a choice, a
//! moved bar or a new video changes it. And the navigation of a screen, put
//! aside while something is open over it.

use vstd::prelude::*;
use crate::choices::{DevicePick, TrackPick};
use crate::rows::{clamped, Role};

verus! {

/// What one output plays, and where.
pub struct Output {
    /// The device it plays through, by name.
    pub sink: Option<String>,
    /// The stream inside the video it plays.
    pub track: Option<u32>,
    /// The separate audio file it plays instead, by its path.
    pub file: Option<String>,
    /// The alignment baseline in force, in milliseconds: what measuring
    /// found for its audio file, negated, since a sink is held back by a
    /// negative offset; nought without a file.
    pub baseline_ms: i64,
}

/// What the menu holds for the two outputs.
pub struct Session {
    pub primary: Output,
    pub secondary: Output,
}

/// Whether two outputs hold the same thing.
pub open spec fn same_output(a: Output, b: Output) -> bool {
    &&& a.sink == b.sink
    &&& a.track == b.track
    &&& a.file == b.file
    &&& a.baseline_ms == b.baseline_ms
}

/// The output a role names.
pub open spec fn output_of(session: Session, role: Role) -> Output {
    match role {
        Role::Primary => session.primary,
        Role::Secondary => session.secondary,
    }
}

/// The other output.
pub open spec fn other(role: Role) -> Role {
    match role {
        Role::Primary => Role::Secondary,
        Role::Secondary => Role::Primary,
    }
}

/// Whether an output has been switched off: no device, and with it no
/// track, no audio file and no alignment.
pub open spec fn switched_off(output: Output) -> bool {
    &&& output.sink is None
    &&& output.track is None
    &&& output.file is None
    &&& output.baseline_ms == 0
}

impl Session {
    /// What picking a device does. A device is put in force on its output.
    /// Switching the secondary output off clears its track and its audio
    /// file with it - left set, they would be choices the menu shows and the
    /// pipeline tries to honour against an output that no longer exists - and
    /// the file's alignment goes with the file. The primary output is never
    /// cleared.
    pub fn apply_device(&mut self, secondary: bool, pick: DevicePick)
        ensures
            match pick {
                DevicePick::Unchanged => same_output(final(self).primary, old(self).primary)
                    && same_output(final(self).secondary, old(self).secondary),
                DevicePick::Use(name) => if secondary {
                    &&& final(self).secondary.sink == Some(name)
                    &&& final(self).secondary.track == old(self).secondary.track
                    &&& final(self).secondary.file == old(self).secondary.file
                    &&& final(self).secondary.baseline_ms == old(self).secondary.baseline_ms
                    &&& same_output(final(self).primary, old(self).primary)
                } else {
                    &&& final(self).primary.sink == Some(name)
                    &&& final(self).primary.track == old(self).primary.track
                    &&& final(self).primary.file == old(self).primary.file
                    &&& final(self).primary.baseline_ms == old(self).primary.baseline_ms
                    &&& same_output(final(self).secondary, old(self).secondary)
                },
                DevicePick::SwitchOff => switched_off(final(self).secondary)
                    && same_output(final(self).primary, old(self).primary),
            },
    {
        match pick {
            DevicePick::Unchanged => {},
            DevicePick::Use(name) => {
                if secondary {
                    self.secondary.sink = Some(name);
                } else {
                    self.primary.sink = Some(name);
                }
            },
            DevicePick::SwitchOff => {
                self.secondary.sink = None;
                self.secondary.track = None;
                self.secondary.file = None;
                self.secondary.baseline_ms = 0;
            },
        }
    }

    /// What picking a row of a soundtrack chooser does to the output it is
    /// for. A track inside the video, or "None", is a choice not to use a
    /// separate file on that output, so the file goes, and the alignment
    /// measured for it with it. A file found beside the video is taken up as
    /// one chosen by hand is, with the alignment stored for it (`stored`, in
    /// milliseconds late), and the track it displaces is kept, so clearing
    /// the file falls back to it. Browsing, and a row that stands for
    /// nothing, change nothing here.
    pub fn apply_track(&mut self, role: Role, pick: TrackPick, found: &[String], stored: Option<i64>)
        requires
            stored matches Some(ms) ==> ms > i64::MIN,
        ensures
            same_output(output_of(*final(self), other(role)), output_of(*old(self), other(role))),
            output_of(*final(self), role).sink == output_of(*old(self), role).sink,
            match pick {
                TrackPick::UseTrack(track) => {
                    &&& output_of(*final(self), role).track == track
                    &&& output_of(*final(self), role).file is None
                    &&& output_of(*final(self), role).baseline_ms == 0
                },
                TrackPick::UseFound(position) => if position < found@.len() {
                    &&& output_of(*final(self), role).track == output_of(*old(self), role).track
                    &&& output_of(*final(self), role).file matches Some(path) && path@ == found@[position as int]@
                    &&& output_of(*final(self), role).baseline_ms == match stored {
                        Some(ms) => -ms,
                        None => 0,
                    }
                } else {
                    same_output(output_of(*final(self), role), output_of(*old(self), role))
                },
                _ => same_output(output_of(*final(self), role), output_of(*old(self), role)),
            },
    {
        let (track, file, baseline) = match pick {
            TrackPick::UseTrack(track) => (Some(track), Some(None), 0i64),
            TrackPick::UseFound(position) => {
                if position < found.len() {
                    let baseline = match stored {
                        Some(ms) => -ms,
                        None => 0,
                    };
                    (None, Some(Some(found[position].clone())), baseline)
                } else {
                    return;
                }
            },
            _ => {
                return;
            },
        };
        let output = match role {
            Role::Primary => &mut self.primary,
            Role::Secondary => &mut self.secondary,
        };
        if let Some(track) = track {
            output.track = track;
        }
        if let Some(file) = file {
            output.file = file;
        }
        output.baseline_ms = baseline;
    }

    /// A video that could not be read leaves nothing of itself behind: no
    /// track chosen on either output. The devices, and any separate audio
    /// files, are the viewer's and stay.
    pub fn forget_tracks(&mut self)
        ensures
            final(self).primary.track is None,
            final(self).secondary.track is None,
            final(self).primary.sink == old(self).primary.sink,
            final(self).secondary.sink == old(self).secondary.sink,
            final(self).primary.file == old(self).primary.file,
            final(self).secondary.file == old(self).secondary.file,
    {
        self.primary.track = None;
        self.secondary.track = None;
    }
}

/// An output's level and whether it is silenced, as its bar sets them.
#[derive(Clone, Copy, PartialEq, Eq, Debug, Structural)]
pub struct Level {
    /// In thousandths of a per cent.
    pub value: i64,
    pub muted: bool,
}

/// Where moving an output's bar to `moved` leaves its level.
pub open spec fn level_moved(moved: int) -> Level {
    Level { value: clamped(moved, 0, 100000) as i64, muted: false }
}

/// Moving an output's level bar: the level goes where the bar was moved,
/// held to the bar's ends, and the output is heard again. Turning an output
/// up unmutes it, as the panel during playback does.
pub fn set_level(level: &mut Level, moved: i64)
    ensures
        *final(level) == level_moved(moved as int),
{
    let value = if moved < 0 { 0 } else if moved > 100000 { 100000 } else { moved };
    *level = Level { value, muted: false };
}

/// Moving a level never leaves the output silenced, and keeps it on its bar.
pub proof fn moving_a_level_unmutes(moved: int)
    ensures
        !level_moved(moved).muted,
        0 <= level_moved(moved).value <= 100000,
{
}

/// What an output is held back by, in milliseconds: what the viewer asked
/// for (`applied`, nothing while the delay is switched off), plus the
/// alignment baseline - but only while the output plays the separate file
/// that baseline was measured for (`paired`). A track inside the video
/// shares the video's timeline, and carrying the baseline across to it
/// would leave it out of step with the picture.
pub open spec fn offset_of(applied: int, baseline: int, paired: bool) -> int {
    applied + if paired { baseline } else { 0 }
}

/// What an output is held back by; see `offset_of`.
pub fn offset_for(applied: i64, baseline: i64, paired: bool) -> (offset: i128)
    ensures
        offset == offset_of(applied as int, baseline as int, paired),
{
    applied as i128 + if paired { baseline as i128 } else { 0 }
}

/// The baseline counts only while its file plays: an output playing a track
/// is held back by exactly what the viewer asked for, whatever was measured.
pub proof fn baseline_only_with_its_file(applied: int, baseline: int)
    ensures
        offset_of(applied, baseline, false) == applied,
        offset_of(applied, baseline, true) == applied + baseline,
{
}

/// What a screen's navigation is made of: the list the arrows drive, the
/// buttons above and below it, the row of buttons between the two, the
/// button Up lands on, the stops Tab walks, and the text that copying reads -
/// each by the widget it is.
pub struct Nav {
    pub list: Option<u64>,
    pub header: Vec<u64>,
    pub middle: Vec<u64>,
    pub footer: Vec<u64>,
    pub header_entry: Option<u64>,
    pub stops: Vec<u64>,
    pub copy_root: Option<u64>,
}

/// The stops Tab walks on a screen: the buttons above, the column beside
/// the list, the list, and the buttons below.
pub open spec fn stops_of(list: Option<u64>, header: Seq<u64>, footer: Seq<u64>, side: Option<u64>) -> Seq<u64> {
    let with_side = match side { Some(s) => header.push(s), None => header };
    let with_list = match list { Some(l) => with_side.push(l), None => with_side };
    with_list + footer
}

/// Whether two navigations are the same.
pub open spec fn same_nav(a: Nav, b: Nav) -> bool {
    &&& a.list == b.list
    &&& a.header@ == b.header@
    &&& a.middle@ == b.middle@
    &&& a.footer@ == b.footer@
    &&& a.header_entry == b.header_entry
    &&& a.stops@ == b.stops@
    &&& a.copy_root == b.copy_root
}

impl Nav {
    /// The screen's navigation, put aside so something opened over it can
    /// have the keyboard for a while.
    pub fn take(&self) -> (saved: Nav)
        ensures
            same_nav(saved, *self),
    {
        let saved = Nav {
            list: self.list,
            header: self.header.clone(),
            middle: self.middle.clone(),
            footer: self.footer.clone(),
            header_entry: self.header_entry,
            stops: self.stops.clone(),
            copy_root: self.copy_root,
        };
        assert(saved.header@ =~= self.header@);
        assert(saved.middle@ =~= self.middle@);
        assert(saved.footer@ =~= self.footer@);
        assert(saved.stops@ =~= self.stops@);
        saved
    }

    /// Records what the arrows move through on a screen: its list, the
    /// buttons above and below it, and a column beside the list where there
    /// is one. Whatever an earlier screen said of the middle row, the button
    /// Up lands on and the text to copy belongs to that screen alone, so all
    /// three are cleared; Tab walks the buttons above, the column, the list
    /// and the buttons below, in that order.
    pub fn wire(&mut self, list: Option<u64>, header: Vec<u64>, footer: Vec<u64>, side: Option<u64>)
        ensures
            final(self).list == list,
            final(self).header@ == header@,
            final(self).middle@ == Seq::<u64>::empty(),
            final(self).footer@ == footer@,
            final(self).header_entry is None,
            final(self).copy_root is None,
            final(self).stops@ == stops_of(list, header@, footer@, side),
    {
        let mut stops: Vec<u64> = header.clone();
        match side {
            Some(s) => stops.push(s),
            None => {},
        }
        match list {
            Some(l) => stops.push(l),
            None => {},
        }
        let ghost before = stops@;
        let mut i: usize = 0;
        while i < footer.len()
            invariant
                i <= footer@.len(),
                stops@ == before + footer@.take(i as int),
            decreases footer@.len() - i,
        {
            stops.push(footer[i]);
            proof {
                assert(footer@.take(i + 1) =~= footer@.take(i as int).push(footer@[i as int]));
            }
            i = i + 1;
        }
        proof {
            assert(footer@.take(footer@.len() as int) =~= footer@);
            assert(stops@ =~= stops_of(list, header@, footer@, side));
        }
        *self = Nav {
            list,
            header,
            middle: Vec::new(),
            footer,
            header_entry: None,
            stops,
            copy_root: None,
        };
    }

    /// Gives the screen a row of buttons between its list and the buttons
    /// below it, which Up and Down pass through.
    pub fn set_middle(&mut self, middle: Vec<u64>)
        ensures
            final(self).middle@ == middle@,
            final(self).list == old(self).list,
            final(self).header@ == old(self).header@,
            final(self).footer@ == old(self).footer@,
            final(self).header_entry == old(self).header_entry,
            final(self).stops@ == old(self).stops@,
            final(self).copy_root == old(self).copy_root,
    {
        self.middle = middle;
    }

    /// The screen underneath given its navigation back.
    pub fn put(&mut self, saved: Nav)
        ensures
            same_nav(*final(self), saved),
    {
        *self = saved;
    }
}

/// A popover gives the arrows back exactly as it found them: what `take`
/// saved (`saved`, from `before`), `put` back after whatever the popover did
/// with the navigation while it was open, leaves the screen underneath as it
/// was.
pub proof fn navigation_comes_back_as_it_was(before: Nav, saved: Nav, after: Nav)
    requires
        same_nav(saved, before),
        same_nav(after, saved),
    ensures
        same_nav(after, before),
{
}

} // verus!
