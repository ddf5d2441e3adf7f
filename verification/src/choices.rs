//! What the choosers behind the menu rows offer, which of it is already in
//! force, and what choosing a row of them does.
//!
//! A chooser is a list of entries, each standing for a choice: `None` for the
//! "None" row most lists begin with, and otherwise a number the chooser
//! decodes again when the row is picked. Building the list and decoding the
//! pick are two halves of one convention, and the laws here are that they
//! agree.

use vstd::prelude::*;

verus! {

/// Everything a chooser needs to draw itself.
pub struct Choices {
    /// What each row says, and which choice it stands for.
    pub entries: Vec<(String, Option<usize>)>,
    /// The choice already in force, so the list opens on it rather than at
    /// the top. `None` lands on the "None" row.
    pub current: Option<usize>,
    /// Rows that begin a group, by index, and what the group is called where
    /// it is called anything.
    pub dividers: Vec<(usize, Option<String>)>,
}

/// A chooser entry as a contract sees it.
pub open spec fn entry_view(entry: (String, Option<usize>)) -> (Seq<char>, Option<usize>) {
    (entry.0@, entry.1)
}

/// A divider as a contract sees it.
pub open spec fn divider_view(divider: (usize, Option<String>)) -> (usize, Option<Seq<char>>) {
    (divider.0, match divider.1 {
        Some(caption) => Some(caption@),
        None => None,
    })
}

/// The entries of a chooser as a contract sees them.
pub open spec fn entries_view(choices: Choices) -> Seq<(Seq<char>, Option<usize>)> {
    choices.entries@.map_values(|entry: (String, Option<usize>)| entry_view(entry))
}

/// The dividers of a chooser as a contract sees them.
pub open spec fn dividers_view(choices: Choices) -> Seq<(usize, Option<Seq<char>>)> {
    choices.dividers@.map_values(|divider: (usize, Option<String>)| divider_view(divider))
}

/// The separate audio file an output is playing, as its chooser sees it.
pub enum AudioFile {
    /// None: the output plays a track inside the video.
    Absent,
    /// One of the files found beside the video, by its place in that list.
    Beside(usize),
    /// A file from anywhere else, with what it is called in a list.
    Elsewhere(String),
}

/// The same, as a contract sees it.
pub enum AudioFileView {
    Absent,
    Beside(nat),
    Elsewhere(Seq<char>),
}

pub open spec fn audio_file_view(file: AudioFile) -> AudioFileView {
    match file {
        AudioFile::Absent => AudioFileView::Absent,
        AudioFile::Beside(position) => AudioFileView::Beside(position as nat),
        AudioFile::Elsewhere(label) => AudioFileView::Elsewhere(label@),
    }
}

/// The last position in `items` that holds `wanted`, if any.
pub open spec fn last_position<A>(items: Seq<A>, wanted: A) -> Option<nat>
    decreases items.len(),
{
    if items.len() == 0 {
        None
    } else if items.last() == wanted {
        Some((items.len() - 1) as nat)
    } else {
        last_position(items.drop_last(), wanted)
    }
}

/// The first position in `items` that holds `wanted`, if any.
pub open spec fn first_position<A>(items: Seq<A>, wanted: A) -> Option<nat>
    decreases items.len(),
{
    if items.len() == 0 {
        None
    } else if items[0] == wanted {
        Some(0)
    } else {
        match first_position(items.drop_first(), wanted) {
            Some(p) => Some(p + 1),
            None => None,
        }
    }
}

/// What a string, where there is one, reads as.
pub open spec fn opt_view(text: Option<String>) -> Option<Seq<char>> {
    match text {
        Some(s) => Some(s@),
        None => None,
    }
}

/// What each string of a list reads as.
pub open spec fn texts(items: Seq<String>) -> Seq<Seq<char>> {
    items.map_values(|s: String| s@)
}

/// The rows of a soundtrack chooser: "None", the video's own tracks, the
/// audio files found beside it, and last either the file in force from
/// somewhere else or the row that goes looking for one.
pub open spec fn track_entries(
    tracks: Seq<Seq<char>>,
    found: Seq<Seq<char>>,
    file: AudioFileView,
) -> Seq<(Seq<char>, Option<usize>)> {
    let count = tracks.len();
    let last = match file {
        AudioFileView::Elsewhere(label) => label,
        _ => "Browse..."@,
    };
    seq![("None"@, None::<usize>)]
        + Seq::new(count, |p: int| (tracks[p], Some(p as usize)))
        + Seq::new(found.len(), |q: int| (found[q], Some((count + q) as usize)))
        + seq![(last, Some((count + found.len()) as usize))]
}

/// Which choice a soundtrack chooser opens on.
pub open spec fn track_current(streams: Seq<u32>, chosen: Option<u32>, found: nat, file: AudioFileView) -> Option<usize> {
    match file {
        AudioFileView::Beside(position) => Some((streams.len() + position) as usize),
        AudioFileView::Elsewhere(_) => Some((streams.len() + found) as usize),
        AudioFileView::Absent => match chosen {
            Some(stream) => match last_position(streams, stream) {
                Some(p) => Some(p as usize),
                None => None,
            },
            None => None,
        },
    }
}

/// Where a soundtrack chooser's groups begin: a rule under "None", a heading
/// over the files beside the video when there are any, and a rule above the
/// last row.
pub open spec fn track_dividers(count: nat, found: nat) -> Seq<(usize, Option<Seq<char>>)> {
    seq![(1usize, None::<Seq<char>>)]
        + (if found > 0 { seq![((count + 1) as usize, Some("AUDIO FILES"@))] } else { Seq::empty() })
        + seq![((count + found + 1) as usize, None::<Seq<char>>)]
}

fn owned(text: &str) -> (s: String)
    ensures
        s@ == text@,
{
    text.to_owned()
}

/// What the soundtrack chooser for one output offers.
///
/// `tracks` is what each track inside the video is called, and `streams` the
/// stream each one is; `chosen` is the stream in force, and `found` what the
/// audio files found beside the video are called. The file in force, if any,
/// takes precedence over the track: it is what the output plays.
pub fn track_choices(
    tracks: &[String],
    streams: &[u32],
    chosen: Option<u32>,
    found: &[String],
    file: AudioFile,
) -> (choices: Choices)
    requires
        tracks@.len() == streams@.len(),
        tracks@.len() + found@.len() + 2 <= usize::MAX,
        file matches AudioFile::Beside(position) ==> position < found@.len(),
    ensures
        entries_view(choices) =~= track_entries(
            tracks@.map_values(|t: String| t@),
            found@.map_values(|f: String| f@),
            audio_file_view(file),
        ),
        choices.current == track_current(streams@, chosen, found@.len() as nat, audio_file_view(file)),
        dividers_view(choices) =~= track_dividers(tracks@.len() as nat, found@.len() as nat),
{
    let ghost track_names = tracks@.map_values(|t: String| t@);
    let ghost found_names = found@.map_values(|f: String| f@);
    let mut entries: Vec<(String, Option<usize>)> = Vec::new();
    let mut dividers: Vec<(usize, Option<String>)> = Vec::new();
    let mut current: Option<usize> = None;
    entries.push((owned("None"), None));
    dividers.push((1, None));
    let count = tracks.len();
    let mut p: usize = 0;
    while p < count
        invariant
            count == tracks@.len(),
            tracks@.len() == streams@.len(),
            p <= count,
            track_names == tracks@.map_values(|t: String| t@),
            entries@.map_values(|entry: (String, Option<usize>)| entry_view(entry))
                =~= seq![("None"@, None::<usize>)] + Seq::new(p as nat, |i: int| (track_names[i], Some(i as usize))),
            current == match chosen {
                Some(stream) => match last_position(streams@.take(p as int), stream) {
                    Some(i) => Some(i as usize),
                    None => None,
                },
                None => None,
            },
        decreases count - p,
    {
        if chosen == Some(streams[p]) {
            current = Some(p);
        }
        let ghost earlier = entries@;
        entries.push((tracks[p].clone(), Some(p)));
        proof {
            assert(entries@.map_values(|entry: (String, Option<usize>)| entry_view(entry))
                =~= earlier.map_values(|entry: (String, Option<usize>)| entry_view(entry))
                    .push((track_names[p as int], Some(p))));
            assert(Seq::new((p + 1) as nat, |i: int| (track_names[i], Some(i as usize)))
                =~= Seq::new(p as nat, |i: int| (track_names[i], Some(i as usize)))
                    .push((track_names[p as int], Some(p))));
            assert(streams@.take(p + 1).drop_last() =~= streams@.take(p as int));
            assert(streams@.take(p + 1).last() == streams@[p as int]);
        }
        p = p + 1;
    }
    proof {
        assert(streams@.take(count as int) =~= streams@);
    }
    if found.len() > 0 {
        dividers.push((count + 1, Some(owned("AUDIO FILES"))));
    }
    let mut q: usize = 0;
    let ghost before = entries@.map_values(|entry: (String, Option<usize>)| entry_view(entry));
    while q < found.len()
        invariant
            q <= found@.len(),
            count == tracks@.len(),
            count + found@.len() + 2 <= usize::MAX,
            found_names == found@.map_values(|f: String| f@),
            entries@.map_values(|entry: (String, Option<usize>)| entry_view(entry))
                =~= before + Seq::new(q as nat, |i: int| (found_names[i], Some((count + i) as usize))),
        decreases found@.len() - q,
    {
        let ghost earlier = entries@;
        entries.push((found[q].clone(), Some(count + q)));
        proof {
            assert(entries@.map_values(|entry: (String, Option<usize>)| entry_view(entry))
                =~= earlier.map_values(|entry: (String, Option<usize>)| entry_view(entry))
                    .push((found_names[q as int], Some((count + q) as usize))));
            assert(Seq::new((q + 1) as nat, |i: int| (found_names[i], Some((count + i) as usize)))
                =~= Seq::new(q as nat, |i: int| (found_names[i], Some((count + i) as usize)))
                    .push((found_names[q as int], Some((count + q) as usize))));
        }
        q = q + 1;
    }
    let elsewhere = count + found.len();
    dividers.push((entries.len(), None));
    match file {
        AudioFile::Beside(position) => {
            current = Some(count + position);
            entries.push((owned("Browse..."), Some(elsewhere)));
        },
        AudioFile::Elsewhere(label) => {
            current = Some(elsewhere);
            entries.push((label, Some(elsewhere)));
        },
        AudioFile::Absent => {
            entries.push((owned("Browse..."), Some(elsewhere)));
        },
    }
    Choices { entries, current, dividers }
}

/// What picking a row of a soundtrack chooser does.
#[derive(Clone, Copy, PartialEq, Eq, Debug, Structural)]
pub enum TrackPick {
    /// Go looking on disk for a file.
    Browse,
    /// Play the file found beside the video at this place in that list.
    UseFound(usize),
    /// Play this stream inside the video, or nothing at all, and no separate
    /// file.
    UseTrack(Option<u32>),
    /// A row that no longer stands for anything.
    Nothing,
}

/// What picking `choice` from a soundtrack chooser does.
pub open spec fn track_pick(choice: Option<usize>, streams: Seq<u32>, found: nat) -> TrackPick {
    let count = streams.len();
    match choice {
        None => TrackPick::UseTrack(None),
        Some(index) => if index == count + found {
            TrackPick::Browse
        } else if index >= count {
            if index - count < found { TrackPick::UseFound((index - count) as usize) } else { TrackPick::Nothing }
        } else {
            TrackPick::UseTrack(Some(streams[index as int]))
        },
    }
}

/// What picking a row of a soundtrack chooser does: the row past all the
/// others goes looking on disk; a file found beside the video is taken up
/// exactly as one chosen by hand; anything inside the video, including
/// "None", is a choice not to use a separate file on that output.
pub fn pick_track(choice: Option<usize>, streams: &[u32], found: usize) -> (pick: TrackPick)
    requires
        streams@.len() + found <= usize::MAX,
    ensures
        pick == track_pick(choice, streams@, found as nat),
{
    let count = streams.len();
    match choice {
        None => TrackPick::UseTrack(None),
        Some(index) => {
            if index == count + found {
                TrackPick::Browse
            } else if index >= count {
                if index - count < found {
                    TrackPick::UseFound(index - count)
                } else {
                    TrackPick::Nothing
                }
            } else {
                TrackPick::UseTrack(Some(streams[index]))
            }
        },
    }
}

/// What is in force on an output, as picking it again would restate it.
pub open spec fn track_in_force(chosen: Option<u32>, file: AudioFileView) -> Option<TrackPick> {
    match file {
        AudioFileView::Beside(position) => Some(TrackPick::UseFound(position as usize)),
        AudioFileView::Elsewhere(_) => None,
        AudioFileView::Absent => Some(TrackPick::UseTrack(chosen)),
    }
}

proof fn lemma_last_position<A>(streams: Seq<A>, wanted: A)
    ensures
        match last_position(streams, wanted) {
            Some(p) => p < streams.len() && streams[p as int] == wanted,
            None => !streams.contains(wanted),
        },
    decreases streams.len(),
{
    if streams.len() > 0 {
        lemma_last_position(streams.drop_last(), wanted);
        if streams.last() != wanted {
            if streams.contains(wanted) {
                let i = choose|i: int| 0 <= i < streams.len() && streams[i] == wanted;
                assert(streams.drop_last()[i] == wanted);
            }
        }
    }
}

/// A soundtrack chooser opens on what is in force, and picking that row
/// again keeps it: the track inside the video, "None", or the file found
/// beside the video. And every row does what it says - "None" plays nothing,
/// a track row plays that track, a found file row plays that file, and the
/// last row goes looking on disk.
///
/// A file from elsewhere is the exception the list is built around: it is
/// named on the last row, and picking that row goes looking for another.
pub proof fn chooser_opens_on_what_is_in_force(
    tracks: Seq<Seq<char>>,
    streams: Seq<u32>,
    chosen: Option<u32>,
    found: Seq<Seq<char>>,
    file: AudioFileView,
)
    requires
        tracks.len() == streams.len(),
        tracks.len() + found.len() + 2 <= usize::MAX,
        file matches AudioFileView::Beside(position) ==> position < found.len(),
        chosen matches Some(stream) ==> streams.contains(stream),
    ensures
        ({
            let entries = track_entries(tracks, found, file);
            let current = track_current(streams, chosen, found.len(), file);
            &&& exists|row: int| 0 <= row < entries.len() && #[trigger] entries[row].1 == current
            &&& track_in_force(chosen, file) matches Some(pick)
                ==> track_pick(current, streams, found.len()) == pick
        }),
        forall|row: int| 0 <= row < track_entries(tracks, found, file).len() ==> {
            let choice = #[trigger] track_entries(tracks, found, file)[row].1;
            let pick = track_pick(choice, streams, found.len());
            &&& row == 0 ==> pick == TrackPick::UseTrack(None)
            &&& 1 <= row <= tracks.len() ==> pick == TrackPick::UseTrack(Some(streams[row - 1]))
            &&& tracks.len() < row <= tracks.len() + found.len()
                ==> pick == TrackPick::UseFound((row - 1 - tracks.len()) as usize)
            &&& row == tracks.len() + found.len() + 1 ==> pick == TrackPick::Browse
        },
{
    let entries = track_entries(tracks, found, file);
    let count = tracks.len();
    let current = track_current(streams, chosen, found.len(), file);
    assert(entries.len() == count + found.len() + 2);
    match file {
        AudioFileView::Beside(position) => {
            let row = (count + 1 + position) as int;
            assert(entries[row].1 == current);
        },
        AudioFileView::Elsewhere(_) => {
            let row = (count + found.len() + 1) as int;
            assert(entries[row].1 == current);
        },
        AudioFileView::Absent => {
            match chosen {
                Some(stream) => {
                    lemma_last_position(streams, stream);
                    let p = last_position(streams, stream).unwrap();
                    assert(entries[(p + 1) as int].1 == current);
                },
                None => {
                    assert(entries[0].1 == current);
                },
            }
        },
    }
}


pub(crate) proof fn lemma_first_position<A>(items: Seq<A>, wanted: A)
    ensures
        match first_position(items, wanted) {
            Some(p) => p < items.len() && items[p as int] == wanted
                && forall|i: int| 0 <= i < p ==> items[i] != wanted,
            None => !items.contains(wanted),
        },
    decreases items.len(),
{
    if items.len() > 0 {
        lemma_first_position(items.drop_first(), wanted);
        if items[0] != wanted {
            match first_position(items.drop_first(), wanted) {
                Some(p) => {
                    assert forall|i: int| 0 <= i < p + 1 implies items[i] != wanted by {
                        if i > 0 {
                            assert(items[i] == items.drop_first()[i - 1]);
                        }
                    }
                },
                None => {
                    if items.contains(wanted) {
                        let i = choose|i: int| 0 <= i < items.len() && items[i] == wanted;
                        assert(items.drop_first()[i - 1] == wanted);
                    }
                },
            }
        }
    }
}

/// Appends one row per label, each standing for its place in `labels`
/// counted on from `offset`.
fn push_rows(entries: &mut Vec<(String, Option<usize>)>, labels: &[String], offset: usize)
    requires
        offset + labels.len() <= usize::MAX,
    ensures
        final(entries)@.map_values(|entry: (String, Option<usize>)| entry_view(entry))
            =~= old(entries)@.map_values(|entry: (String, Option<usize>)| entry_view(entry))
                + Seq::new(labels@.len(), |p: int| (labels@[p]@, Some((offset + p) as usize))),
{
    let ghost start = entries@.map_values(|entry: (String, Option<usize>)| entry_view(entry));
    let mut p: usize = 0;
    while p < labels.len()
        invariant
            p <= labels@.len(),
            offset + labels@.len() <= usize::MAX,
            entries@.map_values(|entry: (String, Option<usize>)| entry_view(entry))
                =~= start + Seq::new(p as nat, |i: int| (labels@[i]@, Some((offset + i) as usize))),
        decreases labels@.len() - p,
    {
        let ghost earlier = entries@;
        entries.push((labels[p].clone(), Some(offset + p)));
        proof {
            assert(entries@.map_values(|entry: (String, Option<usize>)| entry_view(entry))
                =~= earlier.map_values(|entry: (String, Option<usize>)| entry_view(entry))
                    .push((labels@[p as int]@, Some((offset + p) as usize))));
            assert(Seq::new((p + 1) as nat, |i: int| (labels@[i]@, Some((offset + i) as usize)))
                =~= Seq::new(p as nat, |i: int| (labels@[i]@, Some((offset + i) as usize)))
                    .push((labels@[p as int]@, Some((offset + p) as usize))));
        }
        p = p + 1;
    }
}

/// Appends one row for each place named in `order`, labelled as `labels`
/// labels that place and standing for it counted on from `offset`.
fn push_ordered_rows(
    entries: &mut Vec<(String, Option<usize>)>,
    labels: &[String],
    order: &[usize],
    offset: usize,
)
    requires
        offset + labels.len() <= usize::MAX,
        forall|i: int| 0 <= i < order@.len() ==> order@[i] < labels@.len(),
    ensures
        final(entries)@.map_values(|entry: (String, Option<usize>)| entry_view(entry))
            =~= old(entries)@.map_values(|entry: (String, Option<usize>)| entry_view(entry))
                + Seq::new(order@.len(), |i: int| (labels@[order@[i] as int]@, Some((offset + order@[i]) as usize))),
{
    let ghost start = entries@.map_values(|entry: (String, Option<usize>)| entry_view(entry));
    let mut i: usize = 0;
    while i < order.len()
        invariant
            i <= order@.len(),
            offset + labels@.len() <= usize::MAX,
            forall|k: int| 0 <= k < order@.len() ==> order@[k] < labels@.len(),
            entries@.map_values(|entry: (String, Option<usize>)| entry_view(entry))
                =~= start + Seq::new(i as nat, |k: int| (labels@[order@[k] as int]@, Some((offset + order@[k]) as usize))),
        decreases order@.len() - i,
    {
        let position = order[i];
        let ghost earlier = entries@;
        entries.push((labels[position].clone(), Some(offset + position)));
        proof {
            assert(entries@.map_values(|entry: (String, Option<usize>)| entry_view(entry))
                =~= earlier.map_values(|entry: (String, Option<usize>)| entry_view(entry))
                    .push((labels@[position as int]@, Some((offset + position) as usize))));
            assert(Seq::new((i + 1) as nat, |k: int| (labels@[order@[k] as int]@, Some((offset + order@[k]) as usize)))
                =~= Seq::new(i as nat, |k: int| (labels@[order@[k] as int]@, Some((offset + order@[k]) as usize)))
                    .push((labels@[position as int]@, Some((offset + position) as usize))));
        }
        i = i + 1;
    }
}

/// The first place in `values` that holds `wanted`.
pub fn position_of(values: &[String], wanted: &String) -> (position: Option<usize>)
    ensures
        position == match first_position(texts(values@), wanted@) {
            Some(p) => Some(p as usize),
            None => None::<usize>,
        },
{
    let ghost names = texts(values@);
    let mut p: usize = 0;
    proof {
        assert(names.subrange(0, names.len() as int) =~= names);
    }
    while p < values.len()
        invariant
            p <= values@.len(),
            names == texts(values@),
            first_position(names, wanted@) == match first_position(names.subrange(p as int, names.len() as int), wanted@) {
                Some(q) => Some((q + p) as nat),
                None => None::<nat>,
            },
        decreases values@.len() - p,
    {
        proof {
            assert(names.subrange(p as int, names.len() as int).drop_first()
                =~= names.subrange(p + 1, names.len() as int));
        }
        if values[p] == *wanted {
            return Some(p);
        }
        p = p + 1;
    }
    proof {
        assert(names.subrange(p as int, names.len() as int) =~= Seq::<Seq<char>>::empty());
    }
    None
}

/// What picking a row of a plain list of values settles on: the value the
/// row stands for, or nothing for a row that stands for none of them.
pub fn pick_listed(choice: Option<usize>, values: &[String]) -> (picked: Option<String>)
    ensures
        opt_view(picked) == match choice {
            Some(index) => if index < values@.len() { Some(values@[index as int]@) } else { None },
            None => None::<Seq<char>>,
        },
{
    match choice {
        Some(index) => if index < values.len() {
            Some(values[index].clone())
        } else {
            None
        },
        None => None,
    }
}

/// A value chosen from a list and picked again from the row it opens on is
/// the value that was chosen: a list of values opens on the first row holding
/// what is in force, and picking a row settles on what that row holds.
pub proof fn listed_round_trip(values: Seq<String>, wanted: String)
    requires
        texts(values).contains(wanted@),
    ensures
        ({
            let position = first_position(texts(values), wanted@);
            &&& position is Some
            &&& values[position.unwrap() as int]@ == wanted@
        }),
{
    lemma_first_position(texts(values), wanted@);
}

/// The rows of an output device chooser: "None" first on the secondary
/// output only, a note while the outputs are still being looked for, and
/// then every device found.
pub open spec fn device_entries(secondary: bool, names: Seq<Seq<char>>, scanned: bool) -> Seq<(Seq<char>, Option<usize>)> {
    (if secondary { seq![("None"@, None::<usize>)] } else { Seq::empty() })
        + (if names.len() == 0 && !scanned { seq![("Searching for outputs..."@, None::<usize>)] } else { Seq::empty() })
        + Seq::new(names.len(), |p: int| (names[p], Some(p as usize)))
}

/// Which device a device chooser opens on: the last one named as configured.
pub open spec fn device_current(names: Seq<Seq<char>>, configured: Option<Seq<char>>) -> Option<usize> {
    match configured {
        Some(name) => match last_position(names, name) {
            Some(p) => Some(p as usize),
            None => None,
        },
        None => None,
    }
}

/// Where a device chooser's groups begin: a rule under the secondary
/// output's "None", and nothing on the primary's list, which has no "None".
pub open spec fn device_dividers(secondary: bool) -> Seq<(usize, Option<Seq<char>>)> {
    if secondary { seq![(1usize, None::<Seq<char>>)] } else { Seq::empty() }
}

/// What the device chooser for one output offers, from the devices found so
/// far and whether the search for them has finished.
pub fn device_choices(
    secondary: bool,
    devices: &[String],
    configured: &Option<String>,
    scanned: bool,
) -> (choices: Choices)
    requires
        devices@.len() + 2 <= usize::MAX,
    ensures
        entries_view(choices) =~= device_entries(secondary, texts(devices@), scanned),
        choices.current == device_current(texts(devices@), opt_view(*configured)),
        dividers_view(choices) =~= device_dividers(secondary),
{
    let ghost names = texts(devices@);
    let mut entries: Vec<(String, Option<usize>)> = Vec::new();
    let mut dividers: Vec<(usize, Option<String>)> = Vec::new();
    if secondary {
        entries.push((owned("None"), None));
        dividers.push((1, None));
    }
    if devices.len() == 0 && !scanned {
        entries.push((owned("Searching for outputs..."), None));
    }
    push_rows(&mut entries, devices, 0);
    let mut current: Option<usize> = None;
    let mut p: usize = 0;
    while p < devices.len()
        invariant
            p <= devices@.len(),
            names == texts(devices@),
            current == match opt_view(*configured) {
                Some(name) => match last_position(names.take(p as int), name) {
                    Some(i) => Some(i as usize),
                    None => None,
                },
                None => None::<usize>,
            },
        decreases devices@.len() - p,
    {
        proof {
            assert(names.take(p + 1).drop_last() =~= names.take(p as int));
            assert(names.take(p + 1).last() == devices@[p as int]@);
        }
        match configured {
            Some(name) => {
                if *name == devices[p] {
                    current = Some(p);
                }
            },
            None => {},
        }
        p = p + 1;
    }
    proof {
        assert(names.take(devices@.len() as int) =~= names);
        assert(Seq::new(devices@.len(), |p: int| (devices@[p]@, Some((0 + p) as usize)))
            =~= Seq::new(names.len(), |p: int| (names[p], Some(p as usize))));
    }
    Choices { entries, current, dividers }
}

/// What picking a row of an output device chooser does.
pub enum DevicePick {
    /// Nothing: the primary output cannot be cleared, since without it there
    /// is nothing to play through.
    Unchanged,
    /// The output plays through the named device from now on.
    Use(String),
    /// The secondary output plays nothing from now on, and the track and the
    /// audio file it was playing are cleared with it.
    SwitchOff,
}

/// The device a row of a device chooser names, if it names one.
pub open spec fn picked_device(choice: Option<usize>, names: Seq<Seq<char>>) -> Option<Seq<char>> {
    match choice {
        Some(index) => if index < names.len() { Some(names[index as int]) } else { None },
        None => None,
    }
}

/// What picking a row of a device chooser does: a row naming a device puts
/// the output on it; any other row switches the secondary output off, and
/// leaves the primary output where it is.
pub fn pick_device(secondary: bool, choice: Option<usize>, devices: &[String]) -> (pick: DevicePick)
    ensures
        match picked_device(choice, texts(devices@)) {
            Some(name) => pick matches DevicePick::Use(device) && device@ == name,
            None => if secondary { pick is SwitchOff } else { pick is Unchanged },
        },
{
    match pick_listed(choice, devices) {
        Some(device) => DevicePick::Use(device),
        None => if secondary { DevicePick::SwitchOff } else { DevicePick::Unchanged },
    }
}

/// A device chooser opens on the device in force, and every row does what
/// it says: a device row puts the output on that device - the row it opened
/// on included, which keeps the device in force - and the secondary output's
/// "None" switches it off.
pub proof fn device_rows_do_what_they_say(
    secondary: bool,
    names: Seq<Seq<char>>,
    scanned: bool,
    configured: Option<Seq<char>>,
)
    requires
        names.len() <= usize::MAX,
        configured matches Some(name) ==> names.contains(name),
    ensures
        ({
            let entries = device_entries(secondary, names, scanned);
            let current = device_current(names, configured);
            &&& configured is Some ==> picked_device(current, names) == configured
            &&& configured is Some ==> exists|row: int| 0 <= row < entries.len() && #[trigger] entries[row].1 == current
        }),
        forall|row: int| 0 <= row < device_entries(secondary, names, scanned).len() ==> {
            let entry = #[trigger] device_entries(secondary, names, scanned)[row];
            match entry.1 {
                Some(p) => picked_device(entry.1, names) == Some(entry.0) && p < names.len(),
                None => picked_device(entry.1, names) is None,
            }
        },
{
    let entries = device_entries(secondary, names, scanned);
    let lead = entries.len() - names.len();
    assert forall|row: int| 0 <= row < entries.len() implies {
        let entry = #[trigger] entries[row];
        match entry.1 {
            Some(p) => picked_device(entry.1, names) == Some(entry.0) && p < names.len(),
            None => picked_device(entry.1, names) is None,
        }
    } by {
        if row >= lead {
            assert(entries[row] == (names[row - lead], Some((row - lead) as usize)));
        } else {
            assert(entries[row].1 is None);
        }
    }
    match configured {
        Some(name) => {
            lemma_last_position(names, name);
            let p = last_position(names, name).unwrap();
            assert(entries[lead + p].1 == device_current(names, configured));
        },
        None => {},
    }
}


/// Which row of the subtitle language chooser stands for `setting`: the
/// places subtitles can follow come first, and the languages after them.
pub open spec fn subtitle_language_position(places: Seq<Seq<char>>, codes: Seq<Seq<char>>, setting: Seq<char>) -> Option<usize> {
    match first_position(places, setting) {
        Some(p) => Some(p as usize),
        None => match first_position(codes, setting) {
            Some(q) => Some((places.len() + q) as usize),
            None => None,
        },
    }
}

/// What a row of the subtitle language chooser settles on.
pub open spec fn subtitle_language_picked(choice: Option<usize>, places: Seq<Seq<char>>, codes: Seq<Seq<char>>) -> Option<Seq<char>> {
    match choice {
        Some(index) => if index >= places.len() {
            Some(codes[index - places.len()])
        } else {
            Some(places[index as int])
        },
        None => None,
    }
}

/// Which row the subtitle language chooser opens on for `setting`.
pub fn subtitle_language_current(places: &[String], codes: &[String], setting: &String) -> (position: Option<usize>)
    requires
        places@.len() + codes@.len() <= usize::MAX,
    ensures
        position == subtitle_language_position(texts(places@), texts(codes@), setting@),
{
    match position_of(places, setting) {
        Some(p) => Some(p),
        None => match position_of(codes, setting) {
            Some(q) => {
                proof {
                    lemma_first_position(texts(codes@), setting@);
                }
                Some(places.len() + q)
            },
            None => None,
        },
    }
}

/// What picking a row of the subtitle language chooser settles on: a place
/// to follow for the rows that name one, and a language for the rest.
pub fn pick_subtitle_language(choice: Option<usize>, places: &[String], codes: &[String]) -> (picked: Option<String>)
    requires
        choice matches Some(index) ==> index < places@.len() + codes@.len(),
    ensures
        opt_view(picked) == subtitle_language_picked(choice, texts(places@), texts(codes@)),
{
    match choice {
        Some(index) => match index.checked_sub(places.len()) {
            Some(language) => Some(codes[language].clone()),
            None => Some(places[index].clone()),
        },
        None => None,
    }
}

/// The rows of the subtitle language chooser: each place subtitles can
/// follow, by its label, and then the languages in the order they are shown.
pub open spec fn subtitle_language_entries(
    place_labels: Seq<Seq<char>>,
    names: Seq<Seq<char>>,
    order: Seq<usize>,
) -> Seq<(Seq<char>, Option<usize>)> {
    Seq::new(place_labels.len(), |p: int| (place_labels[p], Some(p as usize)))
        + Seq::new(order.len(), |i: int| (names[order[i] as int], Some((place_labels.len() + order[i]) as usize)))
}

/// What the subtitle language chooser offers: `places` are the outputs and
/// such that subtitles can follow, labelled by `place_labels`; `codes` are
/// the languages, named by `names`, shown in `order`.
pub fn subtitle_language_choices(
    place_labels: &[String],
    places: &[String],
    names: &[String],
    codes: &[String],
    order: &[usize],
    setting: &String,
) -> (choices: Choices)
    requires
        place_labels@.len() == places@.len(),
        names@.len() == codes@.len(),
        places@.len() + codes@.len() <= usize::MAX,
        forall|i: int| 0 <= i < order@.len() ==> order@[i] < codes@.len(),
    ensures
        entries_view(choices) =~= subtitle_language_entries(texts(place_labels@), texts(names@), order@),
        choices.current == subtitle_language_position(texts(places@), texts(codes@), setting@),
        dividers_view(choices) =~= seq![(places@.len() as usize, None::<Seq<char>>)],
{
    let mut entries: Vec<(String, Option<usize>)> = Vec::new();
    let mut dividers: Vec<(usize, Option<String>)> = Vec::new();
    dividers.push((places.len(), None));
    push_rows(&mut entries, place_labels, 0);
    push_ordered_rows(&mut entries, names, order, places.len());
    let current = subtitle_language_current(places, codes, setting);
    Choices { entries, current, dividers }
}

/// A subtitle language chosen from the list comes back as itself: the
/// chooser opens on a row for any place or language it offers, and picking
/// that row settles on the setting it opened on. Every other row settles on
/// the place or the language it is labelled with.
pub proof fn subtitle_language_round_trip(
    place_labels: Seq<Seq<char>>,
    places: Seq<Seq<char>>,
    names: Seq<Seq<char>>,
    codes: Seq<Seq<char>>,
    order: Seq<usize>,
    setting: Seq<char>,
)
    requires
        place_labels.len() == places.len(),
        names.len() == codes.len(),
        places.len() + codes.len() <= usize::MAX,
        forall|i: int| 0 <= i < order.len() ==> order[i] < codes.len(),
    ensures
        (places.contains(setting) || codes.contains(setting)) ==> {
            let position = subtitle_language_position(places, codes, setting);
            &&& position is Some
            &&& subtitle_language_picked(position, places, codes) == Some(setting)
        },
        forall|row: int| 0 <= row < subtitle_language_entries(place_labels, names, order).len() ==> {
            let choice = #[trigger] subtitle_language_entries(place_labels, names, order)[row].1;
            &&& row < places.len() ==> subtitle_language_picked(choice, places, codes) == Some(places[row])
            &&& row >= places.len() ==> subtitle_language_picked(choice, places, codes)
                == Some(codes[order[row - places.len()] as int])
        },
{
    lemma_first_position(places, setting);
    lemma_first_position(codes, setting);
    let entries = subtitle_language_entries(place_labels, names, order);
    assert forall|row: int| 0 <= row < entries.len() implies {
        let choice = #[trigger] entries[row].1;
        &&& row < places.len() ==> subtitle_language_picked(choice, places, codes) == Some(places[row])
        &&& row >= places.len() ==> subtitle_language_picked(choice, places, codes)
            == Some(codes[order[row - places.len()] as int])
    } by {
        if row >= places.len() {
            let i = row - places.len();
            assert(entries[row].1 == Some((places.len() + order[i]) as usize));
        }
    }
}

/// The rows of an audio language chooser: the row that leaves the choice
/// to the file, worded as the setting reads when it is unset, and then the
/// languages in the order they are shown.
pub open spec fn language_entries(secondary: bool, names: Seq<Seq<char>>, order: Seq<usize>) -> Seq<(Seq<char>, Option<usize>)> {
    seq![(if secondary { "Second track"@ } else { "First track"@ }, None::<usize>)]
        + Seq::new(order.len(), |i: int| (names[order[i] as int], Some(order[i])))
}

/// What the audio language chooser for one output offers, opening on the
/// language configured for it.
pub fn language_choices(
    secondary: bool,
    names: &[String],
    codes: &[String],
    order: &[usize],
    configured: &Option<String>,
) -> (choices: Choices)
    requires
        names@.len() == codes@.len(),
        forall|i: int| 0 <= i < order@.len() ==> order@[i] < codes@.len(),
    ensures
        entries_view(choices) =~= language_entries(secondary, texts(names@), order@),
        choices.current == match opt_view(*configured) {
            Some(code) => match first_position(texts(codes@), code) {
                Some(p) => Some(p as usize),
                None => None,
            },
            None => None::<usize>,
        },
        dividers_view(choices) =~= seq![(1usize, None::<Seq<char>>)],
{
    let mut entries: Vec<(String, Option<usize>)> = Vec::new();
    let mut dividers: Vec<(usize, Option<String>)> = Vec::new();
    dividers.push((1, None));
    if secondary {
        entries.push((owned("Second track"), None));
    } else {
        entries.push((owned("First track"), None));
    }
    push_ordered_rows(&mut entries, names, order, 0);
    proof {
        assert(Seq::new(order@.len(), |i: int| (texts(names@)[order@[i] as int], Some((0 + order@[i]) as usize)))
            =~= Seq::new(order@.len(), |i: int| (texts(names@)[order@[i] as int], Some(order@[i]))));
    }
    let current = match configured {
        Some(code) => position_of(codes, code),
        None => None,
    };
    Choices { entries, current, dividers }
}

/// What the chooser for the kind of subtitles to show offers: one row per
/// kind, the first of which turns subtitles off, opening on `setting`.
pub fn kind_choices(labels: &[String], kinds: &[String], setting: &String) -> (choices: Choices)
    requires
        labels@.len() == kinds@.len(),
    ensures
        entries_view(choices) =~= Seq::new(labels@.len(), |p: int| (labels@[p]@, Some(p as usize))),
        choices.current == match first_position(texts(kinds@), setting@) {
            Some(p) => Some(p as usize),
            None => None::<usize>,
        },
        dividers_view(choices) =~= seq![(1usize, None::<Seq<char>>)],
{
    let mut entries: Vec<(String, Option<usize>)> = Vec::new();
    let mut dividers: Vec<(usize, Option<String>)> = Vec::new();
    dividers.push((1, None));
    push_rows(&mut entries, labels, 0);
    let current = position_of(kinds, setting);
    Choices { entries, current, dividers }
}

/// What picking a row of the subtitle kind chooser settles on.
pub fn pick_kind(choice: Option<usize>, kinds: &[String]) -> (picked: Option<String>)
    requires
        choice matches Some(index) ==> index < kinds@.len(),
    ensures
        opt_view(picked) == match choice {
            Some(index) => Some(kinds@[index as int]@),
            None => None::<Seq<char>>,
        },
{
    match choice {
        Some(index) => Some(kinds[index].clone()),
        None => None,
    }
}

/// What the subtitle font chooser offers: each font by its own name, opening
/// on the one chosen.
pub fn font_choices(fonts: &[String], chosen: &String) -> (choices: Choices)
    ensures
        entries_view(choices) =~= Seq::new(fonts@.len(), |p: int| (fonts@[p]@, Some(p as usize))),
        choices.current == match first_position(texts(fonts@), chosen@) {
            Some(p) => Some(p as usize),
            None => None::<usize>,
        },
        dividers_view(choices) =~= Seq::<(usize, Option<Seq<char>>)>::empty(),
{
    let mut entries: Vec<(String, Option<usize>)> = Vec::new();
    let dividers: Vec<(usize, Option<String>)> = Vec::new();
    push_rows(&mut entries, fonts, 0);
    let current = position_of(fonts, chosen);
    Choices { entries, current, dividers }
}

/// Whether two optional strings hold the same text, or are both absent.
fn same_text(a: &Option<String>, b: &Option<String>) -> (same: bool)
    ensures
        same == (opt_view(*a) == opt_view(*b)),
{
    match (a, b) {
        (Some(x), Some(y)) => *x == *y,
        (None, None) => true,
        _ => false,
    }
}

/// The first place in `codes` that holds the same code as `wanted`.
fn code_position(codes: &[Option<String>], wanted: &Option<String>) -> (position: Option<usize>)
    ensures
        position == match first_position(codes@.map_values(|c: Option<String>| opt_view(c)), opt_view(*wanted)) {
            Some(p) => Some(p as usize),
            None => None::<usize>,
        },
{
    let ghost views = codes@.map_values(|c: Option<String>| opt_view(c));
    let mut p: usize = 0;
    proof {
        assert(views.subrange(0, views.len() as int) =~= views);
    }
    while p < codes.len()
        invariant
            p <= codes@.len(),
            views == codes@.map_values(|c: Option<String>| opt_view(c)),
            first_position(views, opt_view(*wanted)) == match first_position(views.subrange(p as int, views.len() as int), opt_view(*wanted)) {
                Some(q) => Some((q + p) as nat),
                None => None::<nat>,
            },
        decreases codes@.len() - p,
    {
        proof {
            assert(views.subrange(p as int, views.len() as int).drop_first()
                =~= views.subrange(p + 1, views.len() as int));
        }
        if same_text(&codes[p], wanted) {
            return Some(p);
        }
        p = p + 1;
    }
    proof {
        assert(views.subrange(p as int, views.len() as int) =~= Seq::<Option<Seq<char>>>::empty());
    }
    None
}

/// What the interface language chooser offers: each language the interface
/// can be shown in, the system's own first, opening on the one configured.
/// `codes` holds the code each row sets, `None` for the system's language.
pub fn interface_language_choices(labels: &[String], codes: &[Option<String>], chosen: &Option<String>) -> (choices: Choices)
    requires
        labels@.len() == codes@.len(),
    ensures
        entries_view(choices) =~= Seq::new(labels@.len(), |p: int| (labels@[p]@, Some(p as usize))),
        choices.current == match first_position(codes@.map_values(|c: Option<String>| opt_view(c)), opt_view(*chosen)) {
            Some(p) => Some(p as usize),
            None => None::<usize>,
        },
        dividers_view(choices) =~= seq![(1usize, None::<Seq<char>>)],
{
    let mut entries: Vec<(String, Option<usize>)> = Vec::new();
    let mut dividers: Vec<(usize, Option<String>)> = Vec::new();
    dividers.push((1, None));
    push_rows(&mut entries, labels, 0);
    let current = code_position(codes, chosen);
    Choices { entries, current, dividers }
}

/// What picking a row of the interface language chooser sets: that row's
/// language, or the system's for its own row and for a row past the end.
pub fn pick_interface_language(choice: Option<usize>, codes: &[Option<String>]) -> (picked: Option<String>)
    ensures
        opt_view(picked) == match choice {
            Some(index) => if index < codes@.len() { opt_view(codes@[index as int]) } else { None },
            None => None::<Seq<char>>,
        },
{
    match choice {
        Some(index) => if index < codes.len() {
            match &codes[index] {
                Some(code) => Some(code.clone()),
                None => None,
            }
        } else {
            None
        },
        None => None,
    }
}

/// What a Kodi handing a video over can do, in the order its chooser offers
/// them: the first is what Kodi does with no flag, the second what `--play`
/// makes it do.
pub fn handover() -> (choices: Vec<String>)
    ensures
        texts(choices@) =~= seq!["Show Track Selection Menu"@, "Play Video Immediately"@],
{
    let mut choices: Vec<String> = Vec::new();
    choices.push(owned("Show Track Selection Menu"));
    choices.push(owned("Play Video Immediately"));
    choices
}

/// What the handover chooser offers, opening on the row for whether `--play`
/// is written for that Kodi.
pub fn handover_choices(plays: bool) -> (choices: Choices)
    ensures
        entries_view(choices) =~= seq![("Show Track Selection Menu"@, Some(0usize)), ("Play Video Immediately"@, Some(1usize))],
        choices.current == handover_current(plays),
        dividers_view(choices) =~= Seq::<(usize, Option<Seq<char>>)>::empty(),
{
    let mut offered = handover();
    let mut entries: Vec<(String, Option<usize>)> = Vec::new();
    let dividers: Vec<(usize, Option<String>)> = Vec::new();
    proof {
        assert(texts(offered@).len() == 2);
        assert(offered@[0]@ == texts(offered@)[0]);
        assert(offered@[1]@ == texts(offered@)[1]);
    }
    let second = offered.pop().unwrap();
    let first = offered.pop().unwrap();
    entries.push((first, Some(0)));
    entries.push((second, Some(1)));
    Choices { entries, current: Some(if plays { 1 } else { 0 }), dividers }
}

/// Whether picking `choice` from the handover chooser writes `--play`, or
/// `None` when nothing was picked.
pub fn pick_handover(choice: Option<usize>) -> (plays: Option<bool>)
    ensures
        plays == handover_picked(choice),
{
    match choice {
        Some(index) => Some(index == 1),
        None => None,
    }
}

/// The rows of the subtitle chooser: "None", what the video offers, and last
/// the row that goes looking on disk.
pub open spec fn subtitle_entries(labels: Seq<Seq<char>>) -> Seq<(Seq<char>, Option<usize>)> {
    seq![("None"@, None::<usize>)]
        + Seq::new(labels.len(), |p: int| (labels[p], Some(p as usize)))
        + seq![("Browse..."@, Some(labels.len() as usize))]
}

/// What the subtitle chooser offers, opening on `chosen`, the place among
/// the subtitles on offer of the one in force.
pub fn subtitle_choices(labels: &[String], chosen: Option<usize>) -> (choices: Choices)
    requires
        labels@.len() + 2 <= usize::MAX,
    ensures
        entries_view(choices) =~= subtitle_entries(texts(labels@)),
        choices.current == chosen,
        dividers_view(choices) =~= seq![(1usize, None::<Seq<char>>), ((labels@.len() + 1) as usize, None::<Seq<char>>)],
{
    let mut entries: Vec<(String, Option<usize>)> = Vec::new();
    let mut dividers: Vec<(usize, Option<String>)> = Vec::new();
    entries.push((owned("None"), None));
    dividers.push((1, None));
    push_rows(&mut entries, labels, 0);
    dividers.push((entries.len(), None));
    let ghost earlier = entries@;
    entries.push((owned("Browse..."), Some(labels.len())));
    proof {
        assert(entries@.map_values(|entry: (String, Option<usize>)| entry_view(entry))
            =~= earlier.map_values(|entry: (String, Option<usize>)| entry_view(entry))
                .push(("Browse..."@, Some(labels@.len() as usize))));
        assert(Seq::new(labels@.len(), |p: int| (labels@[p]@, Some((0 + p) as usize)))
            =~= Seq::new(texts(labels@).len(), |p: int| (texts(labels@)[p], Some(p as usize))));
    }
    Choices { entries, current: chosen, dividers }
}

/// Whether no two entries of a list are the same.
pub open spec fn no_repeats(items: Seq<Seq<char>>) -> bool {
    forall|a: int, b: int| 0 <= a < b < items.len() ==> items[a] != items[b]
}

/// What the subtitles offered become when a file is chosen by hand: the
/// same, with the file added at the end unless it is offered already.
pub open spec fn with_subtitle_file(offered: Seq<Seq<char>>, file: Seq<char>) -> Seq<Seq<char>> {
    if offered.contains(file) { offered } else { offered.push(file) }
}

/// Takes a subtitle file chosen by hand into the subtitles offered, so the
/// menu can show it and its chooser open on it, and says where it stands.
/// Choosing the same file again adds no second row for it.
pub fn add_subtitle_file(offered: &mut Vec<String>, file: String) -> (position: usize)
    requires
        old(offered)@.len() < usize::MAX,
    ensures
        texts(final(offered)@) == with_subtitle_file(texts(old(offered)@), file@),
        position < final(offered)@.len(),
        final(offered)@[position as int]@ == file@,
        no_repeats(texts(old(offered)@)) ==> no_repeats(texts(final(offered)@)),
{
    let ghost before = texts(offered@);
    let found = position_of(offered.as_slice(), &file);
    proof {
        lemma_first_position(before, file@);
    }
    match found {
        Some(p) => {
            proof {
                assert(before.contains(file@));
            }
            p
        },
        None => {
            let at = offered.len();
            offered.push(file);
            proof {
                assert(texts(offered@) =~= before.push(file@));
                assert(!before.contains(file@));
                assert forall|a: int, b: int| 0 <= a < b < texts(offered@).len() && no_repeats(before)
                    implies texts(offered@)[a] != texts(offered@)[b] by {
                    if b == before.len() {
                        assert(texts(offered@)[a] == before[a]);
                    }
                }
            }
            at
        },
    }
}

/// What picking a row of the subtitle chooser does.
#[derive(Clone, Copy, PartialEq, Eq, Debug, Structural)]
pub enum SubtitlePick {
    /// Go looking on disk for a subtitle file.
    Browse,
    /// Show the subtitle at this place among those on offer, or none.
    Show(Option<usize>),
}

/// What picking `choice` from the subtitle chooser does, with `count`
/// subtitles on offer: the row past them goes looking on disk, and any
/// other row shows what it stands for - nothing, for "None" and for a row
/// that stands for nothing any more.
pub fn pick_subtitle(choice: Option<usize>, count: usize) -> (pick: SubtitlePick)
    ensures
        pick == match choice {
            Some(index) => if index == count {
                SubtitlePick::Browse
            } else if index < count {
                SubtitlePick::Show(Some(index))
            } else {
                SubtitlePick::Show(None)
            },
            None => SubtitlePick::Show(None),
        },
{
    match choice {
        Some(index) => if index == count {
            SubtitlePick::Browse
        } else if index < count {
            SubtitlePick::Show(Some(index))
        } else {
            SubtitlePick::Show(None)
        },
        None => SubtitlePick::Show(None),
    }
}


/// What choosing a type of player for one Kodi does.
#[derive(Clone, Copy, PartialEq, Eq, Debug, Structural)]
pub enum KodiTypeStep {
    /// Nothing: nothing new was asked for, so nothing is done and, above
    /// all, nothing is asked.
    Nothing,
    /// Ask before removing TinePlayer from that Kodi.
    ConfirmRemoval,
    /// Rewrite TinePlayer's own entry as this type, without asking: nothing
    /// in it is anybody else's.
    Rewrite(usize),
    /// Ask before touching that Kodi's file for the first time, and then
    /// write it as this type.
    ConfirmFirstWrite(usize),
}

/// What choosing row `choice` of a Kodi's type chooser does. `present` says
/// whether the Kodi is still there, `count` how many types the chooser
/// offers, `state` which of them is in force, `absent` which one is not
/// being registered at all, and `configured` whether TinePlayer is already
/// registered there.
pub open spec fn kodi_type_step_of(
    choice: Option<usize>,
    present: bool,
    count: usize,
    state: usize,
    absent: usize,
    configured: bool,
) -> KodiTypeStep {
    match choice {
        None => KodiTypeStep::Nothing,
        Some(chosen) => if !present || chosen >= count || chosen == state {
            KodiTypeStep::Nothing
        } else if chosen == absent {
            KodiTypeStep::ConfirmRemoval
        } else if configured {
            KodiTypeStep::Rewrite(chosen)
        } else {
            KodiTypeStep::ConfirmFirstWrite(chosen)
        },
    }
}

/// What choosing a type of player for one Kodi does; see
/// `kodi_type_step_of`.
pub fn kodi_type_step(
    choice: Option<usize>,
    present: bool,
    count: usize,
    state: usize,
    absent: usize,
    configured: bool,
) -> (step: KodiTypeStep)
    ensures
        step == kodi_type_step_of(choice, present, count, state, absent, configured),
{
    match choice {
        None => KodiTypeStep::Nothing,
        Some(chosen) => if !present || chosen >= count || chosen == state {
            KodiTypeStep::Nothing
        } else if chosen == absent {
            KodiTypeStep::ConfirmRemoval
        } else if configured {
            KodiTypeStep::Rewrite(chosen)
        } else {
            KodiTypeStep::ConfirmFirstWrite(chosen)
        },
    }
}

/// The rows of a Kodi's type chooser: one for each type of player it can
/// be told TinePlayer is, each standing for its own place.
pub open spec fn listed_entries(labels: Seq<Seq<char>>) -> Seq<(Seq<char>, Option<usize>)> {
    Seq::new(labels.len(), |p: int| (labels[p], Some(p as usize)))
}

/// The rule a Kodi's type chooser draws: above its last row, which removes
/// TinePlayer, and only where there is something to remove.
pub open spec fn kodi_type_dividers(count: nat, configured: bool) -> Seq<(usize, Option<Seq<char>>)> {
    if configured { seq![((count - 1) as usize, None::<Seq<char>>)] } else { Seq::empty() }
}

/// A Kodi's type chooser: `labels` names each type as that Kodi's state
/// words it, `state` is the type in force, and `configured` whether
/// TinePlayer is registered there already. The rule above the last row is
/// drawn only when that row is a removal: the other rows are states to be
/// in, and that one is a thing to do.
pub fn kodi_type_choices(labels: &[String], state: usize, configured: bool) -> (choices: Choices)
    requires
        state < labels@.len(),
    ensures
        entries_view(choices) =~= listed_entries(texts(labels@)),
        choices.current == Some(state),
        dividers_view(choices) =~= kodi_type_dividers(labels@.len() as nat, configured),
{
    let mut entries: Vec<(String, Option<usize>)> = Vec::new();
    let mut dividers: Vec<(usize, Option<String>)> = Vec::new();
    push_rows(&mut entries, labels, 0);
    if configured {
        dividers.push((labels.len() - 1, None));
    }
    proof {
        assert(Seq::new(labels@.len(), |p: int| (labels@[p]@, Some((0 + p) as usize)))
            =~= listed_entries(texts(labels@)));
    }
    Choices { entries, current: Some(state), dividers }
}

/// The Kodi type chooser is sound.
pub proof fn kodi_type_chooser_is_sound(labels: Seq<Seq<char>>, state: usize, configured: bool)
    requires
        state < labels.len(),
        labels.len() <= usize::MAX,
    ensures
        sound_chooser(listed_entries(labels), Some(state), kodi_type_dividers(labels.len(), configured)),
{
    let entries = listed_entries(labels);
    lemma_counted_rows(entries, 0, 0);
    assert(entries[state as int].1 == Some(state));
}

/// Which separate audio file an output is playing, as its chooser sees it:
/// none, one of the files found beside the video (the first with its path),
/// or one from anywhere else, named by its path.
pub open spec fn audio_file_from(file: Option<Seq<char>>, found: Seq<Seq<char>>) -> AudioFileView {
    match file {
        None => AudioFileView::Absent,
        Some(path) => match first_position(found, path) {
            Some(p) => AudioFileView::Beside(p),
            None => AudioFileView::Elsewhere(path),
        },
    }
}

/// The audio file an output plays, told apart as beside the video or from
/// elsewhere; see `audio_file_from`. A file found beside the video is
/// listed among those, so it is never listed twice.
pub fn audio_file_of(file: &Option<String>, found: &[String]) -> (audio: AudioFile)
    ensures
        audio_file_view(audio) == audio_file_from(opt_view(*file), texts(found@)),
        audio matches AudioFile::Beside(p) ==> p < found@.len(),
{
    match file {
        None => AudioFile::Absent,
        Some(path) => {
            let position = position_of(found, path);
            proof {
                lemma_first_position(texts(found@), path@);
            }
            match position {
                Some(p) => {
                    proof {
                        assert(texts(found@).len() == found@.len());
                        assert(found@.len() == found.len());
                        if let Some(q) = first_position(texts(found@), path@) {
                            assert(q < found@.len());
                            assert(q as usize == p);
                        }
                    }
                    AudioFile::Beside(p)
                },
                None => {
                    let named = path.clone();
                    assert(named@ == path@);
                    AudioFile::Elsewhere(named)
                },
            }
        },
    }
}

/// A Kodi's file is never touched for the first time, nor TinePlayer
/// removed from it, without asking; and choosing what is already in force
/// neither asks nor does anything.
pub proof fn kodi_changes_are_asked_first(
    choice: Option<usize>,
    present: bool,
    count: usize,
    state: usize,
    absent: usize,
    configured: bool,
)
    ensures
        kodi_type_step_of(choice, present, count, state, absent, configured) matches KodiTypeStep::Rewrite(_) ==> configured,
        choice == Some(absent) && absent != state && absent < count && present
            ==> kodi_type_step_of(choice, present, count, state, absent, configured) == KodiTypeStep::ConfirmRemoval,
        choice == Some(state) ==> kodi_type_step_of(choice, present, count, state, absent, configured) == KodiTypeStep::Nothing,
{
}


/// The row a chooser opens on: the first whose choice is the one in force,
/// or the top row when none is.
pub open spec fn opening_row_of(entries: Seq<(Seq<char>, Option<usize>)>, current: Option<usize>) -> nat {
    match first_position(entries.map_values(|entry: (Seq<char>, Option<usize>)| entry.1), current) {
        Some(row) => row,
        None => 0,
    }
}

/// The row a chooser opens on; see `opening_row_of`. Opening there scrolls
/// what is already in force into view, which is what a long list needs.
pub fn opening_row(choices: &Choices) -> (row: usize)
    ensures
        row == opening_row_of(entries_view(*choices), choices.current),
{
    let ghost picks = entries_view(*choices).map_values(|entry: (Seq<char>, Option<usize>)| entry.1);
    let mut i: usize = 0;
    proof {
        assert(picks.subrange(0, picks.len() as int) =~= picks);
    }
    while i < choices.entries.len()
        invariant
            i <= choices.entries@.len(),
            picks == entries_view(*choices).map_values(|entry: (Seq<char>, Option<usize>)| entry.1),
            picks.len() == choices.entries@.len(),
            first_position(picks, choices.current) == match first_position(picks.subrange(i as int, picks.len() as int), choices.current) {
                Some(q) => Some((q + i) as nat),
                None => None::<nat>,
            },
        decreases choices.entries@.len() - i,
    {
        proof {
            assert(picks.subrange(i as int, picks.len() as int).drop_first()
                =~= picks.subrange(i + 1, picks.len() as int));
            assert(picks[i as int] == choices.entries@[i as int].1);
        }
        if choices.entries[i].1 == choices.current {
            return i;
        }
        i = i + 1;
    }
    proof {
        assert(picks.subrange(i as int, picks.len() as int) =~= Seq::<Option<usize>>::empty());
    }
    0
}


/// The row the handover chooser opens on, for whether `--play` is written.
pub open spec fn handover_current(plays: bool) -> Option<usize> {
    Some(if plays { 1usize } else { 0usize })
}

/// Whether picking `choice` from the handover chooser writes `--play`, or
/// `None` when nothing was picked.
pub open spec fn handover_picked(choice: Option<usize>) -> Option<bool> {
    match choice {
        Some(index) => Some(index == 1),
        None => None,
    }
}

/// The handover chooser opens on what is written for that Kodi, and picking
/// that row writes it again; its first row is the menu and its second plays
/// at once.
pub proof fn handover_round_trip(plays: bool)
    ensures
        handover_picked(handover_current(plays)) == Some(plays),
        handover_picked(Some(0)) == Some(false),
        handover_picked(Some(1)) == Some(true),
{
}

/// The interface language chooser opens on the language configured, when it
/// offers one, and picking that row sets it again: the row for the system's
/// own language sets none, and any other row its own code.
pub proof fn interface_language_round_trip(codes: Seq<Option<Seq<char>>>, chosen: Option<Seq<char>>)
    requires
        codes.contains(chosen),
    ensures
        ({
            let position = first_position(codes, chosen);
            &&& position is Some
            &&& codes[position.unwrap() as int] == chosen
        }),
{
    lemma_first_position(codes, chosen);
}


/// Whether a chooser is sound: it opens on a row it holds, or on none; no
/// two of its rows stand for the same choice; and every group it marks
/// begins within the list.
pub open spec fn sound_chooser(
    entries: Seq<(Seq<char>, Option<usize>)>,
    current: Option<usize>,
    dividers: Seq<(usize, Option<Seq<char>>)>,
) -> bool {
    &&& (current is None || exists|row: int| 0 <= row < entries.len() && #[trigger] entries[row].1 == current)
    &&& forall|a: int, b: int|
        0 <= a < b < entries.len() && entries[a].1 is Some ==> #[trigger] entries[a].1 != #[trigger] entries[b].1
    &&& forall|d: int| 0 <= d < dividers.len() ==> #[trigger] dividers[d].0 <= entries.len()
}

/// Rows past `lead` that stand for the choices `Some(base)`, `Some(base + 1)`,
/// and so on, with none before them, never repeat a choice.
proof fn lemma_counted_rows(entries: Seq<(Seq<char>, Option<usize>)>, lead: int, base: int)
    requires
        0 <= lead,
        0 <= base,
        base + entries.len() <= usize::MAX,
        forall|row: int| 0 <= row < lead && row < entries.len() ==> (#[trigger] entries[row]).1 is None,
        forall|row: int| lead <= row < entries.len() ==> (#[trigger] entries[row]).1 == Some((base + row - lead) as usize),
    ensures
        forall|a: int, b: int|
            0 <= a < b < entries.len() && entries[a].1 is Some ==> #[trigger] entries[a].1 != #[trigger] entries[b].1,
{
    assert forall|a: int, b: int| 0 <= a < b < entries.len() && entries[a].1 is Some implies
        #[trigger] entries[a].1 != #[trigger] entries[b].1 by {
        if a >= lead {
            assert(entries[a].1 == Some((base + a - lead) as usize));
            assert(entries[b].1 == Some((base + b - lead) as usize));
        }
    }
}

/// The soundtrack chooser is sound: whatever is in force, it opens on a row
/// of its own, and every row stands for a different choice.
pub proof fn track_chooser_is_sound(
    tracks: Seq<Seq<char>>,
    streams: Seq<u32>,
    chosen: Option<u32>,
    found: Seq<Seq<char>>,
    file: AudioFileView,
)
    requires
        tracks.len() == streams.len(),
        tracks.len() + found.len() + 2 <= usize::MAX,
        file matches AudioFileView::Beside(position) ==> position < found.len(),
    ensures
        sound_chooser(
            track_entries(tracks, found, file),
            track_current(streams, chosen, found.len(), file),
            track_dividers(tracks.len(), found.len()),
        ),
{
    let entries = track_entries(tracks, found, file);
    let count = tracks.len();
    assert(entries.len() == count + found.len() + 2);
    assert forall|row: int| 1 <= row < entries.len() implies (#[trigger] entries[row]).1 == Some((0 + row - 1) as usize) by {
        if row <= count {
        } else if row <= count + found.len() {
            assert(entries[row].1 == Some((count + (row - 1 - count)) as usize));
        }
    }
    lemma_counted_rows(entries, 1, 0);
    let current = track_current(streams, chosen, found.len(), file);
    match file {
        AudioFileView::Beside(position) => {
            assert(entries[(count + 1 + position) as int].1 == current);
        },
        AudioFileView::Elsewhere(_) => {
            assert(entries[(count + found.len() + 1) as int].1 == current);
        },
        AudioFileView::Absent => {
            if let Some(stream) = chosen {
                lemma_last_position(streams, stream);
                if let Some(p) = last_position(streams, stream) {
                    assert(entries[(p + 1) as int].1 == current);
                }
            }
        },
    }
    let dividers = track_dividers(count, found.len());
    assert forall|d: int| 0 <= d < dividers.len() implies #[trigger] dividers[d].0 <= entries.len() by {
        if found.len() > 0 {
            assert(dividers[d].0 == 1 || dividers[d].0 == count + 1 || dividers[d].0 == count + found.len() + 1);
        } else {
            assert(dividers[d].0 == 1 || dividers[d].0 == count + 1);
        }
    }
}

/// The device chooser is sound.
pub proof fn device_chooser_is_sound(secondary: bool, names: Seq<Seq<char>>, scanned: bool, configured: Option<Seq<char>>)
    requires
        names.len() + 2 <= usize::MAX,
    ensures
        sound_chooser(device_entries(secondary, names, scanned), device_current(names, configured), device_dividers(secondary)),
{
    let entries = device_entries(secondary, names, scanned);
    let lead = entries.len() - names.len();
    assert forall|row: int| 0 <= row < lead && row < entries.len() implies (#[trigger] entries[row]).1 is None by {}
    assert forall|row: int| lead <= row < entries.len() implies (#[trigger] entries[row]).1 == Some((0 + row - lead) as usize) by {}
    lemma_counted_rows(entries, lead, 0);
    if let Some(name) = configured {
        lemma_last_position(names, name);
        if let Some(p) = last_position(names, name) {
            assert(entries[lead + p].1 == device_current(names, configured));
        }
    }
}

/// The subtitle chooser is sound when it opens on one of its subtitles or
/// on the row past them.
pub proof fn subtitle_chooser_is_sound(labels: Seq<Seq<char>>, chosen: Option<usize>)
    requires
        labels.len() + 2 <= usize::MAX,
        chosen matches Some(p) ==> p <= labels.len(),
    ensures
        sound_chooser(
            subtitle_entries(labels),
            chosen,
            seq![(1usize, None::<Seq<char>>), ((labels.len() + 1) as usize, None::<Seq<char>>)],
        ),
{
    let entries = subtitle_entries(labels);
    assert forall|row: int| 1 <= row < entries.len() implies (#[trigger] entries[row]).1 == Some((0 + row - 1) as usize) by {}
    lemma_counted_rows(entries, 1, 0);
    if let Some(p) = chosen {
        assert(entries[p + 1].1 == chosen);
    }
}

/// Whether `order` names every one of `count` places, each once.
pub open spec fn is_order_of(order: Seq<usize>, count: nat) -> bool {
    &&& forall|i: int| 0 <= i < order.len() ==> order[i] < count
    &&& forall|p: usize| p < count ==> order.contains(p)
    &&& forall|i: int, j: int| 0 <= i < j < order.len() ==> order[i] != order[j]
}

/// The audio language chooser is sound when the languages are shown in an
/// order that names each of them once.
pub proof fn language_chooser_is_sound(secondary: bool, names: Seq<Seq<char>>, codes: Seq<Seq<char>>, order: Seq<usize>, configured: Option<Seq<char>>)
    requires
        names.len() == codes.len(),
        codes.len() <= usize::MAX,
        is_order_of(order, codes.len()),
    ensures
        sound_chooser(
            language_entries(secondary, names, order),
            match configured {
                Some(code) => match first_position(codes, code) {
                    Some(p) => Some(p as usize),
                    None => None,
                },
                None => None::<usize>,
            },
            seq![(1usize, None::<Seq<char>>)],
        ),
{
    let entries = language_entries(secondary, names, order);
    assert forall|a: int, b: int| 0 <= a < b < entries.len() && entries[a].1 is Some implies
        #[trigger] entries[a].1 != #[trigger] entries[b].1 by {
        assert(entries[a].1 == Some(order[a - 1]));
        assert(entries[b].1 == Some(order[b - 1]));
    }
    if let Some(code) = configured {
        lemma_first_position(codes, code);
        if let Some(p) = first_position(codes, code) {
            assert(order.contains(p as usize));
            let i = choose|i: int| 0 <= i < order.len() && order[i] == p as usize;
            assert(entries[i + 1].1 == Some(p as usize));
        }
    }
}

/// The subtitle language chooser is sound when the languages are shown in
/// an order that names each of them once.
pub proof fn subtitle_language_chooser_is_sound(
    place_labels: Seq<Seq<char>>,
    places: Seq<Seq<char>>,
    names: Seq<Seq<char>>,
    codes: Seq<Seq<char>>,
    order: Seq<usize>,
    setting: Seq<char>,
)
    requires
        place_labels.len() == places.len(),
        names.len() == codes.len(),
        places.len() + codes.len() <= usize::MAX,
        is_order_of(order, codes.len()),
    ensures
        sound_chooser(
            subtitle_language_entries(place_labels, names, order),
            subtitle_language_position(places, codes, setting),
            seq![(places.len() as usize, None::<Seq<char>>)],
        ),
{
    let entries = subtitle_language_entries(place_labels, names, order);
    let n = places.len() as int;
    assert forall|a: int, b: int| 0 <= a < b < entries.len() && entries[a].1 is Some implies
        #[trigger] entries[a].1 != #[trigger] entries[b].1 by {
        if b < n {
        } else if a < n {
            assert(entries[b].1 == Some((n + order[b - n]) as usize));
        } else {
            assert(entries[a].1 == Some((n + order[a - n]) as usize));
            assert(entries[b].1 == Some((n + order[b - n]) as usize));
        }
    }
    lemma_first_position(places, setting);
    lemma_first_position(codes, setting);
    let current = subtitle_language_position(places, codes, setting);
    if let Some(p) = first_position(places, setting) {
        assert(entries[p as int].1 == current);
    } else if let Some(q) = first_position(codes, setting) {
        assert(order.contains(q as usize));
        let i = choose|i: int| 0 <= i < order.len() && order[i] == q as usize;
        assert(entries[n + i].1 == current);
    }
}

/// A chooser whose rows stand for their own places - the kinds of
/// subtitle, the fonts, the interface languages and the handover - is sound
/// when it opens on the first of `values` holding what is in force, and has
/// a row above any rule it marks.
pub proof fn listed_chooser_is_sound<A>(labels: Seq<Seq<char>>, values: Seq<A>, wanted: A, ruled: bool)
    requires
        labels.len() == values.len(),
        labels.len() <= usize::MAX,
        ruled ==> labels.len() >= 1,
    ensures
        sound_chooser(
            Seq::new(labels.len(), |p: int| (labels[p], Some(p as usize))),
            match first_position(values, wanted) {
                Some(p) => Some(p as usize),
                None => None::<usize>,
            },
            if ruled { seq![(1usize, None::<Seq<char>>)] } else { Seq::empty() },
        ),
{
    let entries = Seq::new(labels.len(), |p: int| (labels[p], Some(p as usize)));
    lemma_counted_rows(entries, 0, 0);
    lemma_first_position(values, wanted);
    if let Some(p) = first_position(values, wanted) {
        assert(entries[p as int].1 == Some(p as usize));
    }
}

/// The handover chooser is sound.
pub proof fn handover_chooser_is_sound(plays: bool)
    ensures
        sound_chooser(
            seq![("Show Track Selection Menu"@, Some(0usize)), ("Play Video Immediately"@, Some(1usize))],
            handover_current(plays),
            Seq::empty(),
        ),
{
    let entries = seq![("Show Track Selection Menu"@, Some(0usize)), ("Play Video Immediately"@, Some(1usize))];
    if plays {
        assert(entries[1].1 == handover_current(plays));
    } else {
        assert(entries[0].1 == handover_current(plays));
    }
}

} // verus!
