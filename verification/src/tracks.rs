//! Which soundtrack each output starts on when a video is loaded, and what
//! each output is handed when play is pressed.

use vstd::prelude::*;

verus! {

/// What the choice of a soundtrack needs to know about one of the film's
/// audio tracks.
#[derive(Clone, Copy, PartialEq, Eq, Debug, Structural)]
pub struct Track {
    /// The stream it is in the container.
    pub index: u32,
    /// It is an audio description: narration of what is on screen.
    pub described: bool,
    /// Its language is stated, as one the application knows.
    pub known: bool,
}

/// What one output asks of its soundtrack.
pub struct Want {
    /// It wants the audio description where there is one.
    pub description: bool,
    /// It names a language.
    pub language: bool,
    /// For each track, whether it is in the language named.
    pub matching: Vec<bool>,
}

/// Which tracks a search is looking for.
#[derive(Clone, Copy, PartialEq, Eq, Debug, Structural)]
pub enum Criterion {
    /// The tracks ordinary selection picks from: everything but the described
    /// ones, unless description is all there is (`plain` says whether there
    /// is anything else).
    Pool(bool),
    /// Those of them in the language named.
    PoolMatching(bool),
    /// The described tracks.
    Described,
    /// The described tracks in the language named.
    DescribedMatching,
    /// The described tracks whose language is not stated.
    DescribedUnknown,
}

/// Whether `track`, in the language named or not as `matching` says, is
/// one a search by `criterion` is looking for.
pub open spec fn meets(criterion: Criterion, track: Track, matching: bool) -> bool {
    match criterion {
        Criterion::Pool(plain) => !plain || !track.described,
        Criterion::PoolMatching(plain) => (!plain || !track.described) && matching,
        Criterion::Described => track.described,
        Criterion::DescribedMatching => track.described && matching,
        Criterion::DescribedUnknown => track.described && !track.known,
    }
}

/// The stream of the track after the first `skip` tracks a search by
/// `criterion` finds, in the order they come.
pub open spec fn nth_of(tracks: Seq<Track>, matching: Seq<bool>, criterion: Criterion, skip: nat) -> Option<u32>
    decreases tracks.len(),
{
    if tracks.len() == 0 {
        None
    } else if meets(criterion, tracks[0], matching[0]) {
        if skip == 0 {
            Some(tracks[0].index)
        } else {
            nth_of(tracks.drop_first(), matching.drop_first(), criterion, (skip - 1) as nat)
        }
    } else {
        nth_of(tracks.drop_first(), matching.drop_first(), criterion, skip)
    }
}

/// Whether the film has a track that is not described.
pub open spec fn has_plain(tracks: Seq<Track>) -> bool {
    exists|i: int| 0 <= i < tracks.len() && !(#[trigger] tracks[i]).described
}

/// The stream of the track after the first `skip` found by `criterion`.
pub fn nth_meeting(tracks: &[Track], matching: &[bool], criterion: Criterion, skip: usize) -> (found: Option<u32>)
    requires
        matching@.len() == tracks@.len(),
    ensures
        found == nth_of(tracks@, matching@, criterion, skip as nat),
{
    let mut position: usize = 0;
    let mut left: usize = skip;
    proof {
        assert(tracks@.subrange(0, tracks@.len() as int) =~= tracks@);
        assert(matching@.subrange(0, matching@.len() as int) =~= matching@);
    }
    while position < tracks.len()
        invariant
            position <= tracks@.len(),
            matching@.len() == tracks@.len(),
            nth_of(tracks@, matching@, criterion, skip as nat) == nth_of(
                tracks@.subrange(position as int, tracks@.len() as int),
                matching@.subrange(position as int, matching@.len() as int),
                criterion,
                left as nat,
            ),
        decreases tracks@.len() - position,
    {
        proof {
            assert(tracks@.subrange(position as int, tracks@.len() as int).drop_first()
                =~= tracks@.subrange(position + 1, tracks@.len() as int));
            assert(matching@.subrange(position as int, matching@.len() as int).drop_first()
                =~= matching@.subrange(position + 1, matching@.len() as int));
        }
        let track = tracks[position];
        let hit = match criterion {
            Criterion::Pool(plain) => !plain || !track.described,
            Criterion::PoolMatching(plain) => (!plain || !track.described) && matching[position],
            Criterion::Described => track.described,
            Criterion::DescribedMatching => track.described && matching[position],
            Criterion::DescribedUnknown => track.described && !track.known,
        };
        if hit {
            if left == 0 {
                return Some(track.index);
            }
            left = left - 1;
        }
        position = position + 1;
    }
    proof {
        assert(tracks@.subrange(position as int, tracks@.len() as int) =~= Seq::<Track>::empty());
    }
    None
}

/// Whether the film has a track that is not described.
pub fn any_plain(tracks: &[Track]) -> (plain: bool)
    ensures
        plain == has_plain(tracks@),
{
    let mut position: usize = 0;
    while position < tracks.len()
        invariant
            position <= tracks@.len(),
            forall|i: int| 0 <= i < position ==> (#[trigger] tracks@[i]).described,
        decreases tracks@.len() - position,
    {
        if !tracks[position].described {
            return true;
        }
        position = position + 1;
    }
    false
}

/// The described track for an output that asked for one: in the language
/// it named, or else one whose language is not stated - never one in
/// another language. With no language named, the first described track.
pub open spec fn described_choice(tracks: Seq<Track>, want: bool, language: bool, matching: Seq<bool>) -> Option<u32> {
    if !want {
        None
    } else if !language {
        nth_of(tracks, matching, Criterion::Described, 0)
    } else {
        match nth_of(tracks, matching, Criterion::DescribedMatching, 0) {
            Some(index) => Some(index),
            None => nth_of(tracks, matching, Criterion::DescribedUnknown, 0),
        }
    }
}

/// The track an output starts on with nothing saved for the film: the
/// described track if it asked for one and there is one, else the first
/// ordinary track in its language, else the ordinary track at `fallback`
/// (the first for the primary output, the second for the secondary one).
pub open spec fn preferred_choice(tracks: Seq<Track>, want: bool, language: bool, matching: Seq<bool>, fallback: nat) -> Option<u32> {
    let plain = has_plain(tracks);
    match described_choice(tracks, want, language, matching) {
        Some(index) => Some(index),
        None => {
            let by_language = if language { nth_of(tracks, matching, Criterion::PoolMatching(plain), 0) } else { None };
            match by_language {
                Some(index) => Some(index),
                None => nth_of(tracks, matching, Criterion::Pool(plain), fallback),
            }
        },
    }
}

/// Whether the film has the stream `index`.
pub open spec fn has_stream(tracks: Seq<Track>, index: u32) -> bool {
    exists|i: int| 0 <= i < tracks.len() && (#[trigger] tracks[i]).index == index
}

/// A choice kept only if the film still has it: it may have been
/// re-encoded since it was last played.
pub open spec fn known(tracks: Seq<Track>, choice: Option<u32>) -> Option<u32> {
    match choice {
        Some(index) => if has_stream(tracks, index) { Some(index) } else { None },
        None => None,
    }
}

fn described_track(tracks: &[Track], want: &Want) -> (found: Option<u32>)
    requires
        want.matching@.len() == tracks@.len(),
    ensures
        found == described_choice(tracks@, want.description, want.language, want.matching@),
{
    if !want.description {
        return None;
    }
    if !want.language {
        return nth_meeting(tracks, want.matching.as_slice(), Criterion::Described, 0);
    }
    match nth_meeting(tracks, want.matching.as_slice(), Criterion::DescribedMatching, 0) {
        Some(index) => Some(index),
        None => nth_meeting(tracks, want.matching.as_slice(), Criterion::DescribedUnknown, 0),
    }
}

fn preferred_track(tracks: &[Track], want: &Want, fallback: usize) -> (found: Option<u32>)
    requires
        want.matching@.len() == tracks@.len(),
    ensures
        found == preferred_choice(tracks@, want.description, want.language, want.matching@, fallback as nat),
{
    let plain = any_plain(tracks);
    match described_track(tracks, want) {
        Some(index) => Some(index),
        None => {
            let by_language = if want.language {
                nth_meeting(tracks, want.matching.as_slice(), Criterion::PoolMatching(plain), 0)
            } else {
                None
            };
            match by_language {
                Some(index) => Some(index),
                None => nth_meeting(tracks, want.matching.as_slice(), Criterion::Pool(plain), fallback),
            }
        },
    }
}

/// The choice kept if the film still has it.
pub fn keep_known(tracks: &[Track], choice: Option<u32>) -> (kept: Option<u32>)
    ensures
        kept == known(tracks@, choice),
{
    match choice {
        Some(index) => {
            let mut position: usize = 0;
            while position < tracks.len()
                invariant
                    choice == Some(index),
                    position <= tracks@.len(),
                    forall|i: int| 0 <= i < position ==> (#[trigger] tracks@[i]).index != index,
                decreases tracks@.len() - position,
            {
                if tracks[position].index == index {
                    return Some(index);
                }
                position = position + 1;
            }
            None
        },
        None => None,
    }
}

/// The soundtrack each output starts on when a video is loaded.
///
/// A pair saved for this film is taken as it stands, a saved `None` being a
/// real choice of no audio on that output; with nothing saved, each output's
/// preferences decide (see `preferred_choice`). Either way a stream the film
/// no longer has is dropped, and the secondary output holds no track without
/// a device to play it on.
pub fn starting_tracks(
    tracks: &[Track],
    primary: &Want,
    secondary: &Want,
    saved: Option<(Option<u32>, Option<u32>)>,
    second_device: bool,
) -> (chosen: (Option<u32>, Option<u32>))
    requires
        primary.matching@.len() == tracks@.len(),
        secondary.matching@.len() == tracks@.len(),
    ensures
        chosen.0 == known(tracks@, match saved {
            Some(pair) => pair.0,
            None => preferred_choice(tracks@, primary.description, primary.language, primary.matching@, 0),
        }),
        chosen.1 == if second_device {
            known(tracks@, match saved {
                Some(pair) => pair.1,
                None => preferred_choice(tracks@, secondary.description, secondary.language, secondary.matching@, 1),
            })
        } else {
            None
        },
{
    let (first, second) = match saved {
        Some(pair) => pair,
        None => (preferred_track(tracks, primary, 0), preferred_track(tracks, secondary, 1)),
    };
    let first = keep_known(tracks, first);
    let second = if second_device { keep_known(tracks, second) } else { None };
    (first, second)
}

proof fn lemma_nth_meets(tracks: Seq<Track>, matching: Seq<bool>, criterion: Criterion, skip: nat)
    requires
        matching.len() == tracks.len(),
    ensures
        nth_of(tracks, matching, criterion, skip) matches Some(index) ==> exists|i: int|
            0 <= i < tracks.len() && (#[trigger] tracks[i]).index == index && meets(criterion, tracks[i], matching[i]),
    decreases tracks.len(),
{
    if tracks.len() > 0 {
        lemma_nth_meets(tracks.drop_first(), matching.drop_first(), criterion, if meets(criterion, tracks[0], matching[0]) && skip > 0 { (skip - 1) as nat } else { skip });
        if let Some(index) = nth_of(tracks, matching, criterion, skip) {
            if !(meets(criterion, tracks[0], matching[0]) && skip == 0) {
                let i = choose|i: int| 0 <= i < tracks.len() - 1 && (#[trigger] tracks.drop_first()[i]).index == index
                    && meets(criterion, tracks.drop_first()[i], matching.drop_first()[i]);
                assert(tracks[i + 1] == tracks.drop_first()[i]);
            }
        }
    }
}

/// A described track is only ever chosen by asking for one: with nothing
/// saved, an output that did not ask for description starts on an ordinary
/// track whenever the film has one. And description in a language that was
/// not asked for is never chosen over none at all: a described track chosen
/// for an output that named a language is in that language, or in one not
/// stated.
pub proof fn description_only_when_asked(tracks: Seq<Track>, want: bool, language: bool, matching: Seq<bool>, fallback: nat)
    requires
        matching.len() == tracks.len(),
    ensures
        !want && has_plain(tracks) ==> (preferred_choice(tracks, want, language, matching, fallback) matches Some(index)
            ==> exists|i: int| 0 <= i < tracks.len() && (#[trigger] tracks[i]).index == index && !tracks[i].described),
        want && language ==> (described_choice(tracks, want, language, matching) matches Some(index)
            ==> exists|i: int| 0 <= i < tracks.len() && (#[trigger] tracks[i]).index == index && tracks[i].described
                && (matching[i] || !tracks[i].known)),
{
    let plain = has_plain(tracks);
    lemma_nth_meets(tracks, matching, Criterion::PoolMatching(plain), 0);
    lemma_nth_meets(tracks, matching, Criterion::Pool(plain), fallback);
    lemma_nth_meets(tracks, matching, Criterion::DescribedMatching, 0);
    lemma_nth_meets(tracks, matching, Criterion::DescribedUnknown, 0);
}

/// A search finds something whenever one of the tracks is one it looks for.
proof fn lemma_first_found(tracks: Seq<Track>, matching: Seq<bool>, criterion: Criterion, i: int)
    requires
        matching.len() == tracks.len(),
        0 <= i < tracks.len(),
        meets(criterion, tracks[i], matching[i]),
    ensures
        nth_of(tracks, matching, criterion, 0) is Some,
    decreases tracks.len(),
{
    if !meets(criterion, tracks[0], matching[0]) {
        assert(tracks.drop_first()[i - 1] == tracks[i]);
        assert(matching.drop_first()[i - 1] == matching[i]);
        lemma_first_found(tracks.drop_first(), matching.drop_first(), criterion, i - 1);
    }
}

/// A search finds a second track whenever two of the tracks are ones it
/// looks for.
proof fn lemma_second_found(tracks: Seq<Track>, matching: Seq<bool>, criterion: Criterion, i: int, j: int)
    requires
        matching.len() == tracks.len(),
        0 <= i < j < tracks.len(),
        meets(criterion, tracks[i], matching[i]),
        meets(criterion, tracks[j], matching[j]),
    ensures
        nth_of(tracks, matching, criterion, 1) is Some,
    decreases tracks.len(),
{
    assert(tracks.drop_first()[j - 1] == tracks[j]);
    assert(matching.drop_first()[j - 1] == matching[j]);
    if meets(criterion, tracks[0], matching[0]) {
        lemma_first_found(tracks.drop_first(), matching.drop_first(), criterion, j - 1);
    } else {
        assert(tracks.drop_first()[i - 1] == tracks[i]);
        assert(matching.drop_first()[i - 1] == matching[i]);
        lemma_second_found(tracks.drop_first(), matching.drop_first(), criterion, i - 1, j - 1);
    }
}

/// The first track a search looks for is the one it finds.
proof fn lemma_first_is_found(tracks: Seq<Track>, matching: Seq<bool>, criterion: Criterion, i: int)
    requires
        matching.len() == tracks.len(),
        0 <= i < tracks.len(),
        meets(criterion, tracks[i], matching[i]),
        forall|k: int| 0 <= k < i ==> !meets(criterion, #[trigger] tracks[k], matching[k]),
    ensures
        nth_of(tracks, matching, criterion, 0) == Some(tracks[i].index),
    decreases tracks.len(),
{
    if i > 0 {
        assert(!meets(criterion, tracks[0], matching[0]));
        let (rest, others) = (tracks.drop_first(), matching.drop_first());
        assert(rest[i - 1] == tracks[i]);
        assert(others[i - 1] == matching[i]);
        assert forall|k: int| 0 <= k < i - 1 implies !meets(criterion, #[trigger] rest[k], others[k]) by {
            assert(rest[k] == tracks[k + 1]);
            assert(others[k] == matching[k + 1]);
        }
        lemma_first_is_found(rest, others, criterion, i - 1);
    }
}

/// The second track a search looks for is the one it finds past the first.
proof fn lemma_second_is_found(tracks: Seq<Track>, matching: Seq<bool>, criterion: Criterion, i: int, j: int)
    requires
        matching.len() == tracks.len(),
        0 <= i < j < tracks.len(),
        meets(criterion, tracks[i], matching[i]),
        meets(criterion, tracks[j], matching[j]),
        forall|k: int| 0 <= k < j && k != i ==> !meets(criterion, #[trigger] tracks[k], matching[k]),
    ensures
        nth_of(tracks, matching, criterion, 1) == Some(tracks[j].index),
    decreases tracks.len(),
{
    let (rest, others) = (tracks.drop_first(), matching.drop_first());
    assert(rest[j - 1] == tracks[j]);
    assert(others[j - 1] == matching[j]);
    if i == 0 {
        assert forall|k: int| 0 <= k < j - 1 implies !meets(criterion, #[trigger] rest[k], others[k]) by {
            assert(rest[k] == tracks[k + 1]);
            assert(others[k] == matching[k + 1]);
        }
        lemma_first_is_found(rest, others, criterion, j - 1);
    } else {
        assert(!meets(criterion, tracks[0], matching[0]));
        assert(rest[i - 1] == tracks[i]);
        assert(others[i - 1] == matching[i]);
        assert forall|k: int| 0 <= k < j - 1 && k != i - 1 implies !meets(criterion, #[trigger] rest[k], others[k]) by {
            assert(rest[k] == tracks[k + 1]);
            assert(others[k] == matching[k + 1]);
        }
        lemma_second_is_found(rest, others, criterion, i - 1, j - 1);
    }
}

/// Whether the track at `k` is of the kind ordinary selection picks from:
/// not described, unless description is all the film has.
pub open spec fn ordinary(tracks: Seq<Track>, k: int) -> bool {
    has_plain(tracks) ==> !tracks[k].described
}

/// With nothing saved and no preference, the primary output starts on the
/// first ordinary track and the secondary one on the second, so the two
/// start on different tracks.
pub proof fn without_preferences_outputs_take_the_first_two_tracks(tracks: Seq<Track>, matching: Seq<bool>, i: int, j: int)
    requires
        matching.len() == tracks.len(),
        0 <= i < j < tracks.len(),
        ordinary(tracks, i),
        ordinary(tracks, j),
        forall|k: int| 0 <= k < j && k != i ==> !ordinary(tracks, k),
    ensures
        preferred_choice(tracks, false, false, matching, 0) == Some(tracks[i].index),
        preferred_choice(tracks, false, false, matching, 1) == Some(tracks[j].index),
{
    let pool = Criterion::Pool(has_plain(tracks));
    assert forall|k: int| 0 <= k < j && k != i implies !meets(pool, #[trigger] tracks[k], matching[k]) by {
        assert(!ordinary(tracks, k));
    }
    lemma_first_is_found(tracks, matching, pool, i);
    lemma_second_is_found(tracks, matching, pool, i, j);
}

/// An output that names a language and did not ask for description starts,
/// with nothing saved, on the first ordinary track in that language,
/// wherever the film has one.
pub proof fn a_named_language_is_heard_first(tracks: Seq<Track>, matching: Seq<bool>, fallback: nat, i: int)
    requires
        matching.len() == tracks.len(),
        0 <= i < tracks.len(),
        ordinary(tracks, i),
        matching[i],
        forall|k: int| 0 <= k < i ==> !(ordinary(tracks, k) && #[trigger] matching[k]),
    ensures
        preferred_choice(tracks, false, true, matching, fallback) == Some(tracks[i].index),
{
    let criterion = Criterion::PoolMatching(has_plain(tracks));
    assert forall|k: int| 0 <= k < i implies !meets(criterion, #[trigger] tracks[k], matching[k]) by {
        assert(!(ordinary(tracks, k) && matching[k]));
    }
    lemma_first_is_found(tracks, matching, criterion, i);
}

/// Whether the tracks at `i` and `j`, the first before the second, are both
/// of the kind ordinary selection picks from: not described, unless
/// description is all the film has.
pub open spec fn two_ordinary(tracks: Seq<Track>, i: int, j: int) -> bool {
    &&& 0 <= i < j < tracks.len()
    &&& has_plain(tracks) ==> !tracks[i].described && !tracks[j].described
}

/// With nothing saved, an output is never left silent while the film has
/// something for it: the primary output starts on a track whenever the
/// film has any track at all, and the secondary one whenever the film has
/// two tracks of the kind ordinary selection picks from (two that are not
/// described, or two of any kind where description is all there is) - a
/// preference for a language or for description that finds nothing falls
/// back to an ordinary track rather than to none. And whatever is chosen
/// is a track the film has.
pub proof fn an_output_is_never_left_silent(tracks: Seq<Track>, want: bool, language: bool, matching: Seq<bool>, fallback: nat)
    requires
        matching.len() == tracks.len(),
    ensures
        tracks.len() > 0 ==> preferred_choice(tracks, want, language, matching, 0) is Some,
        (exists|i: int, j: int| #[trigger] two_ordinary(tracks, i, j))
            ==> preferred_choice(tracks, want, language, matching, 1) is Some,
        preferred_choice(tracks, want, language, matching, fallback) matches Some(index) ==> has_stream(tracks, index),
{
    let plain = has_plain(tracks);
    let pool = Criterion::Pool(plain);
    if tracks.len() > 0 {
        if plain {
            let k = choose|k: int| 0 <= k < tracks.len() && !(#[trigger] tracks[k]).described;
            lemma_first_found(tracks, matching, pool, k);
        } else {
            lemma_first_found(tracks, matching, pool, 0);
        }
    }
    if exists|i: int, j: int| #[trigger] two_ordinary(tracks, i, j) {
        let (i, j) = choose|i: int, j: int| #[trigger] two_ordinary(tracks, i, j);
        lemma_second_found(tracks, matching, pool, i, j);
    }
    lemma_nth_meets(tracks, matching, Criterion::Described, 0);
    lemma_nth_meets(tracks, matching, Criterion::DescribedMatching, 0);
    lemma_nth_meets(tracks, matching, Criterion::DescribedUnknown, 0);
    lemma_nth_meets(tracks, matching, Criterion::PoolMatching(plain), 0);
    lemma_nth_meets(tracks, matching, pool, fallback);
}


/// What one output is handed to play.
pub enum AudioSource<F> {
    /// A separate audio file.
    File(F),
    /// One of the film's own streams.
    Track(u32),
}

/// What each output plays when play is pressed, and the secondary track to
/// write down for the film.
pub struct PlaybackAudio<F> {
    pub primary: Option<AudioSource<F>>,
    pub secondary: Option<AudioSource<F>>,
    pub secondary_track: Option<u32>,
}

/// A separate file wins for its output; else its track, if it has one.
pub open spec fn audio_for<F>(file: Option<F>, track: Option<u32>) -> Option<AudioSource<F>> {
    match file {
        Some(file) => Some(AudioSource::File(file)),
        None => match track {
            Some(index) => Some(AudioSource::Track(index)),
            None => None,
        },
    }
}

/// What each output is handed when play is pressed. Without a second device
/// the secondary output is handed nothing at all, neither its track nor its
/// file, since a sink that cannot be built would fail the whole pipeline.
pub fn playback_audio<F>(
    second_device: bool,
    primary_track: Option<u32>,
    primary_file: Option<F>,
    secondary_track: Option<u32>,
    secondary_file: Option<F>,
) -> (audio: PlaybackAudio<F>)
    ensures
        audio.primary == audio_for(primary_file, primary_track),
        audio.secondary == (if second_device { audio_for(secondary_file, secondary_track) } else { None }),
        audio.secondary_track == (if second_device { secondary_track } else { None }),
{
    let (kept_track, kept_file) = if second_device {
        (secondary_track, secondary_file)
    } else {
        (None, None)
    };
    let primary = match primary_file {
        Some(file) => Some(AudioSource::File(file)),
        None => match primary_track {
            Some(index) => Some(AudioSource::Track(index)),
            None => None,
        },
    };
    let secondary = match kept_file {
        Some(file) => Some(AudioSource::File(file)),
        None => match kept_track {
            Some(index) => Some(AudioSource::Track(index)),
            None => None,
        },
    };
    PlaybackAudio { primary, secondary, secondary_track: kept_track }
}

/// Whether the item Kodi says it is playing can be this video: unless both
/// lengths are known, in whole seconds, and differ by more than five.
pub open spec fn kodi_item_fits_spec(runtime_s: u64, duration_ns: u64) -> bool {
    !(runtime_s > 0 && duration_ns > 0 && {
        let ours = duration_ns / 1_000_000_000;
        (if ours >= runtime_s { ours - runtime_s } else { runtime_s - ours }) > 5
    })
}

/// Whether Kodi's item can be this video; a session attached to another
/// player's item would otherwise write progress onto the wrong film.
pub fn kodi_item_fits(runtime_s: u64, duration_ns: u64) -> (fits: bool)
    ensures
        fits == kodi_item_fits_spec(runtime_s, duration_ns),
{
    if runtime_s > 0 && duration_ns > 0 {
        let ours = duration_ns / 1_000_000_000;
        let apart = if ours >= runtime_s { ours - runtime_s } else { runtime_s - ours };
        apart <= 5
    } else {
        true
    }
}


/// A pair of tracks played is the pair the film comes back with: what play
/// writes down - the secondary track only where there is a device to play it
/// on - is taken as it stands the next time the film is loaded, a `None`
/// included, so long as the film still has the streams.
pub proof fn played_tracks_come_back(
    tracks: Seq<Track>,
    primary: Option<u32>,
    secondary: Option<u32>,
    second_device: bool,
)
    requires
        primary matches Some(index) ==> has_stream(tracks, index),
        secondary matches Some(index) ==> has_stream(tracks, index),
    ensures
        ({
            let written = (primary, if second_device { secondary } else { None });
            &&& known(tracks, written.0) == primary
            &&& (if second_device { known(tracks, written.1) } else { None }) == written.1
        }),
{
}

} // verus!
