//! What the chooser behind each setting offers, worked out from what the
//! application holds at the time.
//!
//! A popover over a row and a full page of choices offer exactly the same
//! list; they differ in how they are put on screen and in nothing else. So
//! there is one place that says, for every setting, which rows there are,
//! which of them is in force and where the rules fall - and the law that
//! every one of those lists is sound is stated here once, for all of them.

use vstd::prelude::*;
use crate::choices::{
    audio_file_from, audio_file_of, device_chooser_is_sound, device_choices, device_current,
    device_dividers, device_entries, dividers_view, entries_view, first_position,
    font_choices, handover_chooser_is_sound, handover_choices, handover_current, interface_language_choices,
    is_order_of, kind_choices, kodi_type_chooser_is_sound, kodi_type_choices, kodi_type_dividers,
    language_chooser_is_sound, language_choices, language_entries, listed_chooser_is_sound,
    listed_entries, opt_view, sound_chooser, subtitle_chooser_is_sound, subtitle_choices,
    subtitle_entries, subtitle_language_chooser_is_sound, subtitle_language_choices,
    subtitle_language_entries, subtitle_language_position, texts, track_chooser_is_sound,
    track_choices, track_current, track_dividers, track_entries, Choices,
};
use crate::rows::Setting;
use crate::session::{Output, Session};

verus! {

/// One Kodi installation, as its two choosers see it.
pub struct KodiInstall {
    /// What each type of player it can be told TinePlayer is reads as, in
    /// the words its present state calls for.
    pub types: Vec<String>,
    /// Which of those types is in force.
    pub state: usize,
    /// Whether TinePlayer is registered with it already.
    pub configured: bool,
    /// Whether it plays a video at once on handing it over.
    pub plays: bool,
}

/// What the application holds that its choosers are built from.
pub struct ChooserState {
    /// The two outputs: their devices, tracks and files.
    pub session: Session,
    /// The output devices found, by name.
    pub devices: Vec<String>,
    /// Whether the search for devices has finished.
    pub scanned: bool,
    /// What each subtitle the video offers is called in a list.
    pub subtitles: Vec<String>,
    /// Which of them is in force, where one is; one past the last stands
    /// for a file from elsewhere.
    pub subtitle: Option<usize>,
    /// What each of the video's soundtracks is called, and the stream each
    /// one is.
    pub tracks: Vec<String>,
    pub streams: Vec<u32>,
    /// The audio files found beside the video, by path.
    pub found: Vec<String>,
    /// The languages, each by its name and its code, and the order they
    /// are listed in, by their places.
    pub language_names: Vec<String>,
    pub language_codes: Vec<String>,
    pub language_order: Vec<usize>,
    /// The audio language each output prefers, by code, where it has one.
    pub primary_language: Option<String>,
    pub secondary_language: Option<String>,
    /// The kinds of subtitle, by label and by the value the setting holds,
    /// and the value in force.
    pub kind_labels: Vec<String>,
    pub kinds: Vec<String>,
    pub subtitle_kind: String,
    /// The outputs a subtitle language can follow, by label and by value,
    /// and the value in force, which is one of those or a language's code.
    pub place_labels: Vec<String>,
    pub places: Vec<String>,
    pub subtitle_language: String,
    /// The subtitle fonts offered, and the one in force.
    pub fonts: Vec<String>,
    pub subtitle_font: String,
    /// The interface languages, by label and by code (none for the system's
    /// own), and the one in force.
    pub interface_labels: Vec<String>,
    pub interface_codes: Vec<Option<String>>,
    pub interface_language: Option<String>,
    /// The Kodi installations, in the order the Kodi pane lists them.
    pub kodi: Vec<KodiInstall>,
}

/// Whether what the application holds hangs together: the lists that run
/// side by side are as long as each other, the languages are listed in an
/// order that names each of them once, a subtitle in force is one of those
/// offered or the file from elsewhere, each Kodi's type in force is one of
/// its types, and every list fits the machine with room for the rows
/// around it.
pub open spec fn holds_together(state: ChooserState) -> bool {
    &&& state.devices@.len() + 2 <= usize::MAX
    &&& state.subtitles@.len() + 2 <= usize::MAX
    &&& (state.subtitle matches Some(p) ==> p <= state.subtitles@.len())
    &&& state.tracks@.len() == state.streams@.len()
    &&& state.tracks@.len() + state.found@.len() + 2 <= usize::MAX
    &&& state.language_names@.len() == state.language_codes@.len()
    &&& is_order_of(state.language_order@, state.language_codes@.len())
    &&& state.kind_labels@.len() == state.kinds@.len()
    &&& 1 <= state.kinds@.len() <= usize::MAX
    &&& state.place_labels@.len() == state.places@.len()
    &&& state.places@.len() + state.language_codes@.len() <= usize::MAX
    &&& state.interface_labels@.len() == state.interface_codes@.len()
    &&& 1 <= state.interface_codes@.len() <= usize::MAX
    &&& state.fonts@.len() <= usize::MAX
    &&& forall|k: int| 0 <= k < state.kodi@.len() ==>
        (#[trigger] state.kodi@[k]).state < state.kodi@[k].types@.len() <= usize::MAX
}

/// The row a chooser opens on for a value found at `position` of its list.
pub open spec fn as_row(position: Option<nat>) -> Option<usize> {
    match position {
        Some(p) => Some(p as usize),
        None => None,
    }
}

/// The output a setting is about, for the settings that are about one.
pub open spec fn output_for(secondary: bool, session: Session) -> Output {
    if secondary { session.secondary } else { session.primary }
}

/// The rows of the chooser for `setting`.
pub open spec fn chooser_rows(setting: Setting, state: ChooserState) -> Seq<(Seq<char>, Option<usize>)> {
    match setting {
        Setting::PrimaryDevice => device_entries(false, texts(state.devices@), state.scanned),
        Setting::SecondaryDevice => device_entries(true, texts(state.devices@), state.scanned),
        Setting::Subtitles => subtitle_entries(texts(state.subtitles@)),
        Setting::PrimaryTrack | Setting::SecondaryTrack => {
            let output = output_for(setting == Setting::SecondaryTrack, state.session);
            track_entries(
                texts(state.tracks@),
                texts(state.found@),
                audio_file_from(opt_view(output.file), texts(state.found@)),
            )
        },
        Setting::PrimaryLanguage => language_entries(false, texts(state.language_names@), state.language_order@),
        Setting::SecondaryLanguage => language_entries(true, texts(state.language_names@), state.language_order@),
        Setting::SubtitleKind => listed_entries(texts(state.kind_labels@)),
        Setting::SubtitleLanguage => subtitle_language_entries(
            texts(state.place_labels@),
            texts(state.language_names@),
            state.language_order@,
        ),
        Setting::SubtitleFont => listed_entries(texts(state.fonts@)),
        Setting::InterfaceLanguage => listed_entries(texts(state.interface_labels@)),
        Setting::KodiType(index) => if index < state.kodi@.len() {
            listed_entries(texts(state.kodi@[index as int].types@))
        } else {
            Seq::empty()
        },
        Setting::KodiHandover(_) => seq![("Show Track Selection Menu"@, Some(0usize)), ("Play Video Immediately"@, Some(1usize))],
    }
}

/// The row the chooser for `setting` opens on: the choice in force.
pub open spec fn chooser_current(setting: Setting, state: ChooserState) -> Option<usize> {
    match setting {
        Setting::PrimaryDevice => device_current(texts(state.devices@), opt_view(state.session.primary.sink)),
        Setting::SecondaryDevice => device_current(texts(state.devices@), opt_view(state.session.secondary.sink)),
        Setting::Subtitles => state.subtitle,
        Setting::PrimaryTrack | Setting::SecondaryTrack => {
            let output = output_for(setting == Setting::SecondaryTrack, state.session);
            track_current(
                state.streams@,
                output.track,
                state.found@.len() as nat,
                audio_file_from(opt_view(output.file), texts(state.found@)),
            )
        },
        Setting::PrimaryLanguage | Setting::SecondaryLanguage => {
            let configured = if setting == Setting::PrimaryLanguage {
                state.primary_language
            } else {
                state.secondary_language
            };
            match opt_view(configured) {
                Some(code) => as_row(first_position(texts(state.language_codes@), code)),
                None => None,
            }
        },
        Setting::SubtitleKind => as_row(first_position(texts(state.kinds@), state.subtitle_kind@)),
        Setting::SubtitleLanguage => subtitle_language_position(
            texts(state.places@),
            texts(state.language_codes@),
            state.subtitle_language@,
        ),
        Setting::SubtitleFont => as_row(first_position(texts(state.fonts@), state.subtitle_font@)),
        Setting::InterfaceLanguage => as_row(first_position(
            state.interface_codes@.map_values(|c: Option<String>| opt_view(c)),
            opt_view(state.interface_language),
        )),
        Setting::KodiType(index) => if index < state.kodi@.len() {
            Some(state.kodi@[index as int].state)
        } else {
            None
        },
        Setting::KodiHandover(index) => handover_current(index < state.kodi@.len() && state.kodi@[index as int].plays),
    }
}

/// Where the chooser for `setting` draws its rules, and what it calls the
/// groups they begin.
pub open spec fn chooser_rules(setting: Setting, state: ChooserState) -> Seq<(usize, Option<Seq<char>>)> {
    match setting {
        Setting::PrimaryDevice => device_dividers(false),
        Setting::SecondaryDevice => device_dividers(true),
        Setting::Subtitles => seq![
            (1usize, None::<Seq<char>>),
            ((state.subtitles@.len() + 1) as usize, None::<Seq<char>>),
        ],
        Setting::PrimaryTrack | Setting::SecondaryTrack => track_dividers(state.tracks@.len() as nat, state.found@.len() as nat),
        Setting::PrimaryLanguage | Setting::SecondaryLanguage => seq![(1usize, None::<Seq<char>>)],
        Setting::SubtitleKind => seq![(1usize, None::<Seq<char>>)],
        Setting::SubtitleLanguage => seq![(state.places@.len() as usize, None::<Seq<char>>)],
        Setting::SubtitleFont => Seq::empty(),
        Setting::InterfaceLanguage => seq![(1usize, None::<Seq<char>>)],
        Setting::KodiType(index) => if index < state.kodi@.len() {
            kodi_type_dividers(state.kodi@[index as int].types@.len() as nat, state.kodi@[index as int].configured)
        } else {
            Seq::empty()
        },
        Setting::KodiHandover(_) => Seq::empty(),
    }
}

/// Every chooser is sound, whichever setting it is for: it opens on a row
/// it holds or on none, no two of its rows stand for the same choice, and
/// every rule it draws falls within the list.
pub proof fn every_chooser_is_sound(setting: Setting, state: ChooserState)
    requires
        holds_together(state),
    ensures
        sound_chooser(chooser_rows(setting, state), chooser_current(setting, state), chooser_rules(setting, state)),
{
    let devices = texts(state.devices@);
    match setting {
        Setting::PrimaryDevice => {
            device_chooser_is_sound(false, devices, state.scanned, opt_view(state.session.primary.sink));
        },
        Setting::SecondaryDevice => {
            device_chooser_is_sound(true, devices, state.scanned, opt_view(state.session.secondary.sink));
        },
        Setting::Subtitles => {
            subtitle_chooser_is_sound(texts(state.subtitles@), state.subtitle);
        },
        Setting::PrimaryTrack | Setting::SecondaryTrack => {
            let output = output_for(setting == Setting::SecondaryTrack, state.session);
            let found = texts(state.found@);
            let file = audio_file_from(opt_view(output.file), found);
            if let Some(path) = opt_view(output.file) {
                crate::choices::lemma_first_position(found, path);
            }
            track_chooser_is_sound(texts(state.tracks@), state.streams@, output.track, found, file);
        },
        Setting::PrimaryLanguage | Setting::SecondaryLanguage => {
            let configured = if setting == Setting::PrimaryLanguage {
                state.primary_language
            } else {
                state.secondary_language
            };
            language_chooser_is_sound(
                setting == Setting::SecondaryLanguage,
                texts(state.language_names@),
                texts(state.language_codes@),
                state.language_order@,
                opt_view(configured),
            );
        },
        Setting::SubtitleKind => {
            listed_chooser_is_sound(texts(state.kind_labels@), texts(state.kinds@), state.subtitle_kind@, true);
        },
        Setting::SubtitleLanguage => {
            subtitle_language_chooser_is_sound(
                texts(state.place_labels@),
                texts(state.places@),
                texts(state.language_names@),
                texts(state.language_codes@),
                state.language_order@,
                state.subtitle_language@,
            );
        },
        Setting::SubtitleFont => {
            listed_chooser_is_sound(texts(state.fonts@), texts(state.fonts@), state.subtitle_font@, false);
        },
        Setting::InterfaceLanguage => {
            listed_chooser_is_sound(
                texts(state.interface_labels@),
                state.interface_codes@.map_values(|c: Option<String>| opt_view(c)),
                opt_view(state.interface_language),
                true,
            );
        },
        Setting::KodiType(index) => {
            if index < state.kodi@.len() {
                let install = state.kodi@[index as int];
                kodi_type_chooser_is_sound(texts(install.types@), install.state, install.configured);
            }
        },
        Setting::KodiHandover(index) => {
            handover_chooser_is_sound(index < state.kodi@.len() && state.kodi@[index as int].plays);
        },
    }
}

/// What the chooser for `setting` offers, which of it is in force, and
/// where its rules fall, from what the application holds; see
/// `chooser_rows`, `chooser_current` and `chooser_rules`. Whatever the
/// setting, the list is sound.
pub fn chooser_entries(setting: Setting, state: &ChooserState) -> (choices: Choices)
    requires
        holds_together(*state),
    ensures
        entries_view(choices) == chooser_rows(setting, *state),
        choices.current == chooser_current(setting, *state),
        dividers_view(choices) == chooser_rules(setting, *state),
        sound_chooser(entries_view(choices), choices.current, dividers_view(choices)),
{
    proof {
        every_chooser_is_sound(setting, *state);
    }
    match setting {
        Setting::PrimaryDevice => device_choices(false, state.devices.as_slice(), &state.session.primary.sink, state.scanned),
        Setting::SecondaryDevice => device_choices(true, state.devices.as_slice(), &state.session.secondary.sink, state.scanned),
        Setting::Subtitles => subtitle_choices(state.subtitles.as_slice(), state.subtitle),
        Setting::PrimaryTrack | Setting::SecondaryTrack => {
            let output = if setting == Setting::SecondaryTrack { &state.session.secondary } else { &state.session.primary };
            let file = audio_file_of(&output.file, state.found.as_slice());
            let choices = track_choices(state.tracks.as_slice(), state.streams.as_slice(), output.track, state.found.as_slice(), file);
            proof {
                assert(state.tracks@.map_values(|t: String| t@) =~= texts(state.tracks@));
                assert(state.found@.map_values(|f: String| f@) =~= texts(state.found@));
            }
            choices
        },
        Setting::PrimaryLanguage | Setting::SecondaryLanguage => {
            let secondary = setting == Setting::SecondaryLanguage;
            let configured = if secondary { &state.secondary_language } else { &state.primary_language };
            language_choices(
                secondary,
                state.language_names.as_slice(),
                state.language_codes.as_slice(),
                state.language_order.as_slice(),
                configured,
            )
        },
        Setting::SubtitleKind => {
            let choices = kind_choices(state.kind_labels.as_slice(), state.kinds.as_slice(), &state.subtitle_kind);
            proof {
                assert(Seq::new(state.kind_labels@.len(), |p: int| (state.kind_labels@[p]@, Some(p as usize)))
                    =~= listed_entries(texts(state.kind_labels@)));
            }
            choices
        },
        Setting::SubtitleLanguage => subtitle_language_choices(
            state.place_labels.as_slice(),
            state.places.as_slice(),
            state.language_names.as_slice(),
            state.language_codes.as_slice(),
            state.language_order.as_slice(),
            &state.subtitle_language,
        ),
        Setting::SubtitleFont => {
            let choices = font_choices(state.fonts.as_slice(), &state.subtitle_font);
            proof {
                assert(Seq::new(state.fonts@.len(), |p: int| (state.fonts@[p]@, Some(p as usize)))
                    =~= listed_entries(texts(state.fonts@)));
            }
            choices
        },
        Setting::InterfaceLanguage => {
            let choices = interface_language_choices(
                state.interface_labels.as_slice(),
                state.interface_codes.as_slice(),
                &state.interface_language,
            );
            proof {
                assert(Seq::new(state.interface_labels@.len(), |p: int| (state.interface_labels@[p]@, Some(p as usize)))
                    =~= listed_entries(texts(state.interface_labels@)));
            }
            choices
        },
        Setting::KodiType(index) => {
            if index < state.kodi.len() {
                let install = &state.kodi[index];
                proof {
                    assert(state.kodi@[index as int] == *install);
                }
                kodi_type_choices(install.types.as_slice(), install.state, install.configured)
            } else {
                let choices = Choices { entries: Vec::new(), current: None, dividers: Vec::new() };
                proof {
                    assert(entries_view(choices) =~= Seq::<(Seq<char>, Option<usize>)>::empty());
                    assert(dividers_view(choices) =~= Seq::<(usize, Option<Seq<char>>)>::empty());
                }
                choices
            }
        },
        Setting::KodiHandover(index) => {
            let plays = index < state.kodi.len() && state.kodi[index].plays;
            handover_choices(plays)
        },
    }
}

} // verus!
