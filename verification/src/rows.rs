//! The settings screen: its categories, the rows each one holds, and what
//! kind of control sits on each row.

use vstd::prelude::*;
use crate::text::{decimal, push_decimal, push_str, string_of};

verus! {

/// Which output a choice is about, where the two are otherwise handled alike.
#[derive(Clone, Copy, PartialEq, Eq, Debug, Structural)]
pub enum Role {
    Primary,
    Secondary,
}

/// How the config file names an output.
pub open spec fn role_key(role: Role) -> Seq<char> {
    match role {
        Role::Primary => "primary"@,
        Role::Secondary => "secondary"@,
    }
}

impl Role {
    /// How the config file names this output. Two spellings of one thing, and
    /// this is where they meet.
    pub fn key(self) -> (key: &'static str)
        ensures
            key@ == role_key(self),
    {
        match self {
            Role::Primary => "primary",
            Role::Secondary => "secondary",
        }
    }
}

/// Which setting a chooser is editing. The menu drills into one of these and
/// returns once a choice is made.
#[derive(Clone, Copy, PartialEq, Eq, Debug, Structural)]
pub enum Setting {
    PrimaryDevice,
    PrimaryTrack,
    SecondaryDevice,
    SecondaryTrack,
    Subtitles,
    PrimaryLanguage,
    SecondaryLanguage,
    SubtitleKind,
    SubtitleLanguage,
    SubtitleFont,
    /// What language the interface itself is in.
    InterfaceLanguage,
    /// What one Kodi does with TinePlayer, and what happens when it hands a
    /// video over, by that installation's place in the pane's list.
    KodiType(usize),
    KodiHandover(usize),
}

/// What a slider on the settings screen is setting.
#[derive(Clone, Copy, PartialEq, Eq, Debug)]
pub enum Slider {
    /// The level for one output, by its key in the config file.
    Volume(&'static str),
    /// How far one output is held back, by its key, in milliseconds.
    Offset(&'static str),
    /// How big the interface is, in steps either side of its normal size.
    Scale,
    /// Subtitle size, in points against the video's own resolution.
    SubtitleSize,
    ResumeThreshold,
    WatchedThreshold,
}

/// Which kind of bar a slider is, without the output it belongs to.
#[derive(Clone, Copy, PartialEq, Eq, Debug, Structural)]
pub enum SliderKind {
    Volume,
    Offset,
    Scale,
    SubtitleSize,
    ResumeThreshold,
    WatchedThreshold,
}

pub open spec fn slider_kind(slider: Slider) -> SliderKind {
    match slider {
        Slider::Volume(_) => SliderKind::Volume,
        Slider::Offset(_) => SliderKind::Offset,
        Slider::Scale => SliderKind::Scale,
        Slider::SubtitleSize => SliderKind::SubtitleSize,
        Slider::ResumeThreshold => SliderKind::ResumeThreshold,
        Slider::WatchedThreshold => SliderKind::WatchedThreshold,
    }
}

/// How far one press moves a bar, in thousandths of the bar's own unit.
///
/// Levels move in fives, a rough setting anyone can hear; the delay in tens
/// of milliseconds; the size in tenths of a step; everything else by one.
pub open spec fn step_of(kind: SliderKind) -> int {
    match kind {
        SliderKind::Volume => 5000,
        SliderKind::Offset => 10000,
        SliderKind::Scale => 100,
        _ => 1000,
    }
}

/// The ends of a bar, in thousandths of its own unit.
pub open spec fn range_of(kind: SliderKind) -> (int, int) {
    match kind {
        SliderKind::Volume => (0, 100000),
        SliderKind::Offset => (-1000000, 1000000),
        SliderKind::ResumeThreshold => (1000, 25000),
        SliderKind::WatchedThreshold => (50000, 100000),
        SliderKind::Scale => (-3000, 3000),
        SliderKind::SubtitleSize => (8000, 24000),
    }
}

/// `value` held to the range `[low, high]`.
pub open spec fn clamped(value: int, low: int, high: int) -> int {
    if value < low {
        low
    } else if value > high {
        high
    } else {
        value
    }
}

/// Where one press in `direction` takes a bar standing at `now`: onto the next
/// point of the step grid beyond it, then held to the bar's range.
pub open spec fn nudge_target(kind: SliderKind, now: int, up: bool) -> int {
    let step = step_of(kind);
    let moved = if up {
        (now / step + 1) * step
    } else {
        (-((-now) / step) - 1) * step
    };
    clamped(moved, range_of(kind).0, range_of(kind).1)
}

/// `value / step`, rounded down, for a positive step.
fn floor_div(value: i64, step: i64) -> (q: i128)
    requires
        step > 0,
    ensures
        q == value as int / step as int,
{
    if value >= 0 {
        (value as i128) / (step as i128)
    } else {
        let magnitude: i128 = -(value as i128);
        let up: i128 = (magnitude + (step as i128) - 1) / (step as i128);
        proof {
            lemma_floor_of_negative(magnitude as int, step as int);
        }
        -up
    }
}

proof fn lemma_floor_of_negative(m: int, s: int)
    requires
        m > 0,
        s > 0,
    ensures
        (-m) / s == -((m + s - 1) / s),
{
    let q = (m + s - 1) / s;
    let r = (m + s - 1) % s;
    assert(m + s - 1 == q * s + r) by (nonlinear_arith)
        requires q == (m + s - 1) / s, r == (m + s - 1) % s, s > 0;
    assert(0 <= r < s) by (nonlinear_arith) requires r == (m + s - 1) % s, s > 0;
    // -m == -q * s + (s - 1 - r), and 0 <= s - 1 - r < s.
    assert(-m == (-q) * s + (s - 1 - r)) by (nonlinear_arith)
        requires m + s - 1 == q * s + r;
    vstd::arithmetic::div_mod::lemma_fundamental_div_mod_converse(-m, s, -q, s - 1 - r);
}

/// The point of a grid of `step` at or below `now`, and the one beyond it.
proof fn lemma_grid_around(now: int, step: int)
    requires
        step > 0,
    ensures
        (now / step) * step <= now < (now / step + 1) * step,
        (now / step + 1) * step <= now + step,
        ((now / step + 1) * step) % step == 0,
{
    let q = now / step;
    let r = now % step;
    assert(now == q * step + r) by (nonlinear_arith) requires q == now / step, r == now % step, step > 0;
    assert(0 <= r < step) by (nonlinear_arith) requires r == now % step, step > 0;
    assert((q + 1) * step == q * step + step) by (nonlinear_arith);
    vstd::arithmetic::div_mod::lemma_mod_multiples_basic(q + 1, step);
    assert((q + 1) * step == step * (q + 1)) by (nonlinear_arith);
}

/// One press of Left or Right moves a bar by at most one step, in the
/// direction pressed, onto the step grid or to an end: a bar not yet at the
/// end it is pressed towards always moves - a value already on the grid
/// goes a whole step, it never stays where it is - and nothing ever leaves
/// the bar's range.
pub proof fn a_press_moves_a_bar_one_step(kind: SliderKind, now: int, up: bool)
    ensures
        range_of(kind).0 <= nudge_target(kind, now, up) <= range_of(kind).1,
        up && range_of(kind).0 <= now < range_of(kind).1
            ==> now < nudge_target(kind, now, up) <= now + step_of(kind),
        !up && range_of(kind).0 < now <= range_of(kind).1
            ==> now - step_of(kind) <= nudge_target(kind, now, up) < now,
        ({
            let target = nudge_target(kind, now, up);
            target == range_of(kind).0 || target == range_of(kind).1 || target % step_of(kind) == 0
        }),
{
    let step = step_of(kind);
    assert(step > 0);
    lemma_grid_around(now, step);
    lemma_grid_around(-now, step);
    let c = (-now) / step;
    assert((-c - 1) * step == -((c + 1) * step)) by (nonlinear_arith);
    assert((-c - 1) * step == -(c * step) - step) by (nonlinear_arith);
    vstd::arithmetic::div_mod::lemma_mod_multiples_basic(-c - 1, step);
    assert((-c - 1) * step == step * (-c - 1)) by (nonlinear_arith);
}

impl Slider {
    /// Which kind of bar this is.
    pub fn kind(self) -> (kind: SliderKind)
        ensures
            kind == slider_kind(self),
    {
        match self {
            Slider::Volume(_) => SliderKind::Volume,
            Slider::Offset(_) => SliderKind::Offset,
            Slider::Scale => SliderKind::Scale,
            Slider::SubtitleSize => SliderKind::SubtitleSize,
            Slider::ResumeThreshold => SliderKind::ResumeThreshold,
            Slider::WatchedThreshold => SliderKind::WatchedThreshold,
        }
    }

    /// How far one press moves it, in thousandths of its unit.
    pub fn step(self) -> (step: i64)
        ensures
            step == step_of(slider_kind(self)),
            step > 0,
    {
        match self {
            Slider::Volume(_) => 5000,
            Slider::Offset(_) => 10000,
            Slider::Scale => 100,
            _ => 1000,
        }
    }

    /// Its two ends, in thousandths of its unit.
    pub fn range(self) -> (range: (i64, i64))
        ensures
            range.0 == range_of(slider_kind(self)).0,
            range.1 == range_of(slider_kind(self)).1,
            range.0 < range.1,
    {
        match self {
            Slider::Volume(_) => (0, 100000),
            Slider::Offset(_) => (-1000000, 1000000),
            Slider::ResumeThreshold => (1000, 25000),
            Slider::WatchedThreshold => (50000, 100000),
            Slider::Scale => (-3000, 3000),
            Slider::SubtitleSize => (8000, 24000),
        }
    }

    /// A value held to what this bar can show.
    pub fn clamp(self, value: i64) -> (held: i64)
        ensures
            held == clamped(value as int, range_of(slider_kind(self)).0, range_of(slider_kind(self)).1),
    {
        let (low, high) = self.range();
        if value < low {
            low
        } else if value > high {
            high
        } else {
            value
        }
    }

    /// Where one press of left or right takes the bar from `now`.
    ///
    /// Snapped to the step rather than added to: a value set finely with a
    /// pointer otherwise carries its odd remainder through every press that
    /// follows. And nudged off the point it stands on first, so a value
    /// already on the grid moves a whole step rather than snapping to itself.
    pub fn nudged(self, now: i64, up: bool) -> (moved: i64)
        ensures
            moved == nudge_target(slider_kind(self), now as int, up),
            range_of(slider_kind(self)).0 <= moved <= range_of(slider_kind(self)).1,
    {
        let step = self.step();
        let moved: i128 = if up {
            (floor_div(now, step) + 1) * (step as i128)
        } else {
            let magnitude: i128 = -(now as i128);
            let q: i128 = if magnitude >= 0 {
                magnitude / (step as i128)
            } else {
                let back: i128 = -magnitude;
                let up_q: i128 = (back + (step as i128) - 1) / (step as i128);
                proof {
                    lemma_floor_of_negative(back as int, step as int);
                }
                -up_q
            };
            (-q - 1) * (step as i128)
        };
        let (low, high) = self.range();
        if moved < low as i128 {
            low
        } else if moved > high as i128 {
            high
        } else {
            moved as i64
        }
    }
}

/// One row on the settings screen, named rather than numbered.
#[derive(Clone, Copy, PartialEq, Eq, Debug, Structural)]
pub enum Item {
    InterfaceScale,
    InterfaceLanguage,
    Sounds,
    StartFullscreen,
    ReadMetadata,
    ShowBackdrop,
    RememberPositions,
    ResumeThreshold,
    WatchedThreshold,
    Updates,
    UpdateStatus,
    ClearData,
    /// The five rows each output has, told apart by which output they are for.
    Device(Role),
    Language(Role),
    Description(Role),
    Volume(Role),
    Sync(Role),
    SubtitlePreference,
    SubtitleLanguagePreference,
    SubtitleSize,
    SubtitleFont,
    /// The rows one Kodi installation has, by its place in the list the pane
    /// was built from.
    KodiType(usize),
    KodiHandover(usize),
    KodiPermission(usize),
    /// Stands in for the groups when there are none, so the pane says why it
    /// is empty rather than only offering to add something.
    KodiNone,
    KodiAdd,
    /// The one row the Jellyfin pane has, in whichever of its two states.
    JellyfinConnect,
    JellyfinDisconnect,
    Notices,
}

/// The chooser a row opens, if it opens one.
pub open spec fn setting_of(item: Item) -> Option<Setting> {
    match item {
        Item::Device(Role::Primary) => Some(Setting::PrimaryDevice),
        Item::Device(Role::Secondary) => Some(Setting::SecondaryDevice),
        Item::Language(Role::Primary) => Some(Setting::PrimaryLanguage),
        Item::Language(Role::Secondary) => Some(Setting::SecondaryLanguage),
        Item::SubtitlePreference => Some(Setting::SubtitleKind),
        Item::SubtitleLanguagePreference => Some(Setting::SubtitleLanguage),
        Item::SubtitleFont => Some(Setting::SubtitleFont),
        Item::InterfaceLanguage => Some(Setting::InterfaceLanguage),
        Item::KodiType(index) => Some(Setting::KodiType(index)),
        Item::KodiHandover(index) => Some(Setting::KodiHandover(index)),
        _ => None,
    }
}

/// Whether a switch sits on a row.
pub open spec fn switch_on(item: Item) -> bool {
    match item {
        Item::InterfaceScale | Item::Sounds | Item::StartFullscreen | Item::ReadMetadata
        | Item::ShowBackdrop | Item::RememberPositions | Item::Description(_) | Item::Volume(_)
        | Item::Sync(_) | Item::Updates => true,
        _ => false,
    }
}

/// The kind of bar a row carries, and the output it moves, if it carries one.
pub open spec fn bar_on(item: Item) -> Option<(SliderKind, Option<Role>)> {
    match item {
        Item::InterfaceScale => Some((SliderKind::Scale, None)),
        Item::SubtitleSize => Some((SliderKind::SubtitleSize, None)),
        Item::Volume(role) => Some((SliderKind::Volume, Some(role))),
        Item::Sync(role) => Some((SliderKind::Offset, Some(role))),
        Item::ResumeThreshold => Some((SliderKind::ResumeThreshold, None)),
        Item::WatchedThreshold => Some((SliderKind::WatchedThreshold, None)),
        _ => None,
    }
}

/// Whether `slider` is the bar described by `bar`.
pub open spec fn slider_matches(slider: Slider, bar: (SliderKind, Option<Role>)) -> bool {
    &&& slider_kind(slider) == bar.0
    &&& match (slider, bar.1) {
        (Slider::Volume(key), Some(role)) => key@ == role_key(role),
        (Slider::Offset(key), Some(role)) => key@ == role_key(role),
        (Slider::Volume(_), None) | (Slider::Offset(_), None) => false,
        (_, None) => true,
        (_, Some(_)) => false,
    }
}

impl Item {
    /// The bar this row carries, if it carries one.
    pub fn slider(self) -> (slider: Option<Slider>)
        ensures
            slider.is_some() == bar_on(self).is_some(),
            slider.is_some() ==> slider_matches(slider.unwrap(), bar_on(self).unwrap()),
    {
        match self {
            Item::InterfaceScale => Some(Slider::Scale),
            Item::SubtitleSize => Some(Slider::SubtitleSize),
            Item::Volume(role) => Some(Slider::Volume(role.key())),
            Item::Sync(role) => Some(Slider::Offset(role.key())),
            Item::ResumeThreshold => Some(Slider::ResumeThreshold),
            Item::WatchedThreshold => Some(Slider::WatchedThreshold),
            _ => None,
        }
    }

    /// The chooser this row opens, if it opens one.
    pub fn setting(self) -> (setting: Option<Setting>)
        ensures
            setting == setting_of(self),
    {
        match self {
            Item::Device(Role::Primary) => Some(Setting::PrimaryDevice),
            Item::Device(Role::Secondary) => Some(Setting::SecondaryDevice),
            Item::Language(Role::Primary) => Some(Setting::PrimaryLanguage),
            Item::Language(Role::Secondary) => Some(Setting::SecondaryLanguage),
            Item::SubtitlePreference => Some(Setting::SubtitleKind),
            Item::SubtitleLanguagePreference => Some(Setting::SubtitleLanguage),
            Item::SubtitleFont => Some(Setting::SubtitleFont),
            Item::InterfaceLanguage => Some(Setting::InterfaceLanguage),
            Item::KodiType(index) => Some(Setting::KodiType(index)),
            Item::KodiHandover(index) => Some(Setting::KodiHandover(index)),
            _ => None,
        }
    }

    /// Whether a switch sits on this row, which decides two things: that a
    /// click on the row itself must not work it, and that activating the row
    /// from the keyboard must.
    pub fn has_switch(self) -> (has: bool)
        ensures
            has == switch_on(self),
    {
        match self {
            Item::InterfaceScale | Item::Sounds | Item::StartFullscreen | Item::ReadMetadata
            | Item::ShowBackdrop | Item::RememberPositions | Item::Description(_)
            | Item::Volume(_) | Item::Sync(_) | Item::Updates => true,
            _ => false,
        }
    }
}

/// A row carries a switch or a chooser, never both: activating a row that
/// claimed a switch and a chooser at once would have two meanings.
pub proof fn switch_rows_open_no_chooser(item: Item)
    ensures
        switch_on(item) ==> setting_of(item).is_none(),
{
}


/// How a Kodi installation was installed, which decides what it can do with
/// an external player.
#[derive(Clone, Copy, PartialEq, Eq, Debug, Structural)]
pub enum Confinement {
    /// An ordinary installation, in no sandbox.
    Unconfined,
    /// A Snap, which cannot start an external player at all.
    Snap,
    /// A Flatpak, which can once it has been given permission.
    Flatpak,
}

/// Whether an installation can start an external player at all.
pub open spec fn confinement_supported(confinement: Confinement) -> bool {
    confinement != Confinement::Snap
}

impl Confinement {
    /// Whether this installation can start an external player at all.
    pub fn supported(self) -> (supported: bool)
        ensures
            supported == confinement_supported(self),
    {
        match self {
            Confinement::Snap => false,
            _ => true,
        }
    }
}

/// What the Kodi pane needs to know about one Kodi to say which rows it has
/// and what heads them.
#[derive(Clone, PartialEq, Eq, Debug)]
pub struct KodiPane {
    /// The group heading, which is the installation's name: "KODI 21.1
    /// (STANDARD)".
    pub heading: String,
    pub confinement: Confinement,
}

/// How far the pairing with a Jellyfin server has got, which is all the pane
/// needs to know to say what is on it.
#[derive(Clone, Copy, PartialEq, Eq, Debug, Structural)]
pub enum JellyfinPane {
    NotConnected,
    Connected,
}

/// The left column of the settings screen, and what each of its entries holds.
#[derive(Clone, Copy, PartialEq, Eq, Debug, Structural)]
pub enum Category {
    General,
    Outputs,
    Subtitles,
    /// The server TinePlayer can be cast from.
    Jellyfin,
    /// A group per Kodi installation found.
    Kodi,
    About,
}

/// A row as the contracts see it: the heading it opens, if any, and the item.
pub type RowView = (Option<Seq<char>>, Item);

/// One settings row as a contract sees it.
pub open spec fn row_view(row: (Option<String>, Item)) -> RowView {
    (
        match row.0 {
            Some(heading) => Some(heading@),
            None => None,
        },
        row.1,
    )
}

/// An installation as a contract sees it.
pub open spec fn kodi_view(kodi: KodiPane) -> (Seq<char>, Confinement) {
    (kodi.heading@, kodi.confinement)
}

/// The rows one installation contributes, as the group at position `index`:
/// what type of player it is under its own heading, then - where it can start
/// a player at all - what it does on handover, and for a Flatpak the
/// permission it needs.
pub open spec fn kodi_group(index: nat, kodi: (Seq<char>, Confinement)) -> Seq<RowView> {
    let head = seq![(Some(kodi.0), Item::KodiType(index as usize))];
    if !confinement_supported(kodi.1) {
        head
    } else if kodi.1 == Confinement::Flatpak {
        head + seq![(None, Item::KodiHandover(index as usize)), (None, Item::KodiPermission(index as usize))]
    } else {
        head + seq![(None, Item::KodiHandover(index as usize))]
    }
}

/// Every installation's group, in the order they were found.
pub open spec fn kodi_groups(kodis: Seq<(Seq<char>, Confinement)>) -> Seq<RowView>
    decreases kodis.len(),
{
    if kodis.len() == 0 {
        Seq::empty()
    } else {
        kodi_groups(kodis.drop_last()) + kodi_group((kodis.len() - 1) as nat, kodis.last())
    }
}

/// What the right-hand pane shows for a category, and the heading each group
/// opens with.
pub open spec fn category_rows(
    category: Category,
    kodis: Seq<(Seq<char>, Confinement)>,
    jellyfin: JellyfinPane,
) -> Seq<RowView> {
    match category {
        Category::General => seq![
            (Some("INTERFACE"@), Item::InterfaceScale),
            (None, Item::InterfaceLanguage),
            (None, Item::Sounds),
            (None, Item::StartFullscreen),
            (Some("LIBRARY"@), Item::ReadMetadata),
            (None, Item::ShowBackdrop),
            (Some("RESUMING"@), Item::RememberPositions),
            (None, Item::ResumeThreshold),
            (None, Item::WatchedThreshold),
            (None, Item::ClearData),
            (Some("UPDATES"@), Item::Updates),
            (None, Item::UpdateStatus),
        ],
        Category::Outputs => seq![
            (Some("FIRST OUTPUT"@), Item::Device(Role::Primary)),
            (None, Item::Language(Role::Primary)),
            (None, Item::Description(Role::Primary)),
            (None, Item::Volume(Role::Primary)),
            (None, Item::Sync(Role::Primary)),
            (Some("SECOND OUTPUT"@), Item::Device(Role::Secondary)),
            (None, Item::Language(Role::Secondary)),
            (None, Item::Description(Role::Secondary)),
            (None, Item::Volume(Role::Secondary)),
            (None, Item::Sync(Role::Secondary)),
        ],
        Category::Subtitles => seq![
            (None, Item::SubtitlePreference),
            (None, Item::SubtitleLanguagePreference),
            (None, Item::SubtitleSize),
            (None, Item::SubtitleFont),
        ],
        Category::Kodi => if kodis.len() == 0 {
            seq![(Some("KODI"@), Item::KodiNone), (None, Item::KodiAdd)]
        } else {
            kodi_groups(kodis).push((Some("OTHER"@), Item::KodiAdd))
        },
        Category::Jellyfin => match jellyfin {
            JellyfinPane::NotConnected => seq![(Some("JELLYFIN"@), Item::JellyfinConnect)],
            JellyfinPane::Connected => seq![(Some("JELLYFIN"@), Item::JellyfinDisconnect)],
        },
        Category::About => seq![(None, Item::Notices)],
    }
}

/// What a category is called in the column.
pub open spec fn category_title(category: Category) -> Seq<char> {
    match category {
        Category::General => "General"@,
        Category::Outputs => "Outputs"@,
        Category::Subtitles => "Subtitles"@,
        Category::Jellyfin => "Jellyfin"@,
        Category::Kodi => "Kodi"@,
        Category::About => "About"@,
    }
}

/// The categories in the order the column shows them.
pub open spec fn all_categories() -> Seq<Category> {
    seq![
        Category::General,
        Category::Outputs,
        Category::Subtitles,
        Category::Jellyfin,
        Category::Kodi,
        Category::About,
    ]
}

fn heading(text: &str) -> (row: Option<String>)
    ensures
        row.is_some(),
        row.unwrap()@ == text@,
{
    Some(text.to_owned())
}

fn push_row(rows: &mut Vec<(Option<String>, Item)>, heading: Option<String>, item: Item)
    ensures
        final(rows)@.len() == old(rows)@.len() + 1,
        forall|i: int| 0 <= i < old(rows)@.len() ==> final(rows)@[i] == old(rows)@[i],
        final(rows)@.last() == (heading, item),
{
    rows.push((heading, item));
}

impl Category {
    /// The order the column shows them in, which is the only thing the order
    /// of these decides.
    pub const ALL: [Category; 6] = [
        Category::General,
        Category::Outputs,
        Category::Subtitles,
        Category::Jellyfin,
        Category::Kodi,
        Category::About,
    ];

    /// What the category is called in the column. The two product names are
    /// the same in every language.
    pub fn title(self) -> (title: String)
        ensures
            title@ == category_title(self),
    {
        match self {
            Category::General => "General".to_owned(),
            Category::Outputs => "Outputs".to_owned(),
            Category::Subtitles => "Subtitles".to_owned(),
            Category::Jellyfin => "Jellyfin".to_owned(),
            Category::Kodi => "Kodi".to_owned(),
            Category::About => "About".to_owned(),
        }
    }

    /// What the right-hand pane shows, and the heading each group opens with.
    ///
    /// `kodis` is every Kodi installation found, and `jellyfin` how far the
    /// pairing with a server has got. Both are passed in so this stays a plain
    /// function of its inputs.
    pub fn items(self, kodis: &[KodiPane], jellyfin: JellyfinPane) -> (rows: Vec<(Option<String>, Item)>)
        ensures
            rows@.map_values(|row: (Option<String>, Item)| row_view(row))
                =~= category_rows(self, kodis@.map_values(|k: KodiPane| kodi_view(k)), jellyfin),
    {
        let ghost kv = kodis@.map_values(|k: KodiPane| kodi_view(k));
        let mut rows: Vec<(Option<String>, Item)> = Vec::new();
        match self {
            Category::General => {
                push_row(&mut rows, heading("INTERFACE"), Item::InterfaceScale);
                push_row(&mut rows, None, Item::InterfaceLanguage);
                push_row(&mut rows, None, Item::Sounds);
                push_row(&mut rows, None, Item::StartFullscreen);
                push_row(&mut rows, heading("LIBRARY"), Item::ReadMetadata);
                push_row(&mut rows, None, Item::ShowBackdrop);
                // Above the two thresholds rather than below them: it decides
                // whether they apply at all.
                push_row(&mut rows, heading("RESUMING"), Item::RememberPositions);
                push_row(&mut rows, None, Item::ResumeThreshold);
                push_row(&mut rows, None, Item::WatchedThreshold);
                // With the settings that decide what gets saved: it destroys
                // exactly what the three rows above it govern.
                push_row(&mut rows, None, Item::ClearData);
                push_row(&mut rows, heading("UPDATES"), Item::Updates);
                push_row(&mut rows, None, Item::UpdateStatus);
            },
            Category::Outputs => {
                push_row(&mut rows, heading("FIRST OUTPUT"), Item::Device(Role::Primary));
                push_row(&mut rows, None, Item::Language(Role::Primary));
                push_row(&mut rows, None, Item::Description(Role::Primary));
                push_row(&mut rows, None, Item::Volume(Role::Primary));
                push_row(&mut rows, None, Item::Sync(Role::Primary));
                push_row(&mut rows, heading("SECOND OUTPUT"), Item::Device(Role::Secondary));
                push_row(&mut rows, None, Item::Language(Role::Secondary));
                push_row(&mut rows, None, Item::Description(Role::Secondary));
                push_row(&mut rows, None, Item::Volume(Role::Secondary));
                push_row(&mut rows, None, Item::Sync(Role::Secondary));
            },
            Category::Subtitles => {
                push_row(&mut rows, None, Item::SubtitlePreference);
                push_row(&mut rows, None, Item::SubtitleLanguagePreference);
                push_row(&mut rows, None, Item::SubtitleSize);
                push_row(&mut rows, None, Item::SubtitleFont);
            },
            Category::Kodi => {
                // Nothing found: one heading rather than two, because the row
                // saying so and the row that does something about it are the
                // same subject.
                if kodis.len() == 0 {
                    push_row(&mut rows, heading("KODI"), Item::KodiNone);
                    push_row(&mut rows, None, Item::KodiAdd);
                } else {
                    let mut index: usize = 0;
                    assert(kv.take(0) =~= Seq::<(Seq<char>, Confinement)>::empty());
                    while index < kodis.len()
                        invariant
                            index <= kodis@.len(),
                            kv == kodis@.map_values(|k: KodiPane| kodi_view(k)),
                            rows@.map_values(|row: (Option<String>, Item)| row_view(row))
                                =~= kodi_groups(kv.take(index as int)),
                        decreases kodis.len() - index,
                    {
                        let ghost before = rows@;
                        let kodi = &kodis[index];
                        push_row(&mut rows, Some(kodi.heading.clone()), Item::KodiType(index));
                        // A Snap gets the one row and no others: it cannot
                        // start an external player at all.
                        if kodi.confinement.supported() {
                            push_row(&mut rows, None, Item::KodiHandover(index));
                            if kodi.confinement == Confinement::Flatpak {
                                push_row(&mut rows, None, Item::KodiPermission(index));
                            }
                        }
                        proof {
                            assert(kv.take(index + 1).drop_last() =~= kv.take(index as int));
                            assert(kv.take(index + 1).last() == kv[index as int]);
                            let next = kodi_group(index as nat, kv[index as int]);
                            assert(rows@.map_values(|row: (Option<String>, Item)| row_view(row))
                                =~= before.map_values(|row: (Option<String>, Item)| row_view(row)) + next);
                        }
                        index = index + 1;
                    }
                    assert(kv.take(kodis@.len() as int) =~= kv);
                    // Under a heading of its own: it belongs to no installation.
                    push_row(&mut rows, heading("OTHER"), Item::KodiAdd);
                }
            },
            // One heading over one row: connect, or stop being connected.
            Category::Jellyfin => match jellyfin {
                JellyfinPane::NotConnected => push_row(&mut rows, heading("JELLYFIN"), Item::JellyfinConnect),
                JellyfinPane::Connected => push_row(&mut rows, heading("JELLYFIN"), Item::JellyfinDisconnect),
            },
            // The text itself is not a row; the pane draws it above this one.
            Category::About => push_row(&mut rows, None, Item::Notices),
        }
        rows
    }
}


/// The items of a run of rows, without their headings.
pub open spec fn items_of(rows: Seq<RowView>) -> Seq<Item> {
    rows.map_values(|row: RowView| row.1)
}

/// Every row the whole screen holds, category after category in the order
/// the column shows them.
pub open spec fn screen_items(kodis: Seq<(Seq<char>, Confinement)>, jellyfin: JellyfinPane) -> Seq<Item> {
    items_of(category_rows(Category::General, kodis, jellyfin))
        + items_of(category_rows(Category::Outputs, kodis, jellyfin))
        + items_of(category_rows(Category::Subtitles, kodis, jellyfin))
        + items_of(category_rows(Category::Jellyfin, kodis, jellyfin))
        + items_of(category_rows(Category::Kodi, kodis, jellyfin))
        + items_of(category_rows(Category::About, kodis, jellyfin))
}

/// How many rows an installation contributes: one for a Snap, which can set
/// nothing; three for a Flatpak, which also needs a permission; two otherwise.
pub open spec fn rows_per_kodi(confinement: Confinement) -> nat {
    match confinement {
        Confinement::Snap => 1,
        Confinement::Flatpak => 3,
        Confinement::Unconfined => 2,
    }
}

/// How many rows every installation's group holds together.
pub open spec fn kodi_row_count(kodis: Seq<(Seq<char>, Confinement)>) -> nat
    decreases kodis.len(),
{
    if kodis.len() == 0 {
        0
    } else {
        kodi_row_count(kodis.drop_last()) + rows_per_kodi(kodis.last().1)
    }
}

/// Which installation a Kodi row belongs to, for the rows that belong to one.
pub open spec fn kodi_owner(item: Item) -> Option<usize> {
    match item {
        Item::KodiType(index) => Some(index),
        Item::KodiHandover(index) => Some(index),
        Item::KodiPermission(index) => Some(index),
        _ => None,
    }
}

proof fn lemma_items_of_add(a: Seq<RowView>, b: Seq<RowView>)
    ensures
        items_of(a + b) =~= items_of(a) + items_of(b),
{
}

proof fn lemma_no_duplicates_add(a: Seq<Item>, b: Seq<Item>)
    requires
        a.no_duplicates(),
        b.no_duplicates(),
        forall|i: int, j: int| 0 <= i < a.len() && 0 <= j < b.len() ==> a[i] != b[j],
    ensures
        (a + b).no_duplicates(),
{
    assert forall|i: int, j: int| 0 <= i < (a + b).len() && 0 <= j < (a + b).len() && i != j
        implies (a + b)[i] != (a + b)[j] by {
        if i < a.len() && j >= a.len() {
            assert((a + b)[j] == b[j - a.len()]);
        } else if j < a.len() && i >= a.len() {
            assert((a + b)[i] == b[i - a.len()]);
        }
    }
}

/// The groups of `kodis` hold only rows that belong to one of them, never the
/// same row twice, and as many rows as the installations contribute between
/// them.
proof fn lemma_kodi_groups(kodis: Seq<(Seq<char>, Confinement)>)
    requires
        kodis.len() <= usize::MAX,
    ensures
        items_of(kodi_groups(kodis)).no_duplicates(),
        items_of(kodi_groups(kodis)).len() == kodi_row_count(kodis),
        forall|i: int| 0 <= i < items_of(kodi_groups(kodis)).len() ==> {
            let owner = kodi_owner(#[trigger] items_of(kodi_groups(kodis))[i]);
            owner.is_some() && owner.unwrap() < kodis.len()
        },
    decreases kodis.len(),
{
    if kodis.len() > 0 {
        let rest = kodis.drop_last();
        let n = (kodis.len() - 1) as nat;
        lemma_kodi_groups(rest);
        let group = kodi_group(n, kodis.last());
        lemma_items_of_add(kodi_groups(rest), group);
        let earlier = items_of(kodi_groups(rest));
        let later = items_of(group);
        assert forall|i: int| 0 <= i < later.len() implies #[trigger] kodi_owner(later[i]) == Some(n as usize) by {}
        assert(later.no_duplicates());
        assert forall|i: int, j: int| 0 <= i < earlier.len() && 0 <= j < later.len()
            implies earlier[i] != later[j] by {
            assert(kodi_owner(earlier[i]).unwrap() < n);
            assert(kodi_owner(later[j]) == Some(n as usize));
        }
        lemma_no_duplicates_add(earlier, later);
    }
}

/// Every setting is somewhere on the settings screen, and nowhere twice,
/// whatever Kodi installations were found and whichever state the Jellyfin
/// pairing is in. The screen holds the twenty-seven rows every machine has,
/// a group of rows per installation plus the one that adds another by hand
/// (or, with none found, the row saying so), and the one Jellyfin row - the
/// way in when not connected, and the way out when connected.
pub proof fn every_item_appears_once(kodis: Seq<(Seq<char>, Confinement)>, jellyfin: JellyfinPane)
    requires
        kodis.len() <= usize::MAX,
    ensures
        screen_items(kodis, jellyfin).no_duplicates(),
        screen_items(kodis, jellyfin).len() == 27 + (if kodis.len() == 0 { 2 } else { kodi_row_count(kodis) + 1 }) + 1,
        jellyfin == JellyfinPane::NotConnected ==> screen_items(kodis, jellyfin).contains(Item::JellyfinConnect)
            && !screen_items(kodis, jellyfin).contains(Item::JellyfinDisconnect),
        jellyfin == JellyfinPane::Connected ==> screen_items(kodis, jellyfin).contains(Item::JellyfinDisconnect)
            && !screen_items(kodis, jellyfin).contains(Item::JellyfinConnect),
{
    let general = items_of(category_rows(Category::General, kodis, jellyfin));
    let outputs = items_of(category_rows(Category::Outputs, kodis, jellyfin));
    let subtitles = items_of(category_rows(Category::Subtitles, kodis, jellyfin));
    let pane = items_of(category_rows(Category::Jellyfin, kodis, jellyfin));
    let kodi = items_of(category_rows(Category::Kodi, kodis, jellyfin));
    let about = items_of(category_rows(Category::About, kodis, jellyfin));
    let fixed = general + outputs + subtitles + pane;
    assert(fixed.len() == 27);
    assert forall|i: int| 0 <= i < fixed.len() implies #[trigger] kodi_owner(fixed[i]).is_none()
        && fixed[i] != Item::KodiNone && fixed[i] != Item::KodiAdd && fixed[i] != Item::Notices by {}
    assert(fixed.no_duplicates());
    lemma_kodi_groups(kodis);
    if kodis.len() > 0 {
        lemma_items_of_add(kodi_groups(kodis), seq![(Some("OTHER"@), Item::KodiAdd)]);
        let groups = items_of(kodi_groups(kodis));
        assert forall|i: int| 0 <= i < groups.len() implies groups[i] != Item::KodiAdd by {
            assert(kodi_owner(groups[i]).is_some());
        }
        lemma_no_duplicates_add(groups, seq![Item::KodiAdd]);
        assert(kodi =~= groups + seq![Item::KodiAdd]);
    }
    assert forall|i: int| 0 <= i < kodi.len() implies
        (kodi_owner(#[trigger] kodi[i]).is_some() || kodi[i] == Item::KodiNone || kodi[i] == Item::KodiAdd) by {
        if kodis.len() > 0 {
            let groups = items_of(kodi_groups(kodis));
            if i < groups.len() {
                assert(kodi[i] == groups[i]);
            }
        }
    }
    assert(kodi.no_duplicates());
    lemma_no_duplicates_add(fixed, kodi);
    lemma_no_duplicates_add(fixed + kodi, about);
    assert(screen_items(kodis, jellyfin) =~= fixed + kodi + about);
    let all = screen_items(kodis, jellyfin);
    match jellyfin {
        JellyfinPane::NotConnected => {
            assert(all[26] == Item::JellyfinConnect);
            assert forall|i: int| 0 <= i < all.len() implies all[i] != Item::JellyfinDisconnect by {
                if 27 <= i < 27 + kodi.len() {
                    assert(all[i] == kodi[i - 27]);
                }
            }
        },
        JellyfinPane::Connected => {
            assert(all[26] == Item::JellyfinDisconnect);
            assert forall|i: int| 0 <= i < all.len() implies all[i] != Item::JellyfinConnect by {
                if 27 <= i < 27 + kodi.len() {
                    assert(all[i] == kodi[i - 27]);
                }
            }
        },
    }
}


/// The rows of a run that open a group, with the heading each opens.
pub open spec fn headed_rows(rows: Seq<RowView>) -> Seq<(Seq<char>, Item)>
    decreases rows.len(),
{
    if rows.len() == 0 {
        Seq::empty()
    } else {
        let earlier = headed_rows(rows.drop_last());
        match rows.last().0 {
            Some(heading) => earlier.push((heading, rows.last().1)),
            None => earlier,
        }
    }
}

proof fn lemma_headed_rows_add(a: Seq<RowView>, b: Seq<RowView>)
    ensures
        headed_rows(a + b) =~= headed_rows(a) + headed_rows(b),
    decreases b.len(),
{
    if b.len() == 0 {
        assert(a + b =~= a);
    } else {
        lemma_headed_rows_add(a, b.drop_last());
        assert((a + b).drop_last() =~= a + b.drop_last());
    }
}

proof fn lemma_headed_none(rows: Seq<RowView>)
    requires
        forall|i: int| 0 <= i < rows.len() ==> (#[trigger] rows[i]).0.is_none(),
    ensures
        headed_rows(rows) =~= Seq::<(Seq<char>, Item)>::empty(),
    decreases rows.len(),
{
    if rows.len() > 0 {
        lemma_headed_none(rows.drop_last());
    }
}

proof fn lemma_headed_single(heading: Seq<char>, item: Item)
    ensures
        headed_rows(seq![(Some(heading), item)]) =~= seq![(heading, item)],
{
    let rows = seq![(Some(heading), item)];
    lemma_headed_none(rows.drop_last());
}

proof fn lemma_headed_kodi_groups(kodis: Seq<(Seq<char>, Confinement)>)
    requires
        kodis.len() <= usize::MAX,
    ensures
        headed_rows(kodi_groups(kodis))
            =~= Seq::new(kodis.len(), |i: int| (kodis[i].0, Item::KodiType(i as usize))),
    decreases kodis.len(),
{
    if kodis.len() > 0 {
        let rest = kodis.drop_last();
        let n = (kodis.len() - 1) as nat;
        lemma_headed_kodi_groups(rest);
        let group = kodi_group(n, kodis.last());
        lemma_headed_rows_add(kodi_groups(rest), group);
        let head = seq![(Some(kodis.last().0), Item::KodiType(n as usize))];
        lemma_headed_single(kodis.last().0, Item::KodiType(n as usize));
        let tail = group.subrange(1, group.len() as int);
        assert(group =~= head + tail);
        lemma_headed_none(tail);
        lemma_headed_rows_add(head, tail);
    }
}

/// Every Kodi installation heads a group of its own, under its own name, in
/// the order they were found; and the row that adds one by hand heads a group
/// that belongs to none of them. With nothing found, one heading stands over
/// both the row saying so and the row that does something about it.
pub proof fn each_installation_heads_its_own_group(kodis: Seq<(Seq<char>, Confinement)>, jellyfin: JellyfinPane)
    requires
        kodis.len() <= usize::MAX,
    ensures
        kodis.len() > 0 ==> headed_rows(category_rows(Category::Kodi, kodis, jellyfin))
            =~= Seq::new(kodis.len(), |i: int| (kodis[i].0, Item::KodiType(i as usize)))
                .push(("OTHER"@, Item::KodiAdd)),
        kodis.len() == 0 ==> headed_rows(category_rows(Category::Kodi, kodis, jellyfin))
            =~= seq![("KODI"@, Item::KodiNone)],
{
    if kodis.len() > 0 {
        lemma_headed_kodi_groups(kodis);
        lemma_headed_single("OTHER"@, Item::KodiAdd);
        lemma_headed_rows_add(kodi_groups(kodis), seq![(Some("OTHER"@), Item::KodiAdd)]);
        assert(category_rows(Category::Kodi, kodis, jellyfin)
            =~= kodi_groups(kodis) + seq![(Some("OTHER"@), Item::KodiAdd)]);
    } else {
        lemma_headed_single("KODI"@, Item::KodiNone);
        let rows = category_rows(Category::Kodi, kodis, jellyfin);
        lemma_headed_none(seq![(None, Item::KodiAdd)]);
        lemma_headed_rows_add(seq![(Some("KODI"@), Item::KodiNone)], seq![(None, Item::KodiAdd)]);
        assert(rows =~= seq![(Some("KODI"@), Item::KodiNone)] + seq![(None, Item::KodiAdd)]);
    }
}

/// The Jellyfin pane says one thing or the other and never both: a single
/// row under a single heading, which is the way in while there is no
/// pairing and the way out while there is one.
pub proof fn jellyfin_pane_has_one_row(kodis: Seq<(Seq<char>, Confinement)>, jellyfin: JellyfinPane)
    ensures
        category_rows(Category::Jellyfin, kodis, jellyfin).len() == 1,
        category_rows(Category::Jellyfin, kodis, jellyfin)[0].0 == Some("JELLYFIN"@),
        (category_rows(Category::Jellyfin, kodis, jellyfin)[0].1 == Item::JellyfinConnect)
            <==> jellyfin == JellyfinPane::NotConnected,
        (category_rows(Category::Jellyfin, kodis, jellyfin)[0].1 == Item::JellyfinDisconnect)
            <==> jellyfin == JellyfinPane::Connected,
{
}

/// On the General pane the version sits directly under the switch that
/// decides whether anything is said about newer ones, and clearing saved data
/// closes the group that the remembering switch opens, directly under the
/// two thresholds it governs.
pub proof fn general_pane_groups(kodis: Seq<(Seq<char>, Confinement)>, jellyfin: JellyfinPane)
    ensures
        ({
            let general = items_of(category_rows(Category::General, kodis, jellyfin));
            &&& general[6] == Item::RememberPositions
            &&& general[7] == Item::ResumeThreshold
            &&& general[8] == Item::WatchedThreshold
            &&& general[9] == Item::ClearData
            &&& general[10] == Item::Updates
            &&& general[11] == Item::UpdateStatus
            &&& general.len() == 12
        }),
        category_rows(Category::General, kodis, jellyfin)[6].0 == Some("RESUMING"@),
        category_rows(Category::General, kodis, jellyfin)[10].0 == Some("UPDATES"@),
        category_rows(Category::General, kodis, jellyfin)[11].0.is_none(),
{
}


/// What Left or Right does to the bar on the selected settings row.
#[derive(Clone, Copy, PartialEq, Eq, Debug, Structural)]
pub enum SliderPress {
    /// Not the bar's: not in a settings pane, or the row has no bar.
    Decline,
    /// Taken and spent: the bar is switched off, and a bar that is off is not
    /// a bar to move - but the row still owns the keys.
    Swallow,
    /// Move the bar to this value, in thousandths of its unit.
    MoveTo(i64),
}

/// What Left or Right does on the settings screen: `in_pane` says whether a
/// settings pane holds the focus, `item` is the row selected, `sensitive`
/// whether its bar is switched on, and `now` where the bar stands.
pub open spec fn slider_press_of(in_pane: bool, item: Option<Item>, sensitive: bool, now: int, up: bool) -> SliderPress {
    if !in_pane {
        SliderPress::Decline
    } else {
        match item {
            None => SliderPress::Decline,
            Some(row) => match bar_on(row) {
                None => SliderPress::Decline,
                Some(bar) => if !sensitive {
                    SliderPress::Swallow
                } else {
                    SliderPress::MoveTo(nudge_target(bar.0, now, up) as i64)
                },
            },
        }
    }
}

/// What Left or Right does on the settings screen; see `slider_press_of`.
/// Wherever it moves a bar to is within the bar's ends.
pub fn settings_slider_press(in_pane: bool, item: Option<Item>, sensitive: bool, now: i64, up: bool) -> (press: SliderPress)
    ensures
        press == slider_press_of(in_pane, item, sensitive, now as int, up),
        press matches SliderPress::MoveTo(value) ==> bar_on(item.unwrap()) matches Some(bar)
            && range_of(bar.0).0 <= value <= range_of(bar.0).1,
{
    if !in_pane {
        return SliderPress::Decline;
    }
    match item {
        None => SliderPress::Decline,
        Some(row) => match row.slider() {
            None => SliderPress::Decline,
            Some(slider) => {
                if !sensitive {
                    SliderPress::Swallow
                } else {
                    SliderPress::MoveTo(slider.nudged(now, up))
                }
            },
        },
    }
}

/// A value in thousandths, rounded to the nearest whole, halves away from
/// nought.
pub open spec fn whole(thousandths: int) -> int {
    if thousandths >= 0 { (thousandths + 500) / 1000 } else { -((-thousandths + 500) / 1000) }
}

/// How a bar's value reads beside it, given in thousandths of its unit;
/// `None` for the interface size, whose reading is a multiplier worked out
/// from its steps.
pub open spec fn slider_reading_of(slider: Slider, thousandths: int) -> Option<Seq<char>> {
    match slider {
        Slider::Volume(_) => Some(crate::readings::volume_reading(whole(thousandths) as nat, false)),
        Slider::Offset(_) => Some(crate::readings::offset_reading(whole(thousandths))),
        Slider::Scale => None,
        Slider::SubtitleSize => Some(decimal(whole(thousandths) as nat)),
        Slider::ResumeThreshold | Slider::WatchedThreshold => Some(decimal(whole(thousandths) as nat) + "%"@),
    }
}

/// How a bar's value reads beside it once it has been moved; see
/// `slider_reading_of`. The value is one the bar can hold.
pub fn slider_reading(slider: Slider, thousandths: i64) -> (reading: Option<String>)
    requires
        range_of(slider_kind(slider)).0 <= thousandths <= range_of(slider_kind(slider)).1,
    ensures
        match reading {
            Some(text) => slider_reading_of(slider, thousandths as int) == Some(text@),
            None => slider_reading_of(slider, thousandths as int) is None,
        },
{
    let rounded: i64 = if thousandths >= 0 { (thousandths + 500) / 1000 } else { -((-thousandths + 500) / 1000) };
    match slider {
        Slider::Volume(_) => Some(crate::readings::volume_label(rounded as u64, false)),
        Slider::Offset(_) => Some(crate::readings::offset_label(rounded)),
        Slider::Scale => None,
        Slider::SubtitleSize => {
            let mut out: Vec<char> = Vec::new();
            push_decimal(&mut out, rounded as u64);
            Some(string_of(out))
        },
        Slider::ResumeThreshold | Slider::WatchedThreshold => {
            let mut out: Vec<char> = Vec::new();
            push_decimal(&mut out, rounded as u64);
            push_str(&mut out, "%");
            Some(string_of(out))
        },
    }
}


/// Whether a row can be worked at all. `read_metadata` says whether anything
/// is read from beside a file, and `kodi` is the installation a Kodi row
/// belongs to - how it was installed, and whether TinePlayer is registered
/// in it - where there is one.
///
/// A control over something that does not exist yet is worse than no
/// control: with nothing read from beside the file there is no artwork to
/// draw, with TinePlayer not registered in a Kodi there is no entry for a
/// handover to be part of nor reason to grant that Kodi permission, and an
/// installation that cannot start an external player can be set to nothing.
pub open spec fn enabled_of(item: Item, read_metadata: bool, kodi: Option<(Confinement, bool)>) -> bool {
    match item {
        Item::ShowBackdrop => read_metadata,
        Item::KodiType(_) => match kodi {
            Some((confinement, _)) => confinement_supported(confinement),
            None => false,
        },
        Item::KodiHandover(_) | Item::KodiPermission(_) => match kodi {
            Some((confinement, configured)) => confinement_supported(confinement) && configured,
            None => false,
        },
        Item::KodiNone => false,
        _ => true,
    }
}

impl Item {
    /// Whether the row can be worked at all; see `enabled_of`.
    pub fn enabled(self, read_metadata: bool, kodi: Option<(Confinement, bool)>) -> (enabled: bool)
        ensures
            enabled == enabled_of(self, read_metadata, kodi),
    {
        match self {
            Item::ShowBackdrop => read_metadata,
            Item::KodiType(_) => match kodi {
                Some((confinement, _)) => confinement.supported(),
                None => false,
            },
            Item::KodiHandover(_) | Item::KodiPermission(_) => match kodi {
                Some((confinement, configured)) => confinement.supported() && configured,
                None => false,
            },
            Item::KodiNone => false,
            _ => true,
        }
    }
}

/// What the switches on the settings screen stand for, as the configuration
/// holds it.
#[derive(Clone, Copy, PartialEq, Eq, Debug, Structural)]
pub struct Switches {
    /// The interface size is worked out from the screen rather than chosen.
    pub automatic_scale: bool,
    pub sounds: bool,
    pub fullscreen: bool,
    pub read_metadata: bool,
    pub show_backdrop: bool,
    /// Playback positions are remembered, so a film can be resumed.
    pub remember_positions: bool,
    pub primary_description: bool,
    pub secondary_description: bool,
    pub primary_muted: bool,
    pub secondary_muted: bool,
    pub primary_offset_on: bool,
    pub secondary_offset_on: bool,
    pub check_for_updates: bool,
}

/// Whether the switch on a row is on, for the rows whose switch the
/// configuration answers. A level's switch is on while the output is heard.
pub open spec fn switch_state_of(item: Item, switches: Switches) -> Option<bool> {
    match item {
        Item::InterfaceScale => Some(switches.automatic_scale),
        Item::Sounds => Some(switches.sounds),
        Item::StartFullscreen => Some(switches.fullscreen),
        Item::ReadMetadata => Some(switches.read_metadata),
        Item::ShowBackdrop => Some(switches.show_backdrop),
        Item::RememberPositions => Some(switches.remember_positions),
        Item::Description(Role::Primary) => Some(switches.primary_description),
        Item::Description(Role::Secondary) => Some(switches.secondary_description),
        Item::Volume(Role::Primary) => Some(!switches.primary_muted),
        Item::Volume(Role::Secondary) => Some(!switches.secondary_muted),
        Item::Sync(Role::Primary) => Some(switches.primary_offset_on),
        Item::Sync(Role::Secondary) => Some(switches.secondary_offset_on),
        Item::Updates => Some(switches.check_for_updates),
        _ => None,
    }
}

impl Item {
    /// Whether the switch on this row is on; see `switch_state_of`.
    pub fn switch_state(self, switches: Switches) -> (on: Option<bool>)
        ensures
            on == switch_state_of(self, switches),
    {
        match self {
            Item::InterfaceScale => Some(switches.automatic_scale),
            Item::Sounds => Some(switches.sounds),
            Item::StartFullscreen => Some(switches.fullscreen),
            Item::ReadMetadata => Some(switches.read_metadata),
            Item::ShowBackdrop => Some(switches.show_backdrop),
            Item::RememberPositions => Some(switches.remember_positions),
            Item::Description(Role::Primary) => Some(switches.primary_description),
            Item::Description(Role::Secondary) => Some(switches.secondary_description),
            Item::Volume(Role::Primary) => Some(!switches.primary_muted),
            Item::Volume(Role::Secondary) => Some(!switches.secondary_muted),
            Item::Sync(Role::Primary) => Some(switches.primary_offset_on),
            Item::Sync(Role::Secondary) => Some(switches.secondary_offset_on),
            Item::Updates => Some(switches.check_for_updates),
            _ => None,
        }
    }
}

/// No row claims a switch it was never built with, and no switch stands on
/// a row without one: a row carries a switch exactly when the configuration
/// gives that switch a state, so activating it always changes a setting.
pub proof fn switch_states_are_on_switch_rows(item: Item, switches: Switches)
    ensures
        switch_state_of(item, switches) is Some <==> switch_on(item),
{
}


/// The line under a row explaining what it does, for the settings whose
/// names do not say it. Most rows have none: a note under every row is a
/// wall of text nobody reads.
pub open spec fn description_of(item: Item) -> Option<Seq<char>> {
    match item {
        Item::ReadMetadata => Some("Find and read metadata beside video files like .nfo and images often provided by media libraries."@),
        Item::ShowBackdrop => Some("If backdrop artwork is found, display it behind the video details."@),
        Item::ResumeThreshold => Some("How much of a video should be viewed before offering the choice to resume a previously watched video."@),
        Item::WatchedThreshold => Some("How much of a video should be viewed to consider it as watched."@),
        Item::Language(_) => Some("Attempt to auto-select a language track for the output."@),
        Item::Description(_) => Some("Attempt to auto-select an Audio Description track for the output."@),
        Item::Sync(_) => Some("Adjust the audio sync for the output. Useful for countering latency with bluetooth speakers and headphones."@),
        Item::SubtitlePreference => Some("Attempt to auto-select subtitles when available."@),
        Item::ClearData => Some("Delete remembered video preferences, track choices, and resume positions."@),
        Item::KodiPermission(_) => Some("This Kodi installation is sandboxed and needs permission to start TinePlayer."@),
        Item::KodiAdd => Some("For a Kodi installation in a non-standard location, such as a portable install. Its user data folder is the one holding guisettings.xml, not the folder Kodi itself is installed in."@),
        Item::JellyfinConnect => Some("Find and connect to a Jellyfin server using Quick Connect."@),
        Item::JellyfinDisconnect => Some("Removes the access token stored on this machine and signs this device out of the server."@),
        _ => None,
    }
}

impl Item {
    /// The line under the row explaining what it does; see `description_of`.
    pub fn description(self) -> (note: Option<String>)
        ensures
            match note {
                Some(text) => description_of(self) == Some(text@),
                None => description_of(self) is None,
            },
    {
        match self {
            Item::ReadMetadata => Some("Find and read metadata beside video files like .nfo and images often provided by media libraries.".to_string()),
            Item::ShowBackdrop => Some("If backdrop artwork is found, display it behind the video details.".to_string()),
            Item::ResumeThreshold => Some("How much of a video should be viewed before offering the choice to resume a previously watched video.".to_string()),
            Item::WatchedThreshold => Some("How much of a video should be viewed to consider it as watched.".to_string()),
            Item::Language(_) => Some("Attempt to auto-select a language track for the output.".to_string()),
            Item::Description(_) => Some("Attempt to auto-select an Audio Description track for the output.".to_string()),
            Item::Sync(_) => Some("Adjust the audio sync for the output. Useful for countering latency with bluetooth speakers and headphones.".to_string()),
            Item::SubtitlePreference => Some("Attempt to auto-select subtitles when available.".to_string()),
            Item::ClearData => Some("Delete remembered video preferences, track choices, and resume positions.".to_string()),
            Item::KodiPermission(_) => Some("This Kodi installation is sandboxed and needs permission to start TinePlayer.".to_string()),
            Item::KodiAdd => Some("For a Kodi installation in a non-standard location, such as a portable install. Its user data folder is the one holding guisettings.xml, not the folder Kodi itself is installed in.".to_string()),
            Item::JellyfinConnect => Some("Find and connect to a Jellyfin server using Quick Connect.".to_string()),
            Item::JellyfinDisconnect => Some("Removes the access token stored on this machine and signs this device out of the server.".to_string()),
            _ => None,
        }
    }
}

} // verus!
