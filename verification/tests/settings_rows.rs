use tineplayer::rows::{settings_slider_press, slider_reading, Category, Confinement, Item, JellyfinPane, KodiPane, Role, Slider, SliderPress, Switches};
use tineplayer::choices::{kodi_type_step, KodiTypeStep};

/// The Kodi installations these tests pretend were found: two, both
/// ordinary, so the repeated rows are actually repeated.
fn kodis() -> Vec<KodiPane> {
    vec![
        KodiPane {
            heading: "KODI 21.1 (STANDARD)".to_string(),
            confinement: Confinement::Unconfined,
        },
        KodiPane {
            heading: "KODI 20.5 (CUSTOM)".to_string(),
            confinement: Confinement::Unconfined,
        },
    ]
}

/// How many rows an ordinary installation contributes.
const ROWS_PER_KODI: usize = 2;

fn every_row(jellyfin: JellyfinPane) -> Vec<Item> {
    Category::ALL
        .iter()
        .flat_map(|category| category.items(&kodis(), jellyfin))
        .map(|(_, item)| item)
        .collect()
}

#[test]
fn every_item_appears_in_exactly_one_category() {
    for jellyfin in [JellyfinPane::NotConnected, JellyfinPane::Connected] {
        let all = every_row(jellyfin);
        for item in &all {
            let count = all.iter().filter(|other| *other == item).count();
            assert_eq!(count, 1, "an item appears {count} times");
        }
        let elsewhere = 27;
        let kodi = ROWS_PER_KODI * kodis().len() + 1;
        let paired = 1;
        assert_eq!(all.len(), elsewhere + kodi + paired);
    }

    let both: Vec<Item> = every_row(JellyfinPane::NotConnected)
        .into_iter()
        .chain(every_row(JellyfinPane::Connected))
        .collect();
    for item in [Item::JellyfinConnect, Item::JellyfinDisconnect] {
        assert!(both.contains(&item), "{item:?} is on no pane at all");
    }
}

#[test]
fn the_jellyfin_pane_takes_two_shapes() {
    let rows = |state| -> Vec<Item> {
        Category::Jellyfin
            .items(&[], state)
            .into_iter()
            .map(|(_, item)| item)
            .collect()
    };
    assert_eq!(rows(JellyfinPane::NotConnected), vec![Item::JellyfinConnect]);
    assert_eq!(rows(JellyfinPane::Connected), vec![Item::JellyfinDisconnect]);
    for state in [JellyfinPane::NotConnected, JellyfinPane::Connected] {
        let rows = Category::Jellyfin.items(&[], state);
        assert_eq!(rows.len(), 1);
        assert_eq!(rows[0].0.as_deref(), Some("JELLYFIN"));
    }
}

#[test]
fn each_installation_heads_its_own_group() {
    let rows = Category::Kodi.items(&kodis(), JellyfinPane::NotConnected);
    let headed: Vec<(String, Item)> = rows
        .iter()
        .filter_map(|(heading, item)| heading.as_ref().map(|text| (text.to_string(), *item)))
        .collect();
    assert_eq!(
        headed,
        vec![
            ("KODI 21.1 (STANDARD)".to_string(), Item::KodiType(0)),
            ("KODI 20.5 (CUSTOM)".to_string(), Item::KodiType(1)),
            ("OTHER".to_string(), Item::KodiAdd),
        ]
    );
    let items: Vec<Item> = rows.iter().map(|(_, item)| *item).collect();
    assert_eq!(
        items,
        vec![
            Item::KodiType(0),
            Item::KodiHandover(0),
            Item::KodiType(1),
            Item::KodiHandover(1),
            Item::KodiAdd,
        ]
    );
}

#[test]
fn a_sandbox_changes_which_rows_an_installation_has() {
    let sandboxed = |confinement| {
        Category::Kodi
            .items(
                &[KodiPane {
                    heading: "KODI".to_string(),
                    confinement,
                }],
                JellyfinPane::NotConnected,
            )
            .into_iter()
            .map(|(_, item)| item)
            .collect::<Vec<_>>()
    };
    assert_eq!(sandboxed(Confinement::Snap), vec![Item::KodiType(0), Item::KodiAdd]);
    assert_eq!(
        sandboxed(Confinement::Flatpak),
        vec![
            Item::KodiType(0),
            Item::KodiHandover(0),
            Item::KodiPermission(0),
            Item::KodiAdd,
        ]
    );
}

#[test]
fn an_empty_pane_says_why_it_is_empty() {
    let rows = Category::Kodi.items(&[], JellyfinPane::NotConnected);
    let items: Vec<Item> = rows.iter().map(|(_, item)| *item).collect();
    assert_eq!(items, vec![Item::KodiNone, Item::KodiAdd]);
    assert_eq!(rows[0].0.as_deref(), Some("KODI"));
    assert_eq!(rows[1].0, None);
}

#[test]
fn the_version_follows_the_update_switch() {
    let general: Vec<Item> = Category::General
        .items(&kodis(), JellyfinPane::NotConnected)
        .into_iter()
        .map(|(_, item)| item)
        .collect();
    let switch = general.iter().position(|item| *item == Item::Updates);
    let status = general.iter().position(|item| *item == Item::UpdateStatus);
    assert_eq!(status, switch.map(|at| at + 1));
}

#[test]
fn clearing_data_closes_the_resuming_group() {
    let general: Vec<Item> = Category::General
        .items(&kodis(), JellyfinPane::NotConnected)
        .into_iter()
        .map(|(_, item)| item)
        .collect();
    let at = |item: Item| general.iter().position(|other| *other == item);
    assert_eq!(at(Item::ClearData), at(Item::WatchedThreshold).map(|n| n + 1));
    assert!(at(Item::RememberPositions) < at(Item::ClearData));
}

#[test]
fn every_switch_row_has_something_to_switch() {
    for (_, item) in Category::ALL
        .iter()
        .flat_map(|category| category.items(&kodis(), JellyfinPane::Connected))
    {
        if item.has_switch() {
            assert!(
                item.setting().is_none(),
                "a row cannot both open a chooser and hold a switch"
            );
        }
    }
}

#[test]
fn categories_read_as_their_names() {
    assert_eq!(Category::General.title(), "General");
    assert_eq!(Category::Jellyfin.title(), "Jellyfin");
    assert_eq!(Category::About.title(), "About");
}

#[test]
fn sliders_move_in_their_own_steps_and_stay_in_range() {
    let volume = Slider::Volume("primary");
    assert_eq!(volume.step(), 5_000);
    assert_eq!(volume.range(), (0, 100_000));
    assert_eq!(volume.nudged(100_000, true), 100_000);
    assert_eq!(volume.nudged(0, false), 0);
    assert_eq!(volume.nudged(42_000, true), 45_000);
    let offset = Slider::Offset("secondary");
    assert_eq!(offset.range(), (-1_000_000, 1_000_000));
    assert_eq!(offset.clamp(5_000_000), 1_000_000);
}

#[test]
fn a_bar_that_is_off_keeps_its_keys() {
    let volume = Some(Item::Volume(Role::Primary));
    assert_eq!(settings_slider_press(true, volume, false, 50_000, true), SliderPress::Swallow);
    assert_eq!(settings_slider_press(true, volume, true, 50_000, true), SliderPress::MoveTo(55_000));
    assert_eq!(settings_slider_press(true, volume, true, 52_500, false), SliderPress::MoveTo(50_000));
    assert_eq!(settings_slider_press(false, volume, true, 50_000, true), SliderPress::Decline);
    assert_eq!(settings_slider_press(true, Some(Item::Notices), true, 0, true), SliderPress::Decline);
    assert_eq!(settings_slider_press(true, None, true, 0, true), SliderPress::Decline);
    assert_eq!(settings_slider_press(true, Some(Item::SubtitleSize), true, 24_000, true), SliderPress::MoveTo(24_000));
}

#[test]
fn a_moved_bar_reads_in_its_own_unit() {
    assert_eq!(slider_reading(Slider::Volume("primary"), 75_000).as_deref(), Some("75%"));
    assert_eq!(slider_reading(Slider::Offset("primary"), -150_000).as_deref(), Some("-150ms"));
    assert_eq!(slider_reading(Slider::Offset("primary"), 0).as_deref(), Some("0ms"));
    assert_eq!(slider_reading(Slider::SubtitleSize, 12_000).as_deref(), Some("12"));
    assert_eq!(slider_reading(Slider::ResumeThreshold, 5_000).as_deref(), Some("5%"));
    assert_eq!(slider_reading(Slider::WatchedThreshold, 89_600).as_deref(), Some("90%"));
    assert_eq!(slider_reading(Slider::Scale, 0), None);
}

#[test]
fn rows_over_nothing_cannot_be_worked() {
    assert!(!Item::ShowBackdrop.enabled(false, None));
    assert!(Item::ShowBackdrop.enabled(true, None));
    assert!(!Item::KodiType(0).enabled(true, Some((Confinement::Snap, false))));
    assert!(Item::KodiType(0).enabled(true, Some((Confinement::Flatpak, false))));
    assert!(!Item::KodiHandover(0).enabled(true, Some((Confinement::Unconfined, false))));
    assert!(Item::KodiHandover(0).enabled(true, Some((Confinement::Unconfined, true))));
    assert!(!Item::KodiPermission(1).enabled(true, None));
    assert!(!Item::KodiNone.enabled(true, None));
    assert!(Item::Notices.enabled(false, None));
}

#[test]
fn switches_say_what_the_configuration_holds() {
    let switches = Switches {
        automatic_scale: true,
        sounds: false,
        fullscreen: true,
        read_metadata: true,
        show_backdrop: false,
        remember_positions: true,
        primary_description: false,
        secondary_description: true,
        primary_muted: true,
        secondary_muted: false,
        primary_offset_on: true,
        secondary_offset_on: false,
        check_for_updates: true,
    };
    assert_eq!(Item::InterfaceScale.switch_state(switches), Some(true));
    assert_eq!(Item::Sounds.switch_state(switches), Some(false));
    assert_eq!(Item::Volume(Role::Primary).switch_state(switches), Some(false));
    assert_eq!(Item::Volume(Role::Secondary).switch_state(switches), Some(true));
    assert_eq!(Item::Description(Role::Secondary).switch_state(switches), Some(true));
    assert_eq!(Item::Sync(Role::Secondary).switch_state(switches), Some(false));
    assert_eq!(Item::RememberPositions.switch_state(switches), Some(true));
    assert_eq!(Item::Notices.switch_state(switches), None);
    for (_, item) in Category::ALL
        .iter()
        .flat_map(|category| category.items(&kodis(), JellyfinPane::Connected))
    {
        assert_eq!(item.has_switch(), item.switch_state(switches).is_some(), "{item:?}");
    }
}

#[test]
fn a_kodi_is_only_changed_after_asking() {
    // Three types, the last of which is not being registered at all.
    assert_eq!(kodi_type_step(Some(1), true, 3, 1, 2, true), KodiTypeStep::Nothing);
    assert_eq!(kodi_type_step(None, true, 3, 1, 2, true), KodiTypeStep::Nothing);
    assert_eq!(kodi_type_step(Some(0), false, 3, 1, 2, true), KodiTypeStep::Nothing);
    assert_eq!(kodi_type_step(Some(5), true, 3, 1, 2, true), KodiTypeStep::Nothing);
    assert_eq!(kodi_type_step(Some(2), true, 3, 1, 2, true), KodiTypeStep::ConfirmRemoval);
    assert_eq!(kodi_type_step(Some(0), true, 3, 1, 2, true), KodiTypeStep::Rewrite(0));
    assert_eq!(kodi_type_step(Some(0), true, 3, 2, 2, false), KodiTypeStep::ConfirmFirstWrite(0));
}

#[test]
fn only_rows_whose_names_do_not_say_it_carry_a_note() {
    assert_eq!(
        Item::ShowBackdrop.description().as_deref(),
        Some("If backdrop artwork is found, display it behind the video details.")
    );
    assert_eq!(
        Item::Language(Role::Secondary).description().as_deref(),
        Some("Attempt to auto-select a language track for the output.")
    );
    assert_eq!(Item::InterfaceLanguage.description(), None);
    assert_eq!(Item::Volume(Role::Primary).description(), None);
    assert_eq!(Item::Notices.description(), None);
}
