use emulator_hub::library::{
    editing_status, emulators_imported_status, roms_imported_status, settings_saved_status,
    favorite_count, find_emulator, find_emulator_for_platform, find_rom, launch_arguments,
    launch_command_arguments, launched_status, missing_file_status, no_emulator_status,
    plan_launch, roms_missing_artwork, visible_roms, Emulator, LaunchPlan, LaunchSettings,
    LibraryFilter, Rom, SaveTarget, SettingsEditor, Tab,
};

fn settings(fullscreen: bool, borderless: bool, resolution: bool) -> LaunchSettings {
    let mut s = LaunchSettings::default();
    s.fullscreen_enabled = fullscreen;
    s.borderless_enabled = borderless;
    s.resolution_enabled = resolution;
    s
}

fn rom(id: i64, title: &str, platform_id: i64, platform: &str, favorite: bool, cover: Option<&str>) -> Rom {
    Rom {
        id,
        title: title.to_string(),
        source_path: format!("roms/{title}.rom"),
        platform_id,
        platform_name: platform.to_string(),
        cover_art_path: cover.map(|c| c.to_string()),
        favorite,
        last_played_at: None,
        play_count: 0,
    }
}

fn emulator(id: i64, name: &str, platform_id: i64, s: LaunchSettings) -> Emulator {
    Emulator {
        id,
        name: name.to_string(),
        executable_path: format!("emu/{name}.exe"),
        platform_id,
        platform_name: "Platform".to_string(),
        settings: s,
    }
}

fn library() -> (Vec<Rom>, Vec<Emulator>) {
    let roms = vec![
        rom(10, "Metroid Fusion", 1, "Game Boy Advance", true, None),
        rom(11, "Super Metroid", 2, "Super Nintendo", false, Some("covers/sm.png")),
        rom(12, "Sonic", 3, "Sega Genesis", true, None),
    ];
    let emulators = vec![
        emulator(1, "mGBA", 1, settings(false, false, false)),
        emulator(2, "snes9x", 2, settings(true, true, true)),
        emulator(3, "mGBA-nightly", 1, settings(true, false, false)),
    ];
    (roms, emulators)
}

#[test]
fn default_settings_are_the_usual_spellings() {
    let d = LaunchSettings::default();
    assert!(!d.fullscreen_enabled && !d.borderless_enabled && !d.resolution_enabled);
    assert_eq!(d.fullscreen_arg, "-f");
    assert_eq!(d.borderless_arg, "-borderless");
    assert_eq!((d.resolution_width, d.resolution_height), (1920, 1080));
    assert_eq!(d.res_width_arg, "-width");
    assert_eq!(d.res_height_arg, "-height");
}

#[test]
fn options_come_before_the_rom_path() {
    let s = settings(true, true, true);
    assert_eq!(
        launch_command_arguments(&s, "C:/emu/snes9x.exe", "roms/game.sfc"),
        vec!["-borderless", "-f", "-width", "1920", "-height", "1080", "roms/game.sfc"]
    );
    assert_eq!(launch_command_arguments(&LaunchSettings::default(), "emu.exe", "g.rom"), vec!["g.rom"]);
}

#[test]
fn windowed_mgba_is_forced_out_of_fullscreen() {
    let s = settings(false, false, false);
    assert_eq!(launch_arguments(&s, "C:/Emulators/mGBA/mGBA.exe"), vec!["-C", "fullscreen=0"]);
    assert_eq!(launch_arguments(&settings(true, false, false), "C:/Emulators/mGBA.exe"), vec!["-f"]);
    assert_eq!(launch_arguments(&s, "C:/Emulators/snes9x.exe"), Vec::<String>::new());
    let mut custom = settings(false, true, true);
    custom.borderless_arg = "--borderless".to_string();
    custom.resolution_width = 640;
    custom.resolution_height = 480;
    assert_eq!(
        launch_arguments(&custom, "mgba.exe"),
        vec!["--borderless", "-C", "fullscreen=0", "-width", "640", "-height", "480"]
    );
}

#[test]
fn roms_launch_with_the_first_emulator_of_their_platform() {
    let (roms, emulators) = library();
    assert!(matches!(plan_launch(&roms, &emulators, 10), LaunchPlan::Launch { rom: 0, emulator: 0 }));
    assert!(matches!(plan_launch(&roms, &emulators, 11), LaunchPlan::Launch { rom: 1, emulator: 1 }));
    match plan_launch(&roms, &emulators, 12) {
        LaunchPlan::NoEmulator(p) => {
            assert_eq!(p, "Sega Genesis");
            assert_eq!(no_emulator_status(&p), "No emulator is configured for platform 'Sega Genesis'.");
        }
        _ => panic!("no emulator serves the Genesis"),
    }
    assert!(matches!(plan_launch(&roms, &emulators, 99), LaunchPlan::UnknownRom));
    assert_eq!(find_rom(&roms, 12), 2);
    assert_eq!(find_rom(&roms, 5), 3);
    assert_eq!(find_emulator(&emulators, 3), 2);
    assert_eq!(find_emulator_for_platform(&emulators, 1), 0);
    assert_eq!(find_emulator_for_platform(&emulators, 9), 3);
}

#[test]
fn launch_statuses() {
    let (roms, emulators) = library();
    assert_eq!(
        missing_file_status(&roms[0], &emulators[0], false, false).as_deref(),
        Some("ROM file is missing: roms/Metroid Fusion.rom")
    );
    assert_eq!(
        missing_file_status(&roms[0], &emulators[0], true, false).as_deref(),
        Some("Emulator file is missing: emu/mGBA.exe")
    );
    assert_eq!(missing_file_status(&roms[0], &emulators[0], true, true), None);
    assert_eq!(launched_status("Metroid Fusion", "mGBA"), "Launched 'Metroid Fusion' with 'mGBA'.");
}

#[test]
fn the_library_filters_by_favorites_and_search() {
    let (roms, _) = library();
    let titles = |v: Vec<Rom>| v.into_iter().map(|r| r.title).collect::<Vec<_>>();
    assert_eq!(titles(visible_roms(&roms, LibraryFilter::All, "")), vec!["Metroid Fusion", "Super Metroid", "Sonic"]);
    assert_eq!(titles(visible_roms(&roms, LibraryFilter::Favorites, "  ")), vec!["Metroid Fusion", "Sonic"]);
    assert_eq!(titles(visible_roms(&roms, LibraryFilter::All, " METROID ")), vec!["Metroid Fusion", "Super Metroid"]);
    assert_eq!(titles(visible_roms(&roms, LibraryFilter::Favorites, "metroid")), vec!["Metroid Fusion"]);
    assert_eq!(titles(visible_roms(&roms, LibraryFilter::All, "genesis")), vec!["Sonic"]);
    assert_eq!(titles(visible_roms(&roms, LibraryFilter::All, "zelda")), Vec::<String>::new());
    assert_eq!(favorite_count(&roms), 2);
}

#[test]
fn artwork_is_fetched_for_roms_without_covers_up_to_a_limit() {
    let (roms, _) = library();
    assert_eq!(roms_missing_artwork(&roms, 10), vec![10, 12]);
    assert_eq!(roms_missing_artwork(&roms, 1), vec![10]);
    assert_eq!(roms_missing_artwork(&roms, 0), Vec::<i64>::new());
}

fn editor() -> SettingsEditor {
    let (_, emulators) = library();
    SettingsEditor {
        emulators,
        default_settings: LaunchSettings::default(),
        editing_settings: LaunchSettings::default(),
        selected_emulator_id: None,
        tab: Tab::Main,
    }
}

#[test]
fn configure_loads_the_emulators_own_settings() {
    let mut e = editor();
    assert_eq!(e.open_emulator_settings(2), Some(1));
    assert_eq!(e.selected_emulator_id, Some(2));
    assert!(e.editing_settings.fullscreen_enabled && e.editing_settings.borderless_enabled);
    assert_eq!(e.tab, Tab::Settings);
    let mut f = editor();
    assert_eq!(f.open_emulator_settings(42), None);
    assert_eq!(f.tab, Tab::Main);
    assert_eq!(f.selected_emulator_id, None);
}

#[test]
fn saving_without_a_selection_changes_the_defaults() {
    let mut e = editor();
    e.editing_settings.fullscreen_enabled = true;
    assert_eq!(e.save_editing_settings(), SaveTarget::Defaults);
    assert!(e.default_settings.fullscreen_enabled);
    e.select_target(Some(1));
    assert!(!e.editing_settings.fullscreen_enabled);
    e.editing_settings.borderless_enabled = true;
    assert_eq!(e.save_editing_settings(), SaveTarget::Emulator(1));
    assert!(!e.default_settings.borderless_enabled);
}

#[test]
fn a_removed_emulator_falls_back_to_the_defaults() {
    let mut e = editor();
    e.select_target(Some(3));
    assert!(e.editing_settings.fullscreen_enabled);
    e.emulators.truncate(2);
    e.reconcile_selection();
    assert_eq!(e.selected_emulator_id, None);
    assert!(!e.editing_settings.fullscreen_enabled);
    e.select_target(None);
    assert_eq!(e.selected_emulator_id, None);
}

#[test]
fn configure_then_save_writes_the_emulators_profile() {
    let mut e = editor();
    assert_eq!(e.open_emulator_settings(3), Some(2));
    assert!(e.editing_settings.fullscreen_enabled);
    e.editing_settings.resolution_enabled = true;
    assert_eq!(e.save_editing_settings(), SaveTarget::Emulator(3));
    assert!(!e.default_settings.resolution_enabled);
    assert!(!e.default_settings.fullscreen_enabled);
}

#[test]
fn import_and_settings_status_texts() {
    assert_eq!(roms_imported_status(0), "Imported or updated 0 ROM(s).");
    assert_eq!(roms_imported_status(12), "Imported or updated 12 ROM(s).");
    assert_eq!(emulators_imported_status(3), "Imported or updated 3 emulator(s).");
    assert_eq!(editing_status("Mesen"), "Editing settings for 'Mesen'.");
    assert_eq!(settings_saved_status(SaveTarget::Emulator(4)), "Emulator settings saved.");
    assert_eq!(settings_saved_status(SaveTarget::Defaults), "Default launch settings saved.");
}
