use emulator_hub::files::{
    cover_art_candidates, cover_art_names, cover_art_path_for_rom, magpie_scaling_modes_path,
    now_timestamp, path_string, timestamp_from_seconds,
};
use emulator_hub::library::{LaunchSettings, Tab};
use emulator_hub::maintenance::{
    legacy_launch_settings, migration_plan, migration_start, startup_status, LegacyConfig,
    LegacyRead, MigrationPlan, MigrationStart,
};
use emulator_hub::state::{
    delay_from_stored, delay_to_store, dimension_from_stored, flag_from_stored, flag_to_store,
    is_magpie_preset_name, preset_from_stored, tab_from_name, tab_name, AppSettings, StateRow,
};
use emulator_hub::visuals::{accent_for_name, bgra_to_rgba, icon_label};

fn row() -> StateRow {
    StateRow {
        home_dir: Some("C:/Games".to_string()),
        current_dir: None,
        emulator_dir: None,
        selected_tab: "Upscaling".to_string(),
        fullscreen_enabled: 1,
        fullscreen_arg: "-f".to_string(),
        borderless_enabled: 0,
        borderless_arg: "-borderless".to_string(),
        resolution_enabled: 5,
        resolution_width: 0,
        resolution_height: 720,
        res_width_arg: "-w".to_string(),
        res_height_arg: "-h".to_string(),
        artwork_api_key: None,
        magpie_enabled: 1,
        magpie_auto_start: 0,
        magpie_preset: Some("Bicubic".to_string()),
        magpie_auto_scale: 1,
        magpie_hotkey_key: Some(" q ".to_string()),
        magpie_auto_scale_delay_ms: 50_000,
    }
}

#[test]
fn stored_values_are_read_leniently() {
    assert_eq!(tab_from_name("Settings"), Tab::Settings);
    assert_eq!(tab_from_name("Upscaling"), Tab::Upscaling);
    assert_eq!(tab_from_name("settings"), Tab::Main);
    assert_eq!(tab_name(Tab::Upscaling), "Upscaling");
    for t in [Tab::Main, Tab::Upscaling, Tab::Settings] {
        assert_eq!(tab_from_name(&tab_name(t)), t);
    }
    assert_eq!(delay_from_stored(100), 500);
    assert_eq!(delay_from_stored(2_000), 2_000);
    assert_eq!(delay_from_stored(-1), 500);
    assert_eq!(delay_from_stored(99_999), 10_000);
    assert_eq!(delay_to_store(u64::MAX), 10_000);
    assert_eq!(delay_to_store(750), 750);
    assert_eq!(dimension_from_stored(0), 1);
    assert_eq!(dimension_from_stored(-20), 1);
    assert_eq!(dimension_from_stored(1080), 1080);
    assert_eq!(dimension_from_stored(4_294_967_297), 1);
    assert!(flag_from_stored(2));
    assert!(!flag_from_stored(0));
    assert_eq!(flag_to_store(true), 1);
    assert_eq!(flag_to_store(false), 0);
    assert!(is_magpie_preset_name("Anime4K"));
    assert!(!is_magpie_preset_name("anime4k"));
    assert_eq!(preset_from_stored(Some("Lanczos".to_string())), "Lanczos");
    assert_eq!(preset_from_stored(Some("Bicubic".to_string())), "FSR");
    assert_eq!(preset_from_stored(None), "FSR");
}

#[test]
fn a_stored_row_becomes_the_window_settings() {
    let s = AppSettings::from_row(row());
    assert_eq!(s.current_dir, "C:/Games");
    assert_eq!(s.home_dir.as_deref(), Some("C:/Games"));
    assert_eq!(s.tab, Tab::Upscaling);
    assert!(s.default_settings.fullscreen_enabled);
    assert!(!s.default_settings.borderless_enabled);
    assert!(s.default_settings.resolution_enabled);
    assert_eq!((s.default_settings.resolution_width, s.default_settings.resolution_height), (1, 720));
    assert_eq!(s.artwork_api_key, "");
    assert!(s.magpie_enabled && !s.magpie_auto_start && s.magpie_auto_scale);
    assert_eq!(s.magpie_preset, "FSR");
    assert_eq!(s.magpie_hotkey_key, "Q");
    assert_eq!(s.magpie_auto_scale_delay_ms, 10_000);
}

#[test]
fn settings_read_back_as_they_were_stored() {
    let s = AppSettings {
        home_dir: None,
        current_dir: "D:/Roms".to_string(),
        emulator_dir: Some("D:/Emulators".to_string()),
        tab: Tab::Settings,
        default_settings: LaunchSettings::default(),
        artwork_api_key: "  key123 ".to_string(),
        magpie_enabled: false,
        magpie_auto_start: true,
        magpie_preset: "CAS".to_string(),
        magpie_auto_scale: false,
        magpie_hotkey_key: "x".to_string(),
        magpie_auto_scale_delay_ms: 1_500,
    };
    let r = s.to_row();
    assert_eq!(r.current_dir.as_deref(), Some("D:/Roms"));
    assert_eq!(r.selected_tab, "Settings");
    assert_eq!(r.artwork_api_key.as_deref(), Some("key123"));
    assert_eq!(r.magpie_hotkey_key.as_deref(), Some("X"));
    assert_eq!((r.resolution_width, r.resolution_height), (1920, 1080));
    let t = AppSettings::from_row(r);
    assert_eq!(t.current_dir, "D:/Roms");
    assert_eq!(t.emulator_dir.as_deref(), Some("D:/Emulators"));
    assert_eq!(t.tab, Tab::Settings);
    assert_eq!(t.artwork_api_key, "key123");
    assert_eq!(t.magpie_preset, "CAS");
    assert_eq!(t.magpie_hotkey_key, "X");
    assert_eq!(t.magpie_auto_scale_delay_ms, 1_500);
    assert!(t.magpie_auto_start && !t.magpie_enabled);
    assert_eq!(t.default_settings.res_height_arg, "-height");
}

#[test]
fn an_empty_current_folder_is_stored_as_none() {
    let mut s = AppSettings::from_row(row());
    s.current_dir = String::new();
    s.home_dir = None;
    assert_eq!(s.to_row().current_dir, None);
}

fn legacy(fullscreen_arg: &str, width: u32) -> LegacyConfig {
    LegacyConfig {
        home_dir: Some("C:/Old".to_string()),
        current_dir: None,
        emulator_dir: Some("C:/Emu".to_string()),
        fullscreen_enabled: true,
        fullscreen_arg: fullscreen_arg.to_string(),
        borderless_enabled: false,
        borderless_arg: String::new(),
        resolution_enabled: true,
        resolution_width: width,
        resolution_height: 0,
        res_width_arg: "--w".to_string(),
        res_height_arg: String::new(),
    }
}

#[test]
fn legacy_settings_fill_in_blanks() {
    let s = legacy_launch_settings(legacy("", 0));
    assert_eq!(s.fullscreen_arg, "-f");
    assert_eq!(s.borderless_arg, "-borderless");
    assert_eq!((s.resolution_width, s.resolution_height), (1920, 1080));
    assert_eq!(s.res_width_arg, "--w");
    assert_eq!(s.res_height_arg, "-height");
    let s = legacy_launch_settings(legacy("--fullscreen", 800));
    assert_eq!(s.fullscreen_arg, "--fullscreen");
    assert_eq!(s.resolution_width, 800);
    assert!(s.fullscreen_enabled && s.resolution_enabled && !s.borderless_enabled);
}

#[test]
fn migration_runs_once() {
    assert!(matches!(migration_start(1), MigrationStart::AlreadyDone));
    assert!(matches!(migration_start(0), MigrationStart::ReadLegacyFile));
    match migration_plan(LegacyRead::Missing, "C:/app/emulator_hub_config.json") {
        MigrationPlan::MarkMigrated { status } => assert_eq!(status, ""),
        _ => panic!("nothing to import"),
    }
    match migration_plan(LegacyRead::Unreadable("bad json".to_string()), "C:/app/cfg.json") {
        MigrationPlan::MarkMigrated { status } => assert_eq!(
            status,
            "Could not read legacy settings (bad json). Kept C:/app/cfg.json as a backup."
        ),
        _ => panic!("nothing to import"),
    }
    match migration_plan(LegacyRead::Read(legacy("", 640)), "C:/app/cfg.json") {
        MigrationPlan::Import { home_dir, current_dir, emulator_dir, defaults, status } => {
            assert_eq!(home_dir.as_deref(), Some("C:/Old"));
            assert_eq!(current_dir, None);
            assert_eq!(emulator_dir.as_deref(), Some("C:/Emu"));
            assert_eq!(defaults.fullscreen_arg, "-f");
            assert_eq!(defaults.resolution_width, 640);
            assert_eq!(status, "Migrated legacy settings. Kept C:/app/cfg.json as a backup.");
        }
        _ => panic!("the settings should be imported"),
    }
    assert_eq!(startup_status(String::new()), "Library loaded.");
    assert_eq!(startup_status("Migrated.".to_string()), "Migrated.");
}

#[test]
fn cover_art_is_looked_for_beside_the_rom() {
    let names: Vec<(bool, String)> = cover_art_names("Zelda")
        .into_iter()
        .map(|n| (n.in_covers_folder, n.file_name))
        .collect();
    assert_eq!(names.len(), 12);
    assert_eq!(names[0], (false, "Zelda.png".to_string()));
    assert_eq!(names[1], (false, "Zelda-cover.png".to_string()));
    assert_eq!(names[2], (false, "Zelda_cover.png".to_string()));
    assert_eq!(names[3], (true, "Zelda.png".to_string()));
    assert_eq!(names[4], (false, "Zelda.jpg".to_string()));
    assert_eq!(names[11], (true, "Zelda.jpeg".to_string()));
    let candidates = cover_art_candidates("roms/Zelda.nes");
    assert_eq!(candidates.len(), 12);
    assert_eq!(candidates[0], "roms/Zelda.png");
    assert_eq!(candidates[3], "roms/covers/Zelda.png");
    assert_eq!(candidates[10], "roms/Zelda_cover.jpeg");
    assert!(cover_art_candidates("/").is_empty());
    let mut found = vec![false; 12];
    assert_eq!(cover_art_path_for_rom(&candidates, &found), None);
    found[5] = true;
    found[9] = true;
    assert_eq!(cover_art_path_for_rom(&candidates, &found).as_deref(), Some("roms/Zelda-cover.jpg"));
}

#[test]
fn paths_and_time_stamps() {
    assert_eq!(path_string("C:/Games/a b.iso"), "C:/Games/a b.iso");
    assert_eq!(
        magpie_scaling_modes_path(Some("tools/Magpie/Magpie.exe")).as_deref(),
        Some("tools/Magpie/ScalingModes.json")
    );
    assert_eq!(magpie_scaling_modes_path(None), None);
    assert_eq!(timestamp_from_seconds(Some(1_700_000_000)), 1_700_000_000);
    assert_eq!(timestamp_from_seconds(None), 0);
    assert_eq!(timestamp_from_seconds(Some(u64::MAX)), -1);
    assert!(now_timestamp() > 1_600_000_000);
}

#[test]
fn tiles_show_initials_or_the_start_of_a_single_word() {
    assert_eq!(icon_label("Game Boy Advance"), "GBA");
    assert_eq!(icon_label("Nintendo Entertainment System Classic"), "NES");
    assert_eq!(icon_label("snes9x"), "SNE");
    assert_eq!(icon_label("mGBA"), "MGB");
    assert_eq!(icon_label("PlayStation 2"), "P2");
    assert_eq!(icon_label("TurboGrafx-16"), "T1");
    assert_eq!(icon_label("N64"), "N64");
    assert_eq!(icon_label("go"), "GO");
    assert_eq!(icon_label(" -- "), "?");
    assert_eq!(icon_label(""), "?");
}

#[test]
fn tile_colours_come_from_the_name_hash() {
    assert_eq!(accent_for_name("NES"), (75, 221, 190));
    assert_eq!(accent_for_name("SNES"), (255, 188, 105));
    assert_eq!(accent_for_name("PlayStation 2"), (191, 157, 255));
    assert_eq!(accent_for_name("Dolphin"), (71, 203, 232));
    assert_eq!(accent_for_name(""), (71, 203, 232));
}

#[test]
fn icon_pixels_become_rgba_with_opaque_alpha() {
    let mut pixels = vec![1, 2, 3, 0, 10, 20, 30, 40, 7, 8];
    bgra_to_rgba(&mut pixels);
    assert_eq!(pixels, vec![3, 2, 1, 255, 30, 20, 10, 40, 7, 8]);
    let mut empty: Vec<u8> = Vec::new();
    bgra_to_rgba(&mut empty);
    assert!(empty.is_empty());
}

#[test]
fn settings_file_sits_beside_the_program() {
    assert_eq!(
        magpie_scaling_modes_path(Some("C:/Tools/Magpie/Magpie.exe")).as_deref(),
        Some("C:/Tools/Magpie/ScalingModes.json")
    );
    assert_eq!(
        magpie_scaling_modes_path(Some("/opt/hub/tools/Magpie/Magpie.exe")).as_deref(),
        Some("/opt/hub/tools/Magpie/ScalingModes.json")
    );
    assert_eq!(magpie_scaling_modes_path(Some("Magpie.exe")).as_deref(), Some("ScalingModes.json"));
}

#[test]
fn covers_are_looked_for_in_the_rom_folder() {
    let candidates = cover_art_candidates("/games/nes/Metroid.nes");
    assert_eq!(candidates.len(), 12);
    assert_eq!(candidates[0], "/games/nes/Metroid.png");
    assert_eq!(candidates[3], "/games/nes/covers/Metroid.png");
    let bare = cover_art_candidates("Metroid.nes");
    assert_eq!(bare[0], "Metroid.png");
    assert_eq!(bare[3], "covers/Metroid.png");
}
