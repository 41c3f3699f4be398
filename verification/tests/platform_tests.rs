use emulator_hub::maintenance::{
    accepts_emulator_file, accepts_rom_file, importable_emulator, importable_rom,
};
use emulator_hub::maintenance::{
    emulator_import_platform, emulator_platform_repair, is_stale_helper_name, rom_import_platform,
    rom_platform_repair, stale_helper_ids,
};
use emulator_hub::platform::{
    ambiguous_extension, executable_extension, infer_emulator_platform, infer_rom_platform,
    is_ambiguous_rom_platform, is_executable, is_non_emulator_executable, is_non_emulator_stem,
    is_unknown_platform, platform_name_or_unknown, rom_platform_from, title_from_components,
    title_from_path,
};

#[test]
fn executables_are_recognised_by_extension_in_any_case() {
    assert!(is_executable("emulators/mGBA.exe"));
    assert!(is_executable("emulators/run.BAT"));
    assert!(is_executable("tools/launch.Cmd"));
    assert!(is_executable("x.wsf"));
    assert!(!is_executable("roms/zelda.nes"));
    assert!(!is_executable("emulators/readme"));
    assert!(executable_extension(Some("PIF")));
    assert!(executable_extension(Some("vbs")));
    assert!(!executable_extension(Some("exe2")));
    assert!(!executable_extension(None));
}

#[test]
fn sdl_launchers_and_uninstallers_are_not_emulators() {
    // The changelog names `mgba-sdl` as a helper that must not be imported.
    assert!(is_non_emulator_executable("emulators/mgba-sdl.exe"));
    assert!(is_non_emulator_stem("mgba-sdl"));
    assert!(is_non_emulator_stem("SDL"));
    assert!(is_non_emulator_stem("sdl2-config"));
    assert!(is_non_emulator_stem("mgba.sdl2"));
    assert!(is_non_emulator_stem("mgba sdl"));
    assert!(is_non_emulator_stem("unins000"));
    assert!(is_non_emulator_stem("Uninstall Dolphin"));
    assert!(!is_non_emulator_stem("mGBA"));
    assert!(!is_non_emulator_stem("sdlmame"));
    assert!(!is_non_emulator_stem("Dolphin"));
    assert!(!is_non_emulator_executable("emulators/mGBA.exe"));
}

#[test]
fn titles_come_from_the_file_stem() {
    assert_eq!(title_from_path("roms/Super Mario World.sfc"), "Super Mario World");
    assert_eq!(title_from_path("roms/archive.tar.gz"), "archive.tar");
    assert_eq!(title_from_components(Some("Metroid"), Some("Metroid.nes")), "Metroid");
    assert_eq!(title_from_components(None, Some("name")), "name");
    assert_eq!(title_from_components(None, None), "Untitled");
}

#[test]
fn platform_names_are_trimmed_or_unknown() {
    assert_eq!(platform_name_or_unknown("  SNES  "), "SNES");
    assert_eq!(platform_name_or_unknown("   "), "Unknown");
    assert_eq!(platform_name_or_unknown(""), "Unknown");
    assert!(is_unknown_platform(""));
    assert!(is_unknown_platform("  "));
    assert!(is_unknown_platform("UNKNOWN"));
    assert!(is_unknown_platform("unknown"));
    assert!(!is_unknown_platform("NES"));
    assert!(!is_unknown_platform(" unknown "));
}

#[test]
fn rom_platforms_follow_the_extension() {
    assert_eq!(infer_rom_platform("roms/Metroid Fusion.gba").as_deref(), Some("Game Boy Advance"));
    assert_eq!(infer_rom_platform("roms/Zelda.NES").as_deref(), Some("Nintendo Entertainment System"));
    assert_eq!(infer_rom_platform("roms/Mario.z64").as_deref(), Some("Nintendo 64"));
    assert_eq!(infer_rom_platform("roms/Sonic.md").as_deref(), Some("Sega Genesis"));
    assert_eq!(infer_rom_platform("roms/Wind Waker.iso").as_deref(), Some("Nintendo GameCube"));
    assert_eq!(infer_rom_platform("roms/Bonk.pce").as_deref(), Some("TurboGrafx-16"));
    assert_eq!(infer_rom_platform("roms/notes.txt"), None);
    assert_eq!(infer_rom_platform("roms/no_extension"), None);
    assert_eq!(
        rom_platform_from(Some("Chrono Trigger"), Some("SFC")).as_deref(),
        Some("Super Nintendo")
    );
    assert_eq!(rom_platform_from(Some("x"), None), None);
}

#[test]
fn god_hand_iso_is_a_playstation_2_game() {
    assert_eq!(infer_rom_platform("roms/God Hand (USA).iso").as_deref(), Some("PlayStation 2"));
    assert_eq!(infer_rom_platform("roms/GODHAND.iso").as_deref(), Some("PlayStation 2"));
    assert_eq!(infer_rom_platform("roms/god hand").as_deref(), Some("PlayStation 2"));
}

#[test]
fn pokemon_archive_names_are_game_boy_advance() {
    assert_eq!(infer_rom_platform("roms/Pokemon - Emerald Version.zip").as_deref(), Some("Game Boy Advance"));
    assert_eq!(infer_rom_platform("roms/pokemon firered.7z").as_deref(), Some("Game Boy Advance"));
    assert_eq!(infer_rom_platform("roms/Pokemon LeafGreen.rar").as_deref(), Some("Game Boy Advance"));
    assert_eq!(infer_rom_platform("roms/Pokemon Crystal.zip"), None);
    assert_eq!(infer_rom_platform("roms/Emerald Dragon.zip"), None);
}

#[test]
fn only_iso_images_are_ambiguous() {
    assert!(is_ambiguous_rom_platform("roms/game.ISO"));
    assert!(!is_ambiguous_rom_platform("roms/game.gcm"));
    assert!(!is_ambiguous_rom_platform("roms/game"));
    assert!(ambiguous_extension(Some("iso")));
    assert!(!ambiguous_extension(None));
}

#[test]
fn emulator_platforms_follow_the_name_or_path() {
    assert_eq!(infer_emulator_platform("mGBA", "C:/emu/mGBA.exe").as_deref(), Some("Game Boy Advance"));
    assert_eq!(infer_emulator_platform("Dolphin", "C:/emu/Dolphin.exe").as_deref(), Some("Nintendo GameCube"));
    assert_eq!(infer_emulator_platform("emu", "C:/PCSX2/emu.exe").as_deref(), Some("PlayStation 2"));
    assert_eq!(infer_emulator_platform("DuckStation", "d.exe").as_deref(), Some("PlayStation"));
    assert_eq!(infer_emulator_platform("PPSSPPWindows64", "p.exe").as_deref(), Some("PlayStation Portable"));
    assert_eq!(infer_emulator_platform("melonDS", "m.exe").as_deref(), Some("Nintendo DS"));
    assert_eq!(infer_emulator_platform("citra-qt", "c.exe").as_deref(), Some("Nintendo 3DS"));
    assert_eq!(infer_emulator_platform("Ryujinx", "r.exe").as_deref(), Some("Nintendo Switch"));
    assert_eq!(infer_emulator_platform("Project64", "p.exe").as_deref(), Some("Nintendo 64"));
    assert_eq!(infer_emulator_platform("snes9x-x64", "s.exe").as_deref(), Some("Super Nintendo"));
    assert_eq!(infer_emulator_platform("Nestopia", "n.exe").as_deref(), Some("Nintendo Entertainment System"));
    assert_eq!(infer_emulator_platform("gens", "g.exe").as_deref(), Some("Sega Genesis"));
    assert_eq!(infer_emulator_platform("RetroArch", "r.exe"), None);
}

#[test]
fn imports_use_the_requested_platform_unless_it_is_unknown() {
    assert_eq!(rom_import_platform("SNES", Some("Game Boy".to_string())), "SNES");
    assert_eq!(rom_import_platform("Unknown", Some("Game Boy".to_string())), "Game Boy");
    assert_eq!(rom_import_platform(" ", None), "Unknown");
    assert_eq!(emulator_import_platform("Arcade", "mGBA", "mGBA.exe"), "Arcade");
    assert_eq!(emulator_import_platform("unknown", "mGBA", "mGBA.exe"), "Game Boy Advance");
    assert_eq!(emulator_import_platform("", "RetroArch", "retroarch.exe"), "Unknown");
}

#[test]
fn repair_moves_unknown_and_misfiled_ps2_roms() {
    assert_eq!(
        rom_platform_repair("Unknown", false, Some("Game Boy".to_string())).as_deref(),
        Some("Game Boy")
    );
    assert_eq!(
        rom_platform_repair("Nintendo GameCube", true, Some("PlayStation 2".to_string())).as_deref(),
        Some("PlayStation 2")
    );
    assert_eq!(
        rom_platform_repair("Nintendo GameCube", true, Some("Nintendo GameCube".to_string())),
        None
    );
    assert_eq!(rom_platform_repair("SNES", false, Some("PlayStation 2".to_string())), None);
    assert_eq!(rom_platform_repair("", false, None), None);
}

#[test]
fn repair_moves_unknown_emulators_only() {
    assert_eq!(
        emulator_platform_repair("Unknown", "mGBA", "C:/emu/mGBA.exe").as_deref(),
        Some("Game Boy Advance")
    );
    assert_eq!(emulator_platform_repair("Arcade", "mGBA", "C:/emu/mGBA.exe"), None);
    assert_eq!(emulator_platform_repair("unknown", "RetroArch", "r.exe"), None);
}

#[test]
fn stale_helper_entries_are_found_by_name() {
    assert!(is_stale_helper_name("SDL"));
    assert!(is_stale_helper_name("sdl2-config"));
    assert!(is_stale_helper_name("mgba-sdl"));
    assert!(is_stale_helper_name("mgbaSDL2"));
    assert!(is_stale_helper_name("unins000"));
    assert!(is_stale_helper_name("Uninstall"));
    assert!(!is_stale_helper_name("mGBA"));
    assert!(!is_stale_helper_name("sdlmame"));
    let entries = vec![
        (1, "mGBA".to_string()),
        (2, "mgba-sdl".to_string()),
        (3, "Dolphin".to_string()),
        (4, "unins000".to_string()),
    ];
    assert_eq!(stale_helper_ids(&entries), vec![2, 4]);
    assert_eq!(stale_helper_ids(&Vec::new()), Vec::<i64>::new());
}

#[test]
fn imports_keep_programs_and_roms_apart() {
    assert!(accepts_rom_file(true, Some("gba")));
    assert!(accepts_rom_file(true, None));
    assert!(!accepts_rom_file(true, Some("EXE")));
    assert!(!accepts_rom_file(false, Some("gba")));
    assert!(accepts_emulator_file(true, Some("exe"), Some("mGBA")));
    assert!(!accepts_emulator_file(true, Some("exe"), Some("mgba-sdl")));
    assert!(!accepts_emulator_file(true, Some("exe"), Some("unins000")));
    assert!(!accepts_emulator_file(true, Some("gba"), Some("mGBA")));
    assert!(!accepts_emulator_file(false, Some("exe"), Some("mGBA")));
    assert!(accepts_emulator_file(true, Some("exe"), None));
    assert!(importable_rom(true, "roms/Metroid.gba"));
    assert!(!importable_rom(true, "emu/mGBA.exe"));
    assert!(!importable_rom(false, "roms/Metroid.gba"));
    assert!(importable_emulator(true, "emu/mGBA.exe"));
    assert!(!importable_emulator(true, "emu/mgba-sdl.exe"));
    assert!(!importable_emulator(true, "roms/Metroid.gba"));
}

#[test]
fn known_ps2_images_and_pokemon_archives_are_repaired() {
    assert_eq!(
        rom_platform_repair(
            "Nintendo GameCube",
            is_ambiguous_rom_platform("roms/God Hand.iso"),
            infer_rom_platform("roms/God Hand.iso"),
        )
        .as_deref(),
        Some("PlayStation 2")
    );
    assert_eq!(
        rom_platform_repair(
            "Unknown",
            is_ambiguous_rom_platform("roms/Pokemon Ruby.zip"),
            infer_rom_platform("roms/Pokemon Ruby.zip"),
        )
        .as_deref(),
        Some("Game Boy Advance")
    );
}

#[test]
fn bare_file_names_split_by_the_documented_rules() {
    assert!(is_executable("mGBA.exe"));
    assert!(!is_executable("exe"));
    assert!(!is_executable(".exe"));
    assert_eq!(title_from_path("Super Metroid.sfc"), "Super Metroid");
    assert_eq!(title_from_path(".hidden"), ".hidden");
    assert_eq!(title_from_path("a..b"), "a.");
    assert_eq!(title_from_path("trailing."), "trailing");
    assert_eq!(infer_rom_platform("Zelda.gb").as_deref(), Some("Game Boy"));
    assert!(is_ambiguous_rom_platform("Game.iso"));
    assert!(is_non_emulator_executable("SDL2.exe"));
}
