//! Keeping the library in order: carrying settings over from the old JSON
//! configuration file, choosing platforms for imported and repaired entries,
//! and recognising helper programs that an older scan imported by mistake.
use vstd::prelude::*;
use crate::library::{LaunchSettings, SettingsView};
use crate::paths::{
    extension_of_name, file_name_of, is_simple_path, path_extension, path_file_stem, stem_of_name,
};
use crate::platform::{
    ambiguous_extension_spec, executable_extension, executable_extension_spec,
    is_non_emulator_stem, is_non_emulator_stem_spec, opt_view, emulator_platform_spec, infer_emulator_platform, is_pokemon_gba_name,
    is_unknown_platform, is_unknown_platform_spec, opt_string_view, platform_for_extension,
    rom_platform_spec,
};
use crate::state::{opt_text, text_or_empty};
use crate::text::{
    ascii_lower, ascii_lowercase, chars_of, concat, concat_str, contains, ends_with_str,
    eq_ignore_ascii_case, eq_str, starts_with_str, string_of,
};

verus! {

// ---------------------------------------------------------------------------
// The old configuration file
// ---------------------------------------------------------------------------

/// The settings of the JSON configuration file that earlier versions kept
/// beside the program.
pub struct LegacyConfig {
    pub home_dir: Option<String>,
    pub current_dir: Option<String>,
    pub emulator_dir: Option<String>,
    pub fullscreen_enabled: bool,
    pub fullscreen_arg: String,
    pub borderless_enabled: bool,
    pub borderless_arg: String,
    pub resolution_enabled: bool,
    pub resolution_width: u32,
    pub resolution_height: u32,
    pub res_width_arg: String,
    pub res_height_arg: String,
}

pub struct LegacyView {
    pub home_dir: Option<Seq<char>>,
    pub current_dir: Option<Seq<char>>,
    pub emulator_dir: Option<Seq<char>>,
    pub fullscreen_enabled: bool,
    pub fullscreen_arg: Seq<char>,
    pub borderless_enabled: bool,
    pub borderless_arg: Seq<char>,
    pub resolution_enabled: bool,
    pub resolution_width: u32,
    pub resolution_height: u32,
    pub res_width_arg: Seq<char>,
    pub res_height_arg: Seq<char>,
}

impl View for LegacyConfig {
    type V = LegacyView;

    open spec fn view(&self) -> LegacyView {
        LegacyView {
            home_dir: opt_text(self.home_dir),
            current_dir: opt_text(self.current_dir),
            emulator_dir: opt_text(self.emulator_dir),
            fullscreen_enabled: self.fullscreen_enabled,
            fullscreen_arg: self.fullscreen_arg@,
            borderless_enabled: self.borderless_enabled,
            borderless_arg: self.borderless_arg@,
            resolution_enabled: self.resolution_enabled,
            resolution_width: self.resolution_width,
            resolution_height: self.resolution_height,
            res_width_arg: self.res_width_arg@,
            res_height_arg: self.res_height_arg@,
        }
    }
}

/// An empty argument in the old file means the usual spelling.
pub open spec fn arg_or(v: Seq<char>, usual: Seq<char>) -> Seq<char> {
    if v.len() == 0 {
        usual
    } else {
        v
    }
}

/// A zero size in the old file means the usual size.
pub open spec fn size_or(v: u32, usual: u32) -> u32 {
    if v == 0 {
        usual
    } else {
        v
    }
}

/// The default launch settings carried over from the old file.
pub open spec fn legacy_settings_spec(c: LegacyView) -> SettingsView {
    SettingsView {
        fullscreen_enabled: c.fullscreen_enabled,
        fullscreen_arg: arg_or(c.fullscreen_arg, "-f"@),
        borderless_enabled: c.borderless_enabled,
        borderless_arg: arg_or(c.borderless_arg, "-borderless"@),
        resolution_enabled: c.resolution_enabled,
        resolution_width: size_or(c.resolution_width, 1920),
        resolution_height: size_or(c.resolution_height, 1080),
        res_width_arg: arg_or(c.res_width_arg, "-width"@),
        res_height_arg: arg_or(c.res_height_arg, "-height"@),
    }
}

fn arg_or_exec(v: String, usual: &str) -> (r: String)
    ensures
        r@ == arg_or(v@, usual@),
{
    if v.as_str().unicode_len() == 0 {
        string_of(&chars_of(usual))
    } else {
        v
    }
}

/// The default launch settings carried over from the old file.
pub fn legacy_launch_settings(config: LegacyConfig) -> (r: LaunchSettings)
    ensures
        r@ == legacy_settings_spec(config@),
{
    LaunchSettings {
        fullscreen_enabled: config.fullscreen_enabled,
        fullscreen_arg: arg_or_exec(config.fullscreen_arg, "-f"),
        borderless_enabled: config.borderless_enabled,
        borderless_arg: arg_or_exec(config.borderless_arg, "-borderless"),
        resolution_enabled: config.resolution_enabled,
        resolution_width: if config.resolution_width == 0 {
            1920
        } else {
            config.resolution_width
        },
        resolution_height: if config.resolution_height == 0 {
            1080
        } else {
            config.resolution_height
        },
        res_width_arg: arg_or_exec(config.res_width_arg, "-width"),
        res_height_arg: arg_or_exec(config.res_height_arg, "-height"),
    }
}

/// Settings carried over from the old file always name every argument and a
/// resolution of at least one pixel each way.
pub proof fn carried_over_settings_are_complete(c: LegacyView)
    ensures
        ({
            let s = legacy_settings_spec(c);
            &&& s.fullscreen_arg.len() > 0
            &&& s.borderless_arg.len() > 0
            &&& s.res_width_arg.len() > 0
            &&& s.res_height_arg.len() > 0
            &&& s.resolution_width >= 1
            &&& s.resolution_height >= 1
        }),
{
    reveal_strlit("-f");
    reveal_strlit("-borderless");
    reveal_strlit("-width");
    reveal_strlit("-height");
}

/// Each carried-over setting comes from its own field of the old file: the
/// switches as they were, each size unless it was zero (then 1920 wide and
/// 1080 high), each argument unless it was empty (then `-f`, `-borderless`,
/// `-width` and `-height`).
pub proof fn carried_over_settings_keep_their_fields(c: LegacyView)
    ensures
        ({
            let s = legacy_settings_spec(c);
            &&& s.fullscreen_enabled == c.fullscreen_enabled
            &&& s.borderless_enabled == c.borderless_enabled
            &&& s.resolution_enabled == c.resolution_enabled
            &&& (c.resolution_width != 0 ==> s.resolution_width == c.resolution_width)
            &&& (c.resolution_width == 0 ==> s.resolution_width == 1920)
            &&& (c.resolution_height != 0 ==> s.resolution_height == c.resolution_height)
            &&& (c.resolution_height == 0 ==> s.resolution_height == 1080)
            &&& (c.fullscreen_arg.len() > 0 ==> s.fullscreen_arg == c.fullscreen_arg)
            &&& (c.fullscreen_arg.len() == 0 ==> s.fullscreen_arg == "-f"@)
            &&& (c.borderless_arg.len() > 0 ==> s.borderless_arg == c.borderless_arg)
            &&& (c.borderless_arg.len() == 0 ==> s.borderless_arg == "-borderless"@)
            &&& (c.res_width_arg.len() > 0 ==> s.res_width_arg == c.res_width_arg)
            &&& (c.res_width_arg.len() == 0 ==> s.res_width_arg == "-width"@)
            &&& (c.res_height_arg.len() > 0 ==> s.res_height_arg == c.res_height_arg)
            &&& (c.res_height_arg.len() == 0 ==> s.res_height_arg == "-height"@)
        }),
{
}

// ---------------------------------------------------------------------------
// Carrying the old file over, step by step
// ---------------------------------------------------------------------------

/// What reading the old file gave.
pub enum LegacyRead {
    /// There is no such file.
    Missing,
    /// The file could not be read or parsed; the error, as text.
    Unreadable(String),
    /// The file's settings.
    Read(LegacyConfig),
}

/// What to do once the stored migration flag is known.
pub enum MigrationStart {
    /// The settings were carried over before: nothing to do, and no status.
    AlreadyDone,
    /// Read the old file and hand the result to `migration_plan`.
    ReadLegacyFile,
}

/// The first step: only an unset flag leads to reading the old file.
pub fn migration_start(migrated_flag: i64) -> (r: MigrationStart)
    ensures
        (r is AlreadyDone) == (migrated_flag != 0),
{
    if migrated_flag != 0 {
        MigrationStart::AlreadyDone
    } else {
        MigrationStart::ReadLegacyFile
    }
}

/// What is written to storage, and the status shown.
pub enum MigrationPlan {
    /// Only set the migration flag.
    MarkMigrated { status: String },
    /// Store these folders and defaults, and set the flag.
    Import {
        home_dir: Option<String>,
        current_dir: Option<String>,
        emulator_dir: Option<String>,
        defaults: LaunchSettings,
        status: String,
    },
}

pub open spec fn migrated_status(path: Seq<char>) -> Seq<char> {
    "Migrated legacy settings. Kept "@ + path + " as a backup."@
}

pub open spec fn unreadable_status(error: Seq<char>, path: Seq<char>) -> Seq<char> {
    "Could not read legacy settings ("@ + error + "). Kept "@ + path + " as a backup."@
}

/// The second step, after the old file at `legacy_path` was looked for.
pub fn migration_plan(read: LegacyRead, legacy_path: &str) -> (r: MigrationPlan)
    ensures
        match read {
            LegacyRead::Missing => r matches MigrationPlan::MarkMigrated { status } && status@
                == Seq::<char>::empty(),
            LegacyRead::Unreadable(e) => r matches MigrationPlan::MarkMigrated { status }
                && status@ == unreadable_status(e@, legacy_path@),
            LegacyRead::Read(c) => r matches MigrationPlan::Import {
                home_dir,
                current_dir,
                emulator_dir,
                defaults,
                status,
            } && opt_text(home_dir) == c@.home_dir && opt_text(current_dir) == c@.current_dir
                && opt_text(emulator_dir) == c@.emulator_dir && defaults@ == legacy_settings_spec(
                c@,
            ) && status@ == migrated_status(legacy_path@),
        },
{
    let path = chars_of(legacy_path);
    match read {
        LegacyRead::Missing => MigrationPlan::MarkMigrated { status: String::new() },
        LegacyRead::Unreadable(e) => {
            let a = concat(&chars_of("Could not read legacy settings ("), &chars_of(e.as_str()));
            let b = concat(&concat_str(&a, "). Kept "), &path);
            let status = string_of(&concat_str(&b, " as a backup."));
            MigrationPlan::MarkMigrated { status }
        },
        LegacyRead::Read(c) => {
            let a = concat(&chars_of("Migrated legacy settings. Kept "), &path);
            let status = string_of(&concat_str(&a, " as a backup."));
            let LegacyConfig {
                home_dir,
                current_dir,
                emulator_dir,
                fullscreen_enabled,
                fullscreen_arg,
                borderless_enabled,
                borderless_arg,
                resolution_enabled,
                resolution_width,
                resolution_height,
                res_width_arg,
                res_height_arg,
            } = c;
            let defaults = legacy_launch_settings(
                LegacyConfig {
                    home_dir: None,
                    current_dir: None,
                    emulator_dir: None,
                    fullscreen_enabled,
                    fullscreen_arg,
                    borderless_enabled,
                    borderless_arg,
                    resolution_enabled,
                    resolution_width,
                    resolution_height,
                    res_width_arg,
                    res_height_arg,
                },
            );
            MigrationPlan::Import { home_dir, current_dir, emulator_dir, defaults, status }
        },
    }
}

/// The status shown once the library is open: the migration's status, or a
/// plain greeting when it had nothing to say.
pub fn startup_status(migration_status: String) -> (r: String)
    ensures
        migration_status@.len() == 0 ==> r@ == "Library loaded."@,
        migration_status@.len() > 0 ==> r@ == migration_status@,
{
    if migration_status.as_str().unicode_len() == 0 {
        string_of(&chars_of("Library loaded."))
    } else {
        migration_status
    }
}

// ---------------------------------------------------------------------------
// Platforms for imported and repaired entries
// ---------------------------------------------------------------------------

pub open spec fn or_unknown(o: Option<Seq<char>>) -> Seq<char> {
    match o {
        Some(s) => s,
        None => "Unknown"@,
    }
}

fn or_unknown_exec(o: Option<String>) -> (r: String)
    ensures
        r@ == or_unknown(opt_string_view(o)),
{
    match o {
        Some(s) => s,
        None => string_of(&chars_of("Unknown")),
    }
}

/// A file is imported as a ROM when it exists and is not a program.
pub open spec fn rom_file_accepted(is_file: bool, ext: Option<Seq<char>>) -> bool {
    is_file && !executable_extension_spec(ext)
}

/// A file is imported as an emulator when it exists, is a program, and is
/// not a helper such as an SDL launcher or an uninstaller.
pub open spec fn emulator_file_accepted(is_file: bool, ext: Option<Seq<char>>, stem: Option<Seq<char>>) -> bool {
    is_file && executable_extension_spec(ext) && !is_non_emulator_stem_spec(text_or_empty(stem))
}

pub fn accepts_rom_file(is_file: bool, ext: Option<&str>) -> (r: bool)
    ensures
        r == rom_file_accepted(is_file, opt_view(ext)),
{
    is_file && !executable_extension(ext)
}

pub fn accepts_emulator_file(is_file: bool, ext: Option<&str>, stem: Option<&str>) -> (r: bool)
    ensures
        r == emulator_file_accepted(is_file, opt_view(ext), opt_view(stem)),
{
    let helper = match stem {
        Some(s) => is_non_emulator_stem(s),
        None => {
            proof {
                reveal_strlit("");
                assert(""@ =~= Seq::<char>::empty());
            }
            is_non_emulator_stem("")
        },
    };
    is_file && executable_extension(ext) && !helper
}

/// Whether the file at `path` (a file when `is_file`) is imported as a ROM.
pub fn importable_rom(is_file: bool, path: &str) -> (r: bool)
    ensures
        r ==> is_file,
        is_simple_path(path@) ==> r == rom_file_accepted(is_file, extension_of_name(file_name_of(path@))),
{
    let ext = path_extension(path);
    match &ext {
        Some(e) => accepts_rom_file(is_file, Some(e.as_str())),
        None => accepts_rom_file(is_file, None),
    }
}

/// Whether the file at `path` (a file when `is_file`) is imported as an
/// emulator.
pub fn importable_emulator(is_file: bool, path: &str) -> (r: bool)
    ensures
        r ==> is_file,
        is_simple_path(path@) ==> r == emulator_file_accepted(
            is_file,
            extension_of_name(file_name_of(path@)),
            Some(stem_of_name(file_name_of(path@))),
        ),
{
    let ext = path_extension(path);
    let stem = path_file_stem(path);
    let e: Option<&str> = match &ext {
        Some(x) => Some(x.as_str()),
        None => None,
    };
    let s: Option<&str> = match &stem {
        Some(x) => Some(x.as_str()),
        None => None,
    };
    accepts_emulator_file(is_file, e, s)
}

/// Imports keep programs and ROMs apart: a program is never imported as a
/// ROM, a file that is not a program never as an emulator, and a helper such
/// as `mgba-sdl` never as an emulator.
pub proof fn imports_keep_programs_and_roms_apart(
    is_file: bool,
    ext: Option<Seq<char>>,
    stem: Seq<char>,
)
    ensures
        executable_extension_spec(ext) ==> !rom_file_accepted(is_file, ext),
        !executable_extension_spec(ext) ==> !emulator_file_accepted(is_file, ext, Some(stem)),
        is_non_emulator_stem_spec(stem) ==> !emulator_file_accepted(is_file, ext, Some(stem)),
{
}

/// The platform an imported ROM is filed under: the platform asked for,
/// unless that is unknown; then the one inferred from the file, or `Unknown`.
pub open spec fn rom_import_platform_spec(requested: Seq<char>, inferred: Option<Seq<char>>) -> Seq<
    char,
> {
    if is_unknown_platform_spec(requested) {
        or_unknown(inferred)
    } else {
        requested
    }
}

pub fn rom_import_platform(requested: &str, inferred: Option<String>) -> (r: String)
    ensures
        r@ == rom_import_platform_spec(requested@, opt_string_view(inferred)),
{
    if is_unknown_platform(requested) {
        or_unknown_exec(inferred)
    } else {
        string_of(&chars_of(requested))
    }
}

/// The platform an imported emulator is filed under: the platform asked for,
/// unless that is unknown; then the one inferred from its title and path, or
/// `Unknown`.
pub open spec fn emulator_import_platform_spec(
    requested: Seq<char>,
    title: Seq<char>,
    path: Seq<char>,
) -> Seq<char> {
    if is_unknown_platform_spec(requested) {
        or_unknown(emulator_platform_spec(title, path))
    } else {
        requested
    }
}

pub fn emulator_import_platform(requested: &str, title: &str, path: &str) -> (r: String)
    ensures
        r@ == emulator_import_platform_spec(requested@, title@, path@),
{
    if is_unknown_platform(requested) {
        or_unknown_exec(infer_emulator_platform(title, path))
    } else {
        string_of(&chars_of(requested))
    }
}

/// A stored ROM is moved to the inferred platform when its platform is
/// unknown, or when its image is of a kind several consoles use and the
/// inference says PlayStation 2.
pub open spec fn rom_repair_spec(platform: Seq<char>, ambiguous: bool, inferred: Option<Seq<char>>) -> Option<
    Seq<char>,
> {
    if is_unknown_platform_spec(platform) || (ambiguous && inferred == Some(
        "PlayStation 2"@,
    )) {
        inferred
    } else {
        None
    }
}

/// The platform a stored ROM is moved to, if any.
pub fn rom_platform_repair(platform_name: &str, ambiguous: bool, inferred: Option<String>) -> (r:
    Option<String>)
    ensures
        opt_string_view(r) == rom_repair_spec(platform_name@, ambiguous, opt_string_view(inferred)),
{
    let ps2 = match &inferred {
        Some(p) => eq_str(&chars_of(p.as_str()), "PlayStation 2"),
        None => false,
    };
    if is_unknown_platform(platform_name) || (ambiguous && ps2) {
        inferred
    } else {
        None
    }
}

/// A stored emulator with an unknown platform is moved to the one inferred
/// from its name and path.
pub open spec fn emulator_repair_spec(platform: Seq<char>, name: Seq<char>, path: Seq<char>) -> Option<
    Seq<char>,
> {
    if is_unknown_platform_spec(platform) {
        emulator_platform_spec(name, path)
    } else {
        None
    }
}

/// The platform a stored emulator is moved to, if any.
pub fn emulator_platform_repair(platform_name: &str, name: &str, executable_path: &str) -> (r:
    Option<String>)
    ensures
        opt_string_view(r) == emulator_repair_spec(platform_name@, name@, executable_path@),
{
    if is_unknown_platform(platform_name) {
        infer_emulator_platform(name, executable_path)
    } else {
        None
    }
}

/// A repair never moves an entry whose platform is known to an unknown
/// platform: whatever it moves a ROM or an emulator to is what inference gave.
pub proof fn repairs_only_use_inferred_platforms(
    platform: Seq<char>,
    ambiguous: bool,
    inferred: Option<Seq<char>>,
    name: Seq<char>,
    path: Seq<char>,
)
    ensures
        rom_repair_spec(platform, ambiguous, inferred) is Some ==> rom_repair_spec(
            platform,
            ambiguous,
            inferred,
        ) == inferred,
        !is_unknown_platform_spec(platform) && !ambiguous ==> rom_repair_spec(
            platform,
            ambiguous,
            inferred,
        ) is None,
        !is_unknown_platform_spec(platform) ==> emulator_repair_spec(platform, name, path) is None,
{
}

/// A stored image named after a known PlayStation 2 title (such as God
/// Hand) is moved to PlayStation 2 by the repair, whatever console it was
/// filed under.
pub proof fn known_ps2_images_are_repaired(platform: Seq<char>, stem: Seq<char>, ext: Seq<char>)
    requires
        contains(ascii_lower(stem), "god hand"@) || contains(ascii_lower(stem), "godhand"@),
        eq_ignore_ascii_case(ext, "iso"@),
    ensures
        rom_repair_spec(
            platform,
            ambiguous_extension_spec(Some(ext)),
            rom_platform_spec(Some(stem), Some(ext)),
        ) == Some("PlayStation 2"@),
{
}

/// A stored archive of unknown platform named after a Pokemon Game Boy
/// Advance title is moved to Game Boy Advance, when its extension names no
/// console.
pub proof fn pokemon_archives_are_repaired(platform: Seq<char>, stem: Seq<char>, ext: Seq<char>)
    requires
        is_unknown_platform_spec(platform),
        is_pokemon_gba_name(ascii_lower(stem)),
        !contains(ascii_lower(stem), "god hand"@),
        !contains(ascii_lower(stem), "godhand"@),
        platform_for_extension(ascii_lower(ext)) is None,
    ensures
        rom_repair_spec(
            platform,
            ambiguous_extension_spec(Some(ext)),
            rom_platform_spec(Some(stem), Some(ext)),
        ) == Some("Game Boy Advance"@),
{
}

// ---------------------------------------------------------------------------
// Helper programs imported by older scans
// ---------------------------------------------------------------------------

/// The names that mark an emulator entry as an SDL launcher or an
/// uninstaller (compared in ASCII lower case).
pub open spec fn is_stale_helper_spec(name: Seq<char>) -> bool {
    let n = ascii_lower(name);
    ||| n == "sdl"@
    ||| "sdl2"@.is_prefix_of(n)
    ||| "sdl"@.is_suffix_of(n)
    ||| "sdl2"@.is_suffix_of(n)
    ||| ".sdl"@.is_suffix_of(n)
    ||| ".sdl2"@.is_suffix_of(n)
    ||| "unins"@.is_prefix_of(n)
    ||| "uninstall"@.is_prefix_of(n)
}

/// Whether an emulator entry of this name is a helper program to remove at
/// startup.
pub fn is_stale_helper_name(name: &str) -> (r: bool)
    ensures
        r == is_stale_helper_spec(name@),
{
    let n = ascii_lowercase(&chars_of(name));
    eq_str(&n, "sdl") || starts_with_str(&n, "sdl2") || ends_with_str(&n, "sdl") || ends_with_str(
        &n,
        "sdl2",
    ) || ends_with_str(&n, ".sdl") || ends_with_str(&n, ".sdl2") || starts_with_str(&n, "unins")
        || starts_with_str(&n, "uninstall")
}

/// The ids of the emulator entries to remove at startup, in order.
pub fn stale_helper_ids(entries: &Vec<(i64, String)>) -> (ids: Vec<i64>)
    ensures
        ids@ == entries@.filter(|e: (i64, String)| is_stale_helper_spec(e.1@)).map_values(
            |e: (i64, String)| e.0,
        ),
{
    let ghost keep = |e: (i64, String)| is_stale_helper_spec(e.1@);
    let ghost id_of = |e: (i64, String)| e.0;
    let mut ids: Vec<i64> = Vec::new();
    let mut i: usize = 0;
    while i < entries.len()
        invariant
            i <= entries.len(),
            keep == (|e: (i64, String)| is_stale_helper_spec(e.1@)),
            id_of == (|e: (i64, String)| e.0),
            ids@ == entries@.subrange(0, i as int).filter(keep).map_values(id_of),
        decreases entries.len() - i,
    {
        proof {
            let s = entries@.subrange(0, i as int + 1);
            assert(s.drop_last() == entries@.subrange(0, i as int));
            reveal(Seq::filter);
        }
        if is_stale_helper_name(entries[i].1.as_str()) {
            ids.push(entries[i].0);
            proof {
                let s = entries@.subrange(0, i as int);
                assert(s.filter(keep).push(entries@[i as int]).map_values(id_of) =~= s.filter(
                    keep,
                ).map_values(id_of).push(entries@[i as int].0));
            }
        }
        i = i + 1;
    }
    proof {
        assert(entries@.subrange(0, entries@.len() as int) == entries@);
    }
    ids
}

} // verus!
