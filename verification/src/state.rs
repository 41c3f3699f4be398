//! The settings the window keeps between runs: how a stored row becomes the
//! settings the window starts with, and how the settings are written back.
//!
//! The floating-point Magpie scale and sharpness are kept by the shell; every
//! other stored value passes through here.
use vstd::prelude::*;
use crate::library::{LaunchSettings, SettingsView, Tab};
use crate::magpie::{hotkey_key_spec, hotkey_normalization_is_idempotent, normalize_magpie_hotkey_key};
use crate::text::{chars_of, concat, concat_str, eq_str, string_of, trim, trimmed};

verus! {

// ---------------------------------------------------------------------------
// Single stored values
// ---------------------------------------------------------------------------

/// The name a tab is stored under.
pub open spec fn tab_name_spec(tab: Tab) -> Seq<char> {
    match tab {
        Tab::Main => "Main"@,
        Tab::Upscaling => "Upscaling"@,
        Tab::Settings => "Settings"@,
    }
}

/// The tab a stored name selects; anything unrecognised opens the main tab.
pub open spec fn tab_from_name_spec(name: Seq<char>) -> Tab {
    if name == "Upscaling"@ {
        Tab::Upscaling
    } else if name == "Settings"@ {
        Tab::Settings
    } else {
        Tab::Main
    }
}

pub fn tab_name(tab: Tab) -> (r: String)
    ensures
        r@ == tab_name_spec(tab),
{
    match tab {
        Tab::Main => string_of(&chars_of("Main")),
        Tab::Upscaling => string_of(&chars_of("Upscaling")),
        Tab::Settings => string_of(&chars_of("Settings")),
    }
}

pub fn tab_from_name(name: &str) -> (r: Tab)
    ensures
        r == tab_from_name_spec(name@),
{
    let v = chars_of(name);
    if eq_str(&v, "Upscaling") {
        Tab::Upscaling
    } else if eq_str(&v, "Settings") {
        Tab::Settings
    } else {
        Tab::Main
    }
}

/// Every tab is read back as the tab that was stored.
pub proof fn stored_tab_reads_back(tab: Tab)
    ensures
        tab_from_name_spec(tab_name_spec(tab)) == tab,
{
    reveal_strlit("Main");
    reveal_strlit("Upscaling");
    reveal_strlit("Settings");
    assert("Main"@ != "Upscaling"@ && "Main"@ != "Settings"@ && "Settings"@ != "Upscaling"@) by {
        assert("Main"@.len() != "Upscaling"@.len());
        assert("Main"@[0] != "Settings"@[0]);
        assert("Settings"@.len() != "Upscaling"@.len());
    }
}

/// The automatic-scaling delay, in milliseconds, held between half a second
/// and ten seconds.
pub open spec fn delay_spec(v: int) -> int {
    if v < 500 {
        500
    } else if v > 10000 {
        10000
    } else {
        v
    }
}

/// The delay read from storage.
pub fn delay_from_stored(v: i64) -> (r: u64)
    ensures
        r == delay_spec(v as int),
{
    if v < 500 {
        500
    } else if v > 10000 {
        10000
    } else {
        v as u64
    }
}

/// The delay written to storage.
pub fn delay_to_store(v: u64) -> (r: i64)
    ensures
        r == delay_spec(v as int),
{
    if v < 500 {
        500
    } else if v > 10000 {
        10000
    } else {
        v as i64
    }
}

/// A stored resolution: at least one pixel, then taken as a `u32` (a value
/// past its range wraps, as the cast does).
pub open spec fn dimension_spec(v: i64) -> u32 {
    (if v < 1 {
        1
    } else {
        v
    }) as u32
}

pub fn dimension_from_stored(v: i64) -> (r: u32)
    ensures
        r == dimension_spec(v),
{
    let m: i64 = if v < 1 {
        1
    } else {
        v
    };
    m as u32
}

/// A stored flag: any non-zero number is set.
pub fn flag_from_stored(v: i64) -> (r: bool)
    ensures
        r == (v != 0),
{
    v != 0
}

pub open spec fn flag_value(b: bool) -> i64 {
    if b {
        1
    } else {
        0
    }
}

/// A flag as it is stored.
pub fn flag_to_store(b: bool) -> (r: i64)
    ensures
        r == flag_value(b),
{
    if b {
        1
    } else {
        0
    }
}

/// The Magpie presets the window offers.
pub open spec fn is_magpie_preset(s: Seq<char>) -> bool {
    ||| s == "FSR"@
    ||| s == "Anime4K"@
    ||| s == "CAS"@
    ||| s == "xBRZ"@
    ||| s == "Lanczos"@
    ||| s == "Nearest"@
}

/// The stored preset when it is one the window offers, otherwise `FSR`.
pub open spec fn preset_spec(v: Option<Seq<char>>) -> Seq<char> {
    match v {
        Some(s) => if is_magpie_preset(s) {
            s
        } else {
            "FSR"@
        },
        None => "FSR"@,
    }
}

pub fn is_magpie_preset_name(s: &str) -> (r: bool)
    ensures
        r == is_magpie_preset(s@),
{
    let v = chars_of(s);
    eq_str(&v, "FSR") || eq_str(&v, "Anime4K") || eq_str(&v, "CAS") || eq_str(&v, "xBRZ")
        || eq_str(&v, "Lanczos") || eq_str(&v, "Nearest")
}

pub fn preset_from_stored(v: Option<String>) -> (r: String)
    ensures
        r@ == preset_spec(opt_text(v)),
{
    match v {
        Some(s) => if is_magpie_preset_name(s.as_str()) {
            s
        } else {
            string_of(&chars_of("FSR"))
        },
        None => string_of(&chars_of("FSR")),
    }
}

/// The presets in the order the window lists them.
pub open spec fn preset_names_spec() -> Seq<Seq<char>> {
    seq!["FSR"@, "Anime4K"@, "CAS"@, "xBRZ"@, "Lanczos"@, "Nearest"@]
}

pub fn magpie_preset_names() -> (r: Vec<String>)
    ensures
        r@.map_values(|s: String| s@) == preset_names_spec(),
{
    let r = vec![
        string_of(&chars_of("FSR")),
        string_of(&chars_of("Anime4K")),
        string_of(&chars_of("CAS")),
        string_of(&chars_of("xBRZ")),
        string_of(&chars_of("Lanczos")),
        string_of(&chars_of("Nearest")),
    ];
    assert(r@.map_values(|s: String| s@) =~= preset_names_spec());
    r
}

/// The listed presets are exactly the offered ones.
pub proof fn listed_presets_are_the_offered_ones(name: Seq<char>)
    ensures
        preset_names_spec().contains(name) == is_magpie_preset(name),
{
    let l = preset_names_spec();
    if is_magpie_preset(name) {
        if name == "FSR"@ {
            assert(l[0] == name);
        } else if name == "Anime4K"@ {
            assert(l[1] == name);
        } else if name == "CAS"@ {
            assert(l[2] == name);
        } else if name == "xBRZ"@ {
            assert(l[3] == name);
        } else if name == "Lanczos"@ {
            assert(l[4] == name);
        } else {
            assert(l[5] == name);
        }
    }
}

/// What each offered preset does, as the preset list describes it.
pub open spec fn preset_description_spec(name: Seq<char>) -> Option<Seq<char>> {
    if name == "FSR"@ {
        Some("AMD FidelityFX Super Resolution"@)
    } else if name == "Anime4K"@ {
        Some("Anime4K anime/game upscaling"@)
    } else if name == "CAS"@ {
        Some("Contrast Adaptive Sharpening"@)
    } else if name == "xBRZ"@ {
        Some("Pixel-art focused scaling"@)
    } else if name == "Lanczos"@ {
        Some("High-quality traditional scaling"@)
    } else if name == "Nearest"@ {
        Some("Crisp nearest-neighbor scaling"@)
    } else {
        None
    }
}

/// The label of a preset in the preset list: its name and description, or
/// just the name for a preset that is not offered.
pub open spec fn preset_label_spec(name: Seq<char>) -> Seq<char> {
    match preset_description_spec(name) {
        Some(d) => name + " \u{2014} "@ + d,
        None => name,
    }
}

pub fn preset_label(name: &str) -> (r: String)
    ensures
        r@ == preset_label_spec(name@),
{
    let v = chars_of(name);
    let description = if eq_str(&v, "FSR") {
        "AMD FidelityFX Super Resolution"
    } else if eq_str(&v, "Anime4K") {
        "Anime4K anime/game upscaling"
    } else if eq_str(&v, "CAS") {
        "Contrast Adaptive Sharpening"
    } else if eq_str(&v, "xBRZ") {
        "Pixel-art focused scaling"
    } else if eq_str(&v, "Lanczos") {
        "High-quality traditional scaling"
    } else if eq_str(&v, "Nearest") {
        "Crisp nearest-neighbor scaling"
    } else {
        return string_of(&v);
    };
    string_of(&concat(&concat_str(&v, " \u{2014} "), &chars_of(description)))
}

/// Every offered preset has a description, and nothing else has one.
pub proof fn offered_presets_are_described(name: Seq<char>)
    ensures
        (preset_description_spec(name) is Some) == is_magpie_preset(name),
{
}

pub open spec fn opt_text(o: Option<String>) -> Option<Seq<char>> {
    match o {
        Some(s) => Some(s@),
        None => None,
    }
}

pub open spec fn text_or_empty(o: Option<Seq<char>>) -> Seq<char> {
    match o {
        Some(s) => s,
        None => Seq::empty(),
    }
}

fn copy_text(s: &String) -> (r: String)
    ensures
        r@ == s@,
{
    s.clone()
}

fn copy_opt_text(o: &Option<String>) -> (r: Option<String>)
    ensures
        opt_text(r) == opt_text(*o),
{
    match o {
        Some(s) => Some(s.clone()),
        None => None,
    }
}

fn text_or_empty_exec(o: Option<String>) -> (r: String)
    ensures
        r@ == text_or_empty(opt_text(o)),
{
    match o {
        Some(s) => s,
        None => String::new(),
    }
}

// ---------------------------------------------------------------------------
// The stored row and the window's settings
// ---------------------------------------------------------------------------

/// The stored application state, one value per column.
pub struct StateRow {
    pub home_dir: Option<String>,
    pub current_dir: Option<String>,
    pub emulator_dir: Option<String>,
    pub selected_tab: String,
    pub fullscreen_enabled: i64,
    pub fullscreen_arg: String,
    pub borderless_enabled: i64,
    pub borderless_arg: String,
    pub resolution_enabled: i64,
    pub resolution_width: i64,
    pub resolution_height: i64,
    pub res_width_arg: String,
    pub res_height_arg: String,
    pub artwork_api_key: Option<String>,
    pub magpie_enabled: i64,
    pub magpie_auto_start: i64,
    pub magpie_preset: Option<String>,
    pub magpie_auto_scale: i64,
    pub magpie_hotkey_key: Option<String>,
    pub magpie_auto_scale_delay_ms: i64,
}

pub struct StateRowView {
    pub home_dir: Option<Seq<char>>,
    pub current_dir: Option<Seq<char>>,
    pub emulator_dir: Option<Seq<char>>,
    pub selected_tab: Seq<char>,
    pub fullscreen_enabled: i64,
    pub fullscreen_arg: Seq<char>,
    pub borderless_enabled: i64,
    pub borderless_arg: Seq<char>,
    pub resolution_enabled: i64,
    pub resolution_width: i64,
    pub resolution_height: i64,
    pub res_width_arg: Seq<char>,
    pub res_height_arg: Seq<char>,
    pub artwork_api_key: Option<Seq<char>>,
    pub magpie_enabled: i64,
    pub magpie_auto_start: i64,
    pub magpie_preset: Option<Seq<char>>,
    pub magpie_auto_scale: i64,
    pub magpie_hotkey_key: Option<Seq<char>>,
    pub magpie_auto_scale_delay_ms: i64,
}

impl View for StateRow {
    type V = StateRowView;

    open spec fn view(&self) -> StateRowView {
        StateRowView {
            home_dir: opt_text(self.home_dir),
            current_dir: opt_text(self.current_dir),
            emulator_dir: opt_text(self.emulator_dir),
            selected_tab: self.selected_tab@,
            fullscreen_enabled: self.fullscreen_enabled,
            fullscreen_arg: self.fullscreen_arg@,
            borderless_enabled: self.borderless_enabled,
            borderless_arg: self.borderless_arg@,
            resolution_enabled: self.resolution_enabled,
            resolution_width: self.resolution_width,
            resolution_height: self.resolution_height,
            res_width_arg: self.res_width_arg@,
            res_height_arg: self.res_height_arg@,
            artwork_api_key: opt_text(self.artwork_api_key),
            magpie_enabled: self.magpie_enabled,
            magpie_auto_start: self.magpie_auto_start,
            magpie_preset: opt_text(self.magpie_preset),
            magpie_auto_scale: self.magpie_auto_scale,
            magpie_hotkey_key: opt_text(self.magpie_hotkey_key),
            magpie_auto_scale_delay_ms: self.magpie_auto_scale_delay_ms,
        }
    }
}

/// What the window keeps between runs, but for the Magpie scale and
/// sharpness.
pub struct AppSettings {
    pub home_dir: Option<String>,
    pub current_dir: String,
    pub emulator_dir: Option<String>,
    pub tab: Tab,
    pub default_settings: LaunchSettings,
    pub artwork_api_key: String,
    pub magpie_enabled: bool,
    pub magpie_auto_start: bool,
    pub magpie_preset: String,
    pub magpie_auto_scale: bool,
    pub magpie_hotkey_key: String,
    pub magpie_auto_scale_delay_ms: u64,
}

pub struct AppSettingsView {
    pub home_dir: Option<Seq<char>>,
    pub current_dir: Seq<char>,
    pub emulator_dir: Option<Seq<char>>,
    pub tab: Tab,
    pub default_settings: SettingsView,
    pub artwork_api_key: Seq<char>,
    pub magpie_enabled: bool,
    pub magpie_auto_start: bool,
    pub magpie_preset: Seq<char>,
    pub magpie_auto_scale: bool,
    pub magpie_hotkey_key: Seq<char>,
    pub magpie_auto_scale_delay_ms: u64,
}

impl View for AppSettings {
    type V = AppSettingsView;

    open spec fn view(&self) -> AppSettingsView {
        AppSettingsView {
            home_dir: opt_text(self.home_dir),
            current_dir: self.current_dir@,
            emulator_dir: opt_text(self.emulator_dir),
            tab: self.tab,
            default_settings: self.default_settings@,
            artwork_api_key: self.artwork_api_key@,
            magpie_enabled: self.magpie_enabled,
            magpie_auto_start: self.magpie_auto_start,
            magpie_preset: self.magpie_preset@,
            magpie_auto_scale: self.magpie_auto_scale,
            magpie_hotkey_key: self.magpie_hotkey_key@,
            magpie_auto_scale_delay_ms: self.magpie_auto_scale_delay_ms,
        }
    }
}

/// The folder the window starts in: the stored current folder, else the home
/// folder, else none.
pub open spec fn start_dir(current: Option<Seq<char>>, home: Option<Seq<char>>) -> Seq<char> {
    match current {
        Some(c) => c,
        None => text_or_empty(home),
    }
}

/// The settings a stored row gives.
pub open spec fn settings_from_row(r: StateRowView) -> AppSettingsView {
    AppSettingsView {
        home_dir: r.home_dir,
        current_dir: start_dir(r.current_dir, r.home_dir),
        emulator_dir: r.emulator_dir,
        tab: tab_from_name_spec(r.selected_tab),
        default_settings: SettingsView {
            fullscreen_enabled: r.fullscreen_enabled != 0,
            fullscreen_arg: r.fullscreen_arg,
            borderless_enabled: r.borderless_enabled != 0,
            borderless_arg: r.borderless_arg,
            resolution_enabled: r.resolution_enabled != 0,
            resolution_width: dimension_spec(r.resolution_width),
            resolution_height: dimension_spec(r.resolution_height),
            res_width_arg: r.res_width_arg,
            res_height_arg: r.res_height_arg,
        },
        artwork_api_key: text_or_empty(r.artwork_api_key),
        magpie_enabled: r.magpie_enabled != 0,
        magpie_auto_start: r.magpie_auto_start != 0,
        magpie_preset: preset_spec(r.magpie_preset),
        magpie_auto_scale: r.magpie_auto_scale != 0,
        magpie_hotkey_key: hotkey_key_spec(text_or_empty(r.magpie_hotkey_key)),
        magpie_auto_scale_delay_ms: delay_spec(r.magpie_auto_scale_delay_ms as int) as u64,
    }
}

/// The row the settings are stored as: an empty current folder is stored as
/// none, the artwork key trimmed, the hotkey normalised and the delay held in
/// its range.
pub open spec fn row_from_settings(s: AppSettingsView) -> StateRowView {
    StateRowView {
        home_dir: s.home_dir,
        current_dir: if s.current_dir.len() == 0 {
            None
        } else {
            Some(s.current_dir)
        },
        emulator_dir: s.emulator_dir,
        selected_tab: tab_name_spec(s.tab),
        fullscreen_enabled: flag_value(s.default_settings.fullscreen_enabled),
        fullscreen_arg: s.default_settings.fullscreen_arg,
        borderless_enabled: flag_value(s.default_settings.borderless_enabled),
        borderless_arg: s.default_settings.borderless_arg,
        resolution_enabled: flag_value(s.default_settings.resolution_enabled),
        resolution_width: s.default_settings.resolution_width as i64,
        resolution_height: s.default_settings.resolution_height as i64,
        res_width_arg: s.default_settings.res_width_arg,
        res_height_arg: s.default_settings.res_height_arg,
        artwork_api_key: Some(trim(s.artwork_api_key)),
        magpie_enabled: flag_value(s.magpie_enabled),
        magpie_auto_start: flag_value(s.magpie_auto_start),
        magpie_preset: Some(s.magpie_preset),
        magpie_auto_scale: flag_value(s.magpie_auto_scale),
        magpie_hotkey_key: Some(hotkey_key_spec(s.magpie_hotkey_key)),
        magpie_auto_scale_delay_ms: delay_spec(s.magpie_auto_scale_delay_ms as int) as i64,
    }
}

impl AppSettings {
    /// The settings a stored row gives.
    pub fn from_row(row: StateRow) -> (r: AppSettings)
        ensures
            r@ == settings_from_row(row@),
    {
        let current_dir = match row.current_dir {
            Some(c) => c,
            None => match &row.home_dir {
                Some(h) => copy_text(h),
                None => String::new(),
            },
        };
        let default_settings = LaunchSettings {
            fullscreen_enabled: flag_from_stored(row.fullscreen_enabled),
            fullscreen_arg: row.fullscreen_arg,
            borderless_enabled: flag_from_stored(row.borderless_enabled),
            borderless_arg: row.borderless_arg,
            resolution_enabled: flag_from_stored(row.resolution_enabled),
            resolution_width: dimension_from_stored(row.resolution_width),
            resolution_height: dimension_from_stored(row.resolution_height),
            res_width_arg: row.res_width_arg,
            res_height_arg: row.res_height_arg,
        };
        let hotkey = text_or_empty_exec(row.magpie_hotkey_key);
        AppSettings {
            home_dir: row.home_dir,
            current_dir,
            emulator_dir: row.emulator_dir,
            tab: tab_from_name(row.selected_tab.as_str()),
            default_settings,
            artwork_api_key: text_or_empty_exec(row.artwork_api_key),
            magpie_enabled: flag_from_stored(row.magpie_enabled),
            magpie_auto_start: flag_from_stored(row.magpie_auto_start),
            magpie_preset: preset_from_stored(row.magpie_preset),
            magpie_auto_scale: flag_from_stored(row.magpie_auto_scale),
            magpie_hotkey_key: normalize_magpie_hotkey_key(hotkey.as_str()),
            magpie_auto_scale_delay_ms: delay_from_stored(row.magpie_auto_scale_delay_ms),
        }
    }

    /// The row these settings are stored as.
    pub fn to_row(&self) -> (r: StateRow)
        ensures
            r@ == row_from_settings(self@),
    {
        let current_dir = if self.current_dir.as_str().unicode_len() == 0 {
            None
        } else {
            Some(copy_text(&self.current_dir))
        };
        let key = string_of(&trimmed(&chars_of(self.artwork_api_key.as_str())));
        StateRow {
            home_dir: copy_opt_text(&self.home_dir),
            current_dir,
            emulator_dir: copy_opt_text(&self.emulator_dir),
            selected_tab: tab_name(self.tab),
            fullscreen_enabled: flag_to_store(self.default_settings.fullscreen_enabled),
            fullscreen_arg: copy_text(&self.default_settings.fullscreen_arg),
            borderless_enabled: flag_to_store(self.default_settings.borderless_enabled),
            borderless_arg: copy_text(&self.default_settings.borderless_arg),
            resolution_enabled: flag_to_store(self.default_settings.resolution_enabled),
            resolution_width: self.default_settings.resolution_width as i64,
            resolution_height: self.default_settings.resolution_height as i64,
            res_width_arg: copy_text(&self.default_settings.res_width_arg),
            res_height_arg: copy_text(&self.default_settings.res_height_arg),
            artwork_api_key: Some(key),
            magpie_enabled: flag_to_store(self.magpie_enabled),
            magpie_auto_start: flag_to_store(self.magpie_auto_start),
            magpie_preset: Some(copy_text(&self.magpie_preset)),
            magpie_auto_scale: flag_to_store(self.magpie_auto_scale),
            magpie_hotkey_key: Some(normalize_magpie_hotkey_key(self.magpie_hotkey_key.as_str())),
            magpie_auto_scale_delay_ms: delay_to_store(self.magpie_auto_scale_delay_ms),
        }
    }
}

/// What is read back of stored settings: the tab, folders, switches and
/// launch settings as they were (a resolution of at least one pixel, a
/// non-empty current folder), the artwork key trimmed, an offered preset and a
/// delay in range unchanged, and the hotkey normalised.
pub proof fn stored_settings_read_back(s: AppSettingsView)
    ensures
        ({
            let t = settings_from_row(row_from_settings(s));
            &&& t.tab == s.tab
            &&& t.home_dir == s.home_dir
            &&& t.emulator_dir == s.emulator_dir
            &&& (s.current_dir.len() > 0 ==> t.current_dir == s.current_dir)
            &&& (s.current_dir.len() == 0 ==> t.current_dir == text_or_empty(s.home_dir))
            &&& (s.default_settings.resolution_width >= 1 && s.default_settings.resolution_height
                >= 1 ==> t.default_settings == s.default_settings)
            &&& t.artwork_api_key == trim(s.artwork_api_key)
            &&& t.magpie_enabled == s.magpie_enabled
            &&& t.magpie_auto_start == s.magpie_auto_start
            &&& t.magpie_auto_scale == s.magpie_auto_scale
            &&& (is_magpie_preset(s.magpie_preset) ==> t.magpie_preset == s.magpie_preset)
            &&& t.magpie_hotkey_key == hotkey_key_spec(s.magpie_hotkey_key)
            &&& (500 <= s.magpie_auto_scale_delay_ms <= 10000 ==> t.magpie_auto_scale_delay_ms
                == s.magpie_auto_scale_delay_ms)
        }),
{
    stored_tab_reads_back(s.tab);
    hotkey_normalization_is_idempotent(s.magpie_hotkey_key);
    let w = s.default_settings.resolution_width;
    let h = s.default_settings.resolution_height;
    assert(w >= 1 ==> dimension_spec(w as i64) == w);
    assert(h >= 1 ==> dimension_spec(h as i64) == h);
}

} // verus!
