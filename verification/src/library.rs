//! The emulator and ROM library: its records, launch settings, what a launch
//! runs, which ROMs are shown, and which emulator settings are being edited.
use vstd::prelude::*;
use crate::platform::opt_string_view;
use crate::text::{chars_of, concat, contains, contains_chars, decimal, decimal_chars, first_where, lemma_first_where_unique, lowercase_chars, lowercase_of, string_of, trim, trimmed};

verus! {

// ---------------------------------------------------------------------------
// Launch settings
// ---------------------------------------------------------------------------

/// How an emulator is started: optional fullscreen, borderless and
/// resolution arguments.
#[derive(Clone, Debug)]
pub struct LaunchSettings {
    pub fullscreen_enabled: bool,
    pub fullscreen_arg: String,
    pub borderless_enabled: bool,
    pub borderless_arg: String,
    pub resolution_enabled: bool,
    pub resolution_width: u32,
    pub resolution_height: u32,
    pub res_width_arg: String,
    pub res_height_arg: String,
}

pub struct SettingsView {
    pub fullscreen_enabled: bool,
    pub fullscreen_arg: Seq<char>,
    pub borderless_enabled: bool,
    pub borderless_arg: Seq<char>,
    pub resolution_enabled: bool,
    pub resolution_width: u32,
    pub resolution_height: u32,
    pub res_width_arg: Seq<char>,
    pub res_height_arg: Seq<char>,
}

impl View for LaunchSettings {
    type V = SettingsView;

    open spec fn view(&self) -> SettingsView {
        SettingsView {
            fullscreen_enabled: self.fullscreen_enabled,
            fullscreen_arg: self.fullscreen_arg@,
            borderless_enabled: self.borderless_enabled,
            borderless_arg: self.borderless_arg@,
            resolution_enabled: self.resolution_enabled,
            resolution_width: self.resolution_width,
            resolution_height: self.resolution_height,
            res_width_arg: self.res_width_arg@,
            res_height_arg: self.res_height_arg@,
        }
    }
}

/// The settings a new library starts with: nothing enabled, the common
/// argument spellings, and 1920x1080.
pub open spec fn default_settings_spec() -> SettingsView {
    SettingsView {
        fullscreen_enabled: false,
        fullscreen_arg: "-f"@,
        borderless_enabled: false,
        borderless_arg: "-borderless"@,
        resolution_enabled: false,
        resolution_width: 1920,
        resolution_height: 1080,
        res_width_arg: "-width"@,
        res_height_arg: "-height"@,
    }
}

fn text(s: &str) -> (r: String)
    ensures
        r@ == s@,
{
    string_of(&chars_of(s))
}

fn copy_text(s: &String) -> (r: String)
    ensures
        r@ == s@,
{
    s.clone()
}

impl Default for LaunchSettings {
    fn default() -> (r: Self)
        ensures
            r@ == default_settings_spec(),
    {
        LaunchSettings {
            fullscreen_enabled: false,
            fullscreen_arg: text("-f"),
            borderless_enabled: false,
            borderless_arg: text("-borderless"),
            resolution_enabled: false,
            resolution_width: 1920,
            resolution_height: 1080,
            res_width_arg: text("-width"),
            res_height_arg: text("-height"),
        }
    }
}

impl LaunchSettings {
    /// A copy of these settings.
    pub fn copy(&self) -> (r: LaunchSettings)
        ensures
            r@ == self@,
    {
        LaunchSettings {
            fullscreen_enabled: self.fullscreen_enabled,
            fullscreen_arg: copy_text(&self.fullscreen_arg),
            borderless_enabled: self.borderless_enabled,
            borderless_arg: copy_text(&self.borderless_arg),
            resolution_enabled: self.resolution_enabled,
            resolution_width: self.resolution_width,
            resolution_height: self.resolution_height,
            res_width_arg: copy_text(&self.res_width_arg),
            res_height_arg: copy_text(&self.res_height_arg),
        }
    }
}

/// The options passed to an emulator, in order: borderless, then fullscreen
/// (or, for mGBA in windowed mode, `-C fullscreen=0` so that mGBA does not
/// restore its last fullscreen state), then the resolution.
pub open spec fn launch_arguments_spec(s: SettingsView, executable_path: Seq<char>) -> Seq<
    Seq<char>,
> {
    let borderless = if s.borderless_enabled {
        seq![s.borderless_arg]
    } else {
        seq![]
    };
    let fullscreen = if s.fullscreen_enabled {
        seq![s.fullscreen_arg]
    } else if contains(lowercase_of(executable_path), "mgba"@) {
        seq!["-C"@, "fullscreen=0"@]
    } else {
        seq![]
    };
    let resolution = if s.resolution_enabled {
        seq![
            s.res_width_arg,
            decimal(s.resolution_width as nat),
            s.res_height_arg,
            decimal(s.resolution_height as nat),
        ]
    } else {
        seq![]
    };
    borderless + fullscreen + resolution
}

pub open spec fn strings_view(v: Seq<String>) -> Seq<Seq<char>> {
    v.map_values(|s: String| s@)
}

/// The emulator options for a launch.
pub fn launch_arguments(settings: &LaunchSettings, executable_path: &str) -> (r: Vec<String>)
    ensures
        strings_view(r@) == launch_arguments_spec(settings@, executable_path@),
{
    let mut args: Vec<String> = Vec::new();
    let ghost s = settings@;
    if settings.borderless_enabled {
        args.push(copy_text(&settings.borderless_arg));
    }
    let ghost a1 = strings_view(args@);
    proof {
        assert(a1 =~= (if s.borderless_enabled {
            seq![s.borderless_arg]
        } else {
            seq![]
        }));
    }
    if settings.fullscreen_enabled {
        args.push(copy_text(&settings.fullscreen_arg));
    } else {
        let lower = lowercase_chars(&chars_of(executable_path));
        if contains_chars(&lower, &chars_of("mgba")) {
            args.push(text("-C"));
            args.push(text("fullscreen=0"));
        }
    }
    let ghost a2 = strings_view(args@);
    proof {
        let f = if s.fullscreen_enabled {
            seq![s.fullscreen_arg]
        } else if contains(lowercase_of(executable_path@), "mgba"@) {
            seq!["-C"@, "fullscreen=0"@]
        } else {
            seq![]
        };
        assert(a2 =~= a1 + f);
    }
    if settings.resolution_enabled {
        args.push(copy_text(&settings.res_width_arg));
        args.push(string_of(&decimal_chars(settings.resolution_width as u64)));
        args.push(copy_text(&settings.res_height_arg));
        args.push(string_of(&decimal_chars(settings.resolution_height as u64)));
    }
    proof {
        let rz = if s.resolution_enabled {
            seq![
                s.res_width_arg,
                decimal(s.resolution_width as nat),
                s.res_height_arg,
                decimal(s.resolution_height as nat),
            ]
        } else {
            seq![]
        };
        assert(strings_view(args@) =~= a2 + rz);
    }
    args
}

/// The full argument list of a launch: the options, then the ROM path.
pub fn launch_command_arguments(
    settings: &LaunchSettings,
    executable_path: &str,
    rom_path: &str,
) -> (r: Vec<String>)
    ensures
        strings_view(r@) == launch_arguments_spec(settings@, executable_path@).push(rom_path@),
{
    let mut args = launch_arguments(settings, executable_path);
    let ghost before = args@;
    args.push(text(rom_path));
    proof {
        assert(strings_view(args@) =~= strings_view(before).push(rom_path@));
    }
    args
}

/// The ROM path is always the last argument, after every emulator option.
pub proof fn rom_path_comes_after_the_options(
    s: SettingsView,
    executable_path: Seq<char>,
    rom_path: Seq<char>,
)
    ensures
        ({
            let all = launch_arguments_spec(s, executable_path).push(rom_path);
            &&& all.last() == rom_path
            &&& all.drop_last() == launch_arguments_spec(s, executable_path)
        }),
{
    let opts = launch_arguments_spec(s, executable_path);
    assert(opts.push(rom_path).drop_last() =~= opts);
}

/// Windowed mGBA launches always say so explicitly, and fullscreen launches
/// always pass the fullscreen argument.
pub proof fn display_mode_is_always_explicit_for_mgba(s: SettingsView, executable_path: Seq<char>)
    requires
        contains(lowercase_of(executable_path), "mgba"@),
    ensures
        s.fullscreen_enabled ==> launch_arguments_spec(s, executable_path).contains(
            s.fullscreen_arg,
        ),
        !s.fullscreen_enabled ==> launch_arguments_spec(s, executable_path).contains(
            "fullscreen=0"@,
        ),
{
    let args = launch_arguments_spec(s, executable_path);
    let b = if s.borderless_enabled {
        1int
    } else {
        0int
    };
    if s.fullscreen_enabled {
        assert(args[b] == s.fullscreen_arg);
    } else {
        assert(args[b + 1] == "fullscreen=0"@);
    }
}

// ---------------------------------------------------------------------------
// Records
// ---------------------------------------------------------------------------

#[derive(Clone, Debug)]
pub struct Platform {
    pub id: i64,
    pub name: String,
}

#[derive(Clone, Debug)]
pub struct Emulator {
    pub id: i64,
    pub name: String,
    pub executable_path: String,
    pub platform_id: i64,
    pub platform_name: String,
    pub settings: LaunchSettings,
}

#[derive(Clone, Debug)]
pub struct Rom {
    pub id: i64,
    pub title: String,
    pub source_path: String,
    pub platform_id: i64,
    pub platform_name: String,
    pub cover_art_path: Option<String>,
    pub favorite: bool,
    pub last_played_at: Option<i64>,
    pub play_count: i64,
}

pub struct EmulatorView {
    pub id: i64,
    pub name: Seq<char>,
    pub executable_path: Seq<char>,
    pub platform_id: i64,
    pub platform_name: Seq<char>,
    pub settings: SettingsView,
}

pub struct RomView {
    pub id: i64,
    pub title: Seq<char>,
    pub source_path: Seq<char>,
    pub platform_id: i64,
    pub platform_name: Seq<char>,
    pub cover_art_path: Option<Seq<char>>,
    pub favorite: bool,
    pub last_played_at: Option<i64>,
    pub play_count: i64,
}

impl View for Emulator {
    type V = EmulatorView;

    open spec fn view(&self) -> EmulatorView {
        EmulatorView {
            id: self.id,
            name: self.name@,
            executable_path: self.executable_path@,
            platform_id: self.platform_id,
            platform_name: self.platform_name@,
            settings: self.settings@,
        }
    }
}

impl View for Rom {
    type V = RomView;

    open spec fn view(&self) -> RomView {
        RomView {
            id: self.id,
            title: self.title@,
            source_path: self.source_path@,
            platform_id: self.platform_id,
            platform_name: self.platform_name@,
            cover_art_path: opt_string_view(self.cover_art_path),
            favorite: self.favorite,
            last_played_at: self.last_played_at,
            play_count: self.play_count,
        }
    }
}

impl Rom {
    pub fn copy(&self) -> (r: Rom)
        ensures
            r@ == self@,
    {
        Rom {
            id: self.id,
            title: copy_text(&self.title),
            source_path: copy_text(&self.source_path),
            platform_id: self.platform_id,
            platform_name: copy_text(&self.platform_name),
            cover_art_path: match &self.cover_art_path {
                Some(p) => Some(copy_text(p)),
                None => None,
            },
            favorite: self.favorite,
            last_played_at: self.last_played_at,
            play_count: self.play_count,
        }
    }
}

pub open spec fn roms_view(v: Seq<Rom>) -> Seq<RomView> {
    v.map_values(|r: Rom| r@)
}

pub open spec fn emulators_view(v: Seq<Emulator>) -> Seq<EmulatorView> {
    v.map_values(|e: Emulator| e@)
}

/// The tabs of the window.
#[derive(Clone, Copy, PartialEq, Eq, Structural, Debug)]
pub enum Tab {
    Main,
    Upscaling,
    Settings,
}

/// Which ROMs the library shows.
#[derive(Clone, Copy, PartialEq, Eq, Structural, Debug)]
pub enum LibraryFilter {
    All,
    Favorites,
}

// ---------------------------------------------------------------------------
// Searching the library
// ---------------------------------------------------------------------------

pub open spec fn rom_has_id(id: i64) -> spec_fn(RomView) -> bool {
    |r: RomView| r.id == id
}

pub open spec fn emulator_has_id(id: i64) -> spec_fn(EmulatorView) -> bool {
    |e: EmulatorView| e.id == id
}

pub open spec fn emulator_for_platform(platform_id: i64) -> spec_fn(EmulatorView) -> bool {
    |e: EmulatorView| e.platform_id == platform_id
}

/// Index of the first ROM with this id, or the number of ROMs.
pub fn find_rom(roms: &Vec<Rom>, id: i64) -> (i: usize)
    ensures
        i == first_where(roms_view(roms@), rom_has_id(id)),
{
    let ghost v = roms_view(roms@);
    let mut i: usize = 0;
    while i < roms.len()
        invariant
            i <= roms.len(),
            v == roms_view(roms@),
            forall|k: int| 0 <= k < i ==> !rom_has_id(id)(#[trigger] v[k]),
        decreases roms.len() - i,
    {
        if roms[i].id == id {
            proof {
                lemma_first_where_unique(v, rom_has_id(id), i as int);
            }
            return i;
        }
        i = i + 1;
    }
    proof {
        lemma_first_where_unique(v, rom_has_id(id), i as int);
    }
    i
}

/// Index of the first emulator with this id, or the number of emulators.
pub fn find_emulator(emulators: &Vec<Emulator>, id: i64) -> (i: usize)
    ensures
        i == first_where(emulators_view(emulators@), emulator_has_id(id)),
{
    let ghost v = emulators_view(emulators@);
    let mut i: usize = 0;
    while i < emulators.len()
        invariant
            i <= emulators.len(),
            v == emulators_view(emulators@),
            forall|k: int| 0 <= k < i ==> !emulator_has_id(id)(#[trigger] v[k]),
        decreases emulators.len() - i,
    {
        if emulators[i].id == id {
            proof {
                lemma_first_where_unique(v, emulator_has_id(id), i as int);
            }
            return i;
        }
        i = i + 1;
    }
    proof {
        lemma_first_where_unique(v, emulator_has_id(id), i as int);
    }
    i
}

/// Index of the first emulator for a platform, or the number of emulators.
pub fn find_emulator_for_platform(emulators: &Vec<Emulator>, platform_id: i64) -> (i: usize)
    ensures
        i == first_where(emulators_view(emulators@), emulator_for_platform(platform_id)),
{
    let ghost v = emulators_view(emulators@);
    let mut i: usize = 0;
    while i < emulators.len()
        invariant
            i <= emulators.len(),
            v == emulators_view(emulators@),
            forall|k: int| 0 <= k < i ==> !emulator_for_platform(platform_id)(#[trigger] v[k]),
        decreases emulators.len() - i,
    {
        if emulators[i].platform_id == platform_id {
            proof {
                lemma_first_where_unique(v, emulator_for_platform(platform_id), i as int);
            }
            return i;
        }
        i = i + 1;
    }
    proof {
        lemma_first_where_unique(v, emulator_for_platform(platform_id), i as int);
    }
    i
}

/// What launching a ROM comes to, before any file is checked.
pub enum LaunchPlan {
    /// No ROM has this id.
    UnknownRom,
    /// No emulator serves the ROM's platform, named here.
    NoEmulator(String),
    /// Launch the ROM at this index with the emulator at this index.
    Launch { rom: usize, emulator: usize },
}

pub enum LaunchPlanView {
    UnknownRom,
    NoEmulator(Seq<char>),
    Launch { rom: int, emulator: int },
}

impl View for LaunchPlan {
    type V = LaunchPlanView;

    open spec fn view(&self) -> LaunchPlanView {
        match self {
            LaunchPlan::UnknownRom => LaunchPlanView::UnknownRom,
            LaunchPlan::NoEmulator(p) => LaunchPlanView::NoEmulator(p@),
            LaunchPlan::Launch { rom, emulator } => LaunchPlanView::Launch {
                rom: *rom as int,
                emulator: *emulator as int,
            },
        }
    }
}

/// A ROM is launched with the first emulator of its platform.
pub open spec fn launch_plan_spec(roms: Seq<RomView>, emulators: Seq<EmulatorView>, rom_id: i64) -> LaunchPlanView {
    let r = first_where(roms, rom_has_id(rom_id));
    if r >= roms.len() {
        LaunchPlanView::UnknownRom
    } else {
        let e = first_where(emulators, emulator_for_platform(roms[r].platform_id));
        if e >= emulators.len() {
            LaunchPlanView::NoEmulator(roms[r].platform_name)
        } else {
            LaunchPlanView::Launch { rom: r, emulator: e }
        }
    }
}

pub fn plan_launch(roms: &Vec<Rom>, emulators: &Vec<Emulator>, rom_id: i64) -> (r: LaunchPlan)
    ensures
        r@ == launch_plan_spec(roms_view(roms@), emulators_view(emulators@), rom_id),
{
    let ri = find_rom(roms, rom_id);
    if ri >= roms.len() {
        return LaunchPlan::UnknownRom;
    }
    let ei = find_emulator_for_platform(emulators, roms[ri].platform_id);
    if ei >= emulators.len() {
        return LaunchPlan::NoEmulator(copy_text(&roms[ri].platform_name));
    }
    LaunchPlan::Launch { rom: ri, emulator: ei }
}

/// The status when no emulator serves a ROM's platform.
pub open spec fn no_emulator_status_spec(platform: Seq<char>) -> Seq<char> {
    "No emulator is configured for platform '"@ + platform + "'."@
}

pub fn no_emulator_status(platform: &str) -> (r: String)
    ensures
        r@ == no_emulator_status_spec(platform@),
{
    let a = concat(&chars_of("No emulator is configured for platform '"), &chars_of(platform));
    string_of(&concat(&a, &chars_of("'.")))
}

/// The status when a launch is refused because a file is gone: the ROM is
/// checked first, then the emulator.
pub open spec fn missing_file_status_spec(
    rom_path: Seq<char>,
    emulator_path: Seq<char>,
    rom_exists: bool,
    emulator_exists: bool,
) -> Option<Seq<char>> {
    if !rom_exists {
        Some("ROM file is missing: "@ + rom_path)
    } else if !emulator_exists {
        Some("Emulator file is missing: "@ + emulator_path)
    } else {
        None
    }
}

pub fn missing_file_status(rom: &Rom, emulator: &Emulator, rom_exists: bool, emulator_exists: bool) -> (r:
    Option<String>)
    ensures
        opt_string_view(r) == missing_file_status_spec(
            rom.source_path@,
            emulator.executable_path@,
            rom_exists,
            emulator_exists,
        ),
{
    if !rom_exists {
        Some(
            string_of(
                &concat(&chars_of("ROM file is missing: "), &chars_of(rom.source_path.as_str())),
            ),
        )
    } else if !emulator_exists {
        Some(
            string_of(
                &concat(
                    &chars_of("Emulator file is missing: "),
                    &chars_of(emulator.executable_path.as_str()),
                ),
            ),
        )
    } else {
        None
    }
}

/// The status after a launch whose play history was saved.
pub open spec fn launched_status_spec(title: Seq<char>, emulator: Seq<char>) -> Seq<char> {
    "Launched '"@ + title + "' with '"@ + emulator + "'."@
}

pub fn launched_status(title: &str, emulator_name: &str) -> (r: String)
    ensures
        r@ == launched_status_spec(title@, emulator_name@),
{
    let a = concat(&chars_of("Launched '"), &chars_of(title));
    let b = concat(&concat(&a, &chars_of("' with '")), &chars_of(emulator_name));
    string_of(&concat(&b, &chars_of("'.")))
}

/// Whether a ROM is shown under a filter and a lower-cased search query.
pub open spec fn rom_is_visible(r: RomView, filter: LibraryFilter, query: Seq<char>) -> bool {
    let matches_filter = match filter {
        LibraryFilter::All => true,
        LibraryFilter::Favorites => r.favorite,
    };
    let matches_search = query.len() == 0 || contains(lowercase_of(r.title), query) || contains(
        lowercase_of(r.platform_name),
        query,
    );
    matches_filter && matches_search
}

/// The search query as it is compared: trimmed and lower-cased.
pub open spec fn search_key(search: Seq<char>) -> Seq<char> {
    lowercase_of(trim(search))
}

pub open spec fn visible_pred(filter: LibraryFilter, query: Seq<char>) -> spec_fn(RomView) -> bool {
    |r: RomView| rom_is_visible(r, filter, query)
}

/// The ROMs shown in the library, in library order.
pub fn visible_roms(roms: &Vec<Rom>, filter: LibraryFilter, search: &str) -> (r: Vec<Rom>)
    ensures
        roms_view(r@) == roms_view(roms@).filter(visible_pred(filter, search_key(search@))),
{
    let raw = chars_of(search);
    let t = trimmed(&raw);
    let query = lowercase_chars(&t);
    let ghost pred = visible_pred(filter, search_key(search@));
    let ghost all = roms_view(roms@);
    let mut out: Vec<Rom> = Vec::new();
    let mut i: usize = 0;
    proof {
        reveal(Seq::filter);
        assert(all.subrange(0, 0).filter(pred) =~= Seq::<RomView>::empty());
        assert(roms_view(out@) =~= Seq::<RomView>::empty());
    }
    while i < roms.len()
        invariant
            i <= roms.len(),
            all == roms_view(roms@),
            query@ == search_key(search@),
            pred == visible_pred(filter, search_key(search@)),
            roms_view(out@) == all.subrange(0, i as int).filter(pred),
        decreases roms.len() - i,
    {
        let rom = &roms[i];
        let matches_filter = match filter {
            LibraryFilter::All => true,
            LibraryFilter::Favorites => rom.favorite,
        };
        let matches_search = query.len() == 0 || contains_chars(
            &lowercase_chars(&chars_of(rom.title.as_str())),
            &query,
        ) || contains_chars(&lowercase_chars(&chars_of(rom.platform_name.as_str())), &query);
        let ghost before = out@;
        if matches_filter && matches_search {
            out.push(rom.copy());
        }
        proof {
            reveal(Seq::filter);
            let sub = all.subrange(0, i + 1);
            assert(sub.drop_last() == all.subrange(0, i as int));
            assert(sub.last() == rom@);
            assert(pred(rom@) == (matches_filter && matches_search));
            if matches_filter && matches_search {
                assert(roms_view(out@) =~= roms_view(before).push(rom@));
            } else {
                assert(roms_view(out@) =~= roms_view(before));
            }
        }
        i = i + 1;
    }
    proof {
        assert(all.subrange(0, roms@.len() as int) == all);
    }
    out
}

/// Every ROM shown under the favorites filter is a favorite, and every shown
/// ROM is in the library.
pub proof fn visible_roms_respect_the_filter(roms: Seq<RomView>, filter: LibraryFilter, query: Seq<char>)
    ensures
        forall|i: int|
            0 <= i < roms.filter(visible_pred(filter, query)).len() ==> {
                let r = #[trigger] roms.filter(visible_pred(filter, query))[i];
                &&& roms.contains(r)
                &&& filter == LibraryFilter::Favorites ==> r.favorite
            },
        query.len() == 0 && filter == LibraryFilter::All ==> roms.filter(visible_pred(filter, query))
            == roms,
{
    let pred = visible_pred(filter, query);
    let shown = roms.filter(pred);
    assert forall|i: int| 0 <= i < shown.len() implies {
        let r = #[trigger] shown[i];
        &&& roms.contains(r)
        &&& filter == LibraryFilter::Favorites ==> r.favorite
    } by {
        roms.lemma_filter_pred(pred, i);
        assert(shown.contains(shown[i]));
        roms.lemma_filter_contains_rev(pred, shown[i]);
    }
    if query.len() == 0 && filter == LibraryFilter::All {
        assert forall|i: int| 0 <= i < roms.len() implies pred(#[trigger] roms[i]) by {}
        lemma_filter_all(roms, pred);
    }
}

proof fn lemma_filter_all(s: Seq<RomView>, p: spec_fn(RomView) -> bool)
    requires
        forall|i: int| 0 <= i < s.len() ==> p(#[trigger] s[i]),
    ensures
        s.filter(p) == s,
    decreases s.len(),
{
    reveal(Seq::filter);
    if s.len() > 0 {
        assert forall|i: int| 0 <= i < s.drop_last().len() implies p(#[trigger] s.drop_last()[i]) by {
            assert(s.drop_last()[i] == s[i]);
        }
        lemma_filter_all(s.drop_last(), p);
        assert(p(s.last()));
        assert(s.drop_last().push(s.last()) =~= s);
    }
}

/// How many ROMs are favorites.
pub fn favorite_count(roms: &Vec<Rom>) -> (n: usize)
    ensures
        n == roms_view(roms@).filter(|r: RomView| r.favorite).len(),
{
    let ghost all = roms_view(roms@);
    let ghost fav = |r: RomView| r.favorite;
    let mut n: usize = 0;
    let mut i: usize = 0;
    proof {
        reveal(Seq::filter);
    }
    while i < roms.len()
        invariant
            i <= roms.len(),
            all == roms_view(roms@),
            fav == (|r: RomView| r.favorite),
            n == all.subrange(0, i as int).filter(fav).len(),
            n <= i,
        decreases roms.len() - i,
    {
        proof {
            reveal(Seq::filter);
            let sub = all.subrange(0, i + 1);
            assert(sub.drop_last() == all.subrange(0, i as int));
            assert(sub.last() == roms@[i as int]@);
        }
        if roms[i].favorite {
            n = n + 1;
        }
        i = i + 1;
    }
    proof {
        assert(all.subrange(0, roms@.len() as int) == all);
    }
    n
}

/// The ids of the first `limit` ROMs that have no artwork, in library order.
pub fn roms_missing_artwork(roms: &Vec<Rom>, limit: usize) -> (ids: Vec<i64>)
    ensures
        ids@ == roms_view(roms@).filter(|r: RomView| r.cover_art_path is None).map_values(
            |r: RomView| r.id,
        ).take(
            if roms_view(roms@).filter(|r: RomView| r.cover_art_path is None).len() < limit {
                roms_view(roms@).filter(|r: RomView| r.cover_art_path is None).len() as int
            } else {
                limit as int
            },
        ),
{
    let ghost all = roms_view(roms@);
    let ghost missing = |r: RomView| r.cover_art_path is None;
    let mut ids: Vec<i64> = Vec::new();
    let mut i: usize = 0;
    proof {
        reveal(Seq::filter);
    }
    while i < roms.len() && ids.len() < limit
        invariant
            i <= roms.len(),
            all == roms_view(roms@),
            missing == (|r: RomView| r.cover_art_path is None),
            ids.len() <= limit,
            ids@ == all.subrange(0, i as int).filter(missing).map_values(|r: RomView| r.id),
        decreases roms.len() - i,
    {
        proof {
            reveal(Seq::filter);
            let sub = all.subrange(0, i + 1);
            assert(sub.drop_last() == all.subrange(0, i as int));
            assert(sub.last() == roms@[i as int]@);
        }
        let ghost before = ids@;
        if roms[i].cover_art_path.is_none() {
            ids.push(roms[i].id);
            proof {
                assert(ids@ =~= all.subrange(0, i + 1).filter(missing).map_values(|r: RomView| r.id));
            }
        } else {
            proof {
                assert(ids@ =~= all.subrange(0, i + 1).filter(missing).map_values(|r: RomView| r.id));
            }
        }
        i = i + 1;
    }
    proof {
        let full = all.filter(missing);
        lemma_filter_prefix(all, missing, i as int);
        let pre = all.subrange(0, i as int).filter(missing);
        assert(pre.is_prefix_of(full));
        if i == roms.len() {
            assert(all.subrange(0, i as int) == all);
            assert(ids@ =~= full.map_values(|r: RomView| r.id).take(full.len() as int));
        } else {
            assert(ids@.len() == limit);
            assert(ids@ =~= full.map_values(|r: RomView| r.id).take(limit as int));
        }
    }
    ids
}

proof fn lemma_filter_prefix(s: Seq<RomView>, p: spec_fn(RomView) -> bool, i: int)
    requires
        0 <= i <= s.len(),
    ensures
        s.subrange(0, i).filter(p).is_prefix_of(s.filter(p)),
        s.subrange(0, i).filter(p).len() <= s.filter(p).len(),
    decreases s.len() - i,
{
    reveal(Seq::filter);
    if i < s.len() {
        lemma_filter_prefix(s, p, i + 1);
        let sub = s.subrange(0, i + 1);
        assert(sub.drop_last() == s.subrange(0, i));
    } else {
        assert(s.subrange(0, i) == s);
    }
}

// ---------------------------------------------------------------------------
// Editing launch settings
// ---------------------------------------------------------------------------

/// The settings editor: the emulators it can target, the library-wide
/// defaults, the settings being edited, and the emulator they belong to
/// (`None` for the defaults).
pub struct SettingsEditor {
    pub emulators: Vec<Emulator>,
    pub default_settings: LaunchSettings,
    pub editing_settings: LaunchSettings,
    pub selected_emulator_id: Option<i64>,
    pub tab: Tab,
}

/// Where the edited settings are saved.
#[derive(Clone, Copy, PartialEq, Eq, Structural, Debug)]
pub enum SaveTarget {
    Emulator(i64),
    Defaults,
}

/// The settings shown for a target: the emulator's own, or the defaults when
/// the target is the defaults or names no emulator.
pub open spec fn settings_for_target(
    emulators: Seq<EmulatorView>,
    defaults: SettingsView,
    target: Option<i64>,
) -> SettingsView {
    match target {
        Some(id) => {
            let i = first_where(emulators, emulator_has_id(id));
            if i < emulators.len() {
                emulators[i].settings
            } else {
                defaults
            }
        },
        None => defaults,
    }
}

impl SettingsEditor {
    pub open spec fn emulators_view(&self) -> Seq<EmulatorView> {
        emulators_view(self.emulators@)
    }

    /// After the emulators are reloaded: a selected emulator that still exists
    /// has its saved settings loaded; one that is gone falls back to the
    /// defaults.
    pub fn reconcile_selection(&mut self)
        ensures
            final(self).emulators@ == old(self).emulators@,
            final(self).default_settings@ == old(self).default_settings@,
            final(self).tab == old(self).tab,
            match old(self).selected_emulator_id {
                Some(id) => {
                    let i = first_where(old(self).emulators_view(), emulator_has_id(id));
                    if i < old(self).emulators@.len() {
                        &&& final(self).selected_emulator_id == Some(id)
                        &&& final(self).editing_settings@ == old(self).emulators_view()[i].settings
                    } else {
                        &&& final(self).selected_emulator_id is None
                        &&& final(self).editing_settings@ == old(self).default_settings@
                    }
                },
                None => {
                    &&& final(self).selected_emulator_id is None
                    &&& final(self).editing_settings@ == old(self).editing_settings@
                },
            },
    {
        if let Some(id) = self.selected_emulator_id {
            let i = find_emulator(&self.emulators, id);
            if i < self.emulators.len() {
                self.editing_settings = self.emulators[i].settings.copy();
            } else {
                self.selected_emulator_id = None;
                self.editing_settings = self.default_settings.copy();
            }
        }
    }

    /// Chooses which settings to edit; changing the target loads its
    /// settings.
    pub fn select_target(&mut self, target: Option<i64>)
        ensures
            final(self).emulators@ == old(self).emulators@,
            final(self).default_settings@ == old(self).default_settings@,
            final(self).tab == old(self).tab,
            final(self).selected_emulator_id == target,
            target == old(self).selected_emulator_id ==> final(self).editing_settings@ == old(
                self,
            ).editing_settings@,
            target != old(self).selected_emulator_id ==> final(self).editing_settings@
                == settings_for_target(
                old(self).emulators_view(),
                old(self).default_settings@,
                target,
            ),
    {
        if target != self.selected_emulator_id {
            self.editing_settings = match target {
                Some(id) => {
                    let i = find_emulator(&self.emulators, id);
                    if i < self.emulators.len() {
                        self.emulators[i].settings.copy()
                    } else {
                        self.default_settings.copy()
                    }
                },
                None => self.default_settings.copy(),
            };
        }
        self.selected_emulator_id = target;
    }

    /// Opens the settings tab on an emulator's own saved settings. Returns
    /// the emulator's index, or `None` (changing nothing) when no emulator has
    /// this id.
    pub fn open_emulator_settings(&mut self, emulator_id: i64) -> (r: Option<usize>)
        ensures
            final(self).emulators@ == old(self).emulators@,
            final(self).default_settings@ == old(self).default_settings@,
            ({
                let i = first_where(old(self).emulators_view(), emulator_has_id(emulator_id));
                if i < old(self).emulators@.len() {
                    &&& r == Some(i as usize)
                    &&& final(self).selected_emulator_id == Some(emulator_id)
                    &&& final(self).editing_settings@ == old(self).emulators_view()[i].settings
                    &&& final(self).tab == Tab::Settings
                } else {
                    &&& r is None
                    &&& final(self).selected_emulator_id == old(self).selected_emulator_id
                    &&& final(self).editing_settings@ == old(self).editing_settings@
                    &&& final(self).tab == old(self).tab
                }
            }),
    {
        let i = find_emulator(&self.emulators, emulator_id);
        if i >= self.emulators.len() {
            return None;
        }
        self.selected_emulator_id = Some(emulator_id);
        self.editing_settings = self.emulators[i].settings.copy();
        self.tab = Tab::Settings;
        Some(i)
    }

    /// Saving the edited settings: they belong to the selected emulator, or
    /// become the new defaults when no emulator is selected.
    pub fn save_editing_settings(&mut self) -> (r: SaveTarget)
        ensures
            final(self).emulators@ == old(self).emulators@,
            final(self).editing_settings@ == old(self).editing_settings@,
            final(self).selected_emulator_id == old(self).selected_emulator_id,
            final(self).tab == old(self).tab,
            match old(self).selected_emulator_id {
                Some(id) => r == SaveTarget::Emulator(id) && final(self).default_settings@ == old(
                    self,
                ).default_settings@,
                None => r == SaveTarget::Defaults && final(self).default_settings@ == old(
                    self,
                ).editing_settings@,
            },
    {
        match self.selected_emulator_id {
            Some(id) => SaveTarget::Emulator(id),
            None => {
                self.default_settings = self.editing_settings.copy();
                SaveTarget::Defaults
            },
        }
    }
}

/// The status after an import of ROMs.
pub fn roms_imported_status(imported: usize) -> (r: String)
    ensures
        r@ == "Imported or updated "@ + decimal(imported as nat) + " ROM(s)."@,
{
    let d = decimal_chars(imported as u64);
    string_of(&concat(&concat(&chars_of("Imported or updated "), &d), &chars_of(" ROM(s).")))
}

/// The status after an import of emulators.
pub fn emulators_imported_status(imported: usize) -> (r: String)
    ensures
        r@ == "Imported or updated "@ + decimal(imported as nat) + " emulator(s)."@,
{
    let d = decimal_chars(imported as u64);
    string_of(&concat(&concat(&chars_of("Imported or updated "), &d), &chars_of(" emulator(s).")))
}

/// The status once an emulator's settings are open for editing.
pub fn editing_status(emulator_name: &str) -> (r: String)
    ensures
        r@ == "Editing settings for '"@ + emulator_name@ + "'."@,
{
    string_of(&concat(&concat(&chars_of("Editing settings for '"), &chars_of(emulator_name)), &chars_of("'.")))
}

/// The status once the edited settings are saved where they belong.
pub fn settings_saved_status(target: SaveTarget) -> (r: String)
    ensures
        r@ == match target {
            SaveTarget::Emulator(_) => "Emulator settings saved."@,
            SaveTarget::Defaults => "Default launch settings saved."@,
        },
{
    match target {
        SaveTarget::Emulator(_) => string_of(&chars_of("Emulator settings saved.")),
        SaveTarget::Defaults => string_of(&chars_of("Default launch settings saved.")),
    }
}

} // verus!
