//! Classifying imported files: which files are emulators, which platform a
//! ROM or an emulator belongs to, and the titles shown in the library.
use vstd::prelude::*;
use crate::text::{
    ascii_lower, ascii_lowercase, chars_of, concat, concat_str, contains, contains_str,
    ends_with_str, eq_ignore_ascii_case, eq_ignore_case_str, eq_str, occurs_at, occurs_at_exec,
    has_char, starts_with_str, string_of, trim, trimmed,
};
use crate::paths::{
    extension_of_name, file_name_of, is_simple_path, path_extension, path_file_name, path_file_stem, stem_of_name,
};

verus! {

// ---------------------------------------------------------------------------
// Executables
// ---------------------------------------------------------------------------

/// Extensions of files that Windows can run.
pub open spec fn is_executable_extension(ext: Seq<char>) -> bool {
    ||| eq_ignore_ascii_case(ext, "exe"@)
    ||| eq_ignore_ascii_case(ext, "bat"@)
    ||| eq_ignore_ascii_case(ext, "cmd"@)
    ||| eq_ignore_ascii_case(ext, "com"@)
    ||| eq_ignore_ascii_case(ext, "pif"@)
    ||| eq_ignore_ascii_case(ext, "vbs"@)
    ||| eq_ignore_ascii_case(ext, "wsf"@)
}

pub open spec fn executable_extension_spec(ext: Option<Seq<char>>) -> bool {
    match ext {
        Some(e) => is_executable_extension(e),
        None => false,
    }
}

/// Whether a file with this extension is a program.
pub fn executable_extension(ext: Option<&str>) -> (r: bool)
    ensures
        r == executable_extension_spec(match ext {
            Some(e) => Some(e@),
            None => None,
        }),
{
    match ext {
        Some(e) => {
            let v = chars_of(e);
            eq_ignore_case_str(&v, "exe") || eq_ignore_case_str(&v, "bat") || eq_ignore_case_str(
                &v,
                "cmd",
            ) || eq_ignore_case_str(&v, "com") || eq_ignore_case_str(&v, "pif")
                || eq_ignore_case_str(&v, "vbs") || eq_ignore_case_str(&v, "wsf")
        },
        None => false,
    }
}

/// Whether the file at `path` is a program, judged by its extension.
pub fn is_executable(path: &str) -> (r: bool)
    ensures
        is_simple_path(path@) ==> r == executable_extension_spec(extension_of_name(file_name_of(path@))),
{
    let ext = path_extension(path);
    match &ext {
        Some(e) => executable_extension(Some(e.as_str())),
        None => executable_extension(None),
    }
}

/// Separators between the words of a file stem.
pub open spec fn is_stem_separator(c: char) -> bool {
    c == '.' || c == '-' || c == '_' || c == ' '
}

/// `w` occurs at `i` as a whole separator-delimited part of `s`.
pub open spec fn part_at(s: Seq<char>, w: Seq<char>, i: int) -> bool {
    &&& occurs_at(s, w, i)
    &&& (i == 0 || is_stem_separator(s[i - 1]))
    &&& (i + w.len() == s.len() || is_stem_separator(s[i + w.len()]))
}

/// One of the parts of `s`, split at separators, is exactly `w`.
pub open spec fn has_part(s: Seq<char>, w: Seq<char>) -> bool {
    exists|i: int| part_at(s, w, i)
}

/// Helper programs that are imported from emulator folders but are not
/// emulators: SDL launchers and uninstallers.
pub open spec fn is_non_emulator_stem_spec(stem: Seq<char>) -> bool {
    let s = ascii_lower(stem);
    ||| s == "sdl"@
    ||| "sdl2"@.is_prefix_of(s)
    ||| has_part(s, "sdl"@)
    ||| has_part(s, "sdl2"@)
    ||| ".sdl"@.is_suffix_of(s)
    ||| ".sdl2"@.is_suffix_of(s)
    ||| "unins"@.is_prefix_of(s)
    ||| "uninstall"@.is_prefix_of(s)
}

fn is_stem_separator_char(c: char) -> (r: bool)
    ensures
        r == is_stem_separator(c),
{
    c == '.' || c == '-' || c == '_' || c == ' '
}

/// Whether `w` is one of the separator-delimited parts of `s`.
fn has_part_exec(s: &Vec<char>, w: &str) -> (r: bool)
    ensures
        r == has_part(s@, w@),
{
    let wv = chars_of(w);
    let mut i: usize = 0;
    while i < s.len()
        invariant
            i <= s.len(),
            wv@ == w@,
            forall|k: int| 0 <= k < i ==> !part_at(s@, w@, k),
        decreases s.len() - i,
    {
        if occurs_at_exec(s, &wv, i) {
            let end = i + wv.len();
            let before = i == 0 || is_stem_separator_char(s[i - 1]);
            let after = end == s.len() || is_stem_separator_char(s[end]);
            if before && after {
                proof {
                    assert(part_at(s@, w@, i as int));
                }
                return true;
            }
        }
        i = i + 1;
    }
    // The only index past the loop is the end of the text.
    let end_part = occurs_at_exec(s, &wv, i) && (i == 0 || is_stem_separator_char(s[i - 1]));
    proof {
        assert forall|k: int| #![auto] part_at(s@, w@, k) implies k == s@.len() by {}
        if end_part {
            assert(part_at(s@, w@, i as int));
        } else {
            assert(!part_at(s@, w@, i as int));
        }
    }
    end_part
}

/// Whether a file stem names a helper program rather than an emulator.
pub fn is_non_emulator_stem(stem: &str) -> (r: bool)
    ensures
        r == is_non_emulator_stem_spec(stem@),
{
    let raw = chars_of(stem);
    let s = ascii_lowercase(&raw);
    eq_str(&s, "sdl") || starts_with_str(&s, "sdl2") || has_part_exec(&s, "sdl") || has_part_exec(
        &s,
        "sdl2",
    ) || ends_with_str(&s, ".sdl") || ends_with_str(&s, ".sdl2") || starts_with_str(&s, "unins")
        || starts_with_str(&s, "uninstall")
}

/// Whether the program at `path` is a helper rather than an emulator. A path
/// without a file stem is judged by the empty stem.
pub fn is_non_emulator_executable(path: &str) -> (r: bool)
    ensures
        is_simple_path(path@) ==> r == is_non_emulator_stem_spec(stem_of_name(file_name_of(path@))),
{
    match path_file_stem(path) {
        Some(stem) => is_non_emulator_stem(stem.as_str()),
        None => is_non_emulator_stem(""),
    }
}

// ---------------------------------------------------------------------------
// Titles and platform names
// ---------------------------------------------------------------------------

/// The library title of a file: its stem, else its file name, else
/// `Untitled`.
pub open spec fn title_spec(stem: Option<Seq<char>>, file_name: Option<Seq<char>>) -> Seq<char> {
    match stem {
        Some(s) => s,
        None => match file_name {
            Some(n) => n,
            None => "Untitled"@,
        },
    }
}

pub open spec fn opt_view(o: Option<&str>) -> Option<Seq<char>> {
    match o {
        Some(s) => Some(s@),
        None => None,
    }
}

pub fn title_from_components(stem: Option<&str>, file_name: Option<&str>) -> (r: String)
    ensures
        r@ == title_spec(opt_view(stem), opt_view(file_name)),
{
    let v = match stem {
        Some(s) => chars_of(s),
        None => match file_name {
            Some(n) => chars_of(n),
            None => chars_of("Untitled"),
        },
    };
    string_of(&v)
}

/// The library title of the file at `path`.
pub fn title_from_path(path: &str) -> (r: String)
    ensures
        is_simple_path(path@) ==> r@ == stem_of_name(file_name_of(path@)),
{
    let stem = path_file_stem(path);
    match &stem {
        Some(s) => title_from_components(Some(s.as_str()), None),
        None => {
            let name = path_file_name(path);
            match &name {
                Some(n) => title_from_components(None, Some(n.as_str())),
                None => title_from_components(None, None),
            }
        },
    }
}

/// The platform that an import field names: its trimmed text, or `Unknown`.
pub open spec fn platform_name_spec(value: Seq<char>) -> Seq<char> {
    if trim(value).len() == 0 {
        "Unknown"@
    } else {
        trim(value)
    }
}

pub fn platform_name_or_unknown(value: &str) -> (r: String)
    ensures
        r@ == platform_name_spec(value@),
{
    let v = chars_of(value);
    let t = trimmed(&v);
    if t.len() == 0 {
        string_of(&chars_of("Unknown"))
    } else {
        string_of(&t)
    }
}

/// A platform name that means "not known": blank, or `unknown` in any ASCII
/// case.
pub open spec fn is_unknown_platform_spec(name: Seq<char>) -> bool {
    trim(name).len() == 0 || eq_ignore_ascii_case(name, "unknown"@)
}

pub fn is_unknown_platform(name: &str) -> (r: bool)
    ensures
        r == is_unknown_platform_spec(name@),
{
    let v = chars_of(name);
    let t = trimmed(&v);
    t.len() == 0 || eq_ignore_case_str(&v, "unknown")
}

// ---------------------------------------------------------------------------
// ROM platforms
// ---------------------------------------------------------------------------

/// The platform that a (lower-case) ROM extension stands for.
pub open spec fn platform_for_extension(e: Seq<char>) -> Option<Seq<char>> {
    if e == "gba"@ {
        Some("Game Boy Advance"@)
    } else if e == "gbc"@ {
        Some("Game Boy Color"@)
    } else if e == "gb"@ {
        Some("Game Boy"@)
    } else if e == "nes"@ {
        Some("Nintendo Entertainment System"@)
    } else if e == "smc"@ || e == "sfc"@ {
        Some("Super Nintendo"@)
    } else if e == "n64"@ || e == "z64"@ || e == "v64"@ {
        Some("Nintendo 64"@)
    } else if e == "nds"@ {
        Some("Nintendo DS"@)
    } else if e == "3ds"@ || e == "cia"@ {
        Some("Nintendo 3DS"@)
    } else if e == "iso"@ || e == "gcm"@ || e == "rvz"@ {
        Some("Nintendo GameCube"@)
    } else if e == "wbfs"@ {
        Some("Nintendo Wii"@)
    } else if e == "ps1"@ || e == "psx"@ || e == "pbp"@ {
        Some("PlayStation"@)
    } else if e == "ps2"@ {
        Some("PlayStation 2"@)
    } else if e == "cso"@ {
        Some("PlayStation Portable"@)
    } else if e == "md"@ || e == "gen"@ || e == "smd"@ {
        Some("Sega Genesis"@)
    } else if e == "sms"@ {
        Some("Sega Master System"@)
    } else if e == "a26"@ {
        Some("Atari 2600"@)
    } else if e == "pce"@ {
        Some("TurboGrafx-16"@)
    } else {
        None
    }
}

/// Archived Pokemon Game Boy Advance titles, recognised by name.
pub open spec fn is_pokemon_gba_name(name: Seq<char>) -> bool {
    contains(name, "pokemon"@) && (contains(name, "emerald"@) || contains(name, "ruby"@)
        || contains(name, "sapphire"@) || contains(name, "fire red"@) || contains(
        name,
        "firered"@,
    ) || contains(name, "leaf green"@) || contains(name, "leafgreen"@))
}

/// The platform of a ROM, from its file stem and extension.
///
/// Known PlayStation 2 titles come first, since their `.iso` extension is
/// shared with other consoles; then the extension decides; archives named
/// after Pokemon GBA games count as Game Boy Advance.
pub open spec fn rom_platform_spec(stem: Option<Seq<char>>, ext: Option<Seq<char>>) -> Option<
    Seq<char>,
> {
    let name = match stem {
        Some(s) => ascii_lower(s),
        None => seq![],
    };
    if contains(name, "god hand"@) || contains(name, "godhand"@) {
        Some("PlayStation 2"@)
    } else {
        match ext {
            None => None,
            Some(e) => match platform_for_extension(ascii_lower(e)) {
                Some(p) => Some(p),
                None => if is_pokemon_gba_name(name) {
                    Some("Game Boy Advance"@)
                } else {
                    None
                },
            },
        }
    }
}

/// The console of each ROM extension, in any letter case, for a file whose
/// name does not mark it as a known PlayStation 2 title.
pub proof fn rom_extensions_name_their_consoles(stem: Seq<char>, e: Seq<char>)
    requires
        !contains(ascii_lower(stem), "god hand"@),
        !contains(ascii_lower(stem), "godhand"@),
    ensures
        ({
            let x = ascii_lower(e);
            let r = rom_platform_spec(Some(stem), Some(e));
            &&& x == "gba"@ ==> r == Some("Game Boy Advance"@)
            &&& x == "gbc"@ ==> r == Some("Game Boy Color"@)
            &&& x == "gb"@ ==> r == Some("Game Boy"@)
            &&& x == "nes"@ ==> r == Some("Nintendo Entertainment System"@)
            &&& (x == "smc"@ || x == "sfc"@) ==> r == Some("Super Nintendo"@)
            &&& (x == "n64"@ || x == "z64"@ || x == "v64"@) ==> r == Some("Nintendo 64"@)
            &&& x == "nds"@ ==> r == Some("Nintendo DS"@)
            &&& (x == "3ds"@ || x == "cia"@) ==> r == Some("Nintendo 3DS"@)
            &&& (x == "iso"@ || x == "gcm"@ || x == "rvz"@) ==> r == Some("Nintendo GameCube"@)
            &&& x == "wbfs"@ ==> r == Some("Nintendo Wii"@)
            &&& (x == "ps1"@ || x == "psx"@ || x == "pbp"@) ==> r == Some("PlayStation"@)
            &&& x == "ps2"@ ==> r == Some("PlayStation 2"@)
            &&& x == "cso"@ ==> r == Some("PlayStation Portable"@)
            &&& (x == "md"@ || x == "gen"@ || x == "smd"@) ==> r == Some("Sega Genesis"@)
            &&& x == "sms"@ ==> r == Some("Sega Master System"@)
            &&& x == "a26"@ ==> r == Some("Atari 2600"@)
            &&& x == "pce"@ ==> r == Some("TurboGrafx-16"@)
        }),
{
    reveal_strlit("gba");
    reveal_strlit("gbc");
    reveal_strlit("gb");
    reveal_strlit("nes");
    reveal_strlit("smc");
    reveal_strlit("sfc");
    reveal_strlit("n64");
    reveal_strlit("z64");
    reveal_strlit("v64");
    reveal_strlit("nds");
    reveal_strlit("3ds");
    reveal_strlit("cia");
    reveal_strlit("iso");
    reveal_strlit("gcm");
    reveal_strlit("rvz");
    reveal_strlit("wbfs");
    reveal_strlit("ps1");
    reveal_strlit("psx");
    reveal_strlit("pbp");
    reveal_strlit("ps2");
    reveal_strlit("cso");
    reveal_strlit("md");
    reveal_strlit("gen");
    reveal_strlit("smd");
    reveal_strlit("sms");
    reveal_strlit("a26");
    reveal_strlit("pce");
    assert("gba"@.len() == 3 && "gba"@[0] == 'g' && "gba"@[1] == 'b' && "gba"@[2] == 'a');
    assert("gbc"@.len() == 3 && "gbc"@[0] == 'g' && "gbc"@[1] == 'b' && "gbc"@[2] == 'c');
    assert("gb"@.len() == 2 && "gb"@[0] == 'g' && "gb"@[1] == 'b');
    assert("nes"@.len() == 3 && "nes"@[0] == 'n' && "nes"@[1] == 'e' && "nes"@[2] == 's');
    assert("smc"@.len() == 3 && "smc"@[0] == 's' && "smc"@[1] == 'm' && "smc"@[2] == 'c');
    assert("sfc"@.len() == 3 && "sfc"@[0] == 's' && "sfc"@[1] == 'f' && "sfc"@[2] == 'c');
    assert("n64"@.len() == 3 && "n64"@[0] == 'n' && "n64"@[1] == '6' && "n64"@[2] == '4');
    assert("z64"@.len() == 3 && "z64"@[0] == 'z' && "z64"@[1] == '6' && "z64"@[2] == '4');
    assert("v64"@.len() == 3 && "v64"@[0] == 'v' && "v64"@[1] == '6' && "v64"@[2] == '4');
    assert("nds"@.len() == 3 && "nds"@[0] == 'n' && "nds"@[1] == 'd' && "nds"@[2] == 's');
    assert("3ds"@.len() == 3 && "3ds"@[0] == '3' && "3ds"@[1] == 'd' && "3ds"@[2] == 's');
    assert("cia"@.len() == 3 && "cia"@[0] == 'c' && "cia"@[1] == 'i' && "cia"@[2] == 'a');
    assert("iso"@.len() == 3 && "iso"@[0] == 'i' && "iso"@[1] == 's' && "iso"@[2] == 'o');
    assert("gcm"@.len() == 3 && "gcm"@[0] == 'g' && "gcm"@[1] == 'c' && "gcm"@[2] == 'm');
    assert("rvz"@.len() == 3 && "rvz"@[0] == 'r' && "rvz"@[1] == 'v' && "rvz"@[2] == 'z');
    assert("wbfs"@.len() == 4 && "wbfs"@[0] == 'w' && "wbfs"@[1] == 'b' && "wbfs"@[2] == 'f' && "wbfs"@[3] == 's');
    assert("ps1"@.len() == 3 && "ps1"@[0] == 'p' && "ps1"@[1] == 's' && "ps1"@[2] == '1');
    assert("psx"@.len() == 3 && "psx"@[0] == 'p' && "psx"@[1] == 's' && "psx"@[2] == 'x');
    assert("pbp"@.len() == 3 && "pbp"@[0] == 'p' && "pbp"@[1] == 'b' && "pbp"@[2] == 'p');
    assert("ps2"@.len() == 3 && "ps2"@[0] == 'p' && "ps2"@[1] == 's' && "ps2"@[2] == '2');
    assert("cso"@.len() == 3 && "cso"@[0] == 'c' && "cso"@[1] == 's' && "cso"@[2] == 'o');
    assert("md"@.len() == 2 && "md"@[0] == 'm' && "md"@[1] == 'd');
    assert("gen"@.len() == 3 && "gen"@[0] == 'g' && "gen"@[1] == 'e' && "gen"@[2] == 'n');
    assert("smd"@.len() == 3 && "smd"@[0] == 's' && "smd"@[1] == 'm' && "smd"@[2] == 'd');
    assert("sms"@.len() == 3 && "sms"@[0] == 's' && "sms"@[1] == 'm' && "sms"@[2] == 's');
    assert("a26"@.len() == 3 && "a26"@[0] == 'a' && "a26"@[1] == '2' && "a26"@[2] == '6');
    assert("pce"@.len() == 3 && "pce"@[0] == 'p' && "pce"@[1] == 'c' && "pce"@[2] == 'e');
}

/// A `.zip` archive is taken for a Game Boy Advance game when its lower-cased
/// name holds `pokemon` and one of the GBA titles (`emerald`, `ruby`,
/// `sapphire`, `fire red`, `firered`, `leaf green`, `leafgreen`); any other
/// archive, not named as a known PlayStation 2 title, has no platform.
pub proof fn pokemon_archives_are_game_boy_advance(stem: Seq<char>, e: Seq<char>)
    requires
        ascii_lower(e) == "zip"@,
        !contains(ascii_lower(stem), "god hand"@),
        !contains(ascii_lower(stem), "godhand"@),
    ensures
        ({
            let n = ascii_lower(stem);
            let titled = contains(n, "emerald"@) || contains(n, "ruby"@) || contains(n, "sapphire"@)
                || contains(n, "fire red"@) || contains(n, "firered"@) || contains(n, "leaf green"@)
                || contains(n, "leafgreen"@);
            &&& contains(n, "pokemon"@) && titled ==> rom_platform_spec(Some(stem), Some(e)) == Some(
                "Game Boy Advance"@,
            )
            &&& !(contains(n, "pokemon"@) && titled) ==> rom_platform_spec(Some(stem), Some(e))
                is None
        }),
{
    reveal_strlit("zip");
    assert("zip"@.len() == 3 && "zip"@[0] == 'z' && "zip"@[1] == 'i' && "zip"@[2] == 'p');
    reveal_strlit("gba");
    reveal_strlit("gbc");
    reveal_strlit("gb");
    reveal_strlit("nes");
    reveal_strlit("smc");
    reveal_strlit("sfc");
    reveal_strlit("n64");
    reveal_strlit("z64");
    reveal_strlit("v64");
    reveal_strlit("nds");
    reveal_strlit("3ds");
    reveal_strlit("cia");
    reveal_strlit("iso");
    reveal_strlit("gcm");
    reveal_strlit("rvz");
    reveal_strlit("wbfs");
    reveal_strlit("ps1");
    reveal_strlit("psx");
    reveal_strlit("pbp");
    reveal_strlit("ps2");
    reveal_strlit("cso");
    reveal_strlit("md");
    reveal_strlit("gen");
    reveal_strlit("smd");
    reveal_strlit("sms");
    reveal_strlit("a26");
    reveal_strlit("pce");
}

pub open spec fn opt_string_view(o: Option<String>) -> Option<Seq<char>> {
    match o {
        Some(s) => Some(s@),
        None => None,
    }
}

fn some_text(s: &str) -> (r: Option<String>)
    ensures
        r matches Some(x) && x@ == s@,
{
    Some(string_of(&chars_of(s)))
}

fn platform_for_extension_exec(e: &Vec<char>) -> (r: Option<String>)
    ensures
        opt_string_view(r) == platform_for_extension(e@),
{
    if eq_str(e, "gba") {
        some_text("Game Boy Advance")
    } else if eq_str(e, "gbc") {
        some_text("Game Boy Color")
    } else if eq_str(e, "gb") {
        some_text("Game Boy")
    } else if eq_str(e, "nes") {
        some_text("Nintendo Entertainment System")
    } else if eq_str(e, "smc") || eq_str(e, "sfc") {
        some_text("Super Nintendo")
    } else if eq_str(e, "n64") || eq_str(e, "z64") || eq_str(e, "v64") {
        some_text("Nintendo 64")
    } else if eq_str(e, "nds") {
        some_text("Nintendo DS")
    } else if eq_str(e, "3ds") || eq_str(e, "cia") {
        some_text("Nintendo 3DS")
    } else if eq_str(e, "iso") || eq_str(e, "gcm") || eq_str(e, "rvz") {
        some_text("Nintendo GameCube")
    } else if eq_str(e, "wbfs") {
        some_text("Nintendo Wii")
    } else if eq_str(e, "ps1") || eq_str(e, "psx") || eq_str(e, "pbp") {
        some_text("PlayStation")
    } else if eq_str(e, "ps2") {
        some_text("PlayStation 2")
    } else if eq_str(e, "cso") {
        some_text("PlayStation Portable")
    } else if eq_str(e, "md") || eq_str(e, "gen") || eq_str(e, "smd") {
        some_text("Sega Genesis")
    } else if eq_str(e, "sms") {
        some_text("Sega Master System")
    } else if eq_str(e, "a26") {
        some_text("Atari 2600")
    } else if eq_str(e, "pce") {
        some_text("TurboGrafx-16")
    } else {
        None
    }
}

fn is_pokemon_gba_name_exec(name: &Vec<char>) -> (r: bool)
    ensures
        r == is_pokemon_gba_name(name@),
{
    contains_str(name, "pokemon") && (contains_str(name, "emerald") || contains_str(name, "ruby")
        || contains_str(name, "sapphire") || contains_str(name, "fire red") || contains_str(
        name,
        "firered",
    ) || contains_str(name, "leaf green") || contains_str(name, "leafgreen"))
}

/// The platform of a ROM with this file stem and extension.
pub fn rom_platform_from(stem: Option<&str>, ext: Option<&str>) -> (r: Option<String>)
    ensures
        opt_string_view(r) == rom_platform_spec(opt_view(stem), opt_view(ext)),
{
    let name = match stem {
        Some(s) => ascii_lowercase(&chars_of(s)),
        None => Vec::new(),
    };
    proof {
        assert(name@ == match opt_view(stem) {
            Some(s) => ascii_lower(s),
            None => seq![],
        });
    }
    if contains_str(&name, "god hand") || contains_str(&name, "godhand") {
        return some_text("PlayStation 2");
    }
    match ext {
        None => None,
        Some(e) => {
            let lower = ascii_lowercase(&chars_of(e));
            match platform_for_extension_exec(&lower) {
                Some(p) => Some(p),
                None => if is_pokemon_gba_name_exec(&name) {
                    some_text("Game Boy Advance")
                } else {
                    None
                },
            }
        },
    }
}

/// The platform of the ROM at `path`, or `None` when it cannot be told.
pub fn infer_rom_platform(path: &str) -> (r: Option<String>)
    ensures
        exists|stem: Option<Seq<char>>, ext: Option<Seq<char>>|
            #![trigger rom_platform_spec(stem, ext)]
            (ext matches Some(e) ==> !has_char(e, '.')) && opt_string_view(r) == rom_platform_spec(
                stem,
                ext,
            ),
        is_simple_path(path@) ==> opt_string_view(r) == rom_platform_spec(
            Some(stem_of_name(file_name_of(path@))),
            extension_of_name(file_name_of(path@)),
        ),
{
    let stem = path_file_stem(path);
    let ext = path_extension(path);
    let stem_ref: Option<&str> = match &stem {
        Some(s) => Some(s.as_str()),
        None => None,
    };
    let ext_ref: Option<&str> = match &ext {
        Some(e) => Some(e.as_str()),
        None => None,
    };
    let r = rom_platform_from(stem_ref, ext_ref);
    assert(opt_string_view(r) == rom_platform_spec(opt_view(stem_ref), opt_view(ext_ref)));
    r
}

/// `.iso` images are shared by several consoles.
pub open spec fn ambiguous_extension_spec(ext: Option<Seq<char>>) -> bool {
    match ext {
        Some(e) => eq_ignore_ascii_case(e, "iso"@),
        None => false,
    }
}

pub fn ambiguous_extension(ext: Option<&str>) -> (r: bool)
    ensures
        r == ambiguous_extension_spec(opt_view(ext)),
{
    match ext {
        Some(e) => eq_ignore_case_str(&chars_of(e), "iso"),
        None => false,
    }
}

/// Whether the ROM at `path` has an extension used by several consoles.
pub fn is_ambiguous_rom_platform(path: &str) -> (r: bool)
    ensures
        is_simple_path(path@) ==> r == ambiguous_extension_spec(extension_of_name(file_name_of(path@))),
{
    let ext = path_extension(path);
    match &ext {
        Some(e) => ambiguous_extension(Some(e.as_str())),
        None => ambiguous_extension(None),
    }
}

// ---------------------------------------------------------------------------
// Emulator platforms
// ---------------------------------------------------------------------------

/// The platform an emulator serves, from its name and executable path.
pub open spec fn emulator_platform_spec(name: Seq<char>, path: Seq<char>) -> Option<Seq<char>> {
    let v = ascii_lower(name) + " "@ + ascii_lower(path);
    if contains(v, "mgba"@) || contains(v, "visualboy"@) {
        Some("Game Boy Advance"@)
    } else if contains(v, "dolphin"@) {
        Some("Nintendo GameCube"@)
    } else if contains(v, "pcsx2"@) {
        Some("PlayStation 2"@)
    } else if contains(v, "duckstation"@) {
        Some("PlayStation"@)
    } else if contains(v, "ppsspp"@) {
        Some("PlayStation Portable"@)
    } else if contains(v, "desmume"@) || contains(v, "melonds"@) {
        Some("Nintendo DS"@)
    } else if contains(v, "citra"@) {
        Some("Nintendo 3DS"@)
    } else if contains(v, "yuzu"@) || contains(v, "ryujinx"@) {
        Some("Nintendo Switch"@)
    } else if contains(v, "project64"@) {
        Some("Nintendo 64"@)
    } else if contains(v, "snes9x"@) {
        Some("Super Nintendo"@)
    } else if contains(v, "nestopia"@) {
        Some("Nintendo Entertainment System"@)
    } else if contains(v, "gens"@) {
        Some("Sega Genesis"@)
    } else {
        None
    }
}

/// The platform an emulator serves follows the first keyword, in this order,
/// found in its lower-cased name and path (joined by a space): `mgba` or
/// `visualboy`, `dolphin`, `pcsx2`, `duckstation`, `ppsspp`, `desmume` or
/// `melonds`, `citra`, `yuzu` or `ryujinx`, `project64`, `snes9x`,
/// `nestopia`, `gens`; with none of them the platform is unknown.
pub proof fn emulator_keywords_name_their_platforms(name: Seq<char>, path: Seq<char>)
    ensures
        ({
            let v = ascii_lower(name) + " "@ + ascii_lower(path);
            let r = emulator_platform_spec(name, path);
            let gba = contains(v, "mgba"@) || contains(v, "visualboy"@);
            let gc = gba || contains(v, "dolphin"@);
            let ps2 = gc || contains(v, "pcsx2"@);
            let ps1 = ps2 || contains(v, "duckstation"@);
            let psp = ps1 || contains(v, "ppsspp"@);
            let ds = psp || contains(v, "desmume"@) || contains(v, "melonds"@);
            let n3ds = ds || contains(v, "citra"@);
            let switch = n3ds || contains(v, "yuzu"@) || contains(v, "ryujinx"@);
            let n64 = switch || contains(v, "project64"@);
            let snes = n64 || contains(v, "snes9x"@);
            let nes = snes || contains(v, "nestopia"@);
            let genesis = nes || contains(v, "gens"@);
            &&& gba ==> r == Some("Game Boy Advance"@)
            &&& !gba && contains(v, "dolphin"@) ==> r == Some("Nintendo GameCube"@)
            &&& !gc && contains(v, "pcsx2"@) ==> r == Some("PlayStation 2"@)
            &&& !ps2 && contains(v, "duckstation"@) ==> r == Some("PlayStation"@)
            &&& !ps1 && contains(v, "ppsspp"@) ==> r == Some("PlayStation Portable"@)
            &&& !psp && (contains(v, "desmume"@) || contains(v, "melonds"@)) ==> r == Some(
                "Nintendo DS"@,
            )
            &&& !ds && contains(v, "citra"@) ==> r == Some("Nintendo 3DS"@)
            &&& !n3ds && (contains(v, "yuzu"@) || contains(v, "ryujinx"@)) ==> r == Some(
                "Nintendo Switch"@,
            )
            &&& !switch && contains(v, "project64"@) ==> r == Some("Nintendo 64"@)
            &&& !n64 && contains(v, "snes9x"@) ==> r == Some("Super Nintendo"@)
            &&& !snes && contains(v, "nestopia"@) ==> r == Some("Nintendo Entertainment System"@)
            &&& !nes && contains(v, "gens"@) ==> r == Some("Sega Genesis"@)
            &&& !genesis ==> r is None
        }),
{
}

pub fn infer_emulator_platform(name: &str, path: &str) -> (r: Option<String>)
    ensures
        opt_string_view(r) == emulator_platform_spec(name@, path@),
{
    let a = ascii_lowercase(&chars_of(name));
    let b = ascii_lowercase(&chars_of(path));
    let with_space = concat_str(&a, " ");
    let v = concat(&with_space, &b);
    if contains_str(&v, "mgba") || contains_str(&v, "visualboy") {
        some_text("Game Boy Advance")
    } else if contains_str(&v, "dolphin") {
        some_text("Nintendo GameCube")
    } else if contains_str(&v, "pcsx2") {
        some_text("PlayStation 2")
    } else if contains_str(&v, "duckstation") {
        some_text("PlayStation")
    } else if contains_str(&v, "ppsspp") {
        some_text("PlayStation Portable")
    } else if contains_str(&v, "desmume") || contains_str(&v, "melonds") {
        some_text("Nintendo DS")
    } else if contains_str(&v, "citra") {
        some_text("Nintendo 3DS")
    } else if contains_str(&v, "yuzu") || contains_str(&v, "ryujinx") {
        some_text("Nintendo Switch")
    } else if contains_str(&v, "project64") {
        some_text("Nintendo 64")
    } else if contains_str(&v, "snes9x") {
        some_text("Super Nintendo")
    } else if contains_str(&v, "nestopia") {
        some_text("Nintendo Entertainment System")
    } else if contains_str(&v, "gens") {
        some_text("Sega Genesis")
    } else {
        None
    }
}

} // verus!
