//! Where the library looks for files — cover art beside a ROM, Magpie's
//! scaling modes — and the time stamps stored with library entries.
use vstd::prelude::*;
use crate::paths::{
    ends_in_file_name, file_name_of, has_no_separator, is_bare_name, is_folder_of, is_join_of,
    is_any_separator, is_proper_prefix, is_simple_path, last_slash, windows_name_start,
    is_verbatim, lemma_no_backslash_not_verbatim, lemma_no_separator_concat,
    lemma_prefix_no_backslash, lemma_stem_of_simple_path, path_file_stem, path_join, path_parent,
    stem_of_name,
};
use crate::text::has_char;
use crate::text::{chars_of, concat_str, first_where, lemma_first_where_unique, string_of};

verus! {

// ---------------------------------------------------------------------------
// Paths as text
// ---------------------------------------------------------------------------

/// A path as the text stored in the library.
pub fn path_string(path: &str) -> (r: String)
    ensures
        r@ == path@,
{
    string_of(&chars_of(path))
}

// ---------------------------------------------------------------------------
// Cover art beside a ROM
// ---------------------------------------------------------------------------

/// A file name that may hold a ROM's cover art, in the ROM's folder or in
/// its `covers` subfolder.
pub struct CoverName {
    pub in_covers_folder: bool,
    pub file_name: String,
}

pub open spec fn cover_names_view(v: Seq<CoverName>) -> Seq<(bool, Seq<char>)> {
    v.map_values(|c: CoverName| (c.in_covers_folder, c.file_name@))
}

/// The names tried for one image extension, in order: `stem.ext`,
/// `stem-cover.ext`, `stem_cover.ext`, then `covers/stem.ext`.
pub open spec fn cover_names_with(stem: Seq<char>, ext: Seq<char>) -> Seq<(bool, Seq<char>)> {
    seq![
        (false, stem + "."@ + ext),
        (false, stem + "-cover."@ + ext),
        (false, stem + "_cover."@ + ext),
        (true, stem + "."@ + ext),
    ]
}

/// All names tried, PNG first, then JPG, then JPEG.
pub open spec fn cover_names_spec(stem: Seq<char>) -> Seq<(bool, Seq<char>)> {
    cover_names_with(stem, "png"@) + cover_names_with(stem, "jpg"@) + cover_names_with(
        stem,
        "jpeg"@,
    )
}

fn name_with(stem: &Vec<char>, middle: &str, ext: &str) -> (r: String)
    ensures
        r@ == stem@ + middle@ + ext@,
{
    string_of(&concat_str(&concat_str(stem, middle), ext))
}

fn push_cover_names(names: &mut Vec<CoverName>, stem: &Vec<char>, ext: &str)
    ensures
        cover_names_view(final(names)@) == cover_names_view(old(names)@) + cover_names_with(
            stem@,
            ext@,
        ),
{
    names.push(CoverName { in_covers_folder: false, file_name: name_with(stem, ".", ext) });
    names.push(CoverName { in_covers_folder: false, file_name: name_with(stem, "-cover.", ext) });
    names.push(CoverName { in_covers_folder: false, file_name: name_with(stem, "_cover.", ext) });
    names.push(CoverName { in_covers_folder: true, file_name: name_with(stem, ".", ext) });
    assert(cover_names_view(names@) =~= cover_names_view(old(names)@) + cover_names_with(
        stem@,
        ext@,
    ));
}

/// The cover-art file names tried for a ROM with this file stem, in order.
pub fn cover_art_names(stem: &str) -> (r: Vec<CoverName>)
    ensures
        cover_names_view(r@) == cover_names_spec(stem@),
{
    let s = chars_of(stem);
    let mut names: Vec<CoverName> = Vec::new();
    assert(cover_names_view(names@) =~= Seq::empty());
    push_cover_names(&mut names, &s, "png");
    push_cover_names(&mut names, &s, "jpg");
    push_cover_names(&mut names, &s, "jpeg");
    assert(cover_names_view(names@) =~= cover_names_spec(stem@));
    names
}

/// A name of the form `stem + middle + ext` with no separators in its parts
/// is a bare file name.
proof fn lemma_name_is_bare(stem: Seq<char>, middle: Seq<char>, ext: Seq<char>)
    requires
        has_no_separator(stem),
        has_no_separator(middle),
        has_no_separator(ext),
        middle.len() + ext.len() >= 3,
    ensures
        is_bare_name(stem + middle + ext),
{
    reveal_strlit(".");
    reveal_strlit("..");
    lemma_no_separator_concat(stem, middle);
    lemma_no_separator_concat(stem + middle, ext);
    assert((stem + middle + ext).len() >= 3);
    assert((stem + middle + ext) != "."@);
    assert((stem + middle + ext) != ".."@);
}

proof fn lemma_literal_has_no_separator(s: Seq<char>)
    requires
        forall|i: int| 0 <= i < s.len() ==> s[i] != '/' && s[i] != '\\' && s[i] != ':',
    ensures
        has_no_separator(s),
{
}

/// Every cover-art file name of a stem without separators is a bare file
/// name.
proof fn lemma_cover_names_are_bare(stem: Seq<char>)
    requires
        has_no_separator(stem),
    ensures
        forall|k: int| 0 <= k < 12 ==> is_bare_name(#[trigger] cover_names_spec(stem)[k].1),
{
    reveal_strlit(".");
    reveal_strlit("-cover.");
    reveal_strlit("_cover.");
    reveal_strlit("png");
    reveal_strlit("jpg");
    reveal_strlit("jpeg");
    lemma_literal_has_no_separator("."@);
    lemma_literal_has_no_separator("-cover."@);
    lemma_literal_has_no_separator("_cover."@);
    lemma_literal_has_no_separator("png"@);
    lemma_literal_has_no_separator("jpg"@);
    lemma_literal_has_no_separator("jpeg"@);
    lemma_name_is_bare(stem, "."@, "png"@);
    lemma_name_is_bare(stem, "-cover."@, "png"@);
    lemma_name_is_bare(stem, "_cover."@, "png"@);
    lemma_name_is_bare(stem, "."@, "jpg"@);
    lemma_name_is_bare(stem, "-cover."@, "jpg"@);
    lemma_name_is_bare(stem, "_cover."@, "jpg"@);
    lemma_name_is_bare(stem, "."@, "jpeg"@);
    lemma_name_is_bare(stem, "-cover."@, "jpeg"@);
    lemma_name_is_bare(stem, "_cover."@, "jpeg"@);
    let n = cover_names_spec(stem);
    assert(n[0].1 == stem + "."@ + "png"@);
    assert(n[1].1 == stem + "-cover."@ + "png"@);
    assert(n[2].1 == stem + "_cover."@ + "png"@);
    assert(n[3].1 == stem + "."@ + "png"@);
    assert(n[4].1 == stem + "."@ + "jpg"@);
    assert(n[5].1 == stem + "-cover."@ + "jpg"@);
    assert(n[6].1 == stem + "_cover."@ + "jpg"@);
    assert(n[7].1 == stem + "."@ + "jpg"@);
    assert(n[8].1 == stem + "."@ + "jpeg"@);
    assert(n[9].1 == stem + "-cover."@ + "jpeg"@);
    assert(n[10].1 == stem + "_cover."@ + "jpeg"@);
    assert(n[11].1 == stem + "."@ + "jpeg"@);
}

/// `c` is where the cover-art name `entry` is looked for: the name adjoined
/// to the ROM's folder `dir`, or to its `covers` subfolder `covers`.
pub open spec fn is_candidate_in(
    dir: Seq<char>,
    covers: Seq<char>,
    entry: (bool, Seq<char>),
    c: Seq<char>,
) -> bool {
    if entry.0 {
        is_join_of(covers, entry.1, c)
    } else {
        is_join_of(dir, entry.1, c)
    }
}

/// The `covers` subfolder of a folder without backslashes has no verbatim
/// prefix.
proof fn lemma_covers_not_verbatim(dir: Seq<char>, covers: Seq<char>)
    requires
        !has_char(dir, '\\'),
        is_join_of(dir, "covers"@, covers),
    ensures
        !is_verbatim(covers),
{
    reveal_strlit("covers");
    if is_verbatim(covers) {
        assert(covers[0] == '\\' && covers[1] == '\\');
        if dir.len() > 0 {
            assert(covers[0] == dir[0]);
            assert(has_char(dir, '\\'));
        } else if covers == dir + "covers"@ {
            assert(covers[0] == 'c');
        } else if covers == dir + seq!['/'] + "covers"@ {
            assert(covers[0] == '/');
        } else {
            assert(covers[1] == 'c');
        }
    }
}

/// The paths tried for a ROM's cover art, in order: the names of
/// `cover_art_names` in the ROM's folder (or its `covers` subfolder). Empty
/// when the path has no folder or no file stem. For a ROM given by a simple
/// path every one of the twelve names is tried, in the ROM's own folder (the
/// path before its file name) or in that folder's `covers` subfolder.
pub fn cover_art_candidates(rom_path: &str) -> (r: Vec<String>)
    ensures
        r.len() == 0 || r.len() == 12,
        is_simple_path(rom_path@) ==> r.len() == 12 && exists|d: Seq<char>, m: Seq<char>|
            #![trigger is_folder_of(d, rom_path@, last_slash(rom_path@) + 1), is_join_of(d, "covers"@, m)]
            is_folder_of(d, rom_path@, last_slash(rom_path@) + 1) && is_join_of(d, "covers"@, m)
                && forall|i: int|
                0 <= i < 12 ==> is_candidate_in(
                    d,
                    m,
                    cover_names_spec(stem_of_name(file_name_of(rom_path@)))[i],
                    #[trigger] r@[i]@,
                ),
{
    let parent = path_parent(rom_path);
    let stem = path_file_stem(rom_path);
    match (parent, stem) {
        (Some(dir), Some(stem)) => {
            let ghost simple = is_simple_path(rom_path@);
            let names = cover_art_names(stem.as_str());
            assert(cover_names_view(names@).len() == names@.len());
            assert(cover_names_spec(stem@).len() == 12);
            proof {
                reveal_strlit("covers");
                lemma_literal_has_no_separator("covers"@);
                assert("covers"@.len() == 6);
                reveal_strlit(".");
                reveal_strlit("..");
                assert("covers"@.len() != "."@.len() && "covers"@.len() != ".."@.len());
                if simple {
                    lemma_stem_of_simple_path(rom_path@);
                    lemma_cover_names_are_bare(stem@);
                    lemma_prefix_no_backslash(dir@, rom_path@);
                    lemma_no_backslash_not_verbatim(dir@);
                }
            }
            let covers = path_join(dir.as_str(), "covers");
            proof {
                if simple {
                    lemma_covers_not_verbatim(dir@, covers@);
                }
            }
            let mut out: Vec<String> = Vec::new();
            let mut i: usize = 0;
            while i < names.len()
                invariant
                    i <= names.len(),
                    names.len() == 12,
                    out.len() == i,
                    cover_names_view(names@) == cover_names_spec(stem@),
                    simple == is_simple_path(rom_path@),
                    simple ==> stem@ == stem_of_name(file_name_of(rom_path@)),
                    simple ==> is_folder_of(dir@, rom_path@, last_slash(rom_path@) + 1),
                    simple ==> !is_verbatim(dir@) && !is_verbatim(covers@),
                    simple ==> is_join_of(dir@, "covers"@, covers@),
                    simple ==> forall|k: int|
                        0 <= k < 12 ==> is_bare_name(#[trigger] cover_names_spec(stem@)[k].1),
                    simple ==> forall|k: int|
                        0 <= k < i ==> is_candidate_in(
                            dir@,
                            covers@,
                            cover_names_spec(stem@)[k],
                            #[trigger] out@[k]@,
                        ),
                decreases names.len() - i,
            {
                assert(cover_names_view(names@)[i as int] == (
                    names@[i as int].in_covers_folder,
                    names@[i as int].file_name@,
                ));
                let ghost entry = cover_names_spec(stem@)[i as int];
                let p = if names[i].in_covers_folder {
                    path_join(covers.as_str(), names[i].file_name.as_str())
                } else {
                    path_join(dir.as_str(), names[i].file_name.as_str())
                };
                proof {
                    if simple {
                        assert(is_bare_name(entry.1));
                        assert(is_candidate_in(dir@, covers@, entry, p@));
                    }
                }
                out.push(p);
                i = i + 1;
            }
            proof {
                if simple {
                    assert(is_folder_of(dir@, rom_path@, last_slash(rom_path@) + 1));
                    assert(is_join_of(dir@, "covers"@, covers@));
                }
            }
            out
        },
        _ => Vec::new(),
    }
}

pub open spec fn is_set() -> spec_fn(bool) -> bool {
    |b: bool| b
}

/// The first candidate that is an existing file, given for each candidate
/// whether it is one.
pub open spec fn first_existing(candidates: Seq<Seq<char>>, exists: Seq<bool>) -> Option<Seq<char>> {
    let i = first_where(exists, is_set());
    if i < exists.len() && i < candidates.len() {
        Some(candidates[i])
    } else {
        None
    }
}

pub open spec fn texts_view(v: Seq<String>) -> Seq<Seq<char>> {
    v.map_values(|s: String| s@)
}

/// A ROM's cover art: the first of the candidate paths that is a file.
pub fn cover_art_path_for_rom(candidates: &Vec<String>, is_file: &Vec<bool>) -> (r: Option<String>)
    ensures
        match r {
            Some(p) => first_existing(texts_view(candidates@), is_file@) == Some(p@),
            None => first_existing(texts_view(candidates@), is_file@) is None,
        },
{
    let mut i: usize = 0;
    while i < is_file.len()
        invariant
            i <= is_file.len(),
            forall|k: int| 0 <= k < i ==> !is_file@[k],
        decreases is_file.len() - i,
    {
        if is_file[i] {
            proof {
                lemma_first_where_unique(is_file@, is_set(), i as int);
            }
            if i < candidates.len() {
                return Some(candidates[i].clone());
            } else {
                return None;
            }
        }
        i = i + 1;
    }
    proof {
        lemma_first_where_unique(is_file@, is_set(), i as int);
    }
    None
}

// ---------------------------------------------------------------------------
// Magpie's scaling modes
// ---------------------------------------------------------------------------

/// `p` names the file `name` in the folder of the path `e`: the folder ends
/// before `e`'s last `/`, or, for a path in Windows form, before its file name.
pub open spec fn is_beside(e: Seq<char>, name: Seq<char>, p: Seq<char>) -> bool {
    exists|d: Seq<char>|
        #[trigger] is_join_of(d, name, p) && (is_folder_of(d, e, last_slash(e) + 1) || is_folder_of(
            d,
            e,
            windows_name_start(e),
        ))
}

/// Magpie keeps its scaling modes in `ScalingModes.json` beside its program:
/// the file name adjoined to the program's folder (its path before the file
/// name). None without a Magpie program; a program path that ends in a file
/// name always has a folder, and so a settings path.
pub fn magpie_scaling_modes_path(magpie_executable: Option<&str>) -> (r: Option<String>)
    ensures
        magpie_executable is None ==> r is None,
        r matches Some(p) ==> "ScalingModes.json"@.is_suffix_of(p@),
        match (magpie_executable, r) {
            (Some(e), Some(p)) => !is_verbatim(e@) ==> exists|d: Seq<char>|
                #[trigger] is_proper_prefix(d, e@) && is_join_of(d, "ScalingModes.json"@, p@),
            _ => true,
        },
        match (magpie_executable, r) {
            (Some(e), Some(p)) => is_simple_path(e@) ==> exists|d: Seq<char>|
                #[trigger] is_folder_of(d, e@, last_slash(e@) + 1) && is_join_of(
                    d,
                    "ScalingModes.json"@,
                    p@,
                ),
            _ => true,
        },
        match (magpie_executable, r) {
            (Some(e), Some(p)) => ends_in_file_name(e@) ==> is_beside(e@, "ScalingModes.json"@, p@),
            _ => true,
        },
        magpie_executable matches Some(e) && (is_simple_path(e@) || ends_in_file_name(e@))
            ==> r is Some,
{
    proof {
        reveal_strlit("ScalingModes.json");
        reveal_strlit(".");
        reveal_strlit("..");
        assert("ScalingModes.json"@.len() != "."@.len());
        assert("ScalingModes.json"@.len() != ".."@.len());
        lemma_literal_has_no_separator("ScalingModes.json"@);
    }
    match magpie_executable {
        Some(exe) => match path_parent(exe) {
            Some(dir) => {
                proof {
                    if ends_in_file_name(exe@) && is_verbatim(exe@) {
                        assert(exe@.len() >= 4);
                        assert(exe@[0] == '\\' && exe@[1] == '\\');
                        assert(is_any_separator(exe@[0]) && is_any_separator(exe@[1]));
                    }
                    if is_simple_path(exe@) && is_verbatim(exe@) {
                        assert(exe@[0] == '\\');
                        assert(has_char(exe@, '\\'));
                    }
                    if !is_verbatim(exe@) && is_verbatim(dir@) {
                        assert(dir@.is_prefix_of(exe@));
                        assert(exe@[0] == dir@[0] && exe@[1] == dir@[1] && exe@[2] == dir@[2]
                            && exe@[3] == dir@[3]);
                    }
                }
                let p = path_join(dir.as_str(), "ScalingModes.json");
                proof {
                    if !is_verbatim(exe@) {
                        assert(is_proper_prefix(dir@, exe@));
                        if is_simple_path(exe@) {
                            assert(is_folder_of(dir@, exe@, last_slash(exe@) + 1));
                        }
                    }
                    if ends_in_file_name(exe@) {
                        assert(!is_verbatim(exe@));
                        assert(!is_verbatim(dir@));
                        assert(is_join_of(dir@, "ScalingModes.json"@, p@));
                        assert(is_folder_of(dir@, exe@, last_slash(exe@) + 1) || is_folder_of(
                            dir@,
                            exe@,
                            windows_name_start(exe@),
                        ));
                        assert(is_beside(exe@, "ScalingModes.json"@, p@));
                    }
                }
                Some(p)
            },
            None => None,
        },
        None => None,
    }
}

// ---------------------------------------------------------------------------
// Time stamps
// ---------------------------------------------------------------------------

/// `SystemTime::now().duration_since(UNIX_EPOCH)`, in whole seconds; `None`
/// when the clock is set before 1970.
///
/// Trusted, with nothing stated: the result is the time of the call.
#[verifier::external_body]
fn seconds_since_epoch() -> (r: Option<u64>) {
    match std::time::SystemTime::now().duration_since(std::time::UNIX_EPOCH) {
        Ok(d) => Some(d.as_secs()),
        Err(_) => None,
    }
}

/// A time stamp in seconds since 1970 as stored (the cast wraps past
/// `i64::MAX`); zero when the clock was set before 1970.
pub open spec fn timestamp_spec(seconds: Option<u64>) -> i64 {
    match seconds {
        Some(s) => s as i64,
        None => 0,
    }
}

pub fn timestamp_from_seconds(seconds: Option<u64>) -> (r: i64)
    ensures
        r == timestamp_spec(seconds),
{
    match seconds {
        Some(s) => s as i64,
        None => 0,
    }
}

/// The current time stamp: the clock's reading, stored as
/// `timestamp_from_seconds` describes.
pub fn now_timestamp() -> i64 {
    timestamp_from_seconds(seconds_since_epoch())
}

} // verus!
