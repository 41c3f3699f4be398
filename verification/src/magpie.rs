//! The Magpie companion: its scaling hotkey, the scaling profiles that
//! Emulator Hub writes into Magpie's `ScalingModes.json`, and what to do when
//! automatic scaling is pending.
use vstd::prelude::*;
use crate::json::{JsonNumber, JsonValue, JsonView, entries_view, entry_index, get, get_spec, items_view, json_view, lemma_entries_view, lemma_entries_view_ext, lemma_entry_index, lemma_items_view, lemma_items_view_ext};
use crate::text::{ascii_upper, chars_of, concat, eq_str, first_where, is_ascii_alpha, lemma_first_where, lemma_first_where_unique, string_of, to_upper_char, trim, trimmed};

verus! {

// ---------------------------------------------------------------------------
// Hotkey
// ---------------------------------------------------------------------------

/// The scaling hotkey letter: the trimmed, upper-cased text when it is one
/// ASCII letter, otherwise `A`.
pub open spec fn hotkey_key_spec(value: Seq<char>) -> Seq<char> {
    let key = ascii_upper(trim(value));
    if key.len() == 1 && is_ascii_alpha(key[0]) {
        key
    } else {
        "A"@
    }
}

pub fn normalize_magpie_hotkey_key(value: &str) -> (r: String)
    ensures
        r@ == hotkey_key_spec(value@),
{
    let v = chars_of(value);
    let t = trimmed(&v);
    let mut key: Vec<char> = Vec::new();
    let mut i: usize = 0;
    while i < t.len()
        invariant
            i <= t.len(),
            key@ == ascii_upper(t@.subrange(0, i as int)),
        decreases t.len() - i,
    {
        key.push(to_upper_char(t[i]));
        proof {
            assert(t@.subrange(0, i + 1) == t@.subrange(0, i as int).push(t@[i as int]));
        }
        i = i + 1;
    }
    proof {
        assert(t@.subrange(0, t@.len() as int) == t@);
    }
    if key.len() == 1 && (('A' <= key[0] && key[0] <= 'Z') || ('a' <= key[0] && key[0] <= 'z')) {
        string_of(&key)
    } else {
        string_of(&chars_of("A"))
    }
}

/// The virtual-key code sent for the hotkey: the code of its letter.
pub fn magpie_hotkey_virtual_key(value: &str) -> (r: u8)
    ensures
        r as int == hotkey_key_spec(value@)[0] as int,
{
    let key = normalize_magpie_hotkey_key(value);
    proof {
        lemma_hotkey_is_one_upper_letter(value@);
    }
    let c = key.as_str().get_char(0);
    c as u8
}

/// The hotkey is always exactly one upper-case ASCII letter.
pub proof fn lemma_hotkey_is_one_upper_letter(value: Seq<char>)
    ensures
        hotkey_key_spec(value).len() == 1,
        'A' <= hotkey_key_spec(value)[0] <= 'Z',
{
    reveal_strlit("A");
}

/// Normalizing a normalized hotkey changes nothing.
pub proof fn hotkey_normalization_is_idempotent(value: Seq<char>)
    ensures
        hotkey_key_spec(hotkey_key_spec(value)) == hotkey_key_spec(value),
{
    reveal_strlit("A");
    let k = hotkey_key_spec(value);
    assert(k.len() == 1 && 'A' <= k[0] <= 'Z');
    lemma_trim_single_letter(k);
    assert(ascii_upper(k) =~= k);
}

proof fn lemma_trim_single_letter(k: Seq<char>)
    requires
        k.len() == 1,
        'A' <= k[0] <= 'Z',
    ensures
        trim(k) == k,
{
    assert(k.last() == k[0]);
}

// ---------------------------------------------------------------------------
// Scaling profiles
// ---------------------------------------------------------------------------

pub open spec fn number_view(n: JsonNumber) -> JsonView {
    JsonView::Number(n.integer, n.text@)
}

/// One effect of a scaling mode: its name and, for effects that scale, a
/// uniform scale factor.
pub open spec fn effect_view(name: Seq<char>, scale: Option<JsonView>) -> Seq<(Seq<char>, JsonView)> {
    match scale {
        None => seq![("name"@, JsonView::Str(name))],
        Some(s) => seq![
            ("name"@, JsonView::Str(name)),
            ("scale"@, JsonView::Object(seq![("x"@, s), ("y"@, s)])),
            ("scalingType"@, JsonView::Number(Some(1), "1"@)),
        ],
    }
}

/// An effect with a sharpening amount as well.
pub open spec fn sharpened(effect: Seq<(Seq<char>, JsonView)>, sharpness: JsonView) -> JsonView {
    JsonView::Object(effect.push(("sharpness"@, sharpness)))
}

/// The effects of each preset; FSR is the default.
pub open spec fn profile_effects(preset: Seq<char>, scale: JsonView, sharpness: JsonView) -> Seq<
    JsonView,
> {
    if preset == "Anime4K"@ {
        seq![JsonView::Object(effect_view("Anime4K\\Anime4K_Upscale_L"@, None))]
    } else if preset == "CAS"@ {
        seq![sharpened(effect_view("CAS\\CAS_Scaling"@, Some(scale)), sharpness)]
    } else if preset == "xBRZ"@ {
        seq![JsonView::Object(effect_view("xBRZ\\xBRZ_2x"@, None))]
    } else if preset == "Lanczos"@ {
        seq![JsonView::Object(effect_view("Lanczos"@, Some(scale)))]
    } else if preset == "Nearest"@ {
        seq![JsonView::Object(effect_view("Nearest"@, Some(scale)))]
    } else {
        seq![
            JsonView::Object(effect_view("FSR\\FSR_EASU"@, Some(scale))),
            sharpened(effect_view("FSR\\FSR_RCAS"@, None), sharpness),
        ]
    }
}

/// The name under which the profile of a preset appears in Magpie.
pub open spec fn profile_name_for(preset: Seq<char>) -> Seq<char> {
    "Emulator Hub - "@ + preset
}

/// The scaling mode that Emulator Hub writes for a preset.
pub open spec fn magpie_profile_spec(preset: Seq<char>, scale: JsonView, sharpness: JsonView) -> JsonView {
    JsonView::Object(
        seq![
            ("effects"@, JsonView::Array(profile_effects(preset, scale, sharpness))),
            ("name"@, JsonView::Str(profile_name_for(preset))),
        ],
    )
}

fn text(s: &str) -> (r: String)
    ensures
        r@ == s@,
{
    string_of(&chars_of(s))
}

fn copy_number(n: &JsonNumber) -> (r: JsonNumber)
    ensures
        number_view(r) == number_view(*n),
{
    JsonNumber { integer: n.integer, text: n.text.clone() }
}

proof fn lemma_object_view(entries: Seq<(String, JsonValue)>, views: Seq<(Seq<char>, JsonView)>)
    requires
        views.len() == entries.len(),
        forall|i: int|
            0 <= i < entries.len() ==> #[trigger] views[i] == (
                entries[i].0@,
                json_view(entries[i].1),
            ),
    ensures
        entries_view(entries) == views,
{
    lemma_entries_view_ext(entries, views);
}

/// One effect object, with the scale factor when one is given.
fn magpie_effect(name: &str, scale: Option<&JsonNumber>) -> (r: Vec<(String, JsonValue)>)
    ensures
        entries_view(r@) == effect_view(
            name@,
            match scale {
                Some(s) => Some(number_view(*s)),
                None => None,
            },
        ),
{
    let mut entries: Vec<(String, JsonValue)> = Vec::new();
    entries.push((text("name"), JsonValue::Str(text(name))));
    match scale {
        Some(s) => {
            let mut xy: Vec<(String, JsonValue)> = Vec::new();
            xy.push((text("x"), JsonValue::Number(copy_number(s))));
            xy.push((text("y"), JsonValue::Number(copy_number(s))));
            proof {
                lemma_object_view(xy@, seq![("x"@, number_view(*s)), ("y"@, number_view(*s))]);
            }
            entries.push((text("scale"), JsonValue::Object(xy)));
            entries.push(
                (text("scalingType"), JsonValue::Number(JsonNumber { integer: Some(1), text: text("1") })),
            );
            proof {
                lemma_object_view(entries@, effect_view(name@, Some(number_view(*s))));
            }
        },
        None => {
            proof {
                lemma_object_view(entries@, effect_view(name@, None));
            }
        },
    }
    entries
}

fn with_sharpness(mut effect: Vec<(String, JsonValue)>, sharpness: &JsonNumber) -> (r: JsonValue)
    ensures
        json_view(r) == sharpened(entries_view(effect@), number_view(*sharpness)),
{
    let ghost before = effect@;
    effect.push((text("sharpness"), JsonValue::Number(copy_number(sharpness))));
    proof {
        lemma_entries_view(before);
        lemma_object_view(
            effect@,
            entries_view(before).push(("sharpness"@, number_view(*sharpness))),
        );
    }
    JsonValue::Object(effect)
}

/// The scaling mode for `preset`, with the given scale factor and sharpening
/// amount (numbers as the caller encoded them).
pub fn magpie_profile_json(preset: &str, scale: &JsonNumber, sharpness: &JsonNumber) -> (r: JsonValue)
    ensures
        json_view(r) == magpie_profile_spec(preset@, number_view(*scale), number_view(*sharpness)),
{
    let p = chars_of(preset);
    let ghost sc = number_view(*scale);
    let ghost sh = number_view(*sharpness);
    let mut effects: Vec<JsonValue> = Vec::new();
    if eq_str(&p, "Anime4K") {
        effects.push(JsonValue::Object(magpie_effect("Anime4K\\Anime4K_Upscale_L", None)));
    } else if eq_str(&p, "CAS") {
        effects.push(with_sharpness(magpie_effect("CAS\\CAS_Scaling", Some(scale)), sharpness));
    } else if eq_str(&p, "xBRZ") {
        effects.push(JsonValue::Object(magpie_effect("xBRZ\\xBRZ_2x", None)));
    } else if eq_str(&p, "Lanczos") {
        effects.push(JsonValue::Object(magpie_effect("Lanczos", Some(scale))));
    } else if eq_str(&p, "Nearest") {
        effects.push(JsonValue::Object(magpie_effect("Nearest", Some(scale))));
    } else {
        effects.push(JsonValue::Object(magpie_effect("FSR\\FSR_EASU", Some(scale))));
        effects.push(with_sharpness(magpie_effect("FSR\\FSR_RCAS", None), sharpness));
    }
    proof {
        lemma_items_view_ext(effects@, profile_effects(preset@, sc, sh));
    }
    let name = concat(&chars_of("Emulator Hub - "), &p);
    let mut entries: Vec<(String, JsonValue)> = Vec::new();
    entries.push((text("effects"), JsonValue::Array(effects)));
    entries.push((text("name"), JsonValue::Str(string_of(&name))));
    proof {
        lemma_object_view(entries@, seq![
            ("effects"@, JsonView::Array(profile_effects(preset@, sc, sh))),
            ("name"@, JsonView::Str(profile_name_for(preset@))),
        ]);
    }
    JsonValue::Object(entries)
}

// ---------------------------------------------------------------------------
// Writing a profile into ScalingModes.json
// ---------------------------------------------------------------------------

/// Why a profile could not be written into Magpie's settings.
#[derive(Debug, Clone, Copy, PartialEq, Eq, Structural)]
pub enum ProfileError {
    RootNotObject,
    ModesNotArray,
}

impl ProfileError {
    pub fn message(&self) -> (r: String)
        ensures
            r@ == match self {
                ProfileError::RootNotObject => "Magpie's ScalingModes.json must contain an object."@,
                ProfileError::ModesNotArray => "Magpie's scalingModes value must be an array."@,
            },
    {
        match self {
            ProfileError::RootNotObject => text("Magpie's ScalingModes.json must contain an object."),
            ProfileError::ModesNotArray => text("Magpie's scalingModes value must be an array."),
        }
    }
}

/// Entries with this key.
pub open spec fn has_key(key: Seq<char>) -> spec_fn((Seq<char>, JsonView)) -> bool {
    |e: (Seq<char>, JsonView)| e.0 == key
}

/// Modes with this name.
pub open spec fn is_mode_named(name: Seq<char>) -> spec_fn(JsonView) -> bool {
    |m: JsonView| mode_name(m) == Some(name)
}

/// The member of an object view under `key` (its first entry with the key).
pub open spec fn view_get(v: JsonView, key: Seq<char>) -> Option<JsonView> {
    match v {
        JsonView::Object(es) => {
            let i = first_where(es, has_key(key));
            if i < es.len() {
                Some(es[i].1)
            } else {
                None
            }
        },
        _ => None,
    }
}

/// The `name` of a scaling mode, when it is a string.
pub open spec fn mode_name(m: JsonView) -> Option<Seq<char>> {
    match view_get(m, "name"@) {
        Some(JsonView::Str(s)) => Some(s),
        _ => None,
    }
}

/// The name under which a profile replaces an existing mode (empty when the
/// profile has no string name).
pub open spec fn profile_key(p: JsonView) -> Seq<char> {
    match mode_name(p) {
        Some(s) => s,
        None => seq![],
    }
}

/// The modes after writing a profile: it replaces the first mode with the
/// same name, or is appended.
pub open spec fn upsert_mode(modes: Seq<JsonView>, p: JsonView) -> Seq<JsonView> {
    let i = first_where(modes, is_mode_named(profile_key(p)));
    if i < modes.len() {
        modes.update(i, p)
    } else {
        modes.push(p)
    }
}

/// The settings document after writing a profile into its `scalingModes`.
pub open spec fn apply_profile_spec(root: JsonView, p: JsonView) -> Result<JsonView, ProfileError> {
    match root {
        JsonView::Object(es) => {
            let k = first_where(es, has_key("scalingModes"@));
            if k < es.len() {
                match es[k].1 {
                    JsonView::Array(modes) => Ok(
                        JsonView::Object(
                            es.update(k, ("scalingModes"@, JsonView::Array(upsert_mode(modes, p)))),
                        ),
                    ),
                    _ => Err(ProfileError::ModesNotArray),
                }
            } else {
                Ok(JsonView::Object(es.push(("scalingModes"@, JsonView::Array(seq![p])))))
            }
        },
        _ => Err(ProfileError::RootNotObject),
    }
}

/// Looking a key up in a document and in its view agree.
pub proof fn lemma_view_get(v: JsonValue, key: Seq<char>)
    ensures
        view_get(json_view(v), key) == match get_spec(v, key) {
            Some(x) => Some(json_view(x)),
            None => None,
        },
{
    match v {
        JsonValue::Object(entries) => {
            let es = entries_view(entries@);
            lemma_entries_view(entries@);
            lemma_entry_index(entries@, key);
            let i = entry_index(entries@, key);
            assert forall|k: int| 0 <= k < i implies !has_key(key)(#[trigger] es[k]) by {
                assert(es[k].0 == entries@[k].0@);
            }
            if i < es.len() {
                assert(es[i].0 == entries@[i].0@);
            }
            lemma_first_where_unique(es, has_key(key), i);
            assert(json_view(v) == JsonView::Object(es));
        },
        _ => {},
    }
}

/// Whether a mode's `name` is the given text.
fn mode_named(m: &JsonValue, name: &Vec<char>) -> (r: bool)
    ensures
        r == (mode_name(json_view(*m)) == Some(name@)),
{
    proof {
        lemma_view_get(*m, "name"@);
    }
    match get(m, "name") {
        Some(JsonValue::Str(s)) => {
            let sv = chars_of(s.as_str());
            sv.len() == name.len() && {
                let mut i: usize = 0;
                let mut same = true;
                while i < sv.len()
                    invariant
                        i <= sv.len() == name.len(),
                        same == (forall|k: int| 0 <= k < i ==> sv@[k] == name@[k]),
                    decreases sv.len() - i,
                {
                    same = same && sv[i] == name[i];
                    i = i + 1;
                }
                proof {
                    if same {
                        assert(sv@ =~= name@);
                    }
                }
                same
            }
        },
        _ => false,
    }
}

/// The name a profile is matched by.
fn profile_key_exec(p: &JsonValue) -> (r: Vec<char>)
    ensures
        r@ == profile_key(json_view(*p)),
{
    proof {
        lemma_view_get(*p, "name"@);
    }
    match get(p, "name") {
        Some(JsonValue::Str(s)) => chars_of(s.as_str()),
        _ => Vec::new(),
    }
}

/// Writes `profile` into the modes, replacing the mode of the same name.
fn upsert_mode_exec(modes: &mut Vec<JsonValue>, profile: JsonValue)
    ensures
        items_view(final(modes)@) == upsert_mode(items_view(old(modes)@), json_view(profile)),
{
    let ghost p = json_view(profile);
    let ghost views = items_view(modes@);
    let ghost pred = is_mode_named(profile_key(p));
    let name = profile_key_exec(&profile);
    proof {
        lemma_items_view(modes@);
    }
    let mut i: usize = 0;
    while i < modes.len()
        invariant
            i <= modes.len(),
            modes@ == old(modes)@,
            views == items_view(modes@),
            views.len() == modes@.len(),
            forall|k: int| 0 <= k < modes@.len() ==> #[trigger] views[k] == json_view(modes@[k]),
            name@ == profile_key(p),
            p == json_view(profile),
            pred == is_mode_named(profile_key(p)),
            forall|k: int| 0 <= k < i ==> !pred(#[trigger] views[k]),
        decreases modes.len() - i,
    {
        if mode_named(&modes[i], &name) {
            proof {
                assert(views[i as int] == json_view(modes@[i as int]));
                assert(pred(views[i as int]));
                lemma_first_where_unique(views, pred, i as int);
            }
            let ghost old_modes = modes@;
            modes.set(i, profile);
            proof {
                assert forall|k: int| 0 <= k < modes@.len() implies #[trigger] views.update(
                    i as int,
                    p,
                )[k] == json_view(modes@[k]) by {
                    if k != i {
                        assert(modes@[k] == old_modes[k]);
                        assert(views[k] == json_view(old_modes[k]));
                    } else {
                        assert(modes@[k] == profile);
                    }
                }
                lemma_items_view_ext(modes@, views.update(i as int, p));
            }
            return;
        }
        i = i + 1;
    }
    proof {
        lemma_first_where_unique(views, pred, i as int);
    }
    let ghost old_modes = modes@;
    modes.push(profile);
    proof {
        assert forall|k: int| 0 <= k < modes@.len() implies #[trigger] views.push(p)[k]
            == json_view(modes@[k]) by {
            if k < old_modes.len() {
                assert(modes@[k] == old_modes[k]);
            }
        }
        lemma_items_view_ext(modes@, views.push(p));
    }
}

/// Writes the profile into Magpie's settings document.
pub fn apply_profile_to_scaling_modes(root: JsonValue, profile: JsonValue) -> (r: Result<
    JsonValue,
    ProfileError,
>)
    ensures
        match apply_profile_spec(json_view(root), json_view(profile)) {
            Ok(v) => r matches Ok(x) && json_view(x) == v,
            Err(e) => r matches Err(x) && x == e,
        },
{
    let ghost p = json_view(profile);
    let mut entries = match root {
        JsonValue::Object(entries) => entries,
        _ => return Err(ProfileError::RootNotObject),
    };
    let ghost es = entries_view(entries@);
    let ghost pred = has_key("scalingModes"@);
    proof {
        lemma_entries_view(entries@);
    }
    let mut k: usize = 0;
    while k < entries.len()
        invariant
            k <= entries.len(),
            es == entries_view(entries@),
            es.len() == entries@.len(),
            forall|m: int|
                0 <= m < entries@.len() ==> #[trigger] es[m] == (
                    entries@[m].0@,
                    json_view(entries@[m].1),
                ),
            pred == has_key("scalingModes"@),
            forall|m: int| 0 <= m < k ==> !pred(#[trigger] es[m]),
        ensures
            k <= entries.len(),
            k < entries.len() ==> pred(es[k as int]),
            forall|m: int| 0 <= m < k ==> !pred(#[trigger] es[m]),
        decreases entries.len() - k,
    {
        let key = chars_of(entries[k].0.as_str());
        if eq_str(&key, "scalingModes") {
            proof {
                assert(es[k as int].0 == key@);
            }
            break;
        }
        k = k + 1;
    }
    proof {
        lemma_first_where_unique(es, pred, k as int);
    }
    if k == entries.len() {
        let mut modes: Vec<JsonValue> = Vec::new();
        modes.push(profile);
        proof {
            lemma_items_view_ext(modes@, seq![p]);
        }
        let ghost old_entries = entries@;
        entries.push((text("scalingModes"), JsonValue::Array(modes)));
        proof {
            assert forall|m: int| 0 <= m < entries@.len() implies #[trigger] es.push(
                ("scalingModes"@, JsonView::Array(seq![p])),
            )[m] == (entries@[m].0@, json_view(entries@[m].1)) by {
                if m < old_entries.len() {
                    assert(entries@[m] == old_entries[m]);
                }
            }
            lemma_entries_view_ext(entries@, es.push(("scalingModes"@, JsonView::Array(seq![p]))));
        }
        return Ok(JsonValue::Object(entries));
    }
    let ghost old_entries = entries@;
    let (key, value) = entries.remove(k);
    proof {
        assert(key@ == "scalingModes"@);
        assert(es[k as int].1 == json_view(value));
    }
    let mut modes = match value {
        JsonValue::Array(modes) => modes,
        _ => return Err(ProfileError::ModesNotArray),
    };
    let ghost before = items_view(modes@);
    upsert_mode_exec(&mut modes, profile);
    entries.insert(k, (key, JsonValue::Array(modes)));
    proof {
        let target = es.update(k as int, ("scalingModes"@, JsonView::Array(upsert_mode(before, p))));
        assert(entries@.len() == old_entries.len());
        assert forall|m: int| 0 <= m < entries@.len() implies #[trigger] target[m] == (
            entries@[m].0@,
            json_view(entries@[m].1),
        ) by {
            if m != k {
                assert(entries@[m] == old_entries[m]);
            }
        }
        lemma_entries_view_ext(
            entries@,
            es.update(k as int, ("scalingModes"@, JsonView::Array(upsert_mode(before, p)))),
        );
    }
    Ok(JsonValue::Object(entries))
}

proof fn lemma_upsert_mode_twice(modes: Seq<JsonView>, p: JsonView, n: Seq<char>)
    requires
        mode_name(p) == Some(n),
    ensures
        upsert_mode(upsert_mode(modes, p), p) == upsert_mode(modes, p),
        upsert_mode(modes, p).len() >= 1,
{
    let named = is_mode_named(n);
    assert(profile_key(p) == n);
    lemma_first_where(modes, named);
    let i = first_where(modes, named);
    let m2 = upsert_mode(modes, p);
    if i < modes.len() {
        assert forall|k: int| 0 <= k < i implies !named(#[trigger] m2[k]) by {
            assert(m2[k] == modes[k]);
        }
        assert(named(m2[i]));
        lemma_first_where_unique(m2, named, i);
        assert(m2.update(i, p) =~= m2);
    } else {
        let j = modes.len() as int;
        assert forall|k: int| 0 <= k < j implies !named(#[trigger] m2[k]) by {
            assert(m2[k] == modes[k]);
        }
        assert(named(m2[j]));
        lemma_first_where_unique(m2, named, j);
        assert(m2.update(j, p) =~= m2);
    }
}

/// Writing the same profile twice leaves the settings as writing it once:
/// the profile replaces its own earlier copy instead of adding another.
pub proof fn applying_a_profile_twice_changes_nothing(root: JsonView, p: JsonView, n: Seq<char>)
    requires
        mode_name(p) == Some(n),
        apply_profile_spec(root, p) is Ok,
    ensures
        apply_profile_spec(apply_profile_spec(root, p).unwrap(), p) == apply_profile_spec(root, p),
{
    let key = has_key("scalingModes"@);
    match root {
        JsonView::Object(es) => {
            lemma_first_where(es, key);
            let k = first_where(es, key);
            if k < es.len() {
                match es[k].1 {
                    JsonView::Array(modes) => {
                        let m2 = upsert_mode(modes, p);
                        let es2 = es.update(k, ("scalingModes"@, JsonView::Array(m2)));
                        assert forall|j: int| 0 <= j < k implies !key(#[trigger] es2[j]) by {
                            assert(es2[j] == es[j]);
                        }
                        assert(key(es2[k]));
                        lemma_first_where_unique(es2, key, k);
                        lemma_upsert_mode_twice(modes, p, n);
                        assert(es2.update(k, ("scalingModes"@, JsonView::Array(upsert_mode(m2, p))))
                            =~= es2);
                    },
                    _ => {},
                }
            } else {
                let es2 = es.push(("scalingModes"@, JsonView::Array(seq![p])));
                let j = es.len() as int;
                assert forall|m: int| 0 <= m < j implies !key(#[trigger] es2[m]) by {
                    assert(es2[m] == es[m]);
                }
                assert(key(es2[j]));
                lemma_first_where_unique(es2, key, j);
                lemma_upsert_mode_twice(seq![], p, n);
                assert(seq![p] =~= Seq::<JsonView>::empty().push(p));
                assert(es2.update(j, ("scalingModes"@, JsonView::Array(upsert_mode(seq![p], p))))
                    =~= es2);
            }
        },
        _ => {},
    }
}

/// After a profile is written, the settings hold it under its name, and the
/// other modes are kept.
pub proof fn applied_profile_is_present(modes: Seq<JsonView>, p: JsonView, n: Seq<char>)
    requires
        mode_name(p) == Some(n),
    ensures
        upsert_mode(modes, p).contains(p),
        forall|i: int|
            0 <= i < modes.len() && mode_name(modes[i]) != Some(n) ==> upsert_mode(modes, p).contains(
                #[trigger] modes[i],
            ),
{
    let named = is_mode_named(n);
    assert(profile_key(p) == n);
    lemma_first_where(modes, named);
    let j = first_where(modes, named);
    let m2 = upsert_mode(modes, p);
    if j < modes.len() {
        assert(m2[j] == p);
    } else {
        assert(m2[modes.len() as int] == p);
    }
    assert forall|i: int| 0 <= i < modes.len() && mode_name(modes[i]) != Some(n) implies m2.contains(
        #[trigger] modes[i],
    ) by {
        assert(i != j);
        assert(m2[i] == modes[i]);
    }
}

/// The profile that Emulator Hub writes carries its name as a string, so the
/// laws above apply to it.
pub proof fn generated_profile_is_named(preset: Seq<char>, scale: JsonView, sharpness: JsonView)
    ensures
        mode_name(magpie_profile_spec(preset, scale, sharpness)) == Some(profile_name_for(preset)),
{
    let es = seq![
        ("effects"@, JsonView::Array(profile_effects(preset, scale, sharpness))),
        ("name"@, JsonView::Str(profile_name_for(preset))),
    ];
    reveal_strlit("effects");
    reveal_strlit("name");
    assert("effects"@.len() != "name"@.len());
    assert(!has_key("name"@)(es[0]));
    assert(has_key("name"@)(es[1]));
    lemma_first_where_unique(es, has_key("name"@), 1);
}

// ---------------------------------------------------------------------------
// Automatic scaling after a launch
// ---------------------------------------------------------------------------

/// How long after a launch the hotkey is still tried, in milliseconds.
pub const AUTO_SCALE_WINDOW_MS: u64 = 15000;

/// What a launch asks of Magpie: whether to start it, and whether to
/// schedule the scaling hotkey for the new process.
pub fn magpie_launch_actions(enabled: bool, auto_start: bool, auto_scale: bool) -> (r: (bool, bool))
    ensures
        r.0 == (enabled && (auto_start || auto_scale)),
        r.1 == (enabled && auto_scale),
{
    (enabled && (auto_start || auto_scale), enabled && auto_scale)
}

/// A scaling hotkey waiting to be sent to a launched process. Times are in
/// milliseconds on the caller's monotonic clock.
#[derive(Clone, Copy, PartialEq, Eq, Structural, Debug)]
pub struct PendingAutoScale {
    pub process_id: u32,
    pub not_before_ms: u64,
    pub expires_at_ms: u64,
}

/// The hotkey is sent no sooner than the configured delay after the launch,
/// and given up fifteen seconds after it.
pub fn schedule_auto_scale(process_id: u32, now_ms: u64, delay_ms: u64) -> (r: PendingAutoScale)
    requires
        now_ms + delay_ms <= u64::MAX,
        now_ms + AUTO_SCALE_WINDOW_MS <= u64::MAX,
    ensures
        r.process_id == process_id,
        r.not_before_ms == now_ms + delay_ms,
        r.expires_at_ms == now_ms + AUTO_SCALE_WINDOW_MS,
{
    PendingAutoScale {
        process_id,
        not_before_ms: now_ms + delay_ms,
        expires_at_ms: now_ms + AUTO_SCALE_WINDOW_MS,
    }
}

/// Whether to try the hotkey now.
pub fn auto_scale_due(pending: &PendingAutoScale, now_ms: u64) -> (r: bool)
    ensures
        r == (now_ms >= pending.not_before_ms),
{
    now_ms >= pending.not_before_ms
}

/// What became of a pending scaling after the hotkey was tried.
pub enum AutoScaleOutcome {
    /// The hotkey reached the window; the status says which key was used.
    Applied(String),
    /// The window was not found in time; the status says so.
    GaveUp(String),
    /// Try again later.
    KeepWaiting,
}

pub open spec fn applied_status(hotkey: Seq<char>) -> Seq<char> {
    "Automatically applied Magpie scaling with Alt+Shift+"@ + hotkey + "."@
}

pub open spec fn gave_up_status() -> Seq<char> {
    "ROM started, but its window was not found for automatic Magpie scaling."@
}

/// The outcome of trying the hotkey at `now_ms`: applied when it was sent,
/// abandoned once the fifteen seconds are over, else pending still.
pub fn after_hotkey_attempt(pending: &PendingAutoScale, now_ms: u64, sent: bool, hotkey: &str) -> (r:
    AutoScaleOutcome)
    ensures
        sent ==> (r matches AutoScaleOutcome::Applied(s) && s@ == applied_status(hotkey@)),
        !sent && now_ms >= pending.expires_at_ms ==> (r matches AutoScaleOutcome::GaveUp(s) && s@
            == gave_up_status()),
        !sent && now_ms < pending.expires_at_ms ==> r is KeepWaiting,
{
    if sent {
        let a = concat(
            &chars_of("Automatically applied Magpie scaling with Alt+Shift+"),
            &chars_of(hotkey),
        );
        AutoScaleOutcome::Applied(string_of(&concat(&a, &chars_of("."))))
    } else if now_ms >= pending.expires_at_ms {
        AutoScaleOutcome::GaveUp(
            string_of(
                &chars_of("ROM started, but its window was not found for automatic Magpie scaling."),
            ),
        )
    } else {
        AutoScaleOutcome::KeepWaiting
    }
}

// ---------------------------------------------------------------------------
// Sending the hotkey
// ---------------------------------------------------------------------------

/// The virtual-key code of the Alt key.
pub const VK_ALT: u8 = 0x12;

/// The virtual-key code of the Shift key.
pub const VK_SHIFT: u8 = 0x10;

/// A window receives the hotkey when it belongs to the launched process, is
/// visible and has no owner (it is a top-level application window).
pub fn is_scaling_target(window_process_id: u32, launched_process_id: u32, visible: bool, has_owner: bool) -> (r: bool)
    ensures
        r == (window_process_id == launched_process_id && visible && !has_owner),
{
    window_process_id == launched_process_id && visible && !has_owner
}

/// The key events of Alt+Shift+key, as (virtual key, released) pairs.
pub open spec fn chord_spec(key: u8) -> Seq<(u8, bool)> {
    seq![(VK_ALT, false), (VK_SHIFT, false), (key, false), (key, true), (VK_SHIFT, true), (VK_ALT, true)]
}

/// The key events that press Alt+Shift+hotkey: the keys go down in order and
/// come up in the reverse order.
pub fn hotkey_chord(hotkey: &str) -> (r: Vec<(u8, bool)>)
    ensures
        r@ == chord_spec(hotkey_key_spec(hotkey@)[0] as u8),
{
    let key = magpie_hotkey_virtual_key(hotkey);
    let r = vec![(VK_ALT, false), (VK_SHIFT, false), (key, false), (key, true), (VK_SHIFT, true), (VK_ALT, true)];
    assert(r@ =~= chord_spec(key));
    r
}

/// Every key the chord presses is released afterwards, in the reverse order
/// of pressing, so no modifier is left held down.
pub proof fn chord_releases_what_it_presses(key: u8)
    ensures
        ({
            let c = chord_spec(key);
            &&& c.len() == 6
            &&& forall|i: int|
                0 <= i < 3 ==> !(#[trigger] c[i]).1 && c[5 - i].1 && c[5 - i].0 == c[i].0
        }),
{
}

/// The status once a preset's profile was written to Magpie's settings.
pub open spec fn profile_applied_status_spec(preset: Seq<char>) -> Seq<char> {
    "Applied the "@ + preset + " Magpie profile. Select '"@ + profile_name_for(preset)
        + "' in Magpie."@
}

pub fn profile_applied_status(preset: &str) -> (r: String)
    ensures
        r@ == profile_applied_status_spec(preset@),
{
    let p = chars_of(preset);
    let a = concat(&concat(&chars_of("Applied the "), &p), &chars_of(" Magpie profile. Select '"));
    let b = concat(&concat(&a, &chars_of("Emulator Hub - ")), &p);
    let r = string_of(&concat(&b, &chars_of("' in Magpie.")));
    proof {
        assert(r@ =~= profile_applied_status_spec(preset@));
    }
    r
}

/// The status when Magpie's settings could not be written.
pub fn profile_failed_status(error: &str) -> (r: String)
    ensures
        r@ == "Could not apply Magpie profile: "@ + error@,
{
    string_of(&concat(&chars_of("Could not apply Magpie profile: "), &chars_of(error)))
}

} // verus!
