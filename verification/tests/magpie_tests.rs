use emulator_hub::state::{is_magpie_preset_name, magpie_preset_names};
use emulator_hub::state::preset_label;
use emulator_hub::json::{get, JsonNumber, JsonValue};
use emulator_hub::magpie::{
    after_hotkey_attempt, apply_profile_to_scaling_modes, auto_scale_due, hotkey_chord,
    is_scaling_target, magpie_hotkey_virtual_key, magpie_launch_actions, magpie_profile_json,
    normalize_magpie_hotkey_key, profile_applied_status, profile_failed_status, schedule_auto_scale, AutoScaleOutcome, ProfileError,
    AUTO_SCALE_WINDOW_MS, VK_ALT, VK_SHIFT,
};

fn num(text: &str) -> JsonNumber {
    JsonNumber { integer: text.parse().ok(), text: text.to_string() }
}

fn str_of(v: Option<&JsonValue>) -> Option<String> {
    match v {
        Some(JsonValue::Str(s)) => Some(s.clone()),
        _ => None,
    }
}

fn items(v: Option<&JsonValue>) -> Vec<&JsonValue> {
    match v {
        Some(JsonValue::Array(a)) => a.iter().collect(),
        _ => Vec::new(),
    }
}

fn number_text(v: Option<&JsonValue>) -> Option<String> {
    match v {
        Some(JsonValue::Number(n)) => Some(n.text.clone()),
        _ => None,
    }
}

#[test]
fn hotkeys_are_single_upper_case_letters() {
    assert_eq!(normalize_magpie_hotkey_key(" b "), "B");
    assert_eq!(normalize_magpie_hotkey_key("Q"), "Q");
    assert_eq!(normalize_magpie_hotkey_key("ab"), "A");
    assert_eq!(normalize_magpie_hotkey_key(""), "A");
    assert_eq!(normalize_magpie_hotkey_key("1"), "A");
    assert_eq!(normalize_magpie_hotkey_key("é"), "A");
    assert_eq!(normalize_magpie_hotkey_key(&normalize_magpie_hotkey_key(" z")), "Z");
    assert_eq!(magpie_hotkey_virtual_key("b"), b'B');
    assert_eq!(magpie_hotkey_virtual_key("??"), b'A');
}

#[test]
fn the_chord_presses_alt_shift_key_and_releases_in_reverse() {
    assert_eq!(
        hotkey_chord("s"),
        vec![
            (VK_ALT, false),
            (VK_SHIFT, false),
            (b'S', false),
            (b'S', true),
            (VK_SHIFT, true),
            (VK_ALT, true),
        ]
    );
    assert_eq!((VK_ALT, VK_SHIFT), (0x12, 0x10));
}

#[test]
fn only_visible_top_level_windows_of_the_process_are_targets() {
    assert!(is_scaling_target(7, 7, true, false));
    assert!(!is_scaling_target(7, 8, true, false));
    assert!(!is_scaling_target(7, 7, false, false));
    assert!(!is_scaling_target(7, 7, true, true));
}

#[test]
fn fsr_profile_scales_then_sharpens() {
    let p = magpie_profile_json("FSR", &num("2.0"), &num("0.87"));
    assert_eq!(str_of(get(&p, "name")).as_deref(), Some("Emulator Hub - FSR"));
    let effects = items(get(&p, "effects"));
    assert_eq!(effects.len(), 2);
    assert_eq!(str_of(get(effects[0], "name")).as_deref(), Some("FSR\\FSR_EASU"));
    assert_eq!(number_text(get(effects[0], "scalingType")).as_deref(), Some("1"));
    let scale = get(effects[0], "scale").unwrap();
    assert_eq!(number_text(get(scale, "x")).as_deref(), Some("2.0"));
    assert_eq!(number_text(get(scale, "y")).as_deref(), Some("2.0"));
    assert_eq!(str_of(get(effects[1], "name")).as_deref(), Some("FSR\\FSR_RCAS"));
    assert_eq!(number_text(get(effects[1], "sharpness")).as_deref(), Some("0.87"));
    assert!(get(effects[1], "scale").is_none());
}

#[test]
fn unknown_presets_get_the_fsr_effects() {
    let p = magpie_profile_json("Bogus", &num("3"), &num("1"));
    assert_eq!(str_of(get(&p, "name")).as_deref(), Some("Emulator Hub - Bogus"));
    let effects = items(get(&p, "effects"));
    assert_eq!(str_of(get(effects[0], "name")).as_deref(), Some("FSR\\FSR_EASU"));
}

#[test]
fn other_presets_have_one_effect() {
    let cases = [
        ("Anime4K", "Anime4K\\Anime4K_Upscale_L", false, false),
        ("CAS", "CAS\\CAS_Scaling", true, true),
        ("xBRZ", "xBRZ\\xBRZ_2x", false, false),
        ("Lanczos", "Lanczos", true, false),
        ("Nearest", "Nearest", true, false),
    ];
    for (preset, effect, scales, sharpens) in cases {
        let p = magpie_profile_json(preset, &num("1.5"), &num("0.5"));
        let effects = items(get(&p, "effects"));
        assert_eq!(effects.len(), 1);
        assert_eq!(str_of(get(effects[0], "name")).as_deref(), Some(effect));
        assert_eq!(get(effects[0], "scale").is_some(), scales);
        assert_eq!(get(effects[0], "sharpness").is_some(), sharpens);
    }
}

#[test]
fn a_profile_is_added_to_an_empty_settings_file() {
    let p = magpie_profile_json("xBRZ", &num("2"), &num("0"));
    let root = apply_profile_to_scaling_modes(JsonValue::Object(Vec::new()), p).ok().unwrap();
    let modes = items(get(&root, "scalingModes"));
    assert_eq!(modes.len(), 1);
    assert_eq!(str_of(get(modes[0], "name")).as_deref(), Some("Emulator Hub - xBRZ"));
}

#[test]
fn applying_a_profile_replaces_the_mode_of_the_same_name() {
    let other = JsonValue::Object(vec![("name".to_string(), JsonValue::Str("Mine".to_string()))]);
    let old = magpie_profile_json("CAS", &num("2"), &num("0.1"));
    let root = JsonValue::Object(vec![
        ("version".to_string(), JsonValue::Number(num("3"))),
        ("scalingModes".to_string(), JsonValue::Array(vec![other, old])),
    ]);
    let new = magpie_profile_json("CAS", &num("3"), &num("0.9"));
    let root = apply_profile_to_scaling_modes(root, new).ok().unwrap();
    let modes = items(get(&root, "scalingModes"));
    assert_eq!(modes.len(), 2);
    assert_eq!(str_of(get(modes[0], "name")).as_deref(), Some("Mine"));
    let effects = items(get(modes[1], "effects"));
    assert_eq!(number_text(get(effects[0], "sharpness")).as_deref(), Some("0.9"));
    assert_eq!(number_text(get(&root, "version")).as_deref(), Some("3"));
    // Applying the same profile again changes nothing.
    let again = apply_profile_to_scaling_modes(root, magpie_profile_json("CAS", &num("3"), &num("0.9")))
        .ok()
        .unwrap();
    assert_eq!(items(get(&again, "scalingModes")).len(), 2);
}

#[test]
fn malformed_settings_files_are_refused() {
    let p = magpie_profile_json("FSR", &num("2"), &num("0.5"));
    let r = apply_profile_to_scaling_modes(JsonValue::Array(Vec::new()), p);
    assert_eq!(r.err(), Some(ProfileError::RootNotObject));
    assert_eq!(
        ProfileError::RootNotObject.message(),
        "Magpie's ScalingModes.json must contain an object."
    );
    let root = JsonValue::Object(vec![("scalingModes".to_string(), JsonValue::Bool(true))]);
    let p = magpie_profile_json("FSR", &num("2"), &num("0.5"));
    assert_eq!(apply_profile_to_scaling_modes(root, p).err(), Some(ProfileError::ModesNotArray));
    assert_eq!(ProfileError::ModesNotArray.message(), "Magpie's scalingModes value must be an array.");
}

#[test]
fn launches_start_magpie_and_schedule_scaling_when_asked() {
    assert_eq!(magpie_launch_actions(true, true, false), (true, false));
    assert_eq!(magpie_launch_actions(true, false, true), (true, true));
    assert_eq!(magpie_launch_actions(true, false, false), (false, false));
    assert_eq!(magpie_launch_actions(false, true, true), (false, false));
}

#[test]
fn scaling_waits_for_the_delay_and_gives_up_after_the_window() {
    let p = schedule_auto_scale(42, 1_000, 2_000);
    assert_eq!((p.process_id, p.not_before_ms, p.expires_at_ms), (42, 3_000, 1_000 + AUTO_SCALE_WINDOW_MS));
    assert!(!auto_scale_due(&p, 2_999));
    assert!(auto_scale_due(&p, 3_000));
    match after_hotkey_attempt(&p, 3_000, true, "S") {
        AutoScaleOutcome::Applied(s) => assert_eq!(s, "Automatically applied Magpie scaling with Alt+Shift+S."),
        _ => panic!("the hotkey was sent"),
    }
    assert!(matches!(after_hotkey_attempt(&p, 3_000, false, "S"), AutoScaleOutcome::KeepWaiting));
    match after_hotkey_attempt(&p, 16_000, false, "S") {
        AutoScaleOutcome::GaveUp(s) => assert_eq!(
            s,
            "ROM started, but its window was not found for automatic Magpie scaling."
        ),
        _ => panic!("the window has passed"),
    }
}

#[test]
fn preset_labels_describe_the_offered_presets() {
    assert_eq!(preset_label("FSR"), "FSR \u{2014} AMD FidelityFX Super Resolution");
    assert_eq!(preset_label("xBRZ"), "xBRZ \u{2014} Pixel-art focused scaling");
    assert_eq!(preset_label("Nearest"), "Nearest \u{2014} Crisp nearest-neighbor scaling");
    assert_eq!(preset_label("Custom"), "Custom");
}

#[test]
fn the_preset_list_is_in_window_order() {
    assert_eq!(magpie_preset_names(), vec!["FSR", "Anime4K", "CAS", "xBRZ", "Lanczos", "Nearest"]);
    for name in magpie_preset_names() {
        assert!(is_magpie_preset_name(&name));
    }
}

#[test]
fn profile_status_texts() {
    assert_eq!(
        profile_applied_status("FSR"),
        "Applied the FSR Magpie profile. Select 'Emulator Hub - FSR' in Magpie."
    );
    assert_eq!(
        profile_failed_status("access denied"),
        "Could not apply Magpie profile: access denied"
    );
}
