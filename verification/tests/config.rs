use bouncer::config::{Config, MAX_THRESHOLD_MS};
use bouncer::pure_core::{Mode, PanicChord, Thresholds};
use bouncer::ui::hotkey;

#[test]
fn round_trips_through_toml() {
    let defaults = Config::default();
    let parsed = Config::load_from_str(&defaults.to_toml_string());
    assert_eq!(parsed, defaults);
}

#[test]
fn empty_input_yields_defaults() {
    assert_eq!(Config::load_from_str(""), Config::default());
}

#[test]
fn garbage_input_yields_defaults() {
    assert_eq!(Config::load_from_str("@@@ this is not valid toml @@@"), Config::default());
}

#[test]
fn partial_input_fills_missing_with_defaults() {
    let c = Config::load_from_str("keyboard_threshold_ms = 12");
    assert_eq!(c.keyboard_threshold_ms, 12);
    assert_eq!(c.mouse_threshold_ms, Config::default().mouse_threshold_ms);
    assert_eq!(c.confirm_on_quit, Config::default().confirm_on_quit);
}

#[test]
fn thresholds_are_clamped_on_load() {
    let c = Config::load_from_str("keyboard_threshold_ms = 250\nmouse_threshold_ms = 200");
    assert_eq!(c.keyboard_threshold_ms, MAX_THRESHOLD_MS);
    assert_eq!(c.mouse_threshold_ms, MAX_THRESHOLD_MS);
}

#[test]
fn unknown_keys_are_ignored() {
    let c = Config::load_from_str("keyboard_threshold_ms = 25\nbogus_field = \"ignored\"");
    assert_eq!(c.keyboard_threshold_ms, 25);
}

#[test]
fn thresholds_zeroes_disabled_device_classes() {
    let c = Config {
        keyboard_threshold_ms: 30,
        mouse_threshold_ms: 40,
        debounce_keyboard: true,
        debounce_mouse: false,
        ..Config::default()
    };
    assert_eq!(c.thresholds(), Thresholds { keyboard_ms: 30, mouse_ms: 0 });
}

#[test]
fn thresholds_pass_through_when_both_enabled() {
    let c = Config {
        keyboard_threshold_ms: 12,
        mouse_threshold_ms: 8,
        debounce_keyboard: true,
        debounce_mouse: true,
        ..Config::default()
    };
    assert_eq!(c.thresholds(), Thresholds { keyboard_ms: 12, mouse_ms: 8 });
}

#[test]
fn initial_mode_reflects_enabled() {
    assert_eq!(Config { enabled: true, ..Config::default() }.initial_mode(), Mode::Active);
    assert_eq!(Config { enabled: false, ..Config::default() }.initial_mode(), Mode::Paused);
}

#[test]
fn panic_hotkey_round_trips_as_a_chord() {
    let cfg = Config { panic_hotkey: hotkey::parse("Ctrl+Alt+Q").unwrap(), ..Config::default() };
    let reparsed = Config::load_from_str(&cfg.to_toml_string());
    assert_eq!(reparsed.panic_hotkey, cfg.panic_hotkey);
}

#[test]
fn unparseable_panic_hotkey_falls_back_to_default_chord() {
    let c = Config::load_from_str(r#"panic_hotkey = "Ctrl+Banana""#);
    assert_eq!(c.panic_hotkey, PanicChord::default_chord());
    let c = Config::load_from_str(r#"panic_hotkey = "F12""#);
    assert_eq!(c.panic_hotkey, PanicChord::default_chord());
}

#[test]
fn wrong_typed_field_falls_back_to_defaults() {
    let c = Config::load_from_str(r#"keyboard_threshold_ms = "not a number""#);
    assert_eq!(c, Config::default());
}

#[test]
fn float_and_negative_numbers_do_not_crash() {
    assert_eq!(Config::load_from_str("mouse_threshold_ms = 3.5"), Config::default());
    assert_eq!(Config::load_from_str("keyboard_threshold_ms = -10"), Config::default());
}

#[test]
fn wrong_typed_bool_field_does_not_crash() {
    assert_eq!(Config::load_from_str(r#"enabled = "yes""#), Config::default());
}

// --- further cases ---

#[test]
fn a_non_default_config_round_trips_through_toml() {
    let cfg = Config {
        keyboard_threshold_ms: 17,
        mouse_threshold_ms: 0,
        enabled: false,
        debounce_keyboard: false,
        debounce_mouse: true,
        autostart: false,
        panic_hotkey: hotkey::parse("Win+Shift+7").unwrap(),
        confirm_on_quit: false,
    };
    assert_eq!(Config::load_from_str(&cfg.to_toml_string()), cfg);
}

#[test]
fn the_serialized_form_names_every_setting() {
    let text = Config::default().to_toml_string();
    for key in [
        "keyboard_threshold_ms",
        "mouse_threshold_ms",
        "enabled",
        "debounce_keyboard",
        "debounce_mouse",
        "autostart",
        "panic_hotkey",
        "confirm_on_quit",
    ] {
        assert!(text.contains(key), "{key} missing from {text}");
    }
    assert!(text.contains("Ctrl+Alt+Shift+F12"), "{text}");
}

#[test]
fn a_huge_threshold_loads_clamped() {
    let c = Config::load_from_str("keyboard_threshold_ms = 9999\nmouse_threshold_ms = 256");
    assert_eq!(c, Config { keyboard_threshold_ms: MAX_THRESHOLD_MS, mouse_threshold_ms: MAX_THRESHOLD_MS, ..Config::default() });
}

#[test]
fn a_mistyped_field_falls_back_alone() {
    let c = Config::load_from_str("keyboard_threshold_ms = 12\nenabled = \"yes\"");
    assert_eq!(c, Config { keyboard_threshold_ms: 12, ..Config::default() });
}

#[test]
fn every_bad_field_falls_back_while_good_ones_stay() {
    let c = Config::load_from_str(
        "keyboard_threshold_ms = -1\nmouse_threshold_ms = 7\nenabled = false\ndebounce_keyboard = 3\n\
         debounce_mouse = false\nautostart = [1]\npanic_hotkey = \"Ctrl+Q\"\nconfirm_on_quit = 2.5",
    );
    assert_eq!(
        c,
        Config {
            mouse_threshold_ms: 7,
            enabled: false,
            debounce_mouse: false,
            panic_hotkey: hotkey::parse("Ctrl+Q").unwrap(),
            ..Config::default()
        }
    );
}

#[test]
fn a_non_string_hotkey_falls_back_to_the_default_chord() {
    let c = Config::load_from_str("panic_hotkey = 12\nautostart = false");
    assert_eq!(c, Config { autostart: false, ..Config::default() });
}

#[test]
fn a_threshold_at_the_cap_is_kept() {
    let c = Config::load_from_str("mouse_threshold_ms = 100\nenabled = false");
    assert_eq!(c.mouse_threshold_ms, 100);
    assert!(!c.enabled);
}

#[test]
fn a_valid_stored_hotkey_is_used() {
    let c = Config::load_from_str("panic_hotkey = \" ctrl + b \"");
    assert_eq!(c.panic_hotkey, hotkey::parse("Ctrl+B").unwrap());
}

#[test]
fn clone_and_equality_agree() {
    let a = Config { keyboard_threshold_ms: 3, ..Config::default() };
    let b = a.clone();
    assert_eq!(a, b);
    assert_ne!(a, Config::default());
}

#[test]
fn from_table_reads_each_known_key_on_its_own() {
    let table: toml::Table = toml::from_str("mouse_threshold_ms = 500\nautostart = \"no\"\nextra = 1").unwrap();
    let c = Config::from_table(&table);
    assert_eq!(c, Config { mouse_threshold_ms: MAX_THRESHOLD_MS, ..Config::default() });
    assert_eq!(Config::from_table(&toml::Table::new()), Config::default());
}

#[test]
fn settings_are_written_in_declaration_order() {
    let text = Config::default().to_toml_string();
    let keys = [
        "keyboard_threshold_ms",
        "mouse_threshold_ms",
        "enabled",
        "debounce_keyboard",
        "debounce_mouse",
        "autostart",
        "panic_hotkey",
        "confirm_on_quit",
    ];
    let lines: Vec<&str> = text.lines().collect();
    assert_eq!(lines.len(), keys.len(), "{text}");
    for (line, key) in lines.iter().zip(keys) {
        assert!(line.starts_with(&format!("{key} = ")), "{line} should set {key}");
    }
}
