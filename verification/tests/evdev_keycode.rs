use bouncer::platform::evdev_keycode::{
    device_class, to_keycode, BTN_EXTRA, BTN_LEFT, BTN_MIDDLE, BTN_RIGHT, BTN_SIDE, BTN_TASK, KEY_0, KEY_1, KEY_9,
    KEY_A, KEY_F1, KEY_F10, KEY_F11, KEY_F12, KEY_LEFTALT, KEY_LEFTCTRL, KEY_LEFTMETA, KEY_LEFTSHIFT, KEY_Q,
    KEY_RIGHTALT, KEY_RIGHTCTRL, KEY_RIGHTMETA, KEY_RIGHTSHIFT, KEY_Z,
};
use bouncer::pure_core::{Device, KeyCode, MouseButton};

const TOP_ROW: &[u8] = b"QWERTYUIOP";
const HOME_ROW: &[u8] = b"ASDFGHJKL";
const BOTTOM_ROW: &[u8] = b"ZXCVBNM";

#[test]
fn modifiers_fold_left_and_right_together() {
    assert_eq!(to_keycode(KEY_LEFTSHIFT), KeyCode::Shift);
    assert_eq!(to_keycode(KEY_RIGHTSHIFT), KeyCode::Shift);
    assert_eq!(to_keycode(KEY_LEFTCTRL), KeyCode::Control);
    assert_eq!(to_keycode(KEY_RIGHTCTRL), KeyCode::Control);
    assert_eq!(to_keycode(KEY_LEFTALT), KeyCode::Alt);
    assert_eq!(to_keycode(KEY_RIGHTALT), KeyCode::Alt);
    assert_eq!(to_keycode(KEY_LEFTMETA), KeyCode::Meta);
    assert_eq!(to_keycode(KEY_RIGHTMETA), KeyCode::Meta);
}

#[test]
fn digits_map_by_face_value_with_zero_after_nine() {
    assert_eq!(to_keycode(KEY_1), KeyCode::Digit(1));
    assert_eq!(to_keycode(KEY_9), KeyCode::Digit(9));
    assert_eq!(to_keycode(KEY_0), KeyCode::Digit(0));
}

#[test]
fn function_keys_cover_f1_to_f12_including_the_split_f11_f12() {
    assert_eq!(to_keycode(KEY_F1), KeyCode::Function(1));
    assert_eq!(to_keycode(KEY_F10), KeyCode::Function(10));
    assert_eq!(to_keycode(KEY_F11), KeyCode::Function(11));
    assert_eq!(to_keycode(KEY_F12), KeyCode::Function(12));
}

#[test]
fn all_twenty_six_letters_map_to_distinct_uppercase_faces() {
    let mut seen = Vec::new();
    for (start, row) in [(KEY_Q, TOP_ROW), (KEY_A, HOME_ROW), (KEY_Z, BOTTOM_ROW)] {
        for (i, &b) in row.iter().enumerate() {
            let key = to_keycode(start + i as u16);
            assert_eq!(key, KeyCode::Letter(b as char), "code {}", start + i as u16);
            seen.push(b);
        }
    }
    seen.sort_unstable();
    seen.dedup();
    assert_eq!(seen.len(), 26, "expected 26 distinct letters");
}

#[test]
fn keys_adjacent_to_the_letter_rows_are_not_letters() {
    for code in [15u16, 26, 27, 28, 39, 40, 41, 51, 52, 53] {
        assert!(!matches!(to_keycode(code), KeyCode::Letter(_)), "code {code} should not be a letter");
    }
}

#[test]
fn mouse_buttons_map_to_named_variants() {
    assert_eq!(to_keycode(BTN_LEFT), KeyCode::Mouse(MouseButton::Left));
    assert_eq!(to_keycode(BTN_RIGHT), KeyCode::Mouse(MouseButton::Right));
    assert_eq!(to_keycode(BTN_MIDDLE), KeyCode::Mouse(MouseButton::Middle));
    assert_eq!(to_keycode(BTN_SIDE), KeyCode::Mouse(MouseButton::X1));
    assert_eq!(to_keycode(BTN_EXTRA), KeyCode::Mouse(MouseButton::X2));
}

#[test]
fn unnamed_keys_keep_a_distinct_opaque_identity() {
    assert_eq!(to_keycode(1), KeyCode::Other(1));
    assert_eq!(to_keycode(57), KeyCode::Other(57));
    assert_ne!(to_keycode(1), to_keycode(57));
}

#[test]
fn the_whole_mouse_button_block_is_classified_as_mouse() {
    for code in BTN_LEFT..=BTN_TASK {
        assert_eq!(device_class(code), Device::Mouse, "code {code:#x}");
    }
}

#[test]
fn keyboard_keys_are_classified_as_keyboard() {
    for code in [KEY_A, KEY_F12, KEY_LEFTSHIFT, 1, 57] {
        assert_eq!(device_class(code), Device::Keyboard, "code {code}");
    }
    assert_eq!(device_class(BTN_TASK + 1), Device::Keyboard);
}

// --- further cases ---

#[test]
fn only_modifier_pairs_share_an_identity() {
    // Exhaustive over the whole code space the kernel uses for keys and buttons.
    let mut by_key = std::collections::HashMap::new();
    for code in 0u16..=0x2ff {
        if let Some(other) = by_key.insert(to_keycode(code), code) {
            let pair = [other.min(code), other.max(code)];
            assert!(
                [
                    [KEY_LEFTCTRL, KEY_RIGHTCTRL],
                    [KEY_LEFTSHIFT, KEY_RIGHTSHIFT],
                    [KEY_LEFTALT, KEY_RIGHTALT],
                    [KEY_LEFTMETA, KEY_RIGHTMETA],
                ]
                .iter()
                .any(|p| [p[0].min(p[1]), p[0].max(p[1])] == pair),
                "codes {other} and {code} collide"
            );
        }
    }
}

#[test]
fn the_highest_code_stays_opaque() {
    assert_eq!(to_keycode(u16::MAX), KeyCode::Other(u16::MAX as u32));
    assert_eq!(device_class(u16::MAX), Device::Keyboard);
}
