use bouncer::pure_core::{ChordError, EventKind, KeyCode, KeyId, PanicChord};
use bouncer::ui::rebind::RebindCapture;

const A: KeyId = KeyCode::Letter('A');
const CTRL: KeyId = KeyCode::Control;
const ALT: KeyId = KeyCode::Alt;
const SHIFT: KeyId = KeyCode::Shift;
const F12: KeyId = KeyCode::Function(12);

fn down(c: &mut RebindCapture, k: KeyId) {
    c.on_event(k, EventKind::Down);
}
fn up(c: &mut RebindCapture, k: KeyId) {
    c.on_event(k, EventKind::Up);
}

#[test]
fn captures_the_full_chord_and_survives_release() {
    let mut c = RebindCapture::new();
    down(&mut c, CTRL);
    down(&mut c, ALT);
    down(&mut c, SHIFT);
    down(&mut c, F12);
    up(&mut c, F12);
    up(&mut c, SHIFT);
    up(&mut c, ALT);
    up(&mut c, CTRL);

    assert_eq!(c.keys(), vec![SHIFT, CTRL, ALT, F12]);
    assert_eq!(c.chord().unwrap(), PanicChord::new(&[CTRL, ALT, SHIFT, F12]).unwrap());
}

#[test]
fn rebind_rejects_a_chord_with_no_modifier() {
    let mut c = RebindCapture::new();
    down(&mut c, F12);
    assert_eq!(c.chord(), Err(ChordError::NoModifier));
}

#[test]
fn rejects_a_chord_with_no_nonmodifier_key() {
    let mut c = RebindCapture::new();
    down(&mut c, CTRL);
    down(&mut c, SHIFT);
    assert_eq!(c.chord(), Err(ChordError::NoNonModifierKey));
}

#[test]
fn a_fresh_press_replaces_an_earlier_stray_key() {
    let mut c = RebindCapture::new();
    down(&mut c, A);
    up(&mut c, A);
    down(&mut c, CTRL);
    down(&mut c, F12);
    assert_eq!(c.chord().unwrap(), PanicChord::new(&[CTRL, F12]).unwrap());
}

#[test]
fn empty_capture_has_no_keys_and_no_chord() {
    let c = RebindCapture::new();
    assert!(c.keys().is_empty());
    assert!(c.chord().is_err());
}

// --- further cases ---

#[test]
fn an_auto_repeated_key_is_held_once() {
    let mut c = RebindCapture::default();
    down(&mut c, CTRL);
    down(&mut c, A);
    down(&mut c, A);
    down(&mut c, A);
    assert_eq!(c.keys(), vec![CTRL, A]);
}

#[test]
fn releasing_a_key_that_was_never_pressed_changes_nothing() {
    let mut c = RebindCapture::new();
    down(&mut c, CTRL);
    down(&mut c, A);
    up(&mut c, F12);
    assert_eq!(c.keys(), vec![CTRL, A]);
    // The next press still sees Ctrl held.
    down(&mut c, SHIFT);
    assert_eq!(c.keys(), vec![SHIFT, CTRL, A]);
}

#[test]
fn a_key_released_before_the_last_press_is_not_captured() {
    let mut c = RebindCapture::new();
    down(&mut c, SHIFT);
    up(&mut c, SHIFT);
    down(&mut c, CTRL);
    down(&mut c, A);
    assert_eq!(c.keys(), vec![CTRL, A]);
}
