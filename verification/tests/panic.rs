use bouncer::pure_core::{ChordError, Device, EventKind, InputEvent, KeyCode, KeyId, PanicChord, PanicDetector};

const A: KeyId = KeyCode::Letter('A');
const CTRL: KeyId = KeyCode::Control;
const ALT: KeyId = KeyCode::Alt;
const SHIFT: KeyId = KeyCode::Shift;
const F12: KeyId = KeyCode::Function(12);

fn ev(key: KeyId, kind: EventKind, t: u64) -> InputEvent {
    InputEvent { device: Device::Keyboard, key, kind, timestamp_ms: t, injected: false }
}
fn down(key: KeyId, t: u64) -> InputEvent {
    ev(key, EventKind::Down, t)
}
fn up(key: KeyId, t: u64) -> InputEvent {
    ev(key, EventKind::Up, t)
}

fn detector() -> PanicDetector {
    PanicDetector::new(PanicChord::new(&[CTRL, ALT, SHIFT, F12]).unwrap())
}

#[test]
fn chord_with_modifier_and_key_is_valid() {
    assert!(PanicChord::new(&[CTRL, ALT, SHIFT, F12]).is_ok());
    assert!(PanicChord::new(&[CTRL, A]).is_ok());
}

#[test]
fn chord_without_modifier_is_rejected() {
    assert_eq!(PanicChord::new(&[F12]), Err(ChordError::NoModifier));
    assert_eq!(PanicChord::new(&[A]), Err(ChordError::NoModifier));
}

#[test]
fn chord_without_nonmodifier_key_is_rejected() {
    assert_eq!(PanicChord::new(&[CTRL]), Err(ChordError::NoNonModifierKey));
    assert_eq!(PanicChord::new(&[CTRL, SHIFT]), Err(ChordError::NoNonModifierKey));
}

#[test]
fn full_chord_held_toggles_once() {
    let mut d = detector();
    assert!(!d.on_event(down(CTRL, 0)).toggled);
    assert!(!d.on_event(down(ALT, 1)).toggled);
    assert!(!d.on_event(down(SHIFT, 2)).toggled);
    assert!(d.on_event(down(F12, 3)).toggled);
}

#[test]
fn held_chord_does_not_retoggle() {
    let mut d = detector();
    d.on_event(down(CTRL, 0));
    d.on_event(down(ALT, 1));
    d.on_event(down(SHIFT, 2));
    assert!(d.on_event(down(F12, 3)).toggled);
    assert!(!d.on_event(down(F12, 4)).toggled);
    assert!(!d.on_event(down(F12, 5)).toggled);
}

#[test]
fn release_and_repress_toggles_again() {
    let mut d = detector();
    d.on_event(down(CTRL, 0));
    d.on_event(down(ALT, 1));
    d.on_event(down(SHIFT, 2));
    assert!(d.on_event(down(F12, 3)).toggled);
    assert!(!d.on_event(up(F12, 4)).toggled);
    assert!(d.on_event(down(F12, 5)).toggled);
}

#[test]
fn partial_chord_never_toggles() {
    let mut d = detector();
    assert!(!d.on_event(down(CTRL, 0)).toggled);
    assert!(!d.on_event(down(SHIFT, 1)).toggled);
    assert!(!d.on_event(down(F12, 2)).toggled);
}

#[test]
fn completing_event_is_consumed_modifiers_are_not() {
    let mut d = detector();
    assert!(!d.on_event(down(CTRL, 0)).consume);
    assert!(!d.on_event(down(ALT, 1)).consume);
    assert!(!d.on_event(down(SHIFT, 2)).consume);
    assert!(d.on_event(down(F12, 3)).consume);
}

// --- further cases ---

#[test]
fn chord_keys_are_kept_once_each_in_key_order() {
    let c = PanicChord::new(&[F12, CTRL, F12, ALT, SHIFT, CTRL]).unwrap();
    assert_eq!(c.keys(), vec![SHIFT, CTRL, ALT, F12]);
    assert_eq!(c, PanicChord::default_chord());
    assert!(c.contains(F12));
    assert!(!c.contains(A));
}

#[test]
fn order_of_pressing_does_not_matter() {
    let mut d = detector();
    assert!(!d.on_event(down(F12, 0)).toggled);
    assert!(!d.on_event(down(SHIFT, 1)).toggled);
    assert!(!d.on_event(down(ALT, 2)).toggled);
    assert!(d.on_event(down(CTRL, 3)).toggled);
}

#[test]
fn set_chord_starts_the_detector_afresh() {
    let mut d = detector();
    d.on_event(down(CTRL, 0));
    d.set_chord(PanicChord::new(&[CTRL, A]).unwrap());
    // CTRL's earlier press is forgotten: A alone does not complete the new chord.
    assert!(!d.on_event(down(A, 1)).toggled);
    assert_eq!(d.chord(), &PanicChord::new(&[A, CTRL]).unwrap());
}

#[test]
fn default_detector_watches_the_default_chord() {
    let mut d = PanicDetector::default();
    assert_eq!(d.chord(), &PanicChord::default_chord());
    d.on_event(down(CTRL, 0));
    d.on_event(down(ALT, 1));
    d.on_event(down(SHIFT, 2));
    assert!(d.on_event(down(F12, 3)).toggled);
}

#[test]
fn a_chords_keys_rebuild_the_same_chord() {
    for keys in [vec![F12, CTRL, ALT, SHIFT], vec![A, CTRL], vec![KeyCode::Meta, KeyCode::Digit(3), A]] {
        let c = PanicChord::new(&keys).unwrap();
        assert_eq!(PanicChord::new(&c.keys()), Ok(c));
    }
}
