use bouncer::pure_core::{Device, Engine, EventKind, InputEvent, KeyCode, KeyId, Mode, Outcome, Thresholds, Verdict};

const A: KeyId = KeyCode::Letter('A');
const CTRL: KeyId = KeyCode::Control;
const ALT: KeyId = KeyCode::Alt;
const SHIFT: KeyId = KeyCode::Shift;
const F12: KeyId = KeyCode::Function(12);

fn ev(device: Device, key: KeyId, kind: EventKind, t: u64) -> InputEvent {
    InputEvent { device, key, kind, timestamp_ms: t, injected: false }
}
fn down(key: KeyId, t: u64) -> InputEvent {
    ev(Device::Keyboard, key, EventKind::Down, t)
}
fn up(key: KeyId, t: u64) -> InputEvent {
    ev(Device::Keyboard, key, EventKind::Up, t)
}

/// Press the full default chord (Ctrl+Alt+Shift+F12); return the outcome of the
/// completing (F12) event, which is where the toggle fires.
fn press_panic_chord(e: &mut Engine, t0: u64) -> Outcome {
    e.on_event(down(CTRL, t0));
    e.on_event(down(ALT, t0 + 1));
    e.on_event(down(SHIFT, t0 + 2));
    e.on_event(down(F12, t0 + 3))
}

#[test]
fn active_delegates_to_debouncer_suppress() {
    let mut e = Engine::new();
    assert_eq!(e.on_event(down(A, 0)).verdict, Verdict::Pass);
    assert_eq!(e.on_event(up(A, 0)).verdict, Verdict::Pass);
    assert_eq!(e.on_event(down(A, 5)).verdict, Verdict::Suppress);
}

#[test]
fn active_delegates_to_debouncer_pass() {
    let mut e = Engine::new();
    assert_eq!(e.on_event(down(A, 0)).verdict, Verdict::Pass);
    assert_eq!(e.on_event(up(A, 0)).verdict, Verdict::Pass);
    assert_eq!(e.on_event(down(A, 200)).verdict, Verdict::Pass);
}

#[test]
fn paused_passes_what_active_would_suppress() {
    let mut e = Engine::new();
    e.set_mode(Mode::Paused);
    assert_eq!(e.on_event(down(A, 0)).verdict, Verdict::Pass);
    assert_eq!(e.on_event(up(A, 0)).verdict, Verdict::Pass);
    let out = e.on_event(down(A, 5));
    assert_eq!(out.verdict, Verdict::Pass);
    assert_eq!(out.mode_change, None);
}

#[test]
fn panic_passes_what_active_would_suppress() {
    let mut e = Engine::new();
    e.set_mode(Mode::Panic);
    assert_eq!(e.on_event(down(A, 0)).verdict, Verdict::Pass);
    assert_eq!(e.on_event(up(A, 0)).verdict, Verdict::Pass);
    assert_eq!(e.on_event(down(A, 5)).verdict, Verdict::Pass);
}

#[test]
fn panic_chord_while_active_enters_panic() {
    let mut e = Engine::new();
    let out = press_panic_chord(&mut e, 0);
    assert_eq!(out.mode_change, Some(Mode::Panic));
    assert_eq!(out.verdict, Verdict::Suppress);
}

#[test]
fn panic_chord_while_panic_returns_to_active() {
    let mut e = Engine::new();
    e.set_mode(Mode::Panic);
    let out = press_panic_chord(&mut e, 0);
    assert_eq!(out.mode_change, Some(Mode::Active));
}

#[test]
fn chord_toggle_actually_enters_panic_state() {
    let mut e = Engine::new();
    press_panic_chord(&mut e, 0);
    e.on_event(up(F12, 10));
    e.on_event(up(SHIFT, 11));
    e.on_event(up(ALT, 12));
    e.on_event(up(CTRL, 13));
    assert_eq!(e.on_event(down(A, 100)).verdict, Verdict::Pass);
    assert_eq!(e.on_event(up(A, 100)).verdict, Verdict::Pass);
    assert_eq!(e.on_event(down(A, 103)).verdict, Verdict::Pass);
}

// --- fail-open, over many generated sequences ---

/// A small deterministic generator (xorshift), so the sequences are reproducible.
struct Gen(u64);

impl Gen {
    fn next(&mut self) -> u64 {
        let mut x = self.0;
        x ^= x << 13;
        x ^= x >> 7;
        x ^= x << 17;
        self.0 = x;
        x
    }

    fn key(&mut self, chord_keys_allowed: bool) -> KeyId {
        let r = self.next();
        if chord_keys_allowed {
            match r % 8 {
                0 => CTRL,
                1 => ALT,
                2 => SHIFT,
                3 => F12,
                4 => KeyCode::Other((r >> 8) as u32),
                _ => KeyCode::Letter((b'A' + ((r >> 8) % 26) as u8) as char),
            }
        } else {
            KeyCode::Letter((b'A' + (r % 26) as u8) as char)
        }
    }

    fn event(&mut self, chord_keys_allowed: bool) -> InputEvent {
        let device = if self.next() % 2 == 0 { Device::Keyboard } else { Device::Mouse };
        let key = self.key(chord_keys_allowed);
        let kind = if self.next() % 2 == 0 { EventKind::Down } else { EventKind::Up };
        let timestamp_ms = self.next() % 1000;
        let injected = self.next() % 2 == 0;
        InputEvent { device, key, kind, timestamp_ms, injected }
    }
}

#[test]
fn on_event_never_panics_over_generated_sequences() {
    let mut g = Gen(0x9E37_79B9_7F4A_7C15);
    for _ in 0..64 {
        let mut e = Engine::new();
        let n = g.next() % 256;
        for _ in 0..n {
            let _ = e.on_event(g.event(true));
        }
    }
}

#[test]
fn passthrough_modes_never_suppress_non_chord_keys() {
    let mut g = Gen(0x2545_F491_4F6C_DD1D);
    for round in 0..64 {
        let mut e = Engine::new();
        e.set_mode(if round % 2 == 0 { Mode::Paused } else { Mode::Panic });
        let n = g.next() % 256;
        for _ in 0..n {
            assert_eq!(e.on_event(g.event(false)).verdict, Verdict::Pass);
        }
    }
}

// --- further cases ---

#[test]
fn chatter_outcome_carries_the_gap_for_the_session_counter() {
    let mut e = Engine::new();
    e.on_event(down(A, 0));
    e.on_event(up(A, 10));
    let out = e.on_event(down(A, 14));
    assert_eq!(out, Outcome { verdict: Verdict::Suppress, mode_change: None, chatter_gap_ms: Some(4) });
}

#[test]
fn modifiers_of_a_forming_chord_are_not_consumed() {
    let mut e = Engine::new();
    assert_eq!(e.on_event(down(CTRL, 0)).verdict, Verdict::Pass);
    assert_eq!(e.on_event(down(ALT, 1)).verdict, Verdict::Pass);
    assert_eq!(e.on_event(down(SHIFT, 2)).verdict, Verdict::Pass);
}

#[test]
fn set_thresholds_takes_effect_on_the_next_event() {
    let mut e = Engine::new();
    e.set_thresholds(Thresholds { keyboard_ms: 0, mouse_ms: 0 });
    e.on_event(down(A, 0));
    e.on_event(up(A, 0));
    assert_eq!(e.on_event(down(A, 1)).verdict, Verdict::Pass);
}

#[test]
fn a_rebound_chord_replaces_the_default() {
    let mut e = Engine::new();
    e.set_panic_chord(bouncer::pure_core::PanicChord::new(&[CTRL, A]).unwrap());
    // The old chord no longer toggles…
    let out = press_panic_chord(&mut e, 0);
    assert_eq!(out.mode_change, None);
    // …the new one does.
    let mut e = Engine::new();
    e.set_panic_chord(bouncer::pure_core::PanicChord::new(&[CTRL, A]).unwrap());
    e.on_event(down(CTRL, 0));
    assert_eq!(e.on_event(down(A, 1)).mode_change, Some(Mode::Panic));
    assert_eq!(e.mode(), Mode::Panic);
}

#[test]
fn a_set_mode_holds_until_the_chord_completes() {
    let mut e = Engine::new();
    e.set_mode(Mode::Paused);
    for (i, k) in [CTRL, A, ALT, A, SHIFT].into_iter().enumerate() {
        let out = e.on_event(down(k, i as u64));
        assert_eq!(out, Outcome { verdict: Verdict::Pass, mode_change: None, chatter_gap_ms: None });
        e.on_event(up(A, i as u64));
    }
    assert_eq!(e.mode(), Mode::Paused);
    assert_eq!(e.on_event(down(F12, 9)).mode_change, Some(Mode::Panic));
}

#[test]
fn a_history_of_setters_and_events_gives_the_documented_verdict() {
    let mut e = Engine::new();
    e.on_event(down(A, 0));
    e.on_event(up(A, 0));
    e.set_thresholds(Thresholds { keyboard_ms: 50, mouse_ms: 40 });
    // Rebinding restarts the detector: CTRL held before the rebind does not count.
    e.on_event(down(CTRL, 1));
    e.set_panic_chord(bouncer::pure_core::PanicChord::new(&[CTRL, F12]).unwrap());
    assert_eq!(e.on_event(down(F12, 2)).mode_change, None);
    // The debouncer saw A's release at 0: 45 ms later is chatter under 50 ms.
    assert_eq!(e.on_event(down(A, 45)).verdict, Verdict::Suppress);
    e.set_mode(Mode::Panic);
    assert_eq!(e.on_event(up(A, 46)).verdict, Verdict::Pass);
}
