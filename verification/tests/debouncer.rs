use bouncer::pure_core::{Debouncer, Device, EventKind, InputEvent, KeyCode, KeyId, MouseButton, Thresholds, Verdict};

const A: KeyId = KeyCode::Letter('A');
const B: KeyId = KeyCode::Letter('B');
const LMB: KeyId = KeyCode::Mouse(MouseButton::Left);

/// Default thresholds: keyboard 30 ms, mouse 40 ms.
const THR: Thresholds = Thresholds { keyboard_ms: 30, mouse_ms: 40 };

fn ev(device: Device, key: KeyId, kind: EventKind, t: u64) -> InputEvent {
    InputEvent { device, key, kind, timestamp_ms: t, injected: false }
}
fn down(key: KeyId, t: u64) -> InputEvent {
    ev(Device::Keyboard, key, EventKind::Down, t)
}
fn up(key: KeyId, t: u64) -> InputEvent {
    ev(Device::Keyboard, key, EventKind::Up, t)
}
fn mouse_down(key: KeyId, t: u64) -> InputEvent {
    ev(Device::Mouse, key, EventKind::Down, t)
}
fn mouse_up(key: KeyId, t: u64) -> InputEvent {
    ev(Device::Mouse, key, EventKind::Up, t)
}

#[test]
fn down_sooner_than_threshold_after_up_is_suppressed() {
    let mut d = Debouncer::new();
    assert_eq!(d.decide(down(A, 0), THR), Verdict::Pass);
    assert_eq!(d.decide(up(A, 0), THR), Verdict::Pass);
    assert_eq!(d.decide(down(A, 5), THR), Verdict::Suppress);
}

#[test]
fn down_well_after_threshold_passes() {
    let mut d = Debouncer::new();
    assert_eq!(d.decide(down(A, 0), THR), Verdict::Pass);
    assert_eq!(d.decide(up(A, 0), THR), Verdict::Pass);
    assert_eq!(d.decide(down(A, 200), THR), Verdict::Pass);
}

#[test]
fn gap_exactly_threshold_passes() {
    let mut d = Debouncer::new();
    assert_eq!(d.decide(down(A, 0), THR), Verdict::Pass);
    assert_eq!(d.decide(up(A, 0), THR), Verdict::Pass);
    assert_eq!(d.decide(down(A, 30), THR), Verdict::Pass);
}

#[test]
fn held_key_autorepeat_always_passes() {
    let mut d = Debouncer::new();
    assert_eq!(d.decide(down(A, 0), THR), Verdict::Pass);
    assert_eq!(d.decide(down(A, 5), THR), Verdict::Pass);
    assert_eq!(d.decide(down(A, 8), THR), Verdict::Pass);
    assert_eq!(d.decide(down(A, 11), THR), Verdict::Pass);
}

#[test]
fn different_keys_close_together_both_pass() {
    let mut d = Debouncer::new();
    assert_eq!(d.decide(down(A, 0), THR), Verdict::Pass);
    assert_eq!(d.decide(up(A, 1), THR), Verdict::Pass);
    assert_eq!(d.decide(down(B, 3), THR), Verdict::Pass);
}

#[test]
fn suppressed_down_also_suppresses_its_paired_up() {
    let mut d = Debouncer::new();
    assert_eq!(d.decide(down(A, 0), THR), Verdict::Pass);
    assert_eq!(d.decide(up(A, 0), THR), Verdict::Pass);
    assert_eq!(d.decide(down(A, 5), THR), Verdict::Suppress);
    assert_eq!(d.decide(up(A, 6), THR), Verdict::Suppress);
}

#[test]
fn first_ever_down_passes() {
    let mut d = Debouncer::new();
    assert_eq!(d.decide(down(A, 12345), THR), Verdict::Pass);
}

#[test]
fn keyboard_and_mouse_use_independent_thresholds() {
    let mut kb = Debouncer::new();
    assert_eq!(kb.decide(down(A, 0), THR), Verdict::Pass);
    assert_eq!(kb.decide(up(A, 0), THR), Verdict::Pass);
    assert_eq!(kb.decide(down(A, 35), THR), Verdict::Pass);

    let mut mouse = Debouncer::new();
    assert_eq!(mouse.decide(mouse_down(LMB, 0), THR), Verdict::Pass);
    assert_eq!(mouse.decide(mouse_up(LMB, 0), THR), Verdict::Pass);
    assert_eq!(mouse.decide(mouse_down(LMB, 35), THR), Verdict::Suppress);
}

#[test]
fn threshold_above_cap_behaves_as_cap() {
    let huge = Thresholds { keyboard_ms: 200, mouse_ms: 40 };

    let mut outside = Debouncer::new();
    assert_eq!(outside.decide(down(A, 0), huge), Verdict::Pass);
    assert_eq!(outside.decide(up(A, 0), huge), Verdict::Pass);
    assert_eq!(outside.decide(down(A, 150), huge), Verdict::Pass);

    let mut inside = Debouncer::new();
    assert_eq!(inside.decide(down(A, 0), huge), Verdict::Pass);
    assert_eq!(inside.decide(up(A, 0), huge), Verdict::Pass);
    assert_eq!(inside.decide(down(A, 50), huge), Verdict::Suppress);
}

// --- further cases ---

#[test]
fn decide_with_gap_reports_the_measured_gap_of_a_chatter_down() {
    let mut d = Debouncer::new();
    assert_eq!(d.decide_with_gap(down(A, 100), THR), (Verdict::Pass, None));
    assert_eq!(d.decide_with_gap(up(A, 110), THR), (Verdict::Pass, None));
    assert_eq!(d.decide_with_gap(down(A, 117), THR), (Verdict::Suppress, Some(7)));
    // The paired up is suppressed but carries no gap: one incident, one report.
    assert_eq!(d.decide_with_gap(up(A, 118), THR), (Verdict::Suppress, None));
}

#[test]
fn a_zero_threshold_never_suppresses() {
    let off = Thresholds { keyboard_ms: 0, mouse_ms: 0 };
    let mut d = Debouncer::new();
    assert_eq!(d.decide(down(A, 0), off), Verdict::Pass);
    assert_eq!(d.decide(up(A, 0), off), Verdict::Pass);
    assert_eq!(d.decide(down(A, 0), off), Verdict::Pass);
}

#[test]
fn a_down_stamped_before_its_release_counts_as_a_zero_gap() {
    // A down stamped before the previous up is treated as a zero gap: chatter.
    let mut d = Debouncer::new();
    assert_eq!(d.decide(down(A, 50), THR), Verdict::Pass);
    assert_eq!(d.decide(up(A, 50), THR), Verdict::Pass);
    assert_eq!(d.decide(down(A, 40), THR), Verdict::Suppress);
}

#[test]
fn threshold_for_device_is_clamped_to_the_cap() {
    let t = Thresholds { keyboard_ms: 255, mouse_ms: 7 };
    assert_eq!(t.for_device(Device::Keyboard), 100);
    assert_eq!(t.for_device(Device::Mouse), 7);
}

#[test]
fn a_threshold_change_between_calls_applies_from_the_next_decision() {
    let mut d = Debouncer::new();
    assert_eq!(d.decide(down(A, 0), THR), Verdict::Pass);
    assert_eq!(d.decide(up(A, 10), THR), Verdict::Pass);
    // Under 30 ms a 20 ms gap is chatter; the same history under 10 ms is not.
    let tight = Thresholds { keyboard_ms: 10, mouse_ms: 10 };
    assert_eq!(d.decide(down(A, 30), tight), Verdict::Pass);
    assert_eq!(d.decide(up(A, 40), tight), Verdict::Pass);
    // The latest passed release (40) anchors the next down, whatever came before.
    assert_eq!(d.decide(down(A, 55), THR), Verdict::Suppress);
}
