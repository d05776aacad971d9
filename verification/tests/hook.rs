use bouncer::messages::{Command, Report};
use bouncer::platform::hook::{apply_command, decide, decide_evdev, drop_failed, key_transition, HookDecision};
use bouncer::platform::windows_input::{
    keyboard_transition, mouse_button, vk_to_keycode, WM_KEYDOWN, WM_KEYUP, WM_LBUTTONDOWN, WM_LBUTTONUP,
    WM_MBUTTONUP, WM_RBUTTONDOWN, WM_SYSKEYDOWN, WM_SYSKEYUP, WM_XBUTTONDOWN, WM_XBUTTONUP,
};
use bouncer::pure_core::{Device, Engine, EventKind, KeyCode, KeyId, Mode, MouseButton, PanicChord, Thresholds, Verdict};

/// Run `decide` and collect its reports in the order the backend sends them.
fn decide_and_report(
    engine: &mut Engine,
    reports: &mut Vec<Report>,
    device: Device,
    key: KeyId,
    kind: EventKind,
    time_ms: u64,
) -> Verdict {
    let d = decide(engine, false, device, key, kind, false, time_ms);
    reports.extend(d.mode_report);
    reports.extend(d.suppressed_report);
    d.verdict
}

#[test]
fn chatter_suppression_sends_a_suppressed_report() {
    let a = vk_to_keycode(0x41);
    let mut engine = Engine::new();
    let mut reports = Vec::new();

    assert_eq!(decide_and_report(&mut engine, &mut reports, Device::Keyboard, a, EventKind::Down, 0), Verdict::Pass);
    assert_eq!(decide_and_report(&mut engine, &mut reports, Device::Keyboard, a, EventKind::Up, 0), Verdict::Pass);
    assert_eq!(decide_and_report(&mut engine, &mut reports, Device::Keyboard, a, EventKind::Down, 5), Verdict::Suppress);
    // The discarded paired up is also suppressed, but it's the same chatter incident:
    // it must not tick the counter a second time.
    assert_eq!(decide_and_report(&mut engine, &mut reports, Device::Keyboard, a, EventKind::Up, 6), Verdict::Suppress);

    match reports.as_slice() {
        [Report::Suppressed { device: Device::Keyboard, key: KeyCode::Letter('A'), gap_ms: 5 }] => {}
        other => panic!("expected exactly one Suppressed{{A, gap 5}} report, got {other:?}"),
    }
}

// --- the downstream view: what survives the hook, event by event ---

const THR: Thresholds = Thresholds { keyboard_ms: 30, mouse_ms: 40 };

/// Drive a scripted sequence of `(key, down, gap since the previous event)` through
/// the keyboard path, the way the integration build's hook sees synthesized input
/// (injected, and processed), and return the events that reached downstream.
fn keyboard_downstream(script: &[(u32, bool, u64)]) -> Vec<(u32, bool)> {
    let mut engine = Engine::new();
    engine.set_thresholds(THR);
    let mut t = 0u64;
    let mut observed = Vec::new();
    for &(vk, down, gap) in script {
        t += gap;
        let msg = if down { WM_KEYDOWN } else { WM_KEYUP };
        let kind = keyboard_transition(msg).unwrap();
        let d = decide(&mut engine, true, Device::Keyboard, vk_to_keycode(vk), kind, true, t);
        if d.verdict == Verdict::Pass {
            observed.push((vk, down));
        }
    }
    observed
}

/// The same for mouse messages: `(message, gap)` pairs.
fn mouse_downstream(script: &[(u32, u64)]) -> Vec<(KeyId, EventKind)> {
    let mut engine = Engine::new();
    engine.set_thresholds(THR);
    let mut t = 0u64;
    let mut observed = Vec::new();
    for &(msg, gap) in script {
        t += gap;
        let (kind, button) = mouse_button(msg, 0).unwrap();
        let d = decide(&mut engine, true, Device::Mouse, button, kind, true, t);
        if d.verdict == Verdict::Pass {
            observed.push((button, kind));
        }
    }
    observed
}

fn count_downs(observed: &[(u32, bool)], vk: u32) -> usize {
    observed.iter().filter(|k| **k == (vk, true)).count()
}

#[test]
fn chatter_down_is_suppressed_downstream() {
    let observed = keyboard_downstream(&[(0x41, true, 0), (0x41, false, 0), (0x41, true, 5)]);
    assert_eq!(count_downs(&observed, 0x41), 1, "the 5 ms re-press should be suppressed; observed={observed:?}");
}

#[test]
fn well_spaced_presses_both_pass() {
    let observed = keyboard_downstream(&[(0x41, true, 0), (0x41, false, 0), (0x41, true, 200), (0x41, false, 0)]);
    assert_eq!(count_downs(&observed, 0x41), 2, "both deliberate presses should pass; observed={observed:?}");
}

#[test]
fn double_click_chatter_is_suppressed() {
    let observed = mouse_downstream(&[(WM_LBUTTONDOWN, 0), (WM_LBUTTONUP, 0), (WM_LBUTTONDOWN, 10), (WM_LBUTTONUP, 0)]);
    let left = KeyCode::Mouse(MouseButton::Left);
    let downs = observed.iter().filter(|e| **e == (left, EventKind::Down)).count();
    assert_eq!(downs, 1, "the 10 ms re-click should be suppressed; observed={observed:?}");
}

#[test]
fn well_spaced_double_click_both_pass() {
    let observed = mouse_downstream(&[(WM_LBUTTONDOWN, 0), (WM_LBUTTONUP, 0), (WM_LBUTTONDOWN, 150), (WM_LBUTTONUP, 0)]);
    let left = KeyCode::Mouse(MouseButton::Left);
    let downs = observed.iter().filter(|e| **e == (left, EventKind::Down)).count();
    assert_eq!(downs, 2, "both deliberate clicks should pass; observed={observed:?}");
}

// --- further cases ---

#[test]
fn injected_events_pass_untouched_in_production() {
    let mut engine = Engine::new();
    let a = KeyCode::Letter('A');
    let d = decide(&mut engine, false, Device::Keyboard, a, EventKind::Down, true, 0);
    assert_eq!(d, HookDecision { verdict: Verdict::Pass, mode_report: None, suppressed_report: None });
    decide(&mut engine, false, Device::Keyboard, a, EventKind::Up, true, 0);
    // The engine never saw the injected press/release, so nothing here is chatter.
    assert_eq!(decide(&mut engine, false, Device::Keyboard, a, EventKind::Down, false, 5).verdict, Verdict::Pass);
}

#[test]
fn the_panic_chord_reports_the_mode_change() {
    let mut engine = Engine::new();
    let mut reports = Vec::new();
    for (i, k) in [KeyCode::Control, KeyCode::Alt, KeyCode::Shift].into_iter().enumerate() {
        decide_and_report(&mut engine, &mut reports, Device::Keyboard, k, EventKind::Down, i as u64);
    }
    let v = decide_and_report(&mut engine, &mut reports, Device::Keyboard, KeyCode::Function(12), EventKind::Down, 3);
    assert_eq!(v, Verdict::Suppress);
    assert_eq!(reports, vec![Report::ModeChanged(Mode::Panic)]);
}

#[test]
fn evdev_repeats_and_non_key_events_are_replayed() {
    let mut engine = Engine::new();
    let pass = HookDecision { verdict: Verdict::Pass, mode_report: None, suppressed_report: None };
    // KEY_A press, release, then a 5 ms re-press: suppressed.
    assert_eq!(decide_evdev(&mut engine, true, 30, 1, 0).verdict, Verdict::Pass);
    assert_eq!(decide_evdev(&mut engine, true, 30, 0, 0).verdict, Verdict::Pass);
    let d = decide_evdev(&mut engine, true, 30, 1, 5);
    assert_eq!(d.verdict, Verdict::Suppress);
    assert_eq!(
        d.suppressed_report,
        Some(Report::Suppressed { device: Device::Keyboard, key: KeyCode::Letter('A'), gap_ms: 5 })
    );
    // An auto-repeat (value 2) and a non-key event are never decisions.
    assert_eq!(decide_evdev(&mut engine, true, 30, 2, 6), pass);
    assert_eq!(decide_evdev(&mut engine, false, 0, 0, 7), pass);
}

#[test]
fn evdev_transitions() {
    assert_eq!(key_transition(0), Some(EventKind::Up));
    assert_eq!(key_transition(1), Some(EventKind::Down));
    assert_eq!(key_transition(2), None);
    assert_eq!(key_transition(-1), None);
}

#[test]
fn commands_drive_the_engine_and_only_shutdown_stops() {
    let mut engine = Engine::new();
    assert!(!apply_command(&mut engine, Command::SetMode(Mode::Paused)));
    assert_eq!(engine.mode(), Mode::Paused);
    assert!(!apply_command(&mut engine, Command::SetDiagnostic(true)));
    assert_eq!(engine.mode(), Mode::Paused);
    assert!(!apply_command(&mut engine, Command::SetThresholds(Thresholds { keyboard_ms: 0, mouse_ms: 0 })));
    assert!(!apply_command(&mut engine, Command::RebindPanic(PanicChord::new(&[KeyCode::Control, KeyCode::Letter('Q')]).unwrap())));
    assert!(!apply_command(&mut engine, Command::SetMode(Mode::Active)));
    // Zero thresholds: a quick re-press now passes.
    let a = KeyCode::Letter('A');
    decide(&mut engine, false, Device::Keyboard, a, EventKind::Down, false, 0);
    decide(&mut engine, false, Device::Keyboard, a, EventKind::Up, false, 0);
    assert_eq!(decide(&mut engine, false, Device::Keyboard, a, EventKind::Down, false, 1).verdict, Verdict::Pass);
    // The rebound chord toggles.
    decide(&mut engine, false, Device::Keyboard, KeyCode::Control, EventKind::Down, false, 2);
    let d = decide(&mut engine, false, Device::Keyboard, KeyCode::Letter('Q'), EventKind::Down, false, 3);
    assert_eq!(d.mode_report, Some(Report::ModeChanged(Mode::Panic)));
    assert!(apply_command(&mut engine, Command::Shutdown));
}

#[test]
fn windows_keyboard_messages() {
    assert_eq!(keyboard_transition(WM_KEYDOWN), Some(EventKind::Down));
    assert_eq!(keyboard_transition(WM_SYSKEYDOWN), Some(EventKind::Down));
    assert_eq!(keyboard_transition(WM_KEYUP), Some(EventKind::Up));
    assert_eq!(keyboard_transition(WM_SYSKEYUP), Some(EventKind::Up));
    assert_eq!(keyboard_transition(0x0102), None);
}

#[test]
fn windows_mouse_messages() {
    assert_eq!(mouse_button(WM_RBUTTONDOWN, 0), Some((EventKind::Down, KeyCode::Mouse(MouseButton::Right))));
    assert_eq!(mouse_button(WM_MBUTTONUP, 0), Some((EventKind::Up, KeyCode::Mouse(MouseButton::Middle))));
    assert_eq!(mouse_button(WM_XBUTTONDOWN, 1 << 16), Some((EventKind::Down, KeyCode::Mouse(MouseButton::X1))));
    assert_eq!(mouse_button(WM_XBUTTONUP, 2 << 16), Some((EventKind::Up, KeyCode::Mouse(MouseButton::X2))));
    assert_eq!(mouse_button(WM_XBUTTONUP, 3 << 16), None);
    // Move and wheel are not button events.
    assert_eq!(mouse_button(0x0200, 0), None);
    assert_eq!(mouse_button(0x020A, 0), None);
}

#[test]
fn windows_virtual_keys() {
    assert_eq!(vk_to_keycode(0x10), KeyCode::Shift);
    assert_eq!(vk_to_keycode(0xA1), KeyCode::Shift);
    assert_eq!(vk_to_keycode(0xA2), KeyCode::Control);
    assert_eq!(vk_to_keycode(0x12), KeyCode::Alt);
    assert_eq!(vk_to_keycode(0x5C), KeyCode::Meta);
    assert_eq!(vk_to_keycode(0x30), KeyCode::Digit(0));
    assert_eq!(vk_to_keycode(0x39), KeyCode::Digit(9));
    assert_eq!(vk_to_keycode(0x5A), KeyCode::Letter('Z'));
    assert_eq!(vk_to_keycode(0x7B), KeyCode::Function(12));
    assert_eq!(vk_to_keycode(0x87), KeyCode::Function(24));
    assert_eq!(vk_to_keycode(0x01), KeyCode::Mouse(MouseButton::Left));
    assert_eq!(vk_to_keycode(0x06), KeyCode::Mouse(MouseButton::X2));
    assert_eq!(vk_to_keycode(0x20), KeyCode::Other(0x20));
}

#[test]
fn failed_sources_are_dropped_and_the_rest_keep_their_order() {
    let mut sources = vec!["kbd0", "mouse0", "kbd1", "mouse1"];
    drop_failed(&mut sources, &vec![1, 3]);
    assert_eq!(sources, vec!["kbd0", "kbd1"]);
    drop_failed(&mut sources, &vec![]);
    assert_eq!(sources, vec!["kbd0", "kbd1"]);
    drop_failed(&mut sources, &vec![1, 0, 0]);
    assert!(sources.is_empty());
}
