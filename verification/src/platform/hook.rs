//! The per-event and per-command decisions every OS backend makes around the
//! [`Engine`].
//!
//! A backend owns the engine on its hook thread. For each raw input event it asks
//! [`decide`] for a verdict and for the reports to send to the UI; for each
//! `Command` drained from the UI channel it calls [`apply_command`]. The sending
//! itself, and the OS calls, stay in the backend.

use vstd::prelude::*;

use crate::config::Config;
use crate::messages::{Command, Report};
use crate::platform::evdev_keycode::{device_class, device_of, keycode_of, to_keycode};
use crate::pure_core::debouncer::DebounceState;
use crate::pure_core::engine::{call_step, engine_step, EngineCall, EngineState};
use crate::pure_core::panic::PanicState;
use crate::stats::{bump, record_step, StatsView};
use crate::pure_core::{Device, Engine, EventKind, InputEvent, KeyId, Mode, Outcome, Verdict};
use crate::ui::settings::active_thresholds;

verus! {

/// What one input event turns into: the verdict for the OS, and the reports (if
/// any) the backend sends to the UI afterwards, off the hot path.
#[derive(Debug, Clone, Copy, PartialEq, Eq, Structural)]
pub struct HookDecision {
    pub verdict: Verdict,
    /// `ModeChanged`, when the event toggled the panic mode.
    pub mode_report: Option<Report>,
    /// `Suppressed`, when the event was a chatter down the debouncer swallowed.
    pub suppressed_report: Option<Report>,
}

/// The decision for an event the engine did not see: pass it, report nothing.
pub open spec fn pass_untouched() -> HookDecision {
    HookDecision { verdict: Verdict::Pass, mode_report: None, suppressed_report: None }
}

/// The decision carrying an engine outcome for an event of `device` and `key`.
pub open spec fn decision_of(out: Outcome, device: Device, key: KeyId) -> HookDecision {
    HookDecision {
        verdict: out.verdict,
        mode_report: match out.mode_change {
            Some(mode) => Some(Report::ModeChanged(mode)),
            None => None,
        },
        suppressed_report: match out.chatter_gap_ms {
            Some(gap_ms) => Some(Report::Suppressed { device, key, gap_ms }),
            None => None,
        },
    }
}

/// The reports of a decision speak of the event it was made for: the verdict is the
/// engine's; a suppression is reported exactly when the engine measured a chatter
/// gap, as a `Suppressed` report that names the event's own device and key and that
/// gap; a mode change is reported exactly when the engine changed mode, with the
/// new mode.
pub proof fn lemma_reports_name_the_event(out: Outcome, device: Device, key: KeyId)
    ensures
        decision_of(out, device, key).verdict == out.verdict,
        (decision_of(out, device, key).suppressed_report is Some) == (out.chatter_gap_ms is Some),
        (decision_of(out, device, key).suppressed_report matches Some(r) ==> r is Suppressed),
        (decision_of(out, device, key).suppressed_report matches Some(
            Report::Suppressed { device: dv, key: k, gap_ms: g },
        ) ==> dv == device && k == key && out.chatter_gap_ms == Some(g)),
        (decision_of(out, device, key).mode_report is Some) == (out.mode_change is Some),
        (decision_of(out, device, key).mode_report matches Some(r) ==> r == Report::ModeChanged(
            out.mode_change->0,
        )),
{
}

/// A reported suppression is counted for the device of the event that caused it:
/// folding the decision's `Suppressed` report into the stats bumps that device's
/// counter and leaves the other device's counter alone.
pub proof fn lemma_suppression_counts_for_its_device(
    st: StatsView,
    out: Outcome,
    device: Device,
    key: KeyId,
    now: u64,
)
    requires
        out.chatter_gap_ms is Some,
    ensures
        ({
            let st1 = record_step(st, decision_of(out, device, key).suppressed_report->0, now);
            &&& device == Device::Keyboard ==> st1.keyboard == bump(st.keyboard) && st1.mouse
                == st.mouse
            &&& device == Device::Mouse ==> st1.mouse == bump(st.mouse) && st1.keyboard
                == st.keyboard
        }),
{
}

/// Run one event through the engine and say what to do with it. An injected event
/// passes untouched (and the engine does not see it) unless `process_injected` is
/// set: chatter is physical, never synthetic.
pub fn decide(
    engine: &mut Engine,
    process_injected: bool,
    device: Device,
    key: KeyId,
    kind: EventKind,
    injected: bool,
    time_ms: u64,
) -> (d: HookDecision)
    ensures
        injected && !process_injected ==> final(engine)@ == old(engine)@ && d == pass_untouched(),
        !(injected && !process_injected) ==> ({
            let event = InputEvent { device, key, kind, timestamp_ms: time_ms, injected };
            let (s1, out) = engine_step(old(engine)@, event);
            final(engine)@ == s1 && d == decision_of(out, device, key)
        }),
        !(injected && !process_injected) ==> ({
            let event = InputEvent { device, key, kind, timestamp_ms: time_ms, injected };
            let out = engine_step(old(engine)@, event).1;
            &&& d.verdict == out.verdict
            &&& (d.suppressed_report is Some) == (out.chatter_gap_ms is Some)
            &&& (out.chatter_gap_ms matches Some(g) ==> d.suppressed_report == Some(
                Report::Suppressed { device, key, gap_ms: g },
            ))
        }),
        (d.suppressed_report matches Some(Report::Suppressed { device: dv, key: k, gap_ms: _ })
            ==> dv == device && k == key),
{
    if injected && !process_injected {
        return HookDecision { verdict: Verdict::Pass, mode_report: None, suppressed_report: None };
    }
    let event = InputEvent { device, key, kind, timestamp_ms: time_ms, injected };
    let outcome = engine.on_event(event);
    let mode_report = match outcome.mode_change {
        Some(mode) => Some(Report::ModeChanged(mode)),
        None => None,
    };
    let suppressed_report = match outcome.chatter_gap_ms {
        Some(gap_ms) => Some(Report::Suppressed { device, key, gap_ms }),
        None => None,
    };
    HookDecision { verdict: outcome.verdict, mode_report, suppressed_report }
}

/// The switch transition an evdev `EV_KEY` value stands for: `0` is a release, `1` a
/// press; anything else (`2`, a kernel auto-repeat) is no physical transition.
pub open spec fn evdev_transition(value: i32) -> Option<EventKind> {
    if value == 0 {
        Some(EventKind::Up)
    } else if value == 1 {
        Some(EventKind::Down)
    } else {
        None
    }
}

/// [`evdev_transition`], computed.
pub fn key_transition(value: i32) -> (r: Option<EventKind>)
    ensures
        r == evdev_transition(value),
{
    match value {
        0 => Some(EventKind::Up),
        1 => Some(EventKind::Down),
        _ => None,
    }
}

/// The decision for one event read from a grabbed evdev device at `now_ms`. Only
/// real key/button transitions are decisions; auto-repeats and every non-key event
/// (pointer motion, scroll, `MSC_SCAN`, `SYN_REPORT`) are replayed untouched, so the
/// replayed stream matches the hardware's apart from the missing chatter. A grabbed
/// hardware device only delivers physical events, so nothing is injected.
pub fn decide_evdev(engine: &mut Engine, is_key: bool, code: u16, value: i32, now_ms: u64) -> (d:
    HookDecision)
    ensures
        !is_key || evdev_transition(value) is None ==> final(engine)@ == old(engine)@ && d
            == pass_untouched(),
        is_key && evdev_transition(value) is Some ==> ({
            let event = InputEvent {
                device: device_of(code),
                key: keycode_of(code),
                kind: evdev_transition(value)->0,
                timestamp_ms: now_ms,
                injected: false,
            };
            let (s1, out) = engine_step(old(engine)@, event);
            final(engine)@ == s1 && d == decision_of(out, device_of(code), keycode_of(code))
        }),
        (d.suppressed_report matches Some(Report::Suppressed { device: dv, key: k, gap_ms: _ })
            ==> dv == device_of(code) && k == keycode_of(code)),
{
    if !is_key {
        return HookDecision { verdict: Verdict::Pass, mode_report: None, suppressed_report: None };
    }
    match key_transition(value) {
        Some(kind) => {
            let device = device_class(code);
            let key = to_keycode(code);
            decide(engine, false, device, key, kind, false, now_ms)
        },
        None => HookDecision { verdict: Verdict::Pass, mode_report: None, suppressed_report: None },
    }
}

/// The engine after one command, and whether the command asks the backend to stop.
/// The diagnostic toggle is the UI's business and leaves the engine alone.
pub open spec fn command_step(s: EngineState, cmd: Command) -> (EngineState, bool) {
    match cmd {
        Command::SetThresholds(thresholds) => (EngineState { thresholds, ..s }, false),
        Command::SetMode(mode) => (EngineState { mode, ..s }, false),
        Command::SetDiagnostic(_) => (s, false),
        Command::RebindPanic(chord) => (
            EngineState {
                panic: PanicState { chord: chord@, held: Set::empty(), was_full: false },
                ..s
            },
            false,
        ),
        Command::Shutdown => (s, true),
    }
}

/// Each command is the engine setter of its name: `SetThresholds(t)` leaves the
/// engine debouncing keyboards at `t`'s keyboard threshold and mice at its mouse
/// threshold, with nothing else changed; `SetMode` and `RebindPanic` are
/// `set_mode` and `set_panic_chord`; `SetDiagnostic` and `Shutdown` leave the engine
/// alone; and only `Shutdown` stops the backend.
pub proof fn lemma_commands_are_the_engine_setters(s: EngineState, cmd: Command)
    ensures
        command_step(s, cmd).1 == (cmd is Shutdown),
        (cmd matches Command::SetThresholds(t) ==> command_step(s, cmd).0.thresholds.keyboard_ms
            == t.keyboard_ms && command_step(s, cmd).0.thresholds.mouse_ms == t.mouse_ms),
        (cmd matches Command::SetThresholds(t) ==> forall|dev: Device|
            command_step(s, cmd).0.thresholds.spec_for_device(dev) == t.spec_for_device(dev)),
        (cmd matches Command::SetThresholds(t) ==> command_step(s, cmd).0 == call_step(
            s,
            EngineCall::SetThresholds(t),
        )),
        (cmd matches Command::SetMode(m) ==> command_step(s, cmd).0 == call_step(
            s,
            EngineCall::SetMode(m),
        )),
        (cmd matches Command::RebindPanic(c) ==> command_step(s, cmd).0 == call_step(
            s,
            EngineCall::SetChord(c@),
        )),
        (cmd is SetDiagnostic || cmd is Shutdown) ==> command_step(s, cmd).0 == s,
{
}

/// Apply one `Command` to the engine. Returns `true` for `Shutdown`.
pub fn apply_command(engine: &mut Engine, cmd: Command) -> (stop: bool)
    ensures
        (final(engine)@, stop) == command_step(old(engine)@, cmd),
        stop == (cmd is Shutdown),
        (cmd matches Command::SetThresholds(t) ==> final(engine)@.thresholds.keyboard_ms
            == t.keyboard_ms && final(engine)@.thresholds.mouse_ms == t.mouse_ms),
        (cmd matches Command::SetThresholds(t) ==> final(engine)@ == call_step(
            old(engine)@,
            EngineCall::SetThresholds(t),
        )),
        (cmd matches Command::SetMode(m) ==> final(engine)@ == call_step(
            old(engine)@,
            EngineCall::SetMode(m),
        )),
        (cmd matches Command::RebindPanic(c) ==> final(engine)@ == call_step(
            old(engine)@,
            EngineCall::SetChord(c@),
        )),
        (cmd is SetDiagnostic || cmd is Shutdown) ==> final(engine)@ == old(engine)@,
{
    match cmd {
        Command::SetThresholds(thresholds) => {
            engine.set_thresholds(thresholds);
            false
        },
        Command::SetMode(mode) => {
            engine.set_mode(mode);
            false
        },
        Command::SetDiagnostic(_) => false,
        Command::RebindPanic(chord) => {
            engine.set_panic_chord(chord);
            false
        },
        Command::Shutdown => true,
    }
}

/// The engine a backend starts with: the settings' thresholds (a class that is not
/// debounced at 0 ms), Active or Paused as the settings say, and the settings'
/// panic chord; nothing held, nothing recorded.
pub fn configured_engine(cfg: &Config) -> (e: Engine)
    ensures
        e@ == (EngineState {
            mode: if cfg@.enabled {
                Mode::Active
            } else {
                Mode::Paused
            },
            thresholds: active_thresholds(cfg@),
            debounce: DebounceState::initial(),
            panic: PanicState { chord: cfg@.panic_hotkey, held: Set::empty(), was_full: false },
        }),
{
    let mut engine = Engine::new();
    engine.set_thresholds(cfg.thresholds());
    engine.set_mode(cfg.initial_mode());
    engine.set_panic_chord(cfg.panic_hotkey.clone());
    engine
}

/// The items of `s` from index `i` on whose index is not in `failed`, in order.
pub open spec fn survivors_from<T>(s: Seq<T>, failed: Seq<usize>, i: int) -> Seq<T>
    decreases s.len() - i,
{
    if i < 0 || i >= s.len() {
        Seq::empty()
    } else if failed.contains(i as usize) {
        survivors_from(s, failed, i + 1)
    } else {
        seq![s[i]] + survivors_from(s, failed, i + 1)
    }
}

/// Stop watching the sources at the `failed` indices (the devices whose read
/// failed, most likely unplugged): the others stay, in their order.
pub fn drop_failed<T>(sources: &mut Vec<T>, failed: &Vec<usize>)
    ensures
        final(sources)@ == survivors_from(old(sources)@, failed@, 0),
{
    let ghost all = sources@;
    let mut kept: Vec<T> = Vec::new();
    let mut i = sources.len();
    while i > 0
        invariant
            i <= all.len(),
            sources@ == all.subrange(0, i as int),
            kept@ == survivors_from(all, failed@, i as int),
        decreases i,
    {
        i = i - 1;
        let x = sources.pop().unwrap();
        assert(sources@ =~= all.subrange(0, i as int));
        let mut dead = false;
        let mut j: usize = 0;
        while j < failed.len()
            invariant
                j <= failed@.len(),
                dead == (exists|t: int| 0 <= t < j && failed@[t] == i),
            decreases failed.len() - j,
        {
            if failed[j] == i {
                dead = true;
            }
            j = j + 1;
        }
        assert(dead == failed@.contains(i));
        if !dead {
            kept.insert(0, x);
            assert(kept@ =~= seq![all[i as int]] + survivors_from(all, failed@, i + 1));
        }
    }
    *sources = kept;
}

} // verus!
