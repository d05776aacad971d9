//! The pure decision engine: composes `Debouncer` + `PanicDetector` + `Mode` into
//! one synchronous `on_event` call.

use vstd::prelude::*;

use crate::pure_core::debouncer::{
    debounce_run, debounce_step, is_chatter, last_passed_up, lemma_decide_after_history,
    release_pending, DebounceState, Debouncer, Thresholds,
};
use crate::pure_core::event::{EventKind, InputEvent, KeyCode};
use crate::pure_core::mode::Mode;
use crate::pure_core::panic::{
    chord_full, chord_held_after, chord_wf, latest_is_down, lemma_detect_after_history,
    lemma_detector_reflects_history, panic_run, panic_step, PanicChord, PanicDetector, PanicState,
};
use crate::pure_core::verdict::{Outcome, Verdict};

verus! {

/// The abstract state of an [`Engine`].
#[verifier::ext_equal]
pub struct EngineState {
    pub mode: Mode,
    pub thresholds: Thresholds,
    pub debounce: DebounceState,
    pub panic: PanicState,
}

/// The mode after a panic-chord toggle: Panic flips back to Active, any other mode
/// enters Panic.
pub open spec fn toggled_mode(mode: Mode) -> Mode {
    if mode == Mode::Panic {
        Mode::Active
    } else {
        Mode::Panic
    }
}

/// One engine decision. The panic detector sees every event regardless of mode and
/// toggles Panic on the chord's rising edge; the chord's keys are consumed while
/// it is fully held. Otherwise the verdict is mode-gated: `Active` delegates to the
/// debouncer, `Paused` and `Panic` pass everything.
pub open spec fn engine_step(s: EngineState, event: InputEvent) -> (EngineState, Outcome) {
    let (p1, reaction) = panic_step(s.panic, event);
    let mode1 = if reaction.toggled {
        toggled_mode(s.mode)
    } else {
        s.mode
    };
    let change = if reaction.toggled {
        Some(mode1)
    } else {
        None
    };
    if reaction.consume {
        (
            EngineState { mode: mode1, thresholds: s.thresholds, debounce: s.debounce, panic: p1 },
            Outcome { verdict: Verdict::Suppress, mode_change: change, chatter_gap_ms: None },
        )
    } else if mode1 == Mode::Active {
        let (d1, v, gap) = debounce_step(s.debounce, event, s.thresholds);
        (
            EngineState { mode: mode1, thresholds: s.thresholds, debounce: d1, panic: p1 },
            Outcome { verdict: v, mode_change: change, chatter_gap_ms: gap },
        )
    } else {
        (
            EngineState { mode: mode1, thresholds: s.thresholds, debounce: s.debounce, panic: p1 },
            Outcome { verdict: Verdict::Pass, mode_change: change, chatter_gap_ms: None },
        )
    }
}

/// The thresholds an engine starts with: keyboard 30 ms, mouse 40 ms.
pub open spec fn default_thresholds() -> Thresholds {
    Thresholds { keyboard_ms: 30, mouse_ms: 40 }
}

/// Owns all decision state. Lives on the hook thread; called synchronously from
/// the hook callback. Pure — no OS, no clock, no I/O.
#[derive(Debug)]
pub struct Engine {
    mode: Mode,
    thresholds: Thresholds,
    debouncer: Debouncer,
    panic: PanicDetector,
}

impl View for Engine {
    type V = EngineState;

    closed spec fn view(&self) -> EngineState {
        EngineState {
            mode: self.mode,
            thresholds: self.thresholds,
            debounce: self.debouncer@,
            panic: self.panic@,
        }
    }
}

impl Default for Engine {
    fn default() -> (e: Self)
        ensures
            e@ == new_engine_state(),
    {
        Engine {
            mode: Mode::Active,
            // Safe fallback thresholds matching the settings defaults; the shell
            // overrides these from the loaded settings.
            thresholds: Thresholds { keyboard_ms: 30, mouse_ms: 40 },
            debouncer: Debouncer::new(),
            panic: PanicDetector::default(),
        }
    }
}

impl Engine {
    pub fn new() -> (e: Self)
        ensures
            e@ == new_engine_state(),
    {
        Self::default()
    }

    /// The current mode.
    pub fn mode(&self) -> (m: Mode)
        ensures
            m == self@.mode,
    {
        self.mode
    }

    /// Set the primary `Mode` (Pause/Resume, or clearing Panic).
    pub fn set_mode(&mut self, mode: Mode)
        ensures
            final(self)@ == (EngineState { mode, ..old(self)@ }),
    {
        self.mode = mode;
    }

    /// Set the active chatter thresholds.
    pub fn set_thresholds(&mut self, thresholds: Thresholds)
        ensures
            final(self)@ == (EngineState { thresholds, ..old(self)@ }),
    {
        self.thresholds = thresholds;
    }

    /// Swap in a new panic chord (a live rebind); the detector starts afresh.
    pub fn set_panic_chord(&mut self, chord: PanicChord)
        ensures
            final(self)@ == (EngineState {
                panic: PanicState { chord: chord@, held: Set::empty(), was_full: false },
                ..old(self)@
            }),
    {
        self.panic.set_chord(chord);
    }

    /// The single synchronous decision for one input event (see [`engine_step`]).
    /// Defined for every event and every state: it never fails.
    pub fn on_event(&mut self, event: InputEvent) -> (r: Outcome)
        ensures
            (final(self)@, r) == engine_step(old(self)@, event),
    {
        let reaction = self.panic.on_event(event);
        let mode_change = if reaction.toggled {
            let next = if self.mode == Mode::Panic {
                Mode::Active
            } else {
                Mode::Panic
            };
            self.mode = next;
            Some(next)
        } else {
            None
        };
        if reaction.consume {
            return Outcome { verdict: Verdict::Suppress, mode_change, chatter_gap_ms: None };
        }
        match self.mode {
            Mode::Active => {
                let (verdict, gap) = self.debouncer.decide_with_gap(event, self.thresholds);
                Outcome { verdict, mode_change, chatter_gap_ms: gap }
            },
            Mode::Paused | Mode::Panic => Outcome {
                verdict: Verdict::Pass,
                mode_change,
                chatter_gap_ms: None,
            },
        }
    }
}

/// Fail-open: the engine suppresses only what it is certain about — the panic
/// chord's own keys while the chord is held, a chatter down in Active mode, or the
/// release paired with a suppressed down. Everything else passes.
pub proof fn lemma_suppress_only_when_certain(s: EngineState, event: InputEvent)
    ensures
        ({
            let (_, out) = engine_step(s, event);
            let (p1, reaction) = panic_step(s.panic, event);
            let k = event.key.spec_index() as u64;
            out.verdict == Verdict::Suppress ==> (reaction.consume || (
                (if reaction.toggled { toggled_mode(s.mode) } else { s.mode }) == Mode::Active && (
                is_chatter(s.debounce, event, s.thresholds) || (event.kind == EventKind::Up
                    && s.debounce.suppressing.contains(k)))))
        }),
{
}

/// In a pass-through mode (Paused or Panic) every event passes, except the panic
/// chord's own keys, which are consumed while the chord is fully held. A Paused
/// engine leaves Paused only through the chord, and then only into Panic.
pub proof fn lemma_pass_through_modes_pass(s: EngineState, event: InputEvent)
    requires
        s.mode.is_pass_through(),
    ensures
        ({
            let (s1, out) = engine_step(s, event);
            let (_, reaction) = panic_step(s.panic, event);
            &&& !reaction.consume && !(s.mode == Mode::Panic && reaction.toggled)
                ==> out.verdict == Verdict::Pass
            &&& s.mode == Mode::Paused ==> (s1.mode == Mode::Paused || (reaction.toggled
                && s1.mode == Mode::Panic))
            &&& s1.debounce == s.debounce || s1.mode == Mode::Active
        }),
{
}

/// The chord toggles Panic: from Active or Paused it enters Panic, from Panic it
/// returns to Active, and the mode change is reported on that event.
pub proof fn lemma_chord_toggles_panic(s: EngineState, event: InputEvent)
    requires
        panic_step(s.panic, event).1.toggled,
    ensures
        ({
            let (s1, out) = engine_step(s, event);
            &&& s1.mode == toggled_mode(s.mode)
            &&& out.mode_change == Some(s1.mode)
            &&& out.verdict == Verdict::Suppress
        }),
{
}

/// Events that do not complete the chord never change the mode.
pub proof fn lemma_mode_changes_only_on_chord(s: EngineState, event: InputEvent)
    requires
        !panic_step(s.panic, event).1.toggled,
    ensures
        ({
            let (s1, out) = engine_step(s, event);
            s1.mode == s.mode && out.mode_change is None
        }),
{
}

/// Runs a history of events through the engine from state `s`, oldest first,
/// returning the final state and the outcome of each event in order.
pub open spec fn engine_run(s: EngineState, events: Seq<InputEvent>) -> (EngineState, Seq<Outcome>)
    decreases events.len(),
{
    if events.len() == 0 {
        (s, Seq::empty())
    } else {
        let (s0, outs) = engine_run(s, events.drop_last());
        let (s1, out) = engine_step(s0, events.last());
        (s1, outs.push(out))
    }
}

/// `n` decisions all made under the thresholds `t`.
pub open spec fn same_thresholds(t: Thresholds, n: nat) -> Seq<Thresholds> {
    Seq::new(n, |i: int| t)
}

/// Whether the engine in state `s` hands `event` to the debouncer: the event is not
/// consumed as a chord key, and the mode after the chord check is Active.
pub open spec fn reaches_debouncer(s: EngineState, event: InputEvent) -> bool {
    let (_, reaction) = panic_step(s.panic, event);
    let mode1 = if reaction.toggled {
        toggled_mode(s.mode)
    } else {
        s.mode
    };
    !reaction.consume && mode1 == Mode::Active
}

/// The events of a history that the engine, from state `s`, handed to its debouncer,
/// in order.
pub open spec fn debounced_events(s: EngineState, events: Seq<InputEvent>) -> Seq<InputEvent>
    decreases events.len(),
{
    if events.len() == 0 {
        Seq::empty()
    } else {
        let pre = events.drop_last();
        if reaches_debouncer(engine_run(s, pre).0, events.last()) {
            debounced_events(s, pre).push(events.last())
        } else {
            debounced_events(s, pre)
        }
    }
}

/// The engine is its parts run over its history: its detector has seen every event,
/// its debouncer exactly the events handed to it (each not consumed, with the mode
/// after the chord check Active), and its thresholds never change by themselves.
pub proof fn lemma_engine_reflects_history(s0: EngineState, events: Seq<InputEvent>)
    ensures
        ({
            let (s, outs) = engine_run(s0, events);
            &&& outs.len() == events.len()
            &&& s.thresholds == s0.thresholds
            &&& s.panic == panic_run(s0.panic, events).0
            &&& s.debounce == debounce_run(
                s0.debounce,
                debounced_events(s0, events),
                same_thresholds(s0.thresholds, debounced_events(s0, events).len()),
            ).0
        }),
    decreases events.len(),
{
    if events.len() > 0 {
        let pre = events.drop_last();
        lemma_engine_reflects_history(s0, pre);
        let d = debounced_events(s0, pre);
        if reaches_debouncer(engine_run(s0, pre).0, events.last()) {
            let d1 = d.push(events.last());
            assert(d1.drop_last() =~= d);
            assert(d1.last() == events.last());
            assert(same_thresholds(s0.thresholds, d1.len()).drop_last() =~= same_thresholds(
                s0.thresholds,
                d.len(),
            ));
        }
    }
}

/// What `on_event` does after any history: with `m` the engine's mode and the
/// detector's reaction to the event after the whole history, the mode becomes `m`
/// toggled on a rising chord edge (reported as the mode change, and only then); the
/// verdict is Suppress for a consumed chord key, otherwise the verdict of a
/// debouncer fed exactly the earlier events the engine handed it when the new mode
/// is Active, and Pass in Paused or Panic.
pub proof fn lemma_on_event_after_history(s0: EngineState, events: Seq<InputEvent>, event: InputEvent)
    ensures
        ({
            let (s, _) = engine_run(s0, events);
            let (s1, out) = engine_step(s, event);
            let (_, r) = panic_step(panic_run(s0.panic, events).0, event);
            let m2 = if r.toggled {
                toggled_mode(s.mode)
            } else {
                s.mode
            };
            let (_, v, _) = debounce_step(
                debounce_run(
                    s0.debounce,
                    debounced_events(s0, events),
                    same_thresholds(s0.thresholds, debounced_events(s0, events).len()),
                ).0,
                event,
                s0.thresholds,
            );
            &&& out.mode_change == (if r.toggled {
                Some(m2)
            } else {
                None
            })
            &&& s1.mode == m2
            &&& out.verdict == (if r.consume {
                Verdict::Suppress
            } else if m2 == Mode::Active {
                v
            } else {
                Verdict::Pass
            })
        }),
{
    lemma_engine_reflects_history(s0, events);
}

/// Fail-open over whole sequences: in Paused or Panic, with the chord not fully
/// held, any run of events whose keys are not chord keys passes event by event,
/// reports no mode change and leaves the mode where it was.
pub proof fn lemma_pass_through_runs_pass(s: EngineState, events: Seq<InputEvent>)
    requires
        s.mode.is_pass_through(),
        !chord_full(s.panic.chord, s.panic.held),
        forall|i: int| 0 <= i < events.len() ==> !s.panic.chord.contains(#[trigger] events[i].key),
    ensures
        ({
            let (s1, outs) = engine_run(s, events);
            &&& s1.mode == s.mode
            &&& s1.panic.chord == s.panic.chord
            &&& !chord_full(s1.panic.chord, s1.panic.held)
            &&& outs.len() == events.len()
            &&& forall|i: int|
                0 <= i < outs.len() ==> (#[trigger] outs[i]).verdict == Verdict::Pass
                    && outs[i].mode_change is None
        }),
    decreases events.len(),
{
    if events.len() > 0 {
        let pre = events.drop_last();
        assert forall|i: int| 0 <= i < pre.len() implies !s.panic.chord.contains(
            #[trigger] pre[i].key,
        ) by {
            assert(pre[i] == events[i]);
        }
        lemma_pass_through_runs_pass(s, pre);
        let (s0, outs0) = engine_run(s, pre);
        let e = events.last();
        assert(e == events[events.len() - 1]);
        assert(!s.panic.chord.contains(e.key));
        let (p1, reaction) = panic_step(s0.panic, e);
        let m = choose|i: int|
            0 <= i < s0.panic.chord.len() && !s0.panic.held.contains(
                (#[trigger] s0.panic.chord[i]).spec_index() as u64,
            );
        let missing = s0.panic.chord[m];
        assert(s0.panic.chord.contains(missing));
        assert(missing != e.key);
        crate::pure_core::event::lemma_index_injective(missing, e.key);
        crate::pure_core::event::lemma_index_bounds(missing);
        crate::pure_core::event::lemma_index_bounds(e.key);
        assert(!p1.held.contains(missing.spec_index() as u64));
        assert(!chord_full(p1.chord, p1.held));
        let (s1, out) = engine_step(s0, e);
        assert(out.verdict == Verdict::Pass && out.mode_change is None);
        assert forall|i: int| 0 <= i < events.len() implies (#[trigger] outs0.push(out)[i]).verdict
            == Verdict::Pass && outs0.push(out)[i].mode_change is None by {
            if i < pre.len() {
                assert(outs0.push(out)[i] == outs0[i]);
            }
        }
    }
}

/// A new engine put in Paused or Panic passes every event of any history whose keys
/// are not keys of its chord, and never changes mode.
pub proof fn lemma_new_engine_in_pass_through_passes(mode: Mode, events: Seq<InputEvent>)
    requires
        mode.is_pass_through(),
        forall|i: int|
            0 <= i < events.len() ==> !PanicChord::default_chord_keys().contains(
                #[trigger] events[i].key,
            ),
    ensures
        ({
            let s = EngineState {
                mode,
                thresholds: default_thresholds(),
                debounce: DebounceState::initial(),
                panic: PanicState {
                    chord: PanicChord::default_chord_keys(),
                    held: Set::empty(),
                    was_full: false,
                },
            };
            let (s1, outs) = engine_run(s, events);
            &&& s1.mode == mode
            &&& outs.len() == events.len()
            &&& forall|i: int|
                0 <= i < outs.len() ==> (#[trigger] outs[i]).verdict == Verdict::Pass
                    && outs[i].mode_change is None
        }),
{
    let chord = PanicChord::default_chord_keys();
    assert(!Set::<u64>::empty().contains(chord[0].spec_index() as u64));
    let s = EngineState {
        mode,
        thresholds: default_thresholds(),
        debounce: DebounceState::initial(),
        panic: PanicState { chord, held: Set::empty(), was_full: false },
    };
    lemma_pass_through_runs_pass(s, events);
}

/// After `set_mode(m)` with the chord not fully held (and so not flagged as held),
/// until the chord next
/// completes: the mode stays `m` and no mode change is reported; in Paused or Panic
/// every event passes; in Active no event is consumed, so every event goes to the
/// debouncer. The completing event itself toggles (see [`lemma_chord_toggles_panic`]).
pub proof fn lemma_mode_holds_until_the_chord(s: EngineState, events: Seq<InputEvent>)
    requires
        !chord_full(s.panic.chord, s.panic.held),
        !s.panic.was_full,
        forall|i: int|
            0 <= i < events.len() ==> !(#[trigger] panic_run(s.panic, events).1[i]).toggled,
    ensures
        ({
            let (s1, outs) = engine_run(s, events);
            &&& s1.mode == s.mode
            &&& !chord_full(s1.panic.chord, s1.panic.held)
            &&& !s1.panic.was_full
            &&& s1.panic.chord == s.panic.chord
            &&& outs.len() == events.len()
            &&& forall|i: int|
                0 <= i < outs.len() ==> (#[trigger] outs[i]).mode_change is None && (
                s.mode.is_pass_through() ==> outs[i].verdict == Verdict::Pass)
            &&& s.mode == Mode::Active ==> debounced_events(s, events) == events
        }),
    decreases events.len(),
{
    lemma_engine_reflects_history(s, events);
    if events.len() > 0 {
        let pre = events.drop_last();
        let (p0, rs0) = panic_run(s.panic, pre);
        let (p1, r) = panic_step(p0, events.last());
        let rs = rs0.push(r);
        crate::pure_core::panic::lemma_panic_run_len(s.panic, pre);
        assert(panic_run(s.panic, events).1 == rs);
        assert forall|i: int| 0 <= i < pre.len() implies !(#[trigger] panic_run(
            s.panic,
            pre,
        ).1[i]).toggled by {
            assert(rs[i] == rs0[i]);
        }
        lemma_mode_holds_until_the_chord(s, pre);
        lemma_engine_reflects_history(s, pre);
        assert(!rs[events.len() - 1].toggled);
        let (s0, outs0) = engine_run(s, pre);
        let (s1, out) = engine_step(s0, events.last());
        assert forall|i: int| 0 <= i < events.len() implies (#[trigger] outs0.push(out)[i]).mode_change
            is None && (s.mode.is_pass_through() ==> outs0.push(out)[i].verdict == Verdict::Pass) by {
            if i < pre.len() {
                assert(outs0.push(out)[i] == outs0[i]);
            }
        }
        if s.mode == Mode::Active {
            assert(debounced_events(s, pre).push(events.last()) =~= events);
        }
    }
}

/// Privacy: the only outcome that carries a key's timing out of the engine is a
/// suppression. An event that passes never yields a gap (so never a `Suppressed`
/// report), and a gap is reported only for a down.
pub proof fn lemma_only_suppressed_events_are_reported(s: EngineState, event: InputEvent)
    ensures
        ({
            let (_, out) = engine_step(s, event);
            out.chatter_gap_ms is Some ==> out.verdict == Verdict::Suppress && event.kind
                == EventKind::Down
        }),
{
}

// ---------------------------------------------------------------------------
// The engine over the whole history of calls made on it
// ---------------------------------------------------------------------------

/// One call made on an engine: an input event, or one of its setters.
pub enum EngineCall {
    /// `on_event`.
    Event(InputEvent),
    /// `set_mode`.
    SetMode(Mode),
    /// `set_thresholds`.
    SetThresholds(Thresholds),
    /// `set_panic_chord`, with the new chord's keys.
    SetChord(Seq<KeyCode>),
}

/// The engine after one call.
pub open spec fn call_step(s: EngineState, c: EngineCall) -> EngineState {
    match c {
        EngineCall::Event(e) => engine_step(s, e).0,
        EngineCall::SetMode(m) => EngineState { mode: m, ..s },
        EngineCall::SetThresholds(t) => EngineState { thresholds: t, ..s },
        EngineCall::SetChord(chord) => EngineState {
            panic: PanicState { chord, held: Set::empty(), was_full: false },
            ..s
        },
    }
}

/// The engine after a history of calls, oldest first.
pub open spec fn engine_history(s: EngineState, calls: Seq<EngineCall>) -> EngineState
    decreases calls.len(),
{
    if calls.len() == 0 {
        s
    } else {
        call_step(engine_history(s, calls.drop_last()), calls.last())
    }
}

/// The state of a new engine (see `Engine::new`).
pub open spec fn new_engine_state() -> EngineState {
    EngineState {
        mode: Mode::Active,
        thresholds: default_thresholds(),
        debounce: DebounceState::initial(),
        panic: PanicState { chord: PanicChord::default_chord_keys(), held: Set::empty(), was_full: false },
    }
}

/// The events of a history that reached the debouncer (not consumed, with the mode
/// after the chord check Active), each with the thresholds in force at its call.
pub open spec fn debounced_history(s: EngineState, calls: Seq<EngineCall>) -> (
    Seq<InputEvent>,
    Seq<Thresholds>,
)
    decreases calls.len(),
{
    if calls.len() == 0 {
        (Seq::empty(), Seq::empty())
    } else {
        let pre = calls.drop_last();
        let (es, ts) = debounced_history(s, pre);
        let st = engine_history(s, pre);
        match calls.last() {
            EngineCall::Event(e) => if reaches_debouncer(st, e) {
                (es.push(e), ts.push(st.thresholds))
            } else {
                (es, ts)
            },
            _ => (es, ts),
        }
    }
}

/// The chord in force after a history, and the events since it was set.
pub open spec fn chord_history(s: EngineState, calls: Seq<EngineCall>) -> (
    Seq<KeyCode>,
    Seq<InputEvent>,
)
    decreases calls.len(),
{
    if calls.len() == 0 {
        (s.panic.chord, Seq::empty())
    } else {
        let (chord, evs) = chord_history(s, calls.drop_last());
        match calls.last() {
            EngineCall::Event(e) => (chord, evs.push(e)),
            EngineCall::SetChord(c) => (c, Seq::empty()),
            _ => (chord, evs),
        }
    }
}

/// Every chord set in the history is a valid chord (as `set_panic_chord` takes a
/// `PanicChord`, it always is).
pub open spec fn chords_valid(calls: Seq<EngineCall>) -> bool {
    forall|i: int| 0 <= i < calls.len() ==> (#[trigger] calls[i] matches EngineCall::SetChord(c)
        ==> chord_wf(c))
}

/// The default chord is a valid chord.
proof fn lemma_default_chord_valid()
    ensures
        chord_wf(PanicChord::default_chord_keys()),
{
    let c = PanicChord::default_chord_keys();
    assert(c[0].spec_is_modifier());
    assert(!c[3].spec_is_modifier());
}

/// The chord in force is a valid chord.
proof fn lemma_chord_history_valid(calls: Seq<EngineCall>)
    requires
        chords_valid(calls),
    ensures
        chord_wf(chord_history(new_engine_state(), calls).0),
    decreases calls.len(),
{
    if calls.len() == 0 {
        lemma_default_chord_valid();
    } else {
        let pre = calls.drop_last();
        assert forall|i: int| 0 <= i < pre.len() implies (#[trigger] pre[i] matches EngineCall::SetChord(c)
            ==> chord_wf(c)) by {
            assert(pre[i] == calls[i]);
        }
        lemma_chord_history_valid(pre);
        assert(calls.last() == calls[calls.len() - 1]);
    }
}

/// The engine is its parts run over its history of calls: its detector has seen
/// exactly the events since its chord was set, and its debouncer exactly the events
/// that reached it, each under the thresholds in force at its call.
pub proof fn lemma_engine_history(s0: EngineState, calls: Seq<EngineCall>)
    requires
        s0.panic.held == Set::<u64>::empty(),
        !s0.panic.was_full,
    ensures
        ({
            let s = engine_history(s0, calls);
            let (es, ts) = debounced_history(s0, calls);
            let (chord, evs) = chord_history(s0, calls);
            &&& es.len() == ts.len()
            &&& s.debounce == debounce_run(s0.debounce, es, ts).0
            &&& s.panic == panic_run(PanicState { chord, held: Set::empty(), was_full: false }, evs).0
        }),
    decreases calls.len(),
{
    if calls.len() > 0 {
        let pre = calls.drop_last();
        lemma_engine_history(s0, pre);
        let (es, ts) = debounced_history(s0, pre);
        let (chord, evs) = chord_history(s0, pre);
        match calls.last() {
            EngineCall::Event(e) => {
                assert(evs.push(e).drop_last() =~= evs);
                if reaches_debouncer(engine_history(s0, pre), e) {
                    assert(es.push(e).drop_last() =~= es);
                    assert(ts.push(engine_history(s0, pre).thresholds).drop_last() =~= ts);
                }
            },
            _ => {},
        }
    } else {
        assert(s0.panic == PanicState { chord: s0.panic.chord, held: Set::empty(), was_full: false });
    }
}

/// No event of the history is of `key`, so its latest event is not a press.
proof fn lemma_untouched_key_not_down(events: Seq<InputEvent>, key: KeyCode)
    requires
        forall|i: int| 0 <= i < events.len() ==> (#[trigger] events[i]).key != key,
    ensures
        !latest_is_down(events, key.spec_index() as u64),
    decreases events.len(),
{
    if events.len() > 0 {
        let pre = events.drop_last();
        assert forall|i: int| 0 <= i < pre.len() implies (#[trigger] pre[i]).key != key by {
            assert(pre[i] == events[i]);
        }
        lemma_untouched_key_not_down(pre, key);
        let e = events.last();
        assert(e == events[events.len() - 1]);
        crate::pure_core::event::lemma_index_injective(e.key, key);
        crate::pure_core::event::lemma_index_bounds(e.key);
        crate::pure_core::event::lemma_index_bounds(key);
    }
}

/// `on_event` after any history of calls on a new engine. With `m` the engine's
/// mode, the chord in force and the events since it was set, and the events that
/// reached the debouncer (with their thresholds): the event is consumed exactly
/// when, with it, every chord key's latest event is a press, and toggles exactly
/// when that was not so before it; the mode becomes `m`, toggled on that edge
/// (reported as the mode change, and only then); the verdict is Suppress for a
/// consumed chord key, otherwise the verdict of a debouncer fed exactly the events
/// that reached it when the new mode is Active, and Pass in Paused or Panic. That
/// debouncer suppresses an up exactly when a down of its key since the key's latest
/// release was suppressed, and a down exactly when the gap since the key's latest
/// release that passed is below the (capped) threshold.
pub proof fn lemma_on_event_after_calls(calls: Seq<EngineCall>, event: InputEvent)
    requires
        chords_valid(calls),
    ensures
        ({
            let s = engine_history(new_engine_state(), calls);
            let (es, ts) = debounced_history(new_engine_state(), calls);
            let (chord, evs) = chord_history(new_engine_state(), calls);
            let (s1, out) = engine_step(s, event);
            let r = panic_step(
                panic_run(PanicState { chord, held: Set::empty(), was_full: false }, evs).0,
                event,
            ).1;
            let m2 = if r.toggled {
                toggled_mode(s.mode)
            } else {
                s.mode
            };
            let (d, vs) = debounce_run(DebounceState::initial(), es, ts);
            let v = debounce_step(d, event, s.thresholds).1;
            let k = event.key.spec_index() as u64;
            &&& r.consume == chord_held_after(chord, evs.push(event))
            &&& r.toggled == (chord_held_after(chord, evs.push(event)) && !chord_held_after(
                chord,
                evs,
            ))
            &&& out.mode_change == (if r.toggled {
                Some(m2)
            } else {
                None
            })
            &&& s1.mode == m2
            &&& out.verdict == (if r.consume {
                Verdict::Suppress
            } else if m2 == Mode::Active {
                v
            } else {
                Verdict::Pass
            })
            &&& event.kind == EventKind::Up ==> ((v == Verdict::Suppress) == release_pending(
                es,
                vs,
                k,
            ))
            &&& event.kind == EventKind::Down ==> ((v == Verdict::Suppress) == (last_passed_up(
                es,
                vs,
                k,
            ) is Some && crate::pure_core::debouncer::gap_since(
                event.timestamp_ms,
                last_passed_up(es, vs, k)->0,
            ) < s.thresholds.spec_for_device(event.device)))
        }),
{
    lemma_engine_history(new_engine_state(), calls);
    lemma_chord_history_valid(calls);
    let (chord, evs) = chord_history(new_engine_state(), calls);
    lemma_detect_after_history(chord, evs, event, event);
    let (es, ts) = debounced_history(new_engine_state(), calls);
    let s = engine_history(new_engine_state(), calls);
    let other = if event.key == KeyCode::Shift {
        KeyCode::Control
    } else {
        KeyCode::Shift
    };
    lemma_decide_after_history(es, ts, event, s.thresholds, other);
}

/// Fail-open over any history: once a new engine is in Paused or Panic, an event
/// passes and changes no mode when neither it nor any event since the chord was set
/// is of a chord key, whatever came before.
pub proof fn lemma_pass_through_after_calls(calls: Seq<EngineCall>, event: InputEvent)
    requires
        chords_valid(calls),
        engine_history(new_engine_state(), calls).mode.is_pass_through(),
        forall|i: int|
            0 <= i < chord_history(new_engine_state(), calls).1.len() ==> !chord_history(
                new_engine_state(),
                calls,
            ).0.contains(#[trigger] chord_history(new_engine_state(), calls).1[i].key),
        !chord_history(new_engine_state(), calls).0.contains(event.key),
    ensures
        ({
            let (_, out) = engine_step(engine_history(new_engine_state(), calls), event);
            out.verdict == Verdict::Pass && out.mode_change is None
        }),
{
    lemma_on_event_after_calls(calls, event);
    lemma_chord_history_valid(calls);
    let (chord, evs) = chord_history(new_engine_state(), calls);
    let all = evs.push(event);
    assert forall|i: int| 0 <= i < all.len() implies (#[trigger] all[i]).key != chord[0] by {
        assert(chord.contains(chord[0]));
        if i < evs.len() {
            assert(all[i] == evs[i]);
        }
    }
    lemma_untouched_key_not_down(all, chord[0]);
    assert(!chord_held_after(chord, all));
}

/// `set_mode(m)` after any history of calls on a new engine, with the chord not fully
/// held: until the chord next completes, the mode stays `m`, no mode change is
/// reported, the thresholds stay, every event passes in Paused or Panic, and in
/// Active every event reaches the debouncer (so the verdicts are its verdicts, under
/// the thresholds in force). The completing event then switches to `m` toggled and
/// reports it.
pub proof fn lemma_set_mode_after_calls(
    calls: Seq<EngineCall>,
    m: Mode,
    events: Seq<InputEvent>,
    event: InputEvent,
)
    requires
        chords_valid(calls),
        ({
            let s = engine_history(new_engine_state(), calls.push(EngineCall::SetMode(m)));
            &&& !chord_full(s.panic.chord, s.panic.held)
            &&& forall|i: int|
                0 <= i < events.len() ==> !(#[trigger] panic_run(s.panic, events).1[i]).toggled
        }),
    ensures
        ({
            let s = engine_history(new_engine_state(), calls.push(EngineCall::SetMode(m)));
            let (s1, outs) = engine_run(s, events);
            let (_, out) = engine_step(s1, event);
            &&& s1.mode == m
            &&& s1.thresholds == s.thresholds
            &&& outs.len() == events.len()
            &&& forall|i: int|
                0 <= i < outs.len() ==> (#[trigger] outs[i]).mode_change is None && (
                m.is_pass_through() ==> outs[i].verdict == Verdict::Pass)
            &&& m == Mode::Active ==> debounced_events(s, events) == events
                && s1.debounce == debounce_run(
                s.debounce,
                events,
                same_thresholds(s.thresholds, events.len()),
            ).0
            &&& panic_step(s1.panic, event).1.toggled ==> out.mode_change == Some(toggled_mode(m))
        }),
{
    let calls2 = calls.push(EngineCall::SetMode(m));
    assert forall|i: int| 0 <= i < calls2.len() implies (#[trigger] calls2[i] matches EngineCall::SetChord(c)
        ==> chord_wf(c)) by {
        if i < calls.len() {
            assert(calls2[i] == calls[i]);
        }
    }
    lemma_engine_history(new_engine_state(), calls2);
    lemma_chord_history_valid(calls2);
    let (chord, evs) = chord_history(new_engine_state(), calls2);
    lemma_detector_reflects_history(chord, evs, 0);
    let s = engine_history(new_engine_state(), calls2);
    assert(calls2.drop_last() =~= calls);
    assert(s.mode == m);
    lemma_mode_holds_until_the_chord(s, events);
    lemma_engine_reflects_history(s, events);
}

} // verus!
