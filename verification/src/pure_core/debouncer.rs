//! The per-key, release-anchored chatter decision.
//!
//! State is the previous release time per key plus the keys that are in the middle
//! of a suppressed press, so a suppressed down's paired up is discarded as well.
//! Keys are held by their [`KeyCode::index`], a unique number per key.

use std::collections::{HashMap, HashSet};
use vstd::prelude::*;

use crate::config::MAX_THRESHOLD_MS;
use crate::pure_core::event::{Device, EventKind, InputEvent, KeyCode};
use crate::pure_core::verdict::Verdict;

verus! {

broadcast use vstd::std_specs::hash::group_hash_axioms;

/// The active per-device-class thresholds (milliseconds). A down arriving *less
/// than* the device's threshold after that key's previous up is chatter.
#[derive(Debug, Clone, Copy, PartialEq, Eq, Structural)]
pub struct Thresholds {
    pub keyboard_ms: u8,
    pub mouse_ms: u8,
}

impl Thresholds {
    /// The effective threshold for a device: the configured value, capped at
    /// `MAX_THRESHOLD_MS`.
    pub open spec fn spec_for_device(self, device: Device) -> u64 {
        let raw = match device {
            Device::Keyboard => self.keyboard_ms,
            Device::Mouse => self.mouse_ms,
        };
        if raw <= MAX_THRESHOLD_MS {
            raw as u64
        } else {
            MAX_THRESHOLD_MS as u64
        }
    }

    /// The effective threshold for a device, clamped to `MAX_THRESHOLD_MS` so a
    /// bad value can never widen the window into an input black hole.
    pub fn for_device(self, device: Device) -> (r: u64)
        ensures
            r == self.spec_for_device(device),
            r <= MAX_THRESHOLD_MS,
    {
        let raw = match device {
            Device::Keyboard => self.keyboard_ms,
            Device::Mouse => self.mouse_ms,
        };
        if raw <= MAX_THRESHOLD_MS {
            raw as u64
        } else {
            MAX_THRESHOLD_MS as u64
        }
    }
}

/// The abstract state of a [`Debouncer`]: the last release time per key index,
/// and the key indices whose down was suppressed and whose up is still due.
#[verifier::ext_equal]
pub struct DebounceState {
    pub last_up: Map<u64, u64>,
    pub suppressing: Set<u64>,
}

impl DebounceState {
    /// The state of a fresh debouncer: nothing released, nothing suppressed.
    pub open spec fn initial() -> DebounceState {
        DebounceState { last_up: Map::empty(), suppressing: Set::empty() }
    }
}

/// `t - last_up`, or 0 when `last_up` is later than `t`.
pub open spec fn gap_since(t: u64, last_up: u64) -> u64 {
    if t >= last_up {
        (t - last_up) as u64
    } else {
        0
    }
}

/// True when a down of this event's key at its timestamp is chatter: the key has
/// a recorded release and the gap since it is below the device threshold.
pub open spec fn is_chatter(s: DebounceState, event: InputEvent, thresholds: Thresholds) -> bool {
    let k = event.key.spec_index() as u64;
    &&& event.kind == EventKind::Down
    &&& s.last_up.contains_key(k)
    &&& gap_since(event.timestamp_ms, s.last_up[k]) < thresholds.spec_for_device(event.device)
}

/// One debounce decision: the next state, the verdict and, for a suppressed
/// chatter down, the gap since the key's last release.
pub open spec fn debounce_step(s: DebounceState, event: InputEvent, thresholds: Thresholds) -> (
    DebounceState,
    Verdict,
    Option<u64>,
) {
    let k = event.key.spec_index() as u64;
    match event.kind {
        EventKind::Up => if s.suppressing.contains(k) {
            (
                DebounceState { last_up: s.last_up, suppressing: s.suppressing.remove(k) },
                Verdict::Suppress,
                None,
            )
        } else {
            (
                DebounceState {
                    last_up: s.last_up.insert(k, event.timestamp_ms),
                    suppressing: s.suppressing,
                },
                Verdict::Pass,
                None,
            )
        },
        EventKind::Down => if is_chatter(s, event, thresholds) {
            (
                DebounceState { last_up: s.last_up, suppressing: s.suppressing.insert(k) },
                Verdict::Suppress,
                Some(gap_since(event.timestamp_ms, s.last_up[k])),
            )
        } else {
            (s, Verdict::Pass, None)
        },
    }
}

/// Decides, per key/button, whether an incoming event is chatter to `Suppress`
/// or legitimate input to `Pass`.
#[derive(Debug)]
pub struct Debouncer {
    /// Timestamp of the last release seen for each key index.
    last_up: HashMap<u64, u64>,
    /// Key indices whose down was suppressed and whose paired up must also be
    /// discarded, so no orphan up reaches downstream applications.
    suppressing: HashSet<u64>,
}

impl View for Debouncer {
    type V = DebounceState;

    closed spec fn view(&self) -> DebounceState {
        DebounceState { last_up: self.last_up@, suppressing: self.suppressing@ }
    }
}

impl Default for Debouncer {
    fn default() -> (d: Debouncer)
        ensures
            d@ == DebounceState::initial(),
    {
        Debouncer::new()
    }
}

impl Debouncer {
    pub fn new() -> (d: Debouncer)
        ensures
            d@ == DebounceState::initial(),
    {
        let d = Debouncer { last_up: HashMap::new(), suppressing: HashSet::new() };
        assert(d@.last_up =~= Map::empty());
        assert(d@.suppressing =~= Set::empty());
        d
    }

    /// Decide the verdict for one event (see [`debounce_step`]), also returning the
    /// chatter gap when a down is suppressed as chatter.
    pub fn decide_with_gap(&mut self, event: InputEvent, thresholds: Thresholds) -> (r: (
        Verdict,
        Option<u64>,
    ))
        ensures
            (final(self)@, r.0, r.1) == debounce_step(old(self)@, event, thresholds),
    {
        let k = event.key.index();
        match event.kind {
            EventKind::Up => {
                if self.suppressing.remove(&k) {
                    assert(self@ =~= debounce_step(old(self)@, event, thresholds).0);
                    return (Verdict::Suppress, None);
                }
                self.last_up.insert(k, event.timestamp_ms);
                assert(self@ =~= debounce_step(old(self)@, event, thresholds).0);
                (Verdict::Pass, None)
            },
            EventKind::Down => {
                let threshold = thresholds.for_device(event.device);
                match self.last_up.get(&k) {
                    Some(last_up) => {
                        let gap = event.timestamp_ms.saturating_sub(*last_up);
                        if gap < threshold {
                            self.suppressing.insert(k);
                            assert(self@ =~= debounce_step(old(self)@, event, thresholds).0);
                            return (Verdict::Suppress, Some(gap));
                        }
                        (Verdict::Pass, None)
                    },
                    None => (Verdict::Pass, None),
                }
            },
        }
    }

    /// Decide the verdict for one event. `&mut self` because the decision updates
    /// per-key timing state; the timestamp is carried on `event`.
    pub fn decide(&mut self, event: InputEvent, thresholds: Thresholds) -> (v: Verdict)
        ensures
            (final(self)@, v) == ({
                let (s, v, _) = debounce_step(old(self)@, event, thresholds);
                (s, v)
            }),
    {
        self.decide_with_gap(event, thresholds).0
    }
}


/// Runs a history of events through the debouncer from state `s`, oldest first,
/// each decided under the thresholds in force at its call (`ths[i]` for
/// `events[i]`), returning the final state and the verdict of each event in order.
pub open spec fn debounce_run(s: DebounceState, events: Seq<InputEvent>, ths: Seq<Thresholds>) -> (
    DebounceState,
    Seq<Verdict>,
)
    decreases events.len(),
{
    if events.len() == 0 {
        (s, Seq::empty())
    } else {
        let (s0, vs) = debounce_run(s, events.drop_last(), ths.drop_last());
        let (s1, v, _) = debounce_step(s0, events.last(), ths.last());
        (s1, vs.push(v))
    }
}

/// The time of the latest release of key index `k` in the history that passed,
/// if any (a suppressed release does not count).
pub open spec fn last_passed_up(events: Seq<InputEvent>, verdicts: Seq<Verdict>, k: u64) -> Option<u64>
    decreases events.len(),
{
    if events.len() == 0 {
        None
    } else {
        let e = events.last();
        if e.key.spec_index() as u64 == k && e.kind == EventKind::Up && verdicts.last()
            == Verdict::Pass {
            Some(e.timestamp_ms)
        } else {
            last_passed_up(events.drop_last(), verdicts.drop_last(), k)
        }
    }
}

/// Some down of key index `k` after its latest release in the history was
/// suppressed, so the next release of that key is still to be discarded.
pub open spec fn release_pending(events: Seq<InputEvent>, verdicts: Seq<Verdict>, k: u64) -> bool
    decreases events.len(),
{
    if events.len() == 0 {
        false
    } else {
        let e = events.last();
        if e.key.spec_index() as u64 == k && e.kind == EventKind::Up {
            false
        } else if e.key.spec_index() as u64 == k && verdicts.last() == Verdict::Suppress {
            true
        } else {
            release_pending(events.drop_last(), verdicts.drop_last(), k)
        }
    }
}

/// What a debouncer's state is, in terms of the history it has decided from a
/// fresh start: for each key, the time of its latest release that passed, and
/// whether a suppressed down since its latest release still awaits its up.
pub proof fn lemma_state_reflects_history(events: Seq<InputEvent>, ths: Seq<Thresholds>, k: u64)
    ensures
        ({
            let (s, vs) = debounce_run(DebounceState::initial(), events, ths);
            &&& vs.len() == events.len()
            &&& s.last_up.contains_key(k) == (last_passed_up(events, vs, k) is Some)
            &&& s.last_up.contains_key(k) ==> s.last_up[k] == last_passed_up(events, vs, k)->0
            &&& s.suppressing.contains(k) == release_pending(events, vs, k)
        }),
    decreases events.len(),
{
    if events.len() > 0 {
        let pre = events.drop_last();
        lemma_state_reflects_history(pre, ths.drop_last(), k);
        let (s0, vs0) = debounce_run(DebounceState::initial(), pre, ths.drop_last());
        let e = events.last();
        let (s1, v, _) = debounce_step(s0, e, ths.last());
        let vs = vs0.push(v);
        assert(vs.drop_last() =~= vs0);
        assert(vs.last() == v);
    }
}

/// The debounce rule over a history: after any history decided from a fresh start
/// (each earlier event under whatever thresholds were in force at its call),
/// a release is suppressed exactly when a down of that key since its latest release
/// was suppressed; a down is suppressed exactly when the key has a release that
/// passed and the gap since the latest such release is below the (capped) device
/// threshold; and the decision leaves every other key's state, hence its later
/// verdicts, as it was.
pub proof fn lemma_decide_after_history(
    events: Seq<InputEvent>,
    ths: Seq<Thresholds>,
    event: InputEvent,
    thresholds: Thresholds,
    other: KeyCode,
)
    requires
        other != event.key,
    ensures
        ({
            let (s, vs) = debounce_run(DebounceState::initial(), events, ths);
            let (s1, v, _) = debounce_step(s, event, thresholds);
            let k = event.key.spec_index() as u64;
            let j = other.spec_index() as u64;
            &&& event.kind == EventKind::Up ==> ((v == Verdict::Suppress) == release_pending(
                events,
                vs,
                k,
            ))
            &&& event.kind == EventKind::Down ==> ((v == Verdict::Suppress) == (last_passed_up(
                events,
                vs,
                k,
            ) is Some && gap_since(event.timestamp_ms, last_passed_up(events, vs, k)->0)
                < thresholds.spec_for_device(event.device)))
            &&& s1.last_up.contains_key(j) == s.last_up.contains_key(j)
            &&& s1.last_up[j] == s.last_up[j]
            &&& s1.suppressing.contains(j) == s.suppressing.contains(j)
        }),
{
    let (s, vs) = debounce_run(DebounceState::initial(), events, ths);
    lemma_state_reflects_history(events, ths, event.key.spec_index() as u64);
    lemma_other_keys_untouched(s, event, thresholds, other);
}

/// Only a down can be chatter; an up is suppressed exactly when it is the release
/// paired with a suppressed down, and otherwise passes and records its time.
pub proof fn lemma_up_suppressed_only_when_paired(s: DebounceState, event: InputEvent, thresholds: Thresholds)
    requires
        event.kind == EventKind::Up,
    ensures
        ({
            let k = event.key.spec_index() as u64;
            let (s1, v, gap) = debounce_step(s, event, thresholds);
            &&& (v == Verdict::Suppress) == s.suppressing.contains(k)
            &&& gap is None
            &&& v == Verdict::Pass ==> s1.last_up[k] == event.timestamp_ms
        }),
{
}

/// A down is suppressed exactly when it arrives less than the (capped) device
/// threshold after the same key's last release; the first-ever down of a key, and
/// a down at or beyond the threshold, pass. The reported gap is the measured one.
pub proof fn lemma_down_suppressed_iff_within_threshold(
    s: DebounceState,
    event: InputEvent,
    thresholds: Thresholds,
)
    requires
        event.kind == EventKind::Down,
    ensures
        ({
            let k = event.key.spec_index() as u64;
            let (s1, v, gap) = debounce_step(s, event, thresholds);
            &&& (v == Verdict::Suppress) == (s.last_up.contains_key(k) && gap_since(
                event.timestamp_ms,
                s.last_up[k],
            ) < thresholds.spec_for_device(event.device))
            &&& v == Verdict::Suppress ==> gap == Some(gap_since(event.timestamp_ms, s.last_up[k]))
            &&& !s.last_up.contains_key(k) ==> v == Verdict::Pass
            &&& s1.last_up == s.last_up
        }),
{
}

/// A suppressed chatter down takes its release with it: the next event of that
/// key, if it is the up, is suppressed too and reports no second gap, and the
/// key's last release time stays the one before the chatter.
pub proof fn lemma_chatter_release_is_discarded(
    s: DebounceState,
    down: InputEvent,
    up: InputEvent,
    thresholds: Thresholds,
)
    requires
        is_chatter(s, down, thresholds),
        up.kind == EventKind::Up,
        up.key == down.key,
    ensures
        ({
            let k = down.key.spec_index() as u64;
            let (s1, v1, _) = debounce_step(s, down, thresholds);
            let (s2, v2, gap2) = debounce_step(s1, up, thresholds);
            &&& v1 == Verdict::Suppress
            &&& v2 == Verdict::Suppress
            &&& gap2 is None
            &&& s2.last_up == s.last_up
            &&& !s2.suppressing.contains(k)
        }),
{
}

/// Per-key isolation: an event only ever touches the state of its own key, so one
/// key's recent release never affects another key.
pub proof fn lemma_other_keys_untouched(
    s: DebounceState,
    event: InputEvent,
    thresholds: Thresholds,
    other: KeyCode,
)
    requires
        other != event.key,
    ensures
        ({
            let j = other.spec_index() as u64;
            let (s1, _, _) = debounce_step(s, event, thresholds);
            &&& s1.last_up.contains_key(j) == s.last_up.contains_key(j)
            &&& s1.last_up[j] == s.last_up[j]
            &&& s1.suppressing.contains(j) == s.suppressing.contains(j)
        }),
{
    crate::pure_core::event::lemma_index_bounds(other);
    crate::pure_core::event::lemma_index_bounds(event.key);
    crate::pure_core::event::lemma_index_injective(other, event.key);
}

/// Held-key auto-repeat: once a down of a key has passed, further downs of that
/// key with no release in between (and no earlier timestamps, under the same
/// thresholds) also pass, and the state does not change.
pub proof fn lemma_autorepeat_passes(
    s: DebounceState,
    events: Seq<InputEvent>,
    thresholds: Thresholds,
    ths: Seq<Thresholds>,
    key: KeyCode,
    device: Device,
    t0: u64,
)
    requires
        !is_chatter(
            s,
            InputEvent { device, key, kind: EventKind::Down, timestamp_ms: t0, injected: false },
            thresholds,
        ),
        forall|i: int|
            0 <= i < events.len() ==> (#[trigger] events[i]).kind == EventKind::Down
                && events[i].key == key && events[i].device == device,
        forall|i: int| 0 <= i < events.len() ==> t0 <= (#[trigger] events[i]).timestamp_ms,
        ths.len() == events.len(),
        forall|i: int| 0 <= i < ths.len() ==> #[trigger] ths[i] == thresholds,
    ensures
        ({
            let (s1, vs) = debounce_run(s, events, ths);
            &&& s1 == s
            &&& vs.len() == events.len()
            &&& forall|i: int| 0 <= i < vs.len() ==> vs[i] == Verdict::Pass
        }),
    decreases events.len(),
{
    if events.len() > 0 {
        let pre = events.drop_last();
        assert forall|i: int| 0 <= i < pre.len() implies (#[trigger] pre[i]).kind == EventKind::Down
            && pre[i].key == key && pre[i].device == device by {
            assert(pre[i] == events[i]);
        }
        assert forall|i: int| 0 <= i < pre.len() implies t0 <= (#[trigger] pre[i]).timestamp_ms by {
            assert(pre[i] == events[i]);
        }
        let tp = ths.drop_last();
        assert forall|i: int| 0 <= i < tp.len() implies #[trigger] tp[i] == thresholds by {
            assert(tp[i] == ths[i]);
        }
        lemma_autorepeat_passes(s, pre, thresholds, tp, key, device, t0);
        assert(ths.last() == ths[ths.len() - 1]);
        let e = events.last();
        assert(e == events[events.len() - 1]);
        assert(!is_chatter(s, e, thresholds));
        let (_, vs0) = debounce_run(s, pre, ths.drop_last());
        assert forall|i: int| 0 <= i < events.len() implies vs0.push(Verdict::Pass)[i]
            == Verdict::Pass by {
            if i < pre.len() {
                assert(vs0.push(Verdict::Pass)[i] == vs0[i]);
            }
        }
    }
}

} // verus!
