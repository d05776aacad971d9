//! Detects the panic hotkey chord against the live set of held keys.
//!
//! Fed every input event, the detector tracks which keys are held and emits an
//! **edge-triggered** toggle when the configured chord becomes fully held. It also
//! reports whether the event should be **consumed** (not leaked to the foreground
//! app).

use std::collections::HashSet;
use vstd::prelude::*;
use vstd::std_specs::cmp::PartialEqSpecImpl;

use crate::pure_core::event::{EventKind, InputEvent, KeyCode, KeyId};

verus! {

broadcast use vstd::std_specs::hash::group_hash_axioms;

/// True for Ctrl/Alt/Shift/Win.
pub fn is_modifier(key: KeyId) -> (r: bool)
    ensures
        r == key.spec_is_modifier(),
{
    match key {
        KeyCode::Shift | KeyCode::Control | KeyCode::Alt | KeyCode::Meta => true,
        _ => false,
    }
}

/// Why a proposed chord is invalid.
#[derive(Debug, Clone, Copy, PartialEq, Eq, Structural)]
pub enum ChordError {
    /// No modifier key (Ctrl/Alt/Shift/Win) in the chord.
    NoModifier,
    /// No non-modifier key in the chord.
    NoNonModifierKey,
}

/// The keys are in strictly increasing [`KeyCode::spec_index`] order, hence
/// without repetition.
pub open spec fn sorted_distinct(s: Seq<KeyCode>) -> bool {
    forall|i: int, j: int| 0 <= i < j < s.len() ==> s[i].spec_index() < s[j].spec_index()
}

/// At least one key is a modifier.
pub open spec fn has_modifier(s: Seq<KeyCode>) -> bool {
    exists|i: int| 0 <= i < s.len() && (#[trigger] s[i]).spec_is_modifier()
}

/// At least one key is not a modifier.
pub open spec fn has_non_modifier(s: Seq<KeyCode>) -> bool {
    exists|i: int| 0 <= i < s.len() && !(#[trigger] s[i]).spec_is_modifier()
}

/// What a valid chord is: its keys listed once each in index order, with at least
/// one modifier and at least one non-modifier key.
pub open spec fn chord_wf(s: Seq<KeyCode>) -> bool {
    &&& sorted_distinct(s)
    &&& has_modifier(s)
    &&& has_non_modifier(s)
}

/// The outcome of validating a set of keys as a chord: the first rule broken, or
/// `Ok` when both hold.
pub open spec fn chord_check(keys: Seq<KeyCode>) -> Result<(), ChordError> {
    if !has_modifier(keys) {
        Err(ChordError::NoModifier)
    } else if !has_non_modifier(keys) {
        Err(ChordError::NoNonModifierKey)
    } else {
        Ok(())
    }
}

/// `s` lists exactly the keys of `keys`, each once, in index order.
pub open spec fn is_canonical_of(s: Seq<KeyCode>, keys: Seq<KeyCode>) -> bool {
    &&& sorted_distinct(s)
    &&& forall|k: KeyCode| #[trigger] s.contains(k) <==> keys.contains(k)
}

/// A validated panic chord: the set of keys that must be held simultaneously.
/// Construction enforces "at least one modifier + at least one non-modifier key"
/// so a chord can't be something triggerable by normal use.
#[derive(Debug)]
pub struct PanicChord {
    keys: Vec<KeyId>,
}

impl View for PanicChord {
    type V = Seq<KeyCode>;

    closed spec fn view(&self) -> Seq<KeyCode> {
        self.keys@
    }
}

impl PanicChord {
    /// The keys of the default chord, Ctrl+Alt+Shift+F12, in index order.
    pub open spec fn default_chord_keys() -> Seq<KeyCode> {
        seq![KeyCode::Shift, KeyCode::Control, KeyCode::Alt, KeyCode::Function(12)]
    }

    #[verifier::type_invariant]
    spec fn valid(self) -> bool {
        chord_wf(self.keys@)
    }

    /// Every chord value satisfies [`chord_wf`].
    pub fn check_wf(&self)
        ensures
            chord_wf(self@),
    {
        proof {
            use_type_invariant(self);
        }
    }

    /// Validate and build a chord from its keys. Requires at least one modifier
    /// and at least one non-modifier key; repeated keys count once.
    pub fn new(keys: &[KeyId]) -> (r: Result<Self, ChordError>)
        ensures
            match r {
                Ok(c) => chord_check(keys@) is Ok && is_canonical_of(c@, keys@),
                Err(e) => chord_check(keys@) == Err::<(), ChordError>(e),
            },
    {
        let mut sorted: Vec<KeyId> = Vec::new();
        let mut any_modifier = false;
        let mut any_other = false;
        let n = keys.len();
        for i in 0..n
            invariant
                n == keys@.len(),
                sorted_distinct(sorted@),
                forall|k: KeyCode| #[trigger]
                    sorted@.contains(k) <==> keys@.subrange(0, i as int).contains(k),
                any_modifier == has_modifier(keys@.subrange(0, i as int)),
                any_other == has_non_modifier(keys@.subrange(0, i as int)),
        {
            let k = keys[i];
            insert_sorted(&mut sorted, k);
            if is_modifier(k) {
                any_modifier = true;
            } else {
                any_other = true;
            }
            proof {
                let pre = keys@.subrange(0, i as int);
                let post = keys@.subrange(0, i + 1);
                assert(post =~= pre.push(k));
                assert forall|x: KeyCode| #[trigger] sorted@.contains(x) <==> post.contains(x) by {
                    if post.contains(x) && x != k {
                        let j = choose|j: int| 0 <= j < post.len() && post[j] == x;
                        assert(pre[j] == x);
                    }
                    if pre.contains(x) {
                        let j = choose|j: int| 0 <= j < pre.len() && pre[j] == x;
                        assert(post[j] == x);
                    }
                    assert(post[i as int] == k);
                }
                if has_modifier(post) && !k.spec_is_modifier() {
                    let j = choose|j: int| 0 <= j < post.len() && (#[trigger] post[j]).spec_is_modifier();
                    assert(pre[j] == post[j]);
                }
                if has_modifier(pre) {
                    let j = choose|j: int| 0 <= j < pre.len() && (#[trigger] pre[j]).spec_is_modifier();
                    assert(post[j] == pre[j]);
                }
                if k.spec_is_modifier() {
                    assert(post[i as int] == k);
                }
                if has_non_modifier(post) && k.spec_is_modifier() {
                    let j = choose|j: int| 0 <= j < post.len() && !(#[trigger] post[j]).spec_is_modifier();
                    assert(pre[j] == post[j]);
                }
                if has_non_modifier(pre) {
                    let j = choose|j: int| 0 <= j < pre.len() && !(#[trigger] pre[j]).spec_is_modifier();
                    assert(post[j] == pre[j]);
                }
                if !k.spec_is_modifier() {
                    assert(post[i as int] == k);
                }
            }
        }
        assert(keys@.subrange(0, n as int) =~= keys@);
        if !any_modifier {
            return Err(ChordError::NoModifier);
        }
        if !any_other {
            return Err(ChordError::NoNonModifierKey);
        }
        proof {
            let km = choose|j: int| 0 <= j < keys@.len() && (#[trigger] keys@[j]).spec_is_modifier();
            assert(keys@.contains(keys@[km]));
            assert(sorted@.contains(keys@[km]));
            let kn = choose|j: int| 0 <= j < keys@.len() && !(#[trigger] keys@[j]).spec_is_modifier();
            assert(keys@.contains(keys@[kn]));
            assert(sorted@.contains(keys@[kn]));
        }
        Ok(PanicChord { keys: sorted })
    }

    /// The default chord: Ctrl+Alt+Shift+F12 (universal keys; no Pause/ScrollLock
    /// that some keyboards lack).
    pub fn default_chord() -> (r: Self)
        ensures
            r@ == Self::default_chord_keys(),
    {
        let keys = vec![KeyCode::Shift, KeyCode::Control, KeyCode::Alt, KeyCode::Function(12)];
        proof {
            assert(keys@[0].spec_is_modifier());
            assert(!keys@[3].spec_is_modifier());
        }
        PanicChord { keys }
    }

    /// The chord's keys, in index order — for display and round-tripping.
    pub fn keys(&self) -> (r: Vec<KeyId>)
        ensures
            r@ == self@,
    {
        let mut out: Vec<KeyId> = Vec::new();
        let n = self.keys.len();
        for i in 0..n
            invariant
                n == self.keys@.len(),
                out@ == self.keys@.subrange(0, i as int),
        {
            out.push(self.keys[i]);
            assert(out@ =~= self.keys@.subrange(0, i + 1));
        }
        assert(out@ =~= self.keys@);
        out
    }

    /// Whether `key` is one of the chord's keys.
    pub fn contains(&self, key: KeyId) -> (r: bool)
        ensures
            r == self@.contains(key),
    {
        let n = self.keys.len();
        for i in 0..n
            invariant
                n == self.keys@.len(),
                forall|j: int| 0 <= j < i ==> self.keys@[j] != key,
        {
            if self.keys[i] == key {
                return true;
            }
        }
        false
    }
}

impl Clone for PanicChord {
    fn clone(&self) -> (r: Self)
        ensures
            r@ == self@,
    {
        proof {
            use_type_invariant(self);
        }
        let keys = self.keys();
        PanicChord { keys }
    }
}

impl PartialEq for PanicChord {
    fn eq(&self, other: &Self) -> (r: bool) {
        let n = self.keys.len();
        if n != other.keys.len() {
            return false;
        }
        for i in 0..n
            invariant
                n == self.keys@.len(),
                n == other.keys@.len(),
                forall|j: int| 0 <= j < i ==> self.keys@[j] == other.keys@[j],
        {
            if self.keys[i] != other.keys[i] {
                return false;
            }
        }
        assert(self.keys@ =~= other.keys@);
        true
    }
}

impl PartialEqSpecImpl for PanicChord {
    open spec fn obeys_eq_spec() -> bool {
        true
    }

    open spec fn eq_spec(&self, other: &PanicChord) -> bool {
        self@ == other@
    }
}

impl Eq for PanicChord {

}

/// Insert `k` into a strictly index-ordered vector unless it is already there.
pub(crate) fn insert_sorted(v: &mut Vec<KeyId>, k: KeyId)
    requires
        sorted_distinct(old(v)@),
    ensures
        sorted_distinct(final(v)@),
        forall|x: KeyCode| #[trigger] final(v)@.contains(x) <==> old(v)@.contains(x) || x == k,
{
    let ki = k.index();
    let n = v.len();
    let mut i: usize = 0;
    while i < n && v[i].index() < ki
        invariant
            n == v@.len(),
            v@ == old(v)@,
            sorted_distinct(v@),
            i <= n,
            forall|j: int| 0 <= j < i ==> v@[j].spec_index() < ki,
        decreases n - i,
    {
        i = i + 1;
    }
    if i < n {
        let vk = v[i];
        if vk.index() == ki {
            proof {
                crate::pure_core::event::lemma_index_injective(vk, k);
                assert(v@.contains(k));
            }
            return;
        }
    }
    proof {
        assert forall|j: int| i <= j < n implies v@[j].spec_index() > ki by {
            if j > i {
                assert(v@[i as int].spec_index() < v@[j].spec_index());
            }
        }
    }
    let ghost before = v@;
    v.insert(i, k);
    proof {
        assert(v@ == before.insert(i as int, k));
        assert forall|a: int, b: int| 0 <= a < b < v@.len() implies v@[a].spec_index()
            < v@[b].spec_index() by {
            if b < i {
            } else if b == i {
            } else if a < i {
                assert(v@[b] == before[b - 1]);
            } else if a == i {
                assert(v@[b] == before[b - 1]);
            } else {
                assert(v@[a] == before[a - 1]);
                assert(v@[b] == before[b - 1]);
            }
        }
        assert forall|x: KeyCode| #[trigger] v@.contains(x) <==> before.contains(x) || x == k by {
            if v@.contains(x) {
                let j = choose|j: int| 0 <= j < v@.len() && v@[j] == x;
                if j < i {
                    assert(before[j] == x);
                } else if j > i {
                    assert(before[j - 1] == x);
                }
            }
            if before.contains(x) {
                let j = choose|j: int| 0 <= j < before.len() && before[j] == x;
                if j < i {
                    assert(v@[j] == x);
                } else {
                    assert(v@[j + 1] == x);
                }
            }
            if x == k {
                assert(v@[i as int] == k);
            }
        }
    }
}

/// What the detector reports for one event.
#[derive(Debug, Clone, Copy, PartialEq, Eq, Structural)]
pub struct PanicReaction {
    /// The chord just transitioned into "fully held" on this event (rising edge).
    pub toggled: bool,
    /// This event should be consumed (suppressed) rather than passed to apps.
    pub consume: bool,
}

/// The abstract state of a [`PanicDetector`].
#[verifier::ext_equal]
pub struct PanicState {
    /// The chord's keys.
    pub chord: Seq<KeyCode>,
    /// Indices of the keys currently held.
    pub held: Set<u64>,
    /// Whether the chord was fully held after the previous event.
    pub was_full: bool,
}

/// Every key of the chord is held.
pub open spec fn chord_full(chord: Seq<KeyCode>, held: Set<u64>) -> bool {
    forall|i: int| 0 <= i < chord.len() ==> held.contains((#[trigger] chord[i]).spec_index() as u64)
}

/// One detector step: track the key as held or released, then report a toggle on
/// the rising edge of "chord fully held" and consume while it is fully held.
pub open spec fn panic_step(s: PanicState, event: InputEvent) -> (PanicState, PanicReaction) {
    let k = event.key.spec_index() as u64;
    let held = match event.kind {
        EventKind::Down => s.held.insert(k),
        EventKind::Up => s.held.remove(k),
    };
    let full = chord_full(s.chord, held);
    (
        PanicState { chord: s.chord, held, was_full: full },
        PanicReaction { toggled: full && !s.was_full, consume: full },
    )
}

/// Tracks held keys and emits an edge-triggered toggle when the chord completes.
#[derive(Debug)]
pub struct PanicDetector {
    chord: PanicChord,
    held: HashSet<u64>,
    /// Whether the chord was fully held after the previous event (edge state).
    was_full: bool,
}

impl View for PanicDetector {
    type V = PanicState;

    closed spec fn view(&self) -> PanicState {
        PanicState { chord: self.chord@, held: self.held@, was_full: self.was_full }
    }
}

impl PanicDetector {
    /// A detector for `chord`, with nothing held.
    pub fn new(chord: PanicChord) -> (d: Self)
        ensures
            d@ == (PanicState { chord: chord@, held: Set::empty(), was_full: false }),
    {
        let d = PanicDetector { chord, held: HashSet::new(), was_full: false };
        assert(d@.held =~= Set::empty());
        d
    }

    /// The chord this detector matches.
    pub fn chord(&self) -> (c: &PanicChord)
        ensures
            c@ == self@.chord,
    {
        &self.chord
    }

    /// Swap in a new chord (a live rebind). Resets the held-key tracking and edge
    /// state so the change can't fire a spurious toggle.
    pub fn set_chord(&mut self, chord: PanicChord)
        ensures
            final(self)@ == (PanicState { chord: chord@, held: Set::empty(), was_full: false }),
    {
        self.chord = chord;
        self.held.clear();
        self.was_full = false;
        assert(self@.held =~= Set::empty());
    }

    /// Feed one event; update the held-key set and report toggle/consume.
    pub fn on_event(&mut self, event: InputEvent) -> (r: PanicReaction)
        ensures
            (final(self)@, r) == panic_step(old(self)@, event),
    {
        let k = event.key.index();
        match event.kind {
            EventKind::Down => {
                self.held.insert(k);
            },
            EventKind::Up => {
                self.held.remove(&k);
            },
        }
        let keys = &self.chord.keys;
        let n = keys.len();
        let mut full = true;
        for i in 0..n
            invariant
                n == keys@.len(),
                keys@ == self.chord@,
                full == (forall|j: int|
                    0 <= j < i ==> self.held@.contains((#[trigger] keys@[j]).spec_index() as u64)),
        {
            let ki = keys[i].index();
            if !self.held.contains(&ki) {
                full = false;
            }
        }
        let toggled = full && !self.was_full;
        self.was_full = full;
        let r = PanicReaction { toggled, consume: full };
        assert(self@ =~= panic_step(old(self)@, event).0);
        r
    }
}

impl Default for PanicDetector {
    fn default() -> (d: Self)
        ensures
            d@ == (PanicState {
                chord: PanicChord::default_chord_keys(),
                held: Set::empty(),
                was_full: false,
            }),
    {
        Self::new(PanicChord::default_chord())
    }
}

/// A chord's key list is determined by its set of keys: two index-ordered lists
/// with the same keys are the same list.
pub proof fn lemma_canonical_unique(a: Seq<KeyCode>, b: Seq<KeyCode>)
    requires
        sorted_distinct(a),
        sorted_distinct(b),
        forall|k: KeyCode| #[trigger] a.contains(k) <==> b.contains(k),
    ensures
        a == b,
    decreases a.len(),
{
    if a.len() == 0 {
        if b.len() > 0 {
            assert(b.contains(b[0]));
            assert(a.contains(b[0]));
        }
        assert(a =~= b);
    } else {
        assert(a.contains(a[0]));
        assert(b.contains(a[0]));
        let j = choose|j: int| 0 <= j < b.len() && b[j] == a[0];
        assert(b.contains(b[0]));
        assert(a.contains(b[0]));
        let i = choose|i: int| 0 <= i < a.len() && a[i] == b[0];
        assert(a[0].spec_index() <= a[i].spec_index());
        assert(b[0].spec_index() <= b[j].spec_index());
        crate::pure_core::event::lemma_index_injective(a[0], b[0]);
        assert(a[0] == b[0]);
        let a1 = a.drop_first();
        let b1 = b.drop_first();
        assert forall|k: KeyCode| #[trigger] a1.contains(k) <==> b1.contains(k) by {
            if a1.contains(k) {
                let x = choose|x: int| 0 <= x < a1.len() && a1[x] == k;
                assert(a[x + 1] == k);
                assert(a.contains(k));
                assert(b.contains(k));
                let y = choose|y: int| 0 <= y < b.len() && b[y] == k;
                if y == 0 {
                    assert(a[0].spec_index() < a[x + 1].spec_index());
                    assert(false);
                }
                assert(b1[y - 1] == k);
            }
            if b1.contains(k) {
                let x = choose|x: int| 0 <= x < b1.len() && b1[x] == k;
                assert(b[x + 1] == k);
                assert(b.contains(k));
                assert(a.contains(k));
                let y = choose|y: int| 0 <= y < a.len() && a[y] == k;
                if y == 0 {
                    assert(b[0].spec_index() < b[x + 1].spec_index());
                    assert(false);
                }
                assert(a1[y - 1] == k);
            }
        }
        lemma_canonical_unique(a1, b1);
        assert(a =~= seq![a[0]] + a1);
        assert(b =~= seq![b[0]] + b1);
    }
}

/// Edge-triggered: a toggle happens only on the event that completes the chord.
/// While the chord stays held nothing toggles again; the toggle needs the chord
/// to have been incomplete just before.
pub proof fn lemma_toggle_only_on_rising_edge(s: PanicState, event: InputEvent)
    ensures
        ({
            let (s1, r) = panic_step(s, event);
            &&& r.toggled <==> (s1.was_full && !s.was_full)
            &&& r.consume <==> s1.was_full
            &&& s1.chord == s.chord
        }),
{
}

/// A partial chord never toggles and never consumes: while some chord key is not
/// held, the event passes through the detector untouched.
pub proof fn lemma_partial_chord_is_inert(s: PanicState, event: InputEvent, missing: KeyCode)
    requires
        s.chord.contains(missing),
        ({
            let (s1, _) = panic_step(s, event);
            !s1.held.contains(missing.spec_index() as u64)
        }),
    ensures
        ({
            let (_, r) = panic_step(s, event);
            !r.toggled && !r.consume
        }),
{
    let i = choose|i: int| 0 <= i < s.chord.len() && s.chord[i] == missing;
    assert(s.chord[i] == missing);
}

/// Runs a history of events through the detector from state `s`, oldest first,
/// returning the final state and each event's reaction in order.
pub open spec fn panic_run(s: PanicState, events: Seq<InputEvent>) -> (PanicState, Seq<PanicReaction>)
    decreases events.len(),
{
    if events.len() == 0 {
        (s, Seq::empty())
    } else {
        let (s0, rs) = panic_run(s, events.drop_last());
        let (s1, r) = panic_step(s0, events.last());
        (s1, rs.push(r))
    }
}

/// A run reacts once per event.
pub proof fn lemma_panic_run_len(s: PanicState, events: Seq<InputEvent>)
    ensures
        panic_run(s, events).1.len() == events.len(),
    decreases events.len(),
{
    if events.len() > 0 {
        lemma_panic_run_len(s, events.drop_last());
    }
}

/// The latest event of key index `k` in the history is a press.
pub open spec fn latest_is_down(events: Seq<InputEvent>, k: u64) -> bool
    decreases events.len(),
{
    if events.len() == 0 {
        false
    } else if events.last().key.spec_index() as u64 == k {
        events.last().kind == EventKind::Down
    } else {
        latest_is_down(events.drop_last(), k)
    }
}

/// What a detector's state is, in terms of the history it has seen since it was
/// made (or given a new chord): a key is held exactly when its latest event was a
/// press, and the edge flag is whether the chord is fully held.
pub proof fn lemma_detector_reflects_history(chord: Seq<KeyCode>, events: Seq<InputEvent>, k: u64)
    requires
        chord.len() > 0,
    ensures
        ({
            let (s, rs) = panic_run(PanicState { chord, held: Set::empty(), was_full: false }, events);
            &&& rs.len() == events.len()
            &&& s.chord == chord
            &&& s.held.contains(k) == latest_is_down(events, k)
            &&& s.was_full == chord_full(chord, s.held)
        }),
    decreases events.len(),
{
    if events.len() == 0 {
        assert(!Set::<u64>::empty().contains(chord[0].spec_index() as u64));
    } else {
        lemma_detector_reflects_history(chord, events.drop_last(), k);
    }
}

/// Every chord key's latest event in the history is a press: the chord is held.
pub open spec fn chord_held_after(chord: Seq<KeyCode>, events: Seq<InputEvent>) -> bool {
    forall|i: int|
        0 <= i < chord.len() ==> latest_is_down(events, (#[trigger] chord[i]).spec_index() as u64)
}

/// The detector's "fully held" is the chord being held over the history.
proof fn lemma_full_iff_held_after(chord: Seq<KeyCode>, events: Seq<InputEvent>)
    requires
        chord.len() > 0,
    ensures
        chord_full(
            chord,
            panic_run(PanicState { chord, held: Set::empty(), was_full: false }, events).0.held,
        ) == chord_held_after(chord, events),
{
    let held = panic_run(PanicState { chord, held: Set::empty(), was_full: false }, events).0.held;
    assert forall|i: int| 0 <= i < chord.len() implies held.contains(
        (#[trigger] chord[i]).spec_index() as u64,
    ) == latest_is_down(events, chord[i].spec_index() as u64) by {
        lemma_detector_reflects_history(chord, events, chord[i].spec_index() as u64);
    }
}

/// The chord rule over a history: after any history since the detector was made or
/// given its chord, an event is consumed exactly when, with it, every chord key's
/// latest event is a press, and toggles exactly when that was not so before it.
/// The event's time, device and injected flag play no part.
pub proof fn lemma_detect_after_history(
    chord: Seq<KeyCode>,
    events: Seq<InputEvent>,
    event: InputEvent,
    twin: InputEvent,
)
    requires
        chord_wf(chord),
        twin.key == event.key,
        twin.kind == event.kind,
    ensures
        ({
            let (s, _) = panic_run(PanicState { chord, held: Set::empty(), was_full: false }, events);
            let (_, r) = panic_step(s, event);
            &&& r.consume == chord_held_after(chord, events.push(event))
            &&& r.toggled == (chord_held_after(chord, events.push(event)) && !chord_held_after(
                chord,
                events,
            ))
            &&& panic_step(s, twin).1 == r
        }),
{
    assert(chord.len() > 0) by {
        let i = choose|i: int| 0 <= i < chord.len() && (#[trigger] chord[i]).spec_is_modifier();
    }
    let fresh = PanicState { chord, held: Set::empty(), was_full: false };
    lemma_full_iff_held_after(chord, events);
    lemma_full_iff_held_after(chord, events.push(event));
    assert(events.push(event).drop_last() =~= events);
    lemma_detector_reflects_history(chord, events, 0);
}

/// A chord's key list builds the same chord again: it passes validation, and the
/// only index-ordered list of its keys is itself. So `PanicChord::new(&c.keys())`
/// is `Ok` with a chord equal to `c`.
pub proof fn lemma_chord_keys_rebuild_the_chord(keys: Seq<KeyCode>)
    requires
        chord_wf(keys),
    ensures
        chord_check(keys) is Ok,
        is_canonical_of(keys, keys),
        forall|s: Seq<KeyCode>| #[trigger] is_canonical_of(s, keys) ==> s == keys,
{
    assert forall|s: Seq<KeyCode>| #[trigger] is_canonical_of(s, keys) implies s == keys by {
        lemma_canonical_unique(s, keys);
    }
}

} // verus!
