//! Panic-hotkey rebind capture.
//!
//! Pure capture state for the Settings "Rebind" gesture: fed the key events the
//! user produces while the capture field has focus, it tracks the combination
//! currently held and offers it as a candidate [`PanicChord`], which only
//! validates once it has at least one modifier and one non-modifier key. The UI
//! shows [`keys`](RebindCapture::keys) live and enables *Accept* only when
//! [`chord`](RebindCapture::chord) is `Ok`. No OS calls; the shell feeds it events.

use vstd::prelude::*;

use crate::pure_core::event::{EventKind, KeyCode};
use crate::pure_core::panic::{chord_check, insert_sorted, lemma_canonical_unique, sorted_distinct};
use crate::pure_core::{ChordError, KeyId, PanicChord};

verus! {

/// The abstract state of a [`RebindCapture`]: the keys held now, and the captured
/// candidate, each listed once in key order.
#[verifier::ext_equal]
pub struct RebindView {
    pub held: Seq<KeyCode>,
    pub captured: Seq<KeyCode>,
}

/// Accumulates the keys held during a rebind gesture. The candidate chord is the
/// set held at the moment the most recently pressed key went down ("whatever you
/// were holding when you pressed the last key"), so releasing the chord leaves the
/// captured combination intact for the user to accept.
#[derive(Debug, Default)]
pub struct RebindCapture {
    held: Vec<KeyId>,
    captured: Vec<KeyId>,
}

impl View for RebindCapture {
    type V = RebindView;

    closed spec fn view(&self) -> RebindView {
        RebindView { held: self.held@, captured: self.captured@ }
    }
}

impl RebindCapture {
    #[verifier::type_invariant]
    spec fn ordered(self) -> bool {
        sorted_distinct(self.held@) && sorted_distinct(self.captured@)
    }

    pub fn new() -> (c: Self)
        ensures
            c@ == (RebindView { held: Seq::empty(), captured: Seq::empty() }),
    {
        RebindCapture { held: Vec::new(), captured: Vec::new() }
    }

    /// Feed one key event while capturing. A key down extends the held set and
    /// snapshots it as the candidate; a key up just relaxes the held set.
    pub fn on_event(&mut self, key: KeyId, kind: EventKind)
        ensures
            kind == EventKind::Down ==> {
                &&& forall|k: KeyCode| #[trigger]
                    final(self)@.held.contains(k) <==> old(self)@.held.contains(k) || k == key
                &&& final(self)@.captured == final(self)@.held
            },
            kind == EventKind::Up ==> {
                &&& forall|k: KeyCode| #[trigger]
                    final(self)@.held.contains(k) <==> old(self)@.held.contains(k) && k != key
                &&& final(self)@.captured == old(self)@.captured
            },
    {
        proof {
            use_type_invariant(&*self);
        }
        let mut held: Vec<KeyId> = Vec::new();
        std::mem::swap(&mut held, &mut self.held);
        match kind {
            EventKind::Down => {
                insert_sorted(&mut held, key);
                let snapshot = copy_keys(&held);
                self.held = held;
                self.captured = snapshot;
            },
            EventKind::Up => {
                remove_sorted(&mut held, key);
                self.held = held;
            },
        }
    }

    /// The captured combination, in key order, for live display. Empty before any
    /// input.
    pub fn keys(&self) -> (r: Vec<KeyId>)
        ensures
            r@ == self@.captured,
            sorted_distinct(r@),
    {
        proof {
            use_type_invariant(self);
        }
        copy_keys(&self.captured)
    }

    /// The candidate chord, validated. `Err` until the captured combination has at
    /// least one modifier and one non-modifier key.
    pub fn chord(&self) -> (r: Result<PanicChord, ChordError>)
        ensures
            match r {
                Ok(c) => chord_check(self@.captured) is Ok && c@ == self@.captured,
                Err(e) => chord_check(self@.captured) == Err::<(), ChordError>(e),
            },
    {
        proof {
            use_type_invariant(self);
        }
        let r = PanicChord::new(self.captured.as_slice());
        proof {
            if r is Ok {
                lemma_canonical_unique(r->Ok_0@, self.captured@);
            }
        }
        r
    }
}

/// A copy of `v`.
fn copy_keys(v: &Vec<KeyId>) -> (r: Vec<KeyId>)
    ensures
        r@ == v@,
{
    let mut out: Vec<KeyId> = Vec::new();
    let n = v.len();
    for i in 0..n
        invariant
            n == v@.len(),
            out@ == v@.subrange(0, i as int),
    {
        out.push(v[i]);
        assert(out@ =~= v@.subrange(0, i + 1));
    }
    assert(out@ =~= v@);
    out
}

/// Remove `k` from a strictly ordered vector, if it is there.
fn remove_sorted(v: &mut Vec<KeyId>, k: KeyId)
    requires
        sorted_distinct(old(v)@),
    ensures
        sorted_distinct(final(v)@),
        forall|x: KeyCode| #[trigger] final(v)@.contains(x) <==> old(v)@.contains(x) && x != k,
{
    let n = v.len();
    let mut i: usize = 0;
    while i < n && v[i] != k
        invariant
            n == v@.len(),
            v@ == old(v)@,
            i <= n,
            forall|j: int| 0 <= j < i ==> v@[j] != k,
        decreases n - i,
    {
        i = i + 1;
    }
    if i == n {
        return;
    }
    let ghost before = v@;
    v.remove(i);
    proof {
        assert(v@ == before.remove(i as int));
        assert forall|a: int, b: int| 0 <= a < b < v@.len() implies v@[a].spec_index()
            < v@[b].spec_index() by {
            if a < i {
                if b < i {
                } else {
                    assert(v@[b] == before[b + 1]);
                }
            } else {
                assert(v@[a] == before[a + 1]);
                assert(v@[b] == before[b + 1]);
            }
        }
        assert forall|x: KeyCode| #[trigger] v@.contains(x) <==> before.contains(x) && x != k by {
            if v@.contains(x) {
                let j = choose|j: int| 0 <= j < v@.len() && v@[j] == x;
                if j < i {
                    assert(before[j] == x);
                } else {
                    assert(before[j + 1] == x);
                    crate::pure_core::event::lemma_index_injective(before[i as int], before[j + 1]);
                }
            }
            if before.contains(x) && x != k {
                let j = choose|j: int| 0 <= j < before.len() && before[j] == x;
                if j < i {
                    assert(v@[j] == x);
                } else {
                    assert(j != i);
                    assert(v@[j - 1] == x);
                }
            }
        }
    }
}

} // verus!
