//! The output of a single engine decision.

use vstd::prelude::*;

use crate::pure_core::mode::Mode;

verus! {

/// What to do with one event. The shell maps `Suppress` to "swallow" and `Pass`
/// to "let through".
#[derive(Debug, Clone, Copy, PartialEq, Eq, Structural)]
pub enum Verdict {
    Pass,
    Suppress,
}

/// The result of `Engine::on_event`: the verdict for this event, an optional mode
/// transition (the panic hotkey toggling `Panic`), and — when this event is a
/// chatter down the debouncer suppressed — the measured gap since the key's last
/// release, which the shell reports for the session counters.
#[derive(Debug, Clone, Copy, PartialEq, Eq, Structural)]
pub struct Outcome {
    pub verdict: Verdict,
    pub mode_change: Option<Mode>,
    pub chatter_gap_ms: Option<u64>,
}

} // verus!
