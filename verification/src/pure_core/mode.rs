//! The primary state of the engine. Exactly one `Mode` is active at a time.
//!
//! `Paused` is persisted across reboots; `Panic` is never persisted (Bouncer
//! always boots out of Panic). The diagnostic overlay is orthogonal.

use vstd::prelude::*;

verus! {

#[derive(Debug, Clone, Copy, PartialEq, Eq, Structural)]
pub enum Mode {
    /// Normal operation: chatter is suppressed.
    Active,
    /// Deliberate user pause: every event passes. Persisted.
    Paused,
    /// Emergency pass-through from the panic hotkey: every event passes. Not persisted.
    Panic,
}

impl Mode {
    /// True in the two pass-through modes, where nothing but the panic chord is
    /// ever suppressed.
    pub open spec fn is_pass_through(self) -> bool {
        self == Mode::Paused || self == Mode::Panic
    }
}

impl Default for Mode {
    fn default() -> (m: Mode)
        ensures
            m == Mode::Active,
    {
        Mode::Active
    }
}

} // verus!
