//! Platform-agnostic messages crossing the hook thread <-> UI thread boundary.
//!
//! The two threads communicate only through these messages — never a shared lock
//! on the input path.

use vstd::prelude::*;

use crate::pure_core::{Device, KeyId, Mode, PanicChord, Thresholds};

verus! {

/// UI thread -> hook thread.
#[derive(Debug, Clone)]
pub enum Command {
    /// New active thresholds (already projected from the settings, e.g. a disabled
    /// device class as 0 ms). Clamped again where they are applied.
    SetThresholds(Thresholds),
    SetMode(Mode),
    SetDiagnostic(bool),
    /// New panic chord, captured and validated by the Settings rebind UI.
    RebindPanic(PanicChord),
    Shutdown,
}

/// Hook thread -> UI thread.
#[derive(Debug, Clone, Copy, PartialEq, Eq, Structural)]
pub enum Report {
    /// Sent once when the backend's loop is up, with the hook thread's id so the
    /// UI can wake it after sending a `Command`.
    BackendReady { thread_id: u32 },
    Suppressed { device: Device, key: KeyId, gap_ms: u64 },
    ModeChanged(Mode),
    HookEvicted,
    HookReinstalled,
}

} // verus!
