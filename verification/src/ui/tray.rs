//! System-tray surface: four-state icon, state-aware menu, live tooltip.
//!
//! This is the pure presentation and Mode-control core of the tray, with no OS
//! calls (the tray rendering itself is a thin shell). A [`TrayModel`] is a
//! projection of the live Mode, the diagnostic overlay, the session counters and
//! the relevant settings, rebuilt by the shell from the `Report` stream. It answers
//! what the tray should *show* (icon, menu labels, tooltip) and resolves what a
//! click should *do* ([`TrayEffect`]).

use vstd::prelude::*;

use crate::pure_core::hotkey::{chars_to_string, decimal_digits, push_decimal};
use crate::pure_core::Mode;

verus! {

/// The four distinct visual states of the tray icon. `ActiveDiagnostic` is the only
/// state carrying the recording badge, because diagnostic recording is meaningful
/// only while `Active`.
#[derive(Debug, Clone, Copy, PartialEq, Eq, Structural)]
pub enum IconState {
    Active,
    ActiveDiagnostic,
    Paused,
    Panic,
}

/// A user interaction with the tray, mapped by the shell from a click or menu
/// entry. Left-click maps to `OpenSettings`; the menu entries map to the rest.
#[derive(Debug, Clone, Copy, PartialEq, Eq, Structural)]
pub enum TrayAction {
    /// The Pause/Resume entry. Flips Active and Paused, and clears Panic when in
    /// Panic.
    TogglePause,
    /// The Diagnostic entry (a no-op while Paused, where it is greyed out).
    ToggleDiagnostic,
    /// Left-click on the icon, or the Settings… entry.
    OpenSettings,
    /// The Quit entry.
    Quit,
}

/// What the shell should do in response to a [`TrayAction`]. Pure intent: the
/// shell carries it out (sends a `Command`, opens a window, shows a dialog).
#[derive(Debug, Clone, Copy, PartialEq, Eq, Structural)]
pub enum TrayEffect {
    /// Apply this Mode (send `Command::SetMode`; persist `enabled` for Paused).
    SetMode(Mode),
    /// Apply this diagnostic flag (send `Command::SetDiagnostic`).
    SetDiagnostic(bool),
    /// Open the settings window.
    OpenSettings,
    /// Quit immediately: no confirmation configured.
    Quit,
    /// Show the quit-confirmation dialog (`confirm_on_quit` is set).
    ConfirmQuit,
    /// Nothing to do (e.g. Diagnostic clicked while Paused).
    Nothing,
}

/// The outcome of the quit-confirmation dialog.
#[derive(Debug, Clone, Copy, PartialEq, Eq, Structural)]
pub enum QuitResolution {
    /// The user confirmed. `new_confirm_on_quit` is `Some(false)` when they ticked
    /// "Don't ask again" (persist it), else `None` (settings unchanged).
    Quit { new_confirm_on_quit: Option<bool> },
    /// The user dismissed the dialog.
    Cancel,
}

/// A projection of the live engine/UI state onto what the tray displays. Rebuilt by
/// the shell whenever the underlying state changes (a `Report`, a counter tick, a
/// settings edit). Pure: every method is a deterministic function of these fields.
#[derive(Debug, Clone, PartialEq, Eq)]
pub struct TrayModel {
    pub mode: Mode,
    pub diagnostic: bool,
    pub keyboard_suppressed: u64,
    pub mouse_suppressed: u64,
    pub confirm_on_quit: bool,
    /// The current panic hotkey, shown in the recovery hint while in Panic.
    pub panic_hotkey: String,
}

/// The icon for a mode and diagnostic flag.
pub open spec fn icon_of(mode: Mode, diagnostic: bool) -> IconState {
    match mode {
        Mode::Active => if diagnostic {
            IconState::ActiveDiagnostic
        } else {
            IconState::Active
        },
        Mode::Paused => IconState::Paused,
        Mode::Panic => IconState::Panic,
    }
}

/// The session counters as the tooltip shows them.
pub open spec fn counts_text(keyboard: u64, mouse: u64) -> Seq<char> {
    decimal_digits(keyboard as nat) + " kbd · "@ + decimal_digits(mouse as nat)
        + " mouse suppressed"@
}

/// The tooltip text: Mode and session counters, plus a recovery hint in the
/// pass-through modes; in Panic, the hotkey that resumes.
pub open spec fn tooltip_text(
    mode: Mode,
    diagnostic: bool,
    keyboard: u64,
    mouse: u64,
    panic_hotkey: Seq<char>,
) -> Seq<char> {
    match mode {
        Mode::Active => if diagnostic {
            "Bouncer — Active (diagnostic) · "@ + counts_text(keyboard, mouse)
        } else {
            "Bouncer — Active · "@ + counts_text(keyboard, mouse)
        },
        Mode::Paused => "Bouncer — Paused (pass-through) · right-click ▸ Resume to re-enable · "@
            + counts_text(keyboard, mouse),
        Mode::Panic => "Bouncer — PANIC (pass-through) · press "@ + panic_hotkey + " to resume"@,
    }
}

/// The effect of a tray action in a state.
pub open spec fn effect_of(mode: Mode, diagnostic: bool, confirm_on_quit: bool, action: TrayAction) -> TrayEffect {
    match action {
        TrayAction::TogglePause => match mode {
            Mode::Active => TrayEffect::SetMode(Mode::Paused),
            _ => TrayEffect::SetMode(Mode::Active),
        },
        TrayAction::ToggleDiagnostic => if mode != Mode::Paused {
            TrayEffect::SetDiagnostic(!diagnostic)
        } else {
            TrayEffect::Nothing
        },
        TrayAction::OpenSettings => TrayEffect::OpenSettings,
        TrayAction::Quit => if confirm_on_quit {
            TrayEffect::ConfirmQuit
        } else {
            TrayEffect::Quit
        },
    }
}

/// The decimal numeral of `n` as a string.
fn decimal_string(n: u64) -> (s: String)
    ensures
        s@ == decimal_digits(n as nat),
{
    let mut digits: Vec<char> = Vec::new();
    push_decimal(&mut digits, n);
    assert(digits@ =~= decimal_digits(n as nat));
    chars_to_string(&digits)
}

impl TrayModel {
    /// The icon variant for the current state. `ActiveDiagnostic` only when both
    /// `Active` and recording; Paused/Panic never show the diagnostic badge.
    pub fn icon(&self) -> (i: IconState)
        ensures
            i == icon_of(self.mode, self.diagnostic),
    {
        match self.mode {
            Mode::Active => if self.diagnostic {
                IconState::ActiveDiagnostic
            } else {
                IconState::Active
            },
            Mode::Paused => IconState::Paused,
            Mode::Panic => IconState::Panic,
        }
    }

    /// The Pause/Resume entry label: "Pause" while Active, "Resume" otherwise
    /// (Paused, and Panic, where clicking it also clears Panic).
    pub fn pause_resume_label(&self) -> (s: &'static str)
        ensures
            s@ == (if self.mode == Mode::Active {
                "Pause"@
            } else {
                "Resume"@
            }),
    {
        match self.mode {
            Mode::Active => "Pause",
            Mode::Paused | Mode::Panic => "Resume",
        }
    }

    /// Whether the Diagnostic entry is clickable. Greyed (false) while Paused.
    pub fn diagnostic_enabled(&self) -> (r: bool)
        ensures
            r == (self.mode != Mode::Paused),
    {
        self.mode != Mode::Paused
    }

    /// Whether the Diagnostic entry shows as checked.
    pub fn diagnostic_checked(&self) -> (r: bool)
        ensures
            r == self.diagnostic,
    {
        self.diagnostic
    }

    /// The live status-line tooltip: Mode and session counters, plus a recovery
    /// hint in the non-Active (pass-through) modes.
    pub fn tooltip(&self) -> (s: String)
        ensures
            s@ == tooltip_text(
                self.mode,
                self.diagnostic,
                self.keyboard_suppressed,
                self.mouse_suppressed,
                self.panic_hotkey@,
            ),
    {
        let mut s = match self.mode {
            Mode::Active => if self.diagnostic {
                String::from_str("Bouncer — Active (diagnostic) · ")
            } else {
                String::from_str("Bouncer — Active · ")
            },
            Mode::Paused => String::from_str(
                "Bouncer — Paused (pass-through) · right-click ▸ Resume to re-enable · ",
            ),
            Mode::Panic => {
                let mut s = String::from_str("Bouncer — PANIC (pass-through) · press ");
                s.append(self.panic_hotkey.as_str());
                s.append(" to resume");
                return s;
            },
        };
        let ghost head = s@;
        let keyboard = decimal_string(self.keyboard_suppressed);
        let mouse = decimal_string(self.mouse_suppressed);
        s.append(keyboard.as_str());
        s.append(" kbd · ");
        s.append(mouse.as_str());
        s.append(" mouse suppressed");
        assert(s@ =~= head + counts_text(self.keyboard_suppressed, self.mouse_suppressed));
        s
    }

    /// Resolve a tray interaction to the effect the shell should carry out.
    pub fn apply(&self, action: TrayAction) -> (e: TrayEffect)
        ensures
            e == effect_of(self.mode, self.diagnostic, self.confirm_on_quit, action),
    {
        match action {
            // Active pauses; Paused and Panic both resume to Active (clearing Panic).
            TrayAction::TogglePause => match self.mode {
                Mode::Active => TrayEffect::SetMode(Mode::Paused),
                Mode::Paused | Mode::Panic => TrayEffect::SetMode(Mode::Active),
            },
            TrayAction::ToggleDiagnostic => {
                if self.diagnostic_enabled() {
                    TrayEffect::SetDiagnostic(!self.diagnostic)
                } else {
                    TrayEffect::Nothing
                }
            },
            TrayAction::OpenSettings => TrayEffect::OpenSettings,
            TrayAction::Quit => {
                if self.confirm_on_quit {
                    TrayEffect::ConfirmQuit
                } else {
                    TrayEffect::Quit
                }
            },
        }
    }
}

/// The side length, in pixels, of the generated tray icon.
pub const ICON_SIZE: u32 = 32;

/// Resolve the quit-confirmation dialog. Confirming with "Don't ask again" ticked
/// persists `confirm_on_quit = false`; cancelling leaves everything untouched.
pub fn resolve_quit_dialog(confirmed: bool, dont_ask_again: bool) -> (r: QuitResolution)
    ensures
        r == (if !confirmed {
            QuitResolution::Cancel
        } else {
            QuitResolution::Quit {
                new_confirm_on_quit: if dont_ask_again {
                    Some(false)
                } else {
                    None
                },
            }
        }),
{
    if !confirmed {
        return QuitResolution::Cancel;
    }
    QuitResolution::Quit {
        new_confirm_on_quit: if dont_ask_again {
            Some(false)
        } else {
            None
        },
    }
}

/// The four modes-and-badge combinations get four distinct icons, and the badge
/// shows only while Active.
pub proof fn lemma_icon_states_are_distinct(m1: Mode, d1: bool, m2: Mode, d2: bool)
    ensures
        icon_of(m1, d1) == icon_of(m2, d2) ==> m1 == m2,
        icon_of(m1, d1) == IconState::ActiveDiagnostic <==> m1 == Mode::Active && d1,
{
}

/// Pause/Resume never lands in Panic, always leaves Panic, and applied twice from
/// Active or Paused returns to where it started.
pub proof fn lemma_pause_toggle_round_trip(mode: Mode, diagnostic: bool, confirm: bool)
    ensures
        effect_of(mode, diagnostic, confirm, TrayAction::TogglePause) != TrayEffect::SetMode(
            Mode::Panic,
        ),
        mode != Mode::Panic ==> ({
            let next = match effect_of(mode, diagnostic, confirm, TrayAction::TogglePause) {
                TrayEffect::SetMode(m) => m,
                _ => mode,
            };
            effect_of(next, diagnostic, confirm, TrayAction::TogglePause) == TrayEffect::SetMode(
                mode,
            )
        }),
{
}

} // verus!
