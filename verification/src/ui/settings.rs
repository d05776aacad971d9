//! The Settings-form model: the pure draft/applied state machine behind the
//! settings window.
//!
//! The window *renders* this and dispatches its decisions, but the rules (what
//! counts as an unsaved edit, what Save commits, what Cancel and Reset restore, and
//! how Pause/Resume and the quit dialog mutate committed state without ever looking
//! like a form edit) live here, with no windowing.

use vstd::prelude::*;

use crate::config::{default_config, Config, ConfigView};
use crate::pure_core::{PanicChord, Thresholds};

verus! {

/// The abstract state of a [`SettingsForm`].
#[verifier::ext_equal]
pub struct FormView {
    pub applied: ConfigView,
    pub draft: ConfigView,
}

/// The form has edits not yet committed.
pub open spec fn form_dirty(f: FormView) -> bool {
    f.draft != f.applied
}

/// The thresholds a configuration puts in force: a device class that is not
/// debounced gets 0 ms.
pub open spec fn active_thresholds(c: ConfigView) -> Thresholds {
    Thresholds {
        keyboard_ms: if c.debounce_keyboard {
            c.keyboard_threshold_ms
        } else {
            0
        },
        mouse_ms: if c.debounce_mouse {
            c.mouse_threshold_ms
        } else {
            0
        },
    }
}

/// Two `Config`s: `applied` is what's committed (and drives the live engine), `draft`
/// is the edit buffer the form mutates. They start equal; the form is *dirty* when
/// they diverge.
#[derive(Debug)]
pub struct SettingsForm {
    applied: Config,
    draft: Config,
}

impl View for SettingsForm {
    type V = FormView;

    closed spec fn view(&self) -> FormView {
        FormView { applied: self.applied@, draft: self.draft@ }
    }
}

/// What a [`SettingsForm::commit`] changed, so the shell can apply the side effects.
/// `thresholds` is always pushed (cheap, idempotent); `autostart` and `panic_chord`
/// are `Some` only when that setting actually changed, so a Save doesn't re-toggle
/// the registry key or re-send a chord that didn't move.
#[derive(Debug, Clone, PartialEq, Eq)]
pub struct SettingsCommit {
    pub thresholds: Thresholds,
    pub autostart: Option<bool>,
    pub panic_chord: Option<PanicChord>,
}

impl SettingsForm {
    /// Start a form from the committed settings; the draft begins as a copy.
    pub fn new(applied: Config) -> (f: Self)
        ensures
            f@ == (FormView { applied: applied@, draft: applied@ }),
    {
        let draft = applied.clone();
        SettingsForm { applied, draft }
    }

    /// The committed settings (drive the live engine and are persisted).
    pub fn applied(&self) -> (c: &Config)
        ensures
            c@ == self@.applied,
    {
        &self.applied
    }

    /// The edit buffer, for display.
    pub fn draft(&self) -> (c: &Config)
        ensures
            c@ == self@.draft,
    {
        &self.draft
    }

    /// The edit buffer, mutably: the window's widgets bind to these fields.
    pub fn draft_mut(&mut self) -> (c: &mut Config)
        ensures
            c@ == old(self)@.draft,
            final(self)@ == (FormView { draft: final(c)@, ..old(self)@ }),
    {
        &mut self.draft
    }

    /// Whether the draft has edits not yet committed.
    pub fn is_dirty(&self) -> (r: bool)
        ensures
            r == form_dirty(self@),
    {
        self.draft != self.applied
    }

    /// Commit the draft to `applied`, returning what changed so the shell can apply
    /// the live/OS side effects. Afterwards the form is clean.
    pub fn commit(&mut self) -> (c: SettingsCommit)
        ensures
            final(self)@ == (FormView { applied: old(self)@.draft, draft: old(self)@.draft }),
            c.thresholds == active_thresholds(old(self)@.draft),
            c.autostart == (if old(self)@.draft.autostart != old(self)@.applied.autostart {
                Some(old(self)@.draft.autostart)
            } else {
                None
            }),
            match c.panic_chord {
                Some(chord) => old(self)@.draft.panic_hotkey != old(self)@.applied.panic_hotkey
                    && chord@ == old(self)@.draft.panic_hotkey,
                None => old(self)@.draft.panic_hotkey == old(self)@.applied.panic_hotkey,
            },
    {
        let autostart = if self.draft.autostart != self.applied.autostart {
            Some(self.draft.autostart)
        } else {
            None
        };
        let panic_chord = if self.draft.panic_hotkey != self.applied.panic_hotkey {
            Some(self.draft.panic_hotkey.clone())
        } else {
            None
        };
        self.applied = self.draft.clone();
        SettingsCommit { thresholds: self.applied.thresholds(), autostart, panic_chord }
    }

    /// Discard uncommitted edits.
    pub fn cancel(&mut self)
        ensures
            final(self)@ == (FormView { applied: old(self)@.applied, draft: old(self)@.applied }),
    {
        self.draft = self.applied.clone();
    }

    /// Load factory defaults into the draft, preserving the live pause state
    /// (`enabled`), which Pause/Resume owns, not the form. The user still Saves.
    pub fn reset_to_defaults(&mut self)
        ensures
            final(self)@ == (FormView {
                draft: ConfigView { enabled: old(self)@.applied.enabled, ..default_config() },
                ..old(self)@
            }),
    {
        let mut fresh = Config::default();
        fresh.enabled = self.applied.enabled;
        self.draft = fresh;
    }

    /// Set `enabled` on *both* applied and draft (Pause/Resume owns this, so toggling
    /// pause never shows up as an unsaved form edit). The shell still persists.
    pub fn set_enabled(&mut self, enabled: bool)
        ensures
            final(self)@ == (FormView {
                applied: ConfigView { enabled, ..old(self)@.applied },
                draft: ConfigView { enabled, ..old(self)@.draft },
            }),
            form_dirty(final(self)@) ==> form_dirty(old(self)@),
    {
        self.applied.enabled = enabled;
        self.draft.enabled = enabled;
        proof {
            if !form_dirty(old(self)@) {
                assert(self@.draft =~= self@.applied);
            }
        }
    }

    /// Set `confirm_on_quit` on both applied and draft (the quit dialog's "Don't ask
    /// again" commits directly, outside the form's Save). The shell still persists.
    pub fn set_confirm_on_quit(&mut self, value: bool)
        ensures
            final(self)@ == (FormView {
                applied: ConfigView { confirm_on_quit: value, ..old(self)@.applied },
                draft: ConfigView { confirm_on_quit: value, ..old(self)@.draft },
            }),
            form_dirty(final(self)@) ==> form_dirty(old(self)@),
    {
        self.applied.confirm_on_quit = value;
        self.draft.confirm_on_quit = value;
        proof {
            if !form_dirty(old(self)@) {
                assert(self@.draft =~= self@.applied);
            }
        }
    }
}

/// Save, Cancel and a fresh form all leave nothing unsaved.
pub proof fn lemma_commit_and_cancel_leave_the_form_clean(f: FormView)
    ensures
        !form_dirty(FormView { applied: f.draft, draft: f.draft }),
        !form_dirty(FormView { applied: f.applied, draft: f.applied }),
{
}

} // verus!
