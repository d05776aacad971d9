//! The running application's decisions: the state behind the tray and the settings
//! window, and what each interaction makes the shell do.
//!
//! The shell owns the OS tray, the window and the channels. It feeds this session
//! the `Report`s from the hook thread, the tray/menu clicks and the window's
//! buttons, and carries out the [`ShellAction`]s it gets back, in order: send a
//! `Command` to the hook thread, persist the settings, register autostart, show or
//! close the window.

use vstd::prelude::*;

use crate::config::{Config, ConfigView};
use crate::messages::{Command, Report};
use crate::pure_core::hotkey::display;
use crate::pure_core::panic::chord_check;
use crate::pure_core::{KeyCode, KeyId, Mode, EventKind};
use crate::stats::{record_step, Stats, StatsView, DIAGNOSTIC_TTL};
use crate::ui::rebind::{RebindCapture, RebindView};
use crate::ui::settings::{active_thresholds, form_dirty, FormView, SettingsForm};
use crate::ui::tray::{effect_of, resolve_quit_dialog, QuitResolution, TrayAction, TrayEffect, TrayModel};

verus! {

/// One thing the shell must do, in the order the session lists them.
#[derive(Debug, Clone)]
pub enum ShellAction {
    /// Send this command to the hook thread (and wake its loop).
    Send(Command),
    /// Write the applied settings to disk.
    Persist,
    /// Register or unregister start-on-login.
    SetAutostart(bool),
    /// Show and focus the settings window.
    ShowWindow,
    /// Close the window and leave the UI loop.
    CloseWindow,
}

/// The abstract state of a [`Session`].
#[verifier::ext_equal]
pub struct SessionView {
    pub mode: Mode,
    pub diagnostic: bool,
    pub stats: StatsView,
    pub backend_thread_id: Option<u32>,
    pub form: FormView,
    pub quitting: bool,
    pub confirm_quit_open: bool,
    pub dont_ask_again: bool,
    pub rebinding: bool,
    pub rebind: RebindView,
}

/// A report from the hook thread folded into the session: the backend's thread id
/// is remembered, a mode change is mirrored, a suppression is counted (and sampled
/// while recording); the watchdog transitions change nothing here.
pub open spec fn report_step(s: SessionView, report: Report, now: u64) -> SessionView {
    match report {
        Report::BackendReady { thread_id } => SessionView { backend_thread_id: Some(thread_id), ..s },
        Report::ModeChanged(m) => SessionView { mode: m, ..s },
        Report::Suppressed { .. } => SessionView { stats: record_step(s.stats, report, now), ..s },
        _ => s,
    }
}

/// The diagnostic recording deadline a start at `now` sets.
pub open spec fn recording_deadline(now: u64) -> u64 {
    if now + DIAGNOSTIC_TTL <= u64::MAX {
        (now + DIAGNOSTIC_TTL) as u64
    } else {
        u64::MAX
    }
}

/// Quitting: the hook thread is told to shut down and the window closes.
pub open spec fn quit_actions_ok(a: Seq<ShellAction>) -> bool {
    &&& a.len() == 2
    &&& a[0] matches ShellAction::Send(Command::Shutdown)
    &&& a[1] matches ShellAction::CloseWindow
}

/// The state behind the tray and the settings window.
#[derive(Debug)]
pub struct Session {
    mode: Mode,
    diagnostic: bool,
    stats: Stats,
    backend_thread_id: Option<u32>,
    form: SettingsForm,
    quitting: bool,
    confirm_quit_open: bool,
    dont_ask_again: bool,
    rebinding: bool,
    rebind: RebindCapture,
}

impl View for Session {
    type V = SessionView;

    closed spec fn view(&self) -> SessionView {
        SessionView {
            mode: self.mode,
            diagnostic: self.diagnostic,
            stats: self.stats@,
            backend_thread_id: self.backend_thread_id,
            form: self.form@,
            quitting: self.quitting,
            confirm_quit_open: self.confirm_quit_open,
            dont_ask_again: self.dont_ask_again,
            rebinding: self.rebinding,
            rebind: self.rebind@,
        }
    }
}

impl Session {
    /// Start from the loaded settings: Active when protection is enabled, Paused
    /// otherwise; nothing counted, no dialog open, not rebinding.
    pub fn new(cfg: Config) -> (s: Self)
        ensures
            s@ == (SessionView {
                mode: if cfg@.enabled {
                    Mode::Active
                } else {
                    Mode::Paused
                },
                diagnostic: false,
                stats: StatsView {
                    keyboard: 0,
                    mouse: 0,
                    samples: Seq::empty(),
                    recording_until: None,
                },
                backend_thread_id: None,
                form: FormView { applied: cfg@, draft: cfg@ },
                quitting: false,
                confirm_quit_open: false,
                dont_ask_again: false,
                rebinding: false,
                rebind: RebindView { held: Seq::empty(), captured: Seq::empty() },
            }),
    {
        let mode = cfg.initial_mode();
        Session {
            mode,
            diagnostic: false,
            stats: Stats::new(),
            backend_thread_id: None,
            form: SettingsForm::new(cfg),
            quitting: false,
            confirm_quit_open: false,
            dont_ask_again: false,
            rebinding: false,
            rebind: RebindCapture::new(),
        }
    }

    /// The current mode, as last set or reported.
    pub fn mode(&self) -> (m: Mode)
        ensures
            m == self@.mode,
    {
        self.mode
    }

    /// The hook thread's id, once the backend has announced it.
    pub fn backend_thread_id(&self) -> (r: Option<u32>)
        ensures
            r == self@.backend_thread_id,
    {
        self.backend_thread_id
    }

    /// The session statistics.
    pub fn stats(&self) -> (r: &Stats)
        ensures
            r@ == self@.stats,
    {
        &self.stats
    }

    /// The settings form.
    pub fn form(&self) -> (r: &SettingsForm)
        ensures
            r@ == self@.form,
    {
        &self.form
    }

    /// The settings form, for the window's widgets to edit the draft.
    pub fn form_mut(&mut self) -> (r: &mut SettingsForm)
        ensures
            r@ == old(self)@.form,
            final(self)@ == (SessionView { form: final(r)@, ..old(self)@ }),
    {
        &mut self.form
    }

    /// The rebind capture, for live display.
    pub fn rebind(&self) -> (r: &RebindCapture)
        ensures
            r@ == self@.rebind,
    {
        &self.rebind
    }

    /// Whether the quit-confirmation dialog is open.
    pub fn confirm_quit_open(&self) -> (r: bool)
        ensures
            r == self@.confirm_quit_open,
    {
        self.confirm_quit_open
    }

    /// Whether "Don't ask again" is ticked in the quit dialog.
    pub fn dont_ask_again(&self) -> (r: bool)
        ensures
            r == self@.dont_ask_again,
    {
        self.dont_ask_again
    }

    /// Empty the diagnostic ring buffer (the Clear button); the session counters
    /// and the recording deadline stay.
    pub fn clear_samples(&mut self)
        ensures
            final(self)@ == (SessionView {
                stats: StatsView { samples: Seq::empty(), ..old(self)@.stats },
                ..old(self)@
            }),
    {
        self.stats.clear();
    }

    /// Whether the user has asked to quit.
    pub fn quitting(&self) -> (r: bool)
        ensures
            r == self@.quitting,
    {
        self.quitting
    }

    /// Whether the rebind gesture is in progress.
    pub fn rebinding(&self) -> (r: bool)
        ensures
            r == self@.rebinding,
    {
        self.rebinding
    }

    /// The tray projection of the session: mode, badge, session counters, the quit
    /// preference and the applied panic hotkey as text.
    pub fn tray_model(&self) -> (t: TrayModel)
        ensures
            t.mode == self@.mode,
            t.diagnostic == self@.diagnostic,
            t.keyboard_suppressed == self@.stats.keyboard,
            t.mouse_suppressed == self@.stats.mouse,
            t.confirm_on_quit == self@.form.applied.confirm_on_quit,
            t.panic_hotkey@ == crate::pure_core::hotkey::display_spec(
                self@.form.applied.panic_hotkey,
            ),
    {
        let keys = self.form.applied().panic_hotkey.keys();
        TrayModel {
            mode: self.mode,
            diagnostic: self.diagnostic,
            keyboard_suppressed: self.stats.keyboard_suppressed(),
            mouse_suppressed: self.stats.mouse_suppressed(),
            confirm_on_quit: self.form.applied().confirm_on_quit,
            panic_hotkey: display(keys.as_slice()),
        }
    }

    /// Fold one report from the hook thread into the session (see [`report_step`]).
    pub fn on_report(&mut self, report: Report, now: u64)
        ensures
            final(self)@ == report_step(old(self)@, report, now),
    {
        match report {
            Report::BackendReady { thread_id } => self.backend_thread_id = Some(thread_id),
            Report::ModeChanged(m) => self.mode = m,
            Report::Suppressed { .. } => self.stats.record(&report, now),
            Report::HookEvicted | Report::HookReinstalled => {},
        }
    }

    /// The effect a tray interaction has in the current state, carried out.
    pub fn on_tray_action(&mut self, action: TrayAction, now: u64) -> (a: Vec<ShellAction>)
        ensures
            ({
                let effect = effect_of(
                    old(self)@.mode,
                    old(self)@.diagnostic,
                    old(self)@.form.applied.confirm_on_quit,
                    action,
                );
                execute_post(old(self)@, effect, now, final(self)@, a@)
            }),
    {
        let effect = self.tray_model().apply(action);
        self.execute(effect, now)
    }

    /// Carry out the effect of a tray or window interaction (see [`execute_post`]).
    pub fn execute(&mut self, effect: TrayEffect, now: u64) -> (a: Vec<ShellAction>)
        ensures
            execute_post(old(self)@, effect, now, final(self)@, a@),
    {
        let mut actions: Vec<ShellAction> = Vec::new();
        match effect {
            TrayEffect::SetMode(m) => {
                self.mode = m;
                // Paused persists as `enabled = false`; Panic is never persisted.
                if m != Mode::Panic {
                    self.form.set_enabled(m == Mode::Active);
                    actions.push(ShellAction::Persist);
                }
                actions.push(ShellAction::Send(Command::SetMode(m)));
            },
            TrayEffect::SetDiagnostic(on) => {
                self.diagnostic = on;
                if on {
                    self.stats.start_recording(now);
                } else {
                    self.stats.stop_recording();
                }
                actions.push(ShellAction::Send(Command::SetDiagnostic(on)));
            },
            TrayEffect::OpenSettings => {
                actions.push(ShellAction::ShowWindow);
            },
            TrayEffect::ConfirmQuit => {
                self.confirm_quit_open = true;
                self.dont_ask_again = false;
                actions.push(ShellAction::ShowWindow);
            },
            TrayEffect::Quit => {
                self.quitting = true;
                actions.push(ShellAction::Send(Command::Shutdown));
                actions.push(ShellAction::CloseWindow);
            },
            TrayEffect::Nothing => {},
        }
        actions
    }

    /// Save the settings form: the committed thresholds go to the engine, a changed
    /// autostart preference to the OS, a changed chord to the engine, and the
    /// settings to disk.
    pub fn save_settings(&mut self) -> (a: Vec<ShellAction>)
        ensures
            final(self)@ == (SessionView {
                form: FormView { applied: old(self)@.form.draft, draft: old(self)@.form.draft },
                ..old(self)@
            }),
            save_actions_ok(old(self)@.form, a@),
    {
        let commit = self.form.commit();
        let mut actions: Vec<ShellAction> = Vec::new();
        actions.push(ShellAction::Send(Command::SetThresholds(commit.thresholds)));
        if let Some(on) = commit.autostart {
            actions.push(ShellAction::SetAutostart(on));
        }
        if let Some(chord) = commit.panic_chord {
            actions.push(ShellAction::Send(Command::RebindPanic(chord)));
        }
        actions.push(ShellAction::Persist);
        actions
    }

    /// Discard the form's unsaved edits (and any rebind in progress).
    pub fn cancel_settings(&mut self)
        ensures
            final(self)@ == (SessionView {
                form: FormView { applied: old(self)@.form.applied, draft: old(self)@.form.applied },
                rebinding: false,
                ..old(self)@
            }),
    {
        self.form.cancel();
        self.rebinding = false;
    }

    /// Load the factory settings into the draft (keeping the pause state), and stop
    /// any rebind in progress. The user still Saves.
    pub fn reset_to_defaults(&mut self)
        ensures
            final(self)@ == (SessionView {
                form: FormView {
                    draft: ConfigView {
                        enabled: old(self)@.form.applied.enabled,
                        ..crate::config::default_config()
                    },
                    ..old(self)@.form
                },
                rebinding: false,
                ..old(self)@
            }),
    {
        self.form.reset_to_defaults();
        self.rebinding = false;
    }

    /// Tick or untick "Don't ask again" in the quit dialog.
    pub fn set_dont_ask_again(&mut self, value: bool)
        ensures
            final(self)@ == (SessionView { dont_ask_again: value, ..old(self)@ }),
    {
        self.dont_ask_again = value;
    }

    /// Answer the quit dialog. Confirming quits, first persisting
    /// `confirm_on_quit = false` when "Don't ask again" is ticked; dismissing just
    /// closes the dialog.
    pub fn answer_quit_dialog(&mut self, confirmed: bool) -> (a: Vec<ShellAction>)
        ensures
            !confirmed ==> final(self)@ == (SessionView { confirm_quit_open: false, ..old(self)@ })
                && a@.len() == 0,
            confirmed && !old(self)@.dont_ask_again ==> final(self)@ == (SessionView {
                confirm_quit_open: false,
                quitting: true,
                ..old(self)@
            }) && quit_actions_ok(a@),
            confirmed && old(self)@.dont_ask_again ==> final(self)@ == (SessionView {
                confirm_quit_open: false,
                quitting: true,
                form: FormView {
                    applied: ConfigView { confirm_on_quit: false, ..old(self)@.form.applied },
                    draft: ConfigView { confirm_on_quit: false, ..old(self)@.form.draft },
                },
                ..old(self)@
            }) && a@.len() == 3 && (a@[0] is Persist) && quit_actions_ok(a@.drop_first()),
    {
        let mut actions: Vec<ShellAction> = Vec::new();
        self.confirm_quit_open = false;
        if let QuitResolution::Quit { new_confirm_on_quit } = resolve_quit_dialog(
            confirmed,
            self.dont_ask_again,
        ) {
            if let Some(v) = new_confirm_on_quit {
                self.form.set_confirm_on_quit(v);
                actions.push(ShellAction::Persist);
            }
            self.quitting = true;
            actions.push(ShellAction::Send(Command::Shutdown));
            actions.push(ShellAction::CloseWindow);
            proof {
                if !self.dont_ask_again {
                    assert(actions@.len() == 2);
                } else {
                    assert(actions@.drop_first() =~= seq![actions@[1], actions@[2]]);
                }
            }
        }
        actions
    }

    /// Begin the rebind gesture with an empty capture.
    pub fn start_rebind(&mut self)
        ensures
            final(self)@ == (SessionView {
                rebinding: true,
                rebind: RebindView { held: Seq::empty(), captured: Seq::empty() },
                ..old(self)@
            }),
    {
        self.rebinding = true;
        self.rebind = RebindCapture::new();
    }

    /// A key pressed during the rebind gesture, with the modifiers held at that
    /// moment: the candidate becomes exactly those modifiers and the key.
    pub fn capture_key(&mut self, ctrl: bool, alt: bool, shift: bool, key: KeyId)
        ensures
            final(self)@ == (SessionView { rebind: final(self)@.rebind, ..old(self)@ }),
            final(self)@.rebind.captured == final(self)@.rebind.held,
            forall|k: KeyCode| #[trigger]
                final(self)@.rebind.captured.contains(k) <==> (k == KeyCode::Control && ctrl) || (k
                    == KeyCode::Alt && alt) || (k == KeyCode::Shift && shift) || k == key,
    {
        let mut cap = RebindCapture::new();
        if ctrl {
            cap.on_event(KeyCode::Control, EventKind::Down);
        }
        if alt {
            cap.on_event(KeyCode::Alt, EventKind::Down);
        }
        if shift {
            cap.on_event(KeyCode::Shift, EventKind::Down);
        }
        cap.on_event(key, EventKind::Down);
        self.rebind = cap;
    }

    /// Stage the captured chord into the draft when it is a valid chord, ending the
    /// gesture; the user still Saves. Returns whether it was accepted.
    pub fn accept_rebind(&mut self) -> (accepted: bool)
        ensures
            accepted == (chord_check(old(self)@.rebind.captured) is Ok),
            accepted ==> final(self)@ == (SessionView {
                form: FormView {
                    draft: ConfigView {
                        panic_hotkey: old(self)@.rebind.captured,
                        ..old(self)@.form.draft
                    },
                    ..old(self)@.form
                },
                rebinding: false,
                ..old(self)@
            }),
            !accepted ==> final(self)@ == old(self)@,
    {
        match self.rebind.chord() {
            Ok(chord) => {
                let draft = self.form.draft_mut();
                draft.panic_hotkey = chord;
                self.rebinding = false;
                true
            },
            Err(_) => false,
        }
    }

    /// Abandon the rebind gesture; the draft keeps its chord.
    pub fn cancel_rebind(&mut self)
        ensures
            final(self)@ == (SessionView { rebinding: false, ..old(self)@ }),
    {
        self.rebinding = false;
    }
}

/// What carrying out `effect` does to the session and which actions it asks for.
pub open spec fn execute_post(
    s: SessionView,
    effect: TrayEffect,
    now: u64,
    s1: SessionView,
    a: Seq<ShellAction>,
) -> bool {
    match effect {
        TrayEffect::SetMode(m) => if m != Mode::Panic {
            &&& s1 == SessionView {
                mode: m,
                form: FormView {
                    applied: ConfigView { enabled: m == Mode::Active, ..s.form.applied },
                    draft: ConfigView { enabled: m == Mode::Active, ..s.form.draft },
                },
                ..s
            }
            &&& a.len() == 2
            &&& a[0] matches ShellAction::Persist
            &&& a[1] matches ShellAction::Send(Command::SetMode(m1)) && m1 == m
        } else {
            &&& s1 == SessionView { mode: m, ..s }
            &&& a.len() == 1
            &&& a[0] matches ShellAction::Send(Command::SetMode(m1)) && m1 == m
        },
        TrayEffect::SetDiagnostic(on) => {
            &&& s1 == SessionView {
                diagnostic: on,
                stats: StatsView {
                    recording_until: if on {
                        Some(recording_deadline(now))
                    } else {
                        None
                    },
                    ..s.stats
                },
                ..s
            }
            &&& a.len() == 1
            &&& a[0] matches ShellAction::Send(Command::SetDiagnostic(b)) && b == on
        },
        TrayEffect::OpenSettings => s1 == s && a.len() == 1 && a[0] matches ShellAction::ShowWindow,
        TrayEffect::ConfirmQuit => {
            &&& s1 == SessionView { confirm_quit_open: true, dont_ask_again: false, ..s }
            &&& a.len() == 1
            &&& a[0] matches ShellAction::ShowWindow
        },
        TrayEffect::Quit => s1 == SessionView { quitting: true, ..s } && quit_actions_ok(a),
        TrayEffect::Nothing => s1 == s && a.len() == 0,
    }
}

/// The actions of a Save: the committed thresholds to the engine; the autostart
/// preference to the OS when it changed; the chord to the engine when it changed;
/// then the settings to disk.
pub open spec fn save_actions_ok(form: FormView, a: Seq<ShellAction>) -> bool {
    let autostart_changed = form.draft.autostart != form.applied.autostart;
    let chord_changed = form.draft.panic_hotkey != form.applied.panic_hotkey;
    let n = 2 + (if autostart_changed {
        1int
    } else {
        0int
    }) + (if chord_changed {
        1int
    } else {
        0int
    });
    &&& a.len() == n
    &&& a[0] matches ShellAction::Send(Command::SetThresholds(t)) && t == active_thresholds(
        form.draft,
    )
    &&& autostart_changed ==> (a[1] matches ShellAction::SetAutostart(on) && on
        == form.draft.autostart)
    &&& chord_changed ==> (a[n - 2] matches ShellAction::Send(Command::RebindPanic(c)) && c@
        == form.draft.panic_hotkey)
    &&& a[n - 1] matches ShellAction::Persist
}

/// A tray or window interaction never leaves an unsaved settings edit behind that
/// was not there before (Pause/Resume writes through to both the applied and the
/// draft settings), and entering Panic neither touches nor persists the settings:
/// Panic is never saved, so Bouncer never boots into it.
pub proof fn lemma_interactions_are_never_form_edits(
    s: SessionView,
    effect: TrayEffect,
    now: u64,
    s1: SessionView,
    a: Seq<ShellAction>,
)
    requires
        execute_post(s, effect, now, s1, a),
    ensures
        form_dirty(s1.form) ==> form_dirty(s.form),
        effect == TrayEffect::SetMode(Mode::Panic) ==> s1.form == s.form && forall|i: int|
            0 <= i < a.len() ==> !(#[trigger] a[i] is Persist),
{
    if !form_dirty(s.form) {
        assert(s1.form.draft =~= s1.form.applied);
    }
}

} // verus!
