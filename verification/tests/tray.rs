use bouncer::pure_core::Mode;
use bouncer::ui::tray::{resolve_quit_dialog, IconState, QuitResolution, TrayAction, TrayEffect, TrayModel, ICON_SIZE};

fn model(mode: Mode) -> TrayModel {
    TrayModel {
        mode,
        diagnostic: false,
        keyboard_suppressed: 0,
        mouse_suppressed: 0,
        confirm_on_quit: true,
        panic_hotkey: "Ctrl+Alt+Shift+F12".to_string(),
    }
}

#[test]
fn icon_maps_each_mode_to_a_distinct_state() {
    assert_eq!(model(Mode::Active).icon(), IconState::Active);
    assert_eq!(model(Mode::Paused).icon(), IconState::Paused);
    assert_eq!(model(Mode::Panic).icon(), IconState::Panic);
}

#[test]
fn diagnostic_badge_shows_only_while_active() {
    let mut m = model(Mode::Active);
    m.diagnostic = true;
    assert_eq!(m.icon(), IconState::ActiveDiagnostic);
    m.mode = Mode::Paused;
    assert_eq!(m.icon(), IconState::Paused);
    m.mode = Mode::Panic;
    assert_eq!(m.icon(), IconState::Panic);
}

#[test]
fn pause_resume_label_flips_with_mode() {
    assert_eq!(model(Mode::Active).pause_resume_label(), "Pause");
    assert_eq!(model(Mode::Paused).pause_resume_label(), "Resume");
    assert_eq!(model(Mode::Panic).pause_resume_label(), "Resume");
}

#[test]
fn diagnostic_entry_greyed_only_while_paused() {
    assert!(model(Mode::Active).diagnostic_enabled());
    assert!(model(Mode::Panic).diagnostic_enabled());
    assert!(!model(Mode::Paused).diagnostic_enabled());
}

#[test]
fn diagnostic_checked_reflects_the_flag() {
    let mut m = model(Mode::Active);
    assert!(!m.diagnostic_checked());
    m.diagnostic = true;
    assert!(m.diagnostic_checked());
}

#[test]
fn pause_from_active_pauses() {
    assert_eq!(model(Mode::Active).apply(TrayAction::TogglePause), TrayEffect::SetMode(Mode::Paused));
}

#[test]
fn resume_from_paused_reactivates() {
    assert_eq!(model(Mode::Paused).apply(TrayAction::TogglePause), TrayEffect::SetMode(Mode::Active));
}

#[test]
fn pause_resume_clears_panic() {
    assert_eq!(model(Mode::Panic).apply(TrayAction::TogglePause), TrayEffect::SetMode(Mode::Active));
}

#[test]
fn diagnostic_toggles_when_active() {
    assert_eq!(model(Mode::Active).apply(TrayAction::ToggleDiagnostic), TrayEffect::SetDiagnostic(true));
    let mut on = model(Mode::Active);
    on.diagnostic = true;
    assert_eq!(on.apply(TrayAction::ToggleDiagnostic), TrayEffect::SetDiagnostic(false));
}

#[test]
fn diagnostic_toggle_is_inert_while_paused() {
    assert_eq!(model(Mode::Paused).apply(TrayAction::ToggleDiagnostic), TrayEffect::Nothing);
}

#[test]
fn open_settings_action_opens_settings() {
    assert_eq!(model(Mode::Active).apply(TrayAction::OpenSettings), TrayEffect::OpenSettings);
}

#[test]
fn tooltip_shows_mode_and_session_counts_while_active() {
    let mut m = model(Mode::Active);
    m.keyboard_suppressed = 7;
    m.mouse_suppressed = 3;
    let tip = m.tooltip();
    assert!(tip.contains("Active"), "tooltip names the Mode: {tip}");
    assert!(tip.contains('7') && tip.contains('3'), "shows counts: {tip}");
}

#[test]
fn tooltip_marks_diagnostic_while_recording() {
    let mut m = model(Mode::Active);
    m.diagnostic = true;
    assert!(m.tooltip().to_lowercase().contains("diagnostic"));
}

#[test]
fn tooltip_paused_explains_how_to_recover() {
    let tip = model(Mode::Paused).tooltip();
    assert!(tip.contains("Paused"), "{tip}");
    assert!(tip.contains("Resume"), "recovery hint present: {tip}");
}

#[test]
fn tooltip_panic_shows_the_hotkey_to_resume() {
    let tip = model(Mode::Panic).tooltip();
    assert!(tip.contains("PANIC"), "{tip}");
    assert!(tip.contains("Ctrl+Alt+Shift+F12"), "names the hotkey: {tip}");
    assert!(tip.to_lowercase().contains("resume"), "{tip}");
}

#[test]
fn quit_asks_for_confirmation_when_configured() {
    let m = model(Mode::Active);
    assert_eq!(m.apply(TrayAction::Quit), TrayEffect::ConfirmQuit);
}

#[test]
fn quit_is_immediate_once_confirmation_disabled() {
    let mut m = model(Mode::Active);
    m.confirm_on_quit = false;
    assert_eq!(m.apply(TrayAction::Quit), TrayEffect::Quit);
}

#[test]
fn confirming_quit_without_dont_ask_leaves_config_untouched() {
    assert_eq!(resolve_quit_dialog(true, false), QuitResolution::Quit { new_confirm_on_quit: None });
}

#[test]
fn confirming_quit_with_dont_ask_persists_the_preference() {
    assert_eq!(resolve_quit_dialog(true, true), QuitResolution::Quit { new_confirm_on_quit: Some(false) });
}

#[test]
fn cancelling_quit_does_nothing() {
    assert_eq!(resolve_quit_dialog(false, true), QuitResolution::Cancel);
    assert_eq!(resolve_quit_dialog(false, false), QuitResolution::Cancel);
}

// --- further cases ---

#[test]
fn tooltip_texts_in_full() {
    let mut m = model(Mode::Active);
    m.keyboard_suppressed = 1234;
    m.mouse_suppressed = 0;
    assert_eq!(m.tooltip(), "Bouncer — Active · 1234 kbd · 0 mouse suppressed");
    m.diagnostic = true;
    assert_eq!(m.tooltip(), "Bouncer — Active (diagnostic) · 1234 kbd · 0 mouse suppressed");
    m.mode = Mode::Paused;
    m.mouse_suppressed = u64::MAX;
    assert_eq!(
        m.tooltip(),
        "Bouncer — Paused (pass-through) · right-click ▸ Resume to re-enable · 1234 kbd · 18446744073709551615 mouse suppressed"
    );
    m.mode = Mode::Panic;
    m.panic_hotkey = "Win+Q".to_string();
    assert_eq!(m.tooltip(), "Bouncer — PANIC (pass-through) · press Win+Q to resume");
}

#[test]
fn settings_and_quit_ignore_the_mode() {
    for mode in [Mode::Active, Mode::Paused, Mode::Panic] {
        assert_eq!(model(mode).apply(TrayAction::OpenSettings), TrayEffect::OpenSettings);
        assert_eq!(model(mode).apply(TrayAction::Quit), TrayEffect::ConfirmQuit);
    }
}

#[test]
fn diagnostic_toggles_in_panic_too() {
    assert_eq!(model(Mode::Panic).apply(TrayAction::ToggleDiagnostic), TrayEffect::SetDiagnostic(true));
}

#[test]
fn the_icon_is_thirty_two_pixels() {
    assert_eq!(ICON_SIZE, 32);
}
