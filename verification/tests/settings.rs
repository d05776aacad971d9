use bouncer::config::Config;
use bouncer::pure_core::Thresholds;
use bouncer::ui::hotkey;
use bouncer::ui::settings::SettingsForm;

#[test]
fn starts_clean_with_draft_equal_to_applied() {
    let form = SettingsForm::new(Config::default());
    assert!(!form.is_dirty());
    assert_eq!(form.draft(), form.applied());
}

#[test]
fn editing_the_draft_makes_it_dirty() {
    let mut form = SettingsForm::new(Config::default());
    form.draft_mut().keyboard_threshold_ms = 7;
    assert!(form.is_dirty());
}

#[test]
fn cancel_reverts_the_draft() {
    let mut form = SettingsForm::new(Config::default());
    form.draft_mut().keyboard_threshold_ms = 7;
    form.cancel();
    assert!(!form.is_dirty());
    assert_eq!(form.draft().keyboard_threshold_ms, 30);
}

#[test]
fn commit_promotes_the_draft_and_reports_changed_thresholds() {
    let mut form = SettingsForm::new(Config::default());
    form.draft_mut().keyboard_threshold_ms = 12;
    form.draft_mut().debounce_mouse = false;
    let commit = form.commit();

    assert!(!form.is_dirty(), "commit clears the dirty state");
    assert_eq!(form.applied().keyboard_threshold_ms, 12);
    assert_eq!(commit.thresholds, Thresholds { keyboard_ms: 12, mouse_ms: 0 });
}

#[test]
fn commit_flags_autostart_and_hotkey_only_when_they_change() {
    let mut form = SettingsForm::new(Config::default());
    form.draft_mut().keyboard_threshold_ms = 5;
    let commit = form.commit();
    assert_eq!(commit.autostart, None);
    assert_eq!(commit.panic_chord, None);

    let chord = hotkey::parse("Ctrl+Alt+Q").unwrap();
    form.draft_mut().autostart = !form.applied().autostart;
    form.draft_mut().panic_hotkey = chord.clone();
    let commit = form.commit();
    assert_eq!(commit.autostart, Some(false));
    assert_eq!(commit.panic_chord, Some(chord));
}

#[test]
fn reset_to_defaults_keeps_the_live_pause_state() {
    let applied = Config { enabled: false, keyboard_threshold_ms: 99, ..Config::default() };
    let mut form = SettingsForm::new(applied);
    form.reset_to_defaults();
    assert_eq!(form.draft().keyboard_threshold_ms, 30);
    assert!(!form.draft().enabled);
}

#[test]
fn set_enabled_stays_in_step_so_it_is_never_a_form_edit() {
    let mut form = SettingsForm::new(Config::default());
    form.set_enabled(false);
    assert!(!form.is_dirty(), "pausing is not an unsaved edit");
    assert!(!form.applied().enabled);
    assert!(!form.draft().enabled);
}

#[test]
fn set_confirm_on_quit_stays_in_step() {
    let mut form = SettingsForm::new(Config::default());
    form.set_confirm_on_quit(false);
    assert!(!form.is_dirty());
    assert!(!form.applied().confirm_on_quit);
    assert!(!form.draft().confirm_on_quit);
}

// --- further cases ---

#[test]
fn pausing_keeps_a_real_edit_dirty() {
    let mut form = SettingsForm::new(Config::default());
    form.draft_mut().mouse_threshold_ms = 9;
    form.set_enabled(false);
    assert!(form.is_dirty());
    let commit = form.commit();
    assert_eq!(commit.thresholds, Thresholds { keyboard_ms: 30, mouse_ms: 9 });
    assert!(!form.applied().enabled);
}

#[test]
fn reset_then_save_restores_the_factory_settings_but_the_pause() {
    let applied = Config { enabled: false, autostart: false, keyboard_threshold_ms: 5, ..Config::default() };
    let mut form = SettingsForm::new(applied);
    form.reset_to_defaults();
    assert!(form.is_dirty());
    let commit = form.commit();
    assert_eq!(commit.autostart, Some(true));
    assert_eq!(commit.panic_chord, None);
    assert_eq!(form.applied(), &Config { enabled: false, ..Config::default() });
}

#[test]
fn editing_back_to_the_committed_value_is_clean() {
    let mut form = SettingsForm::new(Config::default());
    form.draft_mut().keyboard_threshold_ms = 7;
    form.draft_mut().keyboard_threshold_ms = 30;
    assert!(!form.is_dirty());
}
