use mochios_settings::autosave::{save_failed_status, starts_with, AutosaveAction, AutosaveState, AUTOSAVE_DELAY_MS};
use mochios_settings::preferences::Preferences;

#[test]
fn changes_wait_for_the_delay_before_saving() {
    let mut state = AutosaveState::new(Preferences::default());
    let mut shown = Preferences::default();
    assert_eq!(state.paint(&shown, 1000), AutosaveAction::Nothing);
    shown.device_name = String::from("Desk");
    assert_eq!(state.paint(&shown, 1000), AutosaveAction::CheckAgainAt(1000 + AUTOSAVE_DELAY_MS));
    assert_eq!(state.paint(&shown, 1200), AutosaveAction::CheckAgainAt(1450));
    assert_eq!(state.paint(&shown, 1450), AutosaveAction::Save);
    let outcome = state.saved(&shown, true, "Unable to save settings: disk full");
    assert!(outcome.clear_status);
    assert!(!outcome.withdraw_consent);
    assert_eq!(state.paint(&shown, 2000), AutosaveAction::Nothing);
}

#[test]
fn another_change_restarts_the_delay() {
    let mut state = AutosaveState::new(Preferences::default());
    let mut shown = Preferences::default();
    shown.accent = 1;
    assert_eq!(state.paint(&shown, 0), AutosaveAction::CheckAgainAt(450));
    shown.accent = 2;
    assert_eq!(state.paint(&shown, 300), AutosaveAction::CheckAgainAt(750));
}

#[test]
fn failed_saves_are_not_repeated_until_the_settings_change() {
    let mut state = AutosaveState::new(Preferences::default());
    let mut shown = Preferences::default();
    shown.diagnostics_enabled = false;
    state.paint(&shown, 0);
    assert_eq!(state.paint(&shown, 500), AutosaveAction::Save);
    let outcome = state.saved(&shown, false, "");
    assert!(!outcome.clear_status && !outcome.withdraw_consent);
    assert_eq!(state.paint(&shown, 1000), AutosaveAction::Nothing);
    shown.region = String::from("United States");
    assert_eq!(state.paint(&shown, 1000), AutosaveAction::CheckAgainAt(1450));
    assert_eq!(state.paint(&shown, 1450), AutosaveAction::Save);
    assert!(state.saved(&shown, true, "").withdraw_consent);
}

#[test]
fn failure_status_text() {
    assert_eq!(save_failed_status("disk full"), "Unable to save settings: disk full");
    assert!(starts_with("Unable to save settings: x", "Unable to save settings:"));
    assert!(!starts_with("Unable", "Unable to save settings:"));
}
