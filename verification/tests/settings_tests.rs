use my_codex::error::{AppError, CommandError};
use my_codex::settings::{AppSettings, RefreshMode};
use my_codex::wire::WireSettings;

#[test]
fn normalizes_notification_thresholds() {
    let mut settings = AppSettings::default();
    settings.notifications.remaining_thresholds = vec![10, 120, 10, 25, 0];
    let settings = settings.validate().expect("valid settings");
    assert_eq!(settings.notifications.remaining_thresholds, vec![25, 10]);
}

#[test]
fn rejects_aggressive_polling() {
    let mut settings = AppSettings::default();
    settings.refresh_mode = RefreshMode::Fixed(2);
    assert!(settings.validate().is_err());
}

#[test]
fn default_settings_are_valid_and_unchanged_by_validation() {
    let settings = AppSettings::default().validate().expect("defaults are valid");
    assert_eq!(
        settings.notifications.remaining_thresholds,
        vec![50, 25, 20, 10, 5]
    );
    assert_eq!(settings.compact_after_seconds, AppSettings::default().compact_after_seconds);
}

#[test]
fn each_range_rule_has_its_message() {
    let mut settings = AppSettings::default();
    settings.compact_after_seconds = 4;
    match settings.validate() {
        Err(AppError::InvalidSetting(message)) => {
            assert_eq!(message, "compactAfterSeconds must be between 5 and 86400")
        }
        _ => panic!("compact interval accepted"),
    }
    let mut settings = AppSettings::default();
    settings.retention_days = 3651;
    match settings.validate() {
        Err(AppError::InvalidSetting(message)) => {
            assert_eq!(message, "retentionDays must be between 30 and 3650")
        }
        _ => panic!("retention accepted"),
    }
    let mut settings = AppSettings::default();
    settings.warning_remaining_percent = settings.healthy_remaining_percent;
    match settings.validate() {
        Err(AppError::InvalidSetting(message)) => {
            assert_eq!(message, "remaining percentage thresholds are out of order")
        }
        _ => panic!("thresholds accepted"),
    }
    let mut settings = AppSettings::default();
    settings.refresh_mode = RefreshMode::Fixed(3601);
    match settings.validate() {
        Err(AppError::InvalidSetting(message)) => {
            assert_eq!(
                message,
                "fixed refresh interval must be between 10 and 3600 seconds"
            )
        }
        _ => panic!("interval accepted"),
    }
}

#[test]
fn validation_twice_is_validation_once() {
    let mut settings = AppSettings::default();
    settings.notifications.remaining_thresholds = vec![3, 99, 3, 200, 40];
    let once = settings.validate().expect("valid");
    let thresholds = once.notifications.remaining_thresholds.clone();
    let twice = once.validate().expect("still valid");
    assert_eq!(twice.notifications.remaining_thresholds, thresholds);
    assert_eq!(thresholds, vec![99, 40, 3]);
}

#[test]
fn command_errors_carry_codes_and_messages() {
    let error = CommandError::from_error(AppError::InvalidSetting("bad".to_string()));
    assert_eq!(error.code, "invalid_setting");
    assert_eq!(error.message, "invalid setting: bad");
    let poisoned = CommandError::from_error(AppError::StatePoisoned);
    assert_eq!(poisoned.code, "state_unavailable");
    assert_eq!(poisoned.message, "application state lock is poisoned");
}

#[test]
fn settings_page_round_trips() {
    let mut settings = AppSettings::default();
    settings.refresh_mode = RefreshMode::Fixed(45);
    settings.mock_mode = true;
    let page = WireSettings::from_settings(settings.clone());
    assert_eq!(page.refresh_mode, "custom");
    assert_eq!(page.custom_refresh_seconds, 45);
    let back = page.apply_to(AppSettings::default()).expect("accepted");
    assert_eq!(back.refresh_mode, RefreshMode::Fixed(45));
    assert!(back.mock_mode);
    let mut bad = WireSettings::from_settings(AppSettings::default());
    bad.theme = "neon".to_string();
    assert_eq!(
        bad.apply_to(AppSettings::default()).err().as_deref(),
        Some("theme must be light, dark, or system")
    );
}
