//! User settings and the rules that a saved settings value obeys.
use vstd::prelude::*;

use crate::error::{AppError, AppResult};

verus! {

#[derive(Debug, Clone, Copy, PartialEq, Eq, Structural)]
pub enum ThemeMode {
    Light,
    Dark,
    System,
}

#[derive(Debug, Clone, Copy, PartialEq, Eq, Structural)]
pub enum Language {
    ZhCn,
    En,
}

#[derive(Debug, Clone, Copy, PartialEq, Eq, Structural)]
pub enum QuotaWindowPreference {
    Primary,
    Secondary,
}

#[derive(Debug, Clone, Copy, PartialEq, Eq, Structural)]
pub enum RefreshMode {
    Smart,
    Fixed(u64),
}

#[derive(Debug, Clone)]
pub struct NotificationSettings {
    pub enabled: bool,
    pub remaining_thresholds: Vec<u8>,
    pub notify_on_unavailable: bool,
}

impl Default for NotificationSettings {
    fn default() -> (settings: Self)
        ensures
            settings.enabled,
            settings.remaining_thresholds@ == seq![50u8, 25u8, 20u8, 10u8, 5u8],
            !settings.notify_on_unavailable,
    {
        NotificationSettings {
            enabled: true,
            remaining_thresholds: vec![50, 25, 20, 10, 5],
            notify_on_unavailable: false,
        }
    }
}

#[derive(Debug, Clone)]
pub struct AppSettings {
    pub schema_version: u32,
    pub theme: ThemeMode,
    pub language: Language,
    pub launch_at_login: bool,
    pub show_floating_on_start: bool,
    pub hide_dashboard_on_close: bool,
    pub always_on_top: bool,
    pub capsule_mode: bool,
    pub lock_widget_position: bool,
    pub auto_compact: bool,
    pub compact_after_seconds: u64,
    pub show_in_taskbar: bool,
    pub refresh_mode: RefreshMode,
    pub mock_mode: bool,
    pub widget_x: Option<i32>,
    pub widget_y: Option<i32>,
    pub retention_days: u16,
    pub notifications: NotificationSettings,
    pub healthy_remaining_percent: u8,
    pub warning_remaining_percent: u8,
    pub primary_quota_window: QuotaWindowPreference,
}

/// Two settings values that agree in every field (thresholds compared by content).
pub open spec fn settings_same(a: AppSettings, b: AppSettings) -> bool {
    &&& a.schema_version == b.schema_version
    &&& a.theme == b.theme
    &&& a.language == b.language
    &&& a.launch_at_login == b.launch_at_login
    &&& a.show_floating_on_start == b.show_floating_on_start
    &&& a.hide_dashboard_on_close == b.hide_dashboard_on_close
    &&& a.always_on_top == b.always_on_top
    &&& a.capsule_mode == b.capsule_mode
    &&& a.lock_widget_position == b.lock_widget_position
    &&& a.auto_compact == b.auto_compact
    &&& a.compact_after_seconds == b.compact_after_seconds
    &&& a.show_in_taskbar == b.show_in_taskbar
    &&& a.refresh_mode == b.refresh_mode
    &&& a.mock_mode == b.mock_mode
    &&& a.widget_x == b.widget_x
    &&& a.widget_y == b.widget_y
    &&& a.retention_days == b.retention_days
    &&& a.notifications.enabled == b.notifications.enabled
    &&& a.notifications.remaining_thresholds@ == b.notifications.remaining_thresholds@
    &&& a.notifications.notify_on_unavailable == b.notifications.notify_on_unavailable
    &&& a.healthy_remaining_percent == b.healthy_remaining_percent
    &&& a.warning_remaining_percent == b.warning_remaining_percent
    &&& a.primary_quota_window == b.primary_quota_window
}

/// `a` with the notification thresholds replaced by `thresholds`, all else equal.
pub open spec fn same_but_thresholds(a: AppSettings, b: AppSettings) -> bool {
    &&& a.schema_version == b.schema_version
    &&& a.theme == b.theme
    &&& a.language == b.language
    &&& a.launch_at_login == b.launch_at_login
    &&& a.show_floating_on_start == b.show_floating_on_start
    &&& a.hide_dashboard_on_close == b.hide_dashboard_on_close
    &&& a.always_on_top == b.always_on_top
    &&& a.capsule_mode == b.capsule_mode
    &&& a.lock_widget_position == b.lock_widget_position
    &&& a.auto_compact == b.auto_compact
    &&& a.compact_after_seconds == b.compact_after_seconds
    &&& a.show_in_taskbar == b.show_in_taskbar
    &&& a.refresh_mode == b.refresh_mode
    &&& a.mock_mode == b.mock_mode
    &&& a.widget_x == b.widget_x
    &&& a.widget_y == b.widget_y
    &&& a.retention_days == b.retention_days
    &&& a.notifications.enabled == b.notifications.enabled
    &&& a.notifications.notify_on_unavailable == b.notifications.notify_on_unavailable
    &&& a.healthy_remaining_percent == b.healthy_remaining_percent
    &&& a.warning_remaining_percent == b.warning_remaining_percent
    &&& a.primary_quota_window == b.primary_quota_window
}

/// The settings of a fresh installation.
pub open spec fn is_default_settings(s: AppSettings) -> bool {
    &&& s.schema_version == 1
    &&& s.theme == ThemeMode::System
    &&& s.language == Language::ZhCn
    &&& !s.launch_at_login
    &&& s.show_floating_on_start
    &&& s.hide_dashboard_on_close
    &&& s.always_on_top
    &&& s.capsule_mode
    &&& !s.lock_widget_position
    &&& s.auto_compact
    &&& s.compact_after_seconds == 30
    &&& !s.show_in_taskbar
    &&& s.refresh_mode == RefreshMode::Smart
    &&& !s.mock_mode
    &&& s.widget_x.is_none()
    &&& s.widget_y.is_none()
    &&& s.retention_days == 365
    &&& s.notifications.enabled
    &&& s.notifications.remaining_thresholds@ == seq![50u8, 25u8, 20u8, 10u8, 5u8]
    &&& !s.notifications.notify_on_unavailable
    &&& s.healthy_remaining_percent == 40
    &&& s.warning_remaining_percent == 20
    &&& s.primary_quota_window == QuotaWindowPreference::Secondary
}

impl Default for AppSettings {
    fn default() -> (settings: Self)
        ensures
            is_default_settings(settings),
    {
        AppSettings {
            schema_version: 1,
            theme: ThemeMode::System,
            language: Language::ZhCn,
            launch_at_login: false,
            show_floating_on_start: true,
            hide_dashboard_on_close: true,
            always_on_top: true,
            capsule_mode: true,
            lock_widget_position: false,
            auto_compact: true,
            compact_after_seconds: 30,
            show_in_taskbar: false,
            refresh_mode: RefreshMode::Smart,
            mock_mode: false,
            widget_x: None,
            widget_y: None,
            retention_days: 365,
            notifications: NotificationSettings::default(),
            healthy_remaining_percent: 40,
            warning_remaining_percent: 20,
            primary_quota_window: QuotaWindowPreference::Secondary,
        }
    }
}

/// Which rule a settings value breaks first, if any; the rules are checked in this order.
pub enum SettingsViolation {
    CompactDelay,
    Retention,
    RemainingOrder,
    FixedInterval,
}

pub open spec fn first_violation(s: AppSettings) -> Option<SettingsViolation> {
    if !(5 <= s.compact_after_seconds <= 86_400) {
        Some(SettingsViolation::CompactDelay)
    } else if !(30 <= s.retention_days <= 3650) {
        Some(SettingsViolation::Retention)
    } else if s.warning_remaining_percent >= s.healthy_remaining_percent
        || s.healthy_remaining_percent > 100 {
        Some(SettingsViolation::RemainingOrder)
    } else if s.refresh_mode matches RefreshMode::Fixed(seconds) && !(10 <= seconds <= 3600) {
        Some(SettingsViolation::FixedInterval)
    } else {
        None
    }
}

pub open spec fn violation_message(v: SettingsViolation) -> Seq<char> {
    match v {
        SettingsViolation::CompactDelay => "compactAfterSeconds must be between 5 and 86400"@,
        SettingsViolation::Retention => "retentionDays must be between 30 and 3650"@,
        SettingsViolation::RemainingOrder => "remaining percentage thresholds are out of order"@,
        SettingsViolation::FixedInterval => "fixed refresh interval must be between 10 and 3600 seconds"@,
    }
}

/// The thresholds that a saved value keeps: those from 1 to 100, highest
/// first, each once.
pub open spec fn thresholds_normalized(input: Seq<u8>, output: Seq<u8>) -> bool {
    &&& forall|i: int, j: int| 0 <= i < j < output.len() ==> output[i] > output[j]
    &&& forall|x: u8| output.contains(x) <==> (1 <= x <= 100 && input.contains(x))
}

/// Keeps the thresholds from 1 to 100, highest first, without repeats.
pub fn normalize_thresholds(input: &Vec<u8>) -> (output: Vec<u8>)
    ensures
        thresholds_normalized(input@, output@),
{
    let mut output: Vec<u8> = Vec::new();
    let mut value: u8 = 100;
    while value > 0
        invariant
            value <= 100,
            forall|i: int, j: int| 0 <= i < j < output@.len() ==> output@[i] > output@[j],
            forall|i: int| 0 <= i < output@.len() ==> output@[i] > value,
            forall|x: u8|
                x > value ==> (output@.contains(x) <==> (1 <= x <= 100 && input@.contains(x))),
        decreases value,
    {
        let mut found: bool = false;
        let mut k: usize = 0;
        while k < input.len()
            invariant
                k <= input@.len(),
                found <==> exists|m: int| 0 <= m < k && input@[m] == value,
            decreases input@.len() - k,
        {
            if input[k] == value {
                found = true;
            }
            k = k + 1;
        }
        let ghost before = output@;
        if found {
            output.push(value);
        }
        proof {
            assert forall|x: u8| x > value - 1 implies (output@.contains(x) <==> (1 <= x <= 100
                && input@.contains(x))) by {
                if x == value {
                    if found {
                        assert(output@[output@.len() - 1] == value);
                    } else {
                        assert forall|i: int| 0 <= i < output@.len() implies output@[i] != x by {}
                        if input@.contains(x) {
                            let m: int = choose|m: int| 0 <= m < input@.len() && input@[m] == x;
                            assert(input@[m] == value);
                        }
                    }
                } else {
                    if output@.contains(x) {
                        let i: int = choose|i: int| 0 <= i < output@.len() && output@[i] == x;
                        if found && i == output@.len() - 1 {
                        } else {
                            assert(before[i] == x);
                        }
                    }
                    if before.contains(x) {
                        let i: int = choose|i: int| 0 <= i < before.len() && before[i] == x;
                        assert(output@[i] == x);
                    }
                }
            }
        }
        value = value - 1;
    }
    proof {
        assert forall|x: u8| output@.contains(x) <==> (1 <= x <= 100 && input@.contains(x)) by {
            if x == 0 {
                if output@.contains(x) {
                    let i: int = choose|i: int| 0 <= i < output@.len() && output@[i] == x;
                    assert(output@[i] > value);
                }
            }
        }
    }
    output
}

fn invalid(message: &str) -> (error: AppError)
    ensures
        error matches AppError::InvalidSetting(detail) && detail@ == message@,
{
    AppError::InvalidSetting(message.to_owned())
}

impl AppSettings {
    /// Checks the ranges of a settings value and normalizes its thresholds.
    pub fn validate(self) -> (result: AppResult<Self>)
        ensures
            match first_violation(self) {
                Some(v) => result matches Err(AppError::InvalidSetting(detail)) && detail@
                    == violation_message(v),
                None => result matches Ok(saved) && same_but_thresholds(saved, self)
                    && thresholds_normalized(
                    self.notifications.remaining_thresholds@,
                    saved.notifications.remaining_thresholds@,
                ),
            },
    {
        if !(5 <= self.compact_after_seconds && self.compact_after_seconds <= 86_400) {
            return Err(invalid("compactAfterSeconds must be between 5 and 86400"));
        }
        if !(30 <= self.retention_days && self.retention_days <= 3650) {
            return Err(invalid("retentionDays must be between 30 and 3650"));
        }
        if self.warning_remaining_percent >= self.healthy_remaining_percent
            || self.healthy_remaining_percent > 100 {
            return Err(invalid("remaining percentage thresholds are out of order"));
        }
        if let RefreshMode::Fixed(seconds) = self.refresh_mode {
            if !(10 <= seconds && seconds <= 3600) {
                return Err(
                    invalid("fixed refresh interval must be between 10 and 3600 seconds"),
                );
            }
        }
        let mut saved = self;
        let thresholds: Vec<u8> = normalize_thresholds(&saved.notifications.remaining_thresholds);
        saved.notifications.remaining_thresholds = thresholds;
        Ok(saved)
    }
}

pub open spec fn strictly_descending(s: Seq<u8>) -> bool {
    forall|i: int, j: int| 0 <= i < j < s.len() ==> s[i] > s[j]
}

/// Two strictly descending lists with the same elements are equal.
proof fn lemma_descending_unique(a: Seq<u8>, b: Seq<u8>)
    requires
        strictly_descending(a),
        strictly_descending(b),
        forall|x: u8| a.contains(x) <==> b.contains(x),
    ensures
        a == b,
    decreases a.len() + b.len(),
{
    if a.len() == 0 {
        if b.len() > 0 {
            assert(b.contains(b[0]));
        }
    } else if b.len() == 0 {
        assert(a.contains(a[0]));
    } else {
        assert(a.contains(a[0]));
        assert(b.contains(b[0]));
        let ia: int = choose|i: int| 0 <= i < a.len() && a[i] == b[0];
        let ib: int = choose|i: int| 0 <= i < b.len() && b[i] == a[0];
        assert(a[0] == b[0]) by {
            if a[0] > b[0] {
                assert(ib > 0);
                assert(b[0] > b[ib]);
            } else if a[0] < b[0] {
                assert(ia > 0);
                assert(a[0] > a[ia]);
            }
        }
        let ta = a.drop_first();
        let tb = b.drop_first();
        assert forall|x: u8| ta.contains(x) implies tb.contains(x) by {
            let i: int = choose|i: int| 0 <= i < ta.len() && ta[i] == x;
            assert(a[i + 1] == x);
            assert(a.contains(x));
            let j: int = choose|j: int| 0 <= j < b.len() && b[j] == x;
            assert(j != 0);
            assert(tb[j - 1] == x);
        }
        assert forall|x: u8| tb.contains(x) implies ta.contains(x) by {
            let i: int = choose|i: int| 0 <= i < tb.len() && tb[i] == x;
            assert(b[i + 1] == x);
            assert(b.contains(x));
            let j: int = choose|j: int| 0 <= j < a.len() && a[j] == x;
            assert(j != 0);
            assert(ta[j - 1] == x);
        }
        lemma_descending_unique(ta, tb);
        assert(a == seq![a[0]] + ta);
        assert(b == seq![b[0]] + tb);
    }
}

/// Validation is idempotent: validating a validated value accepts it and changes nothing.
pub proof fn lemma_validate_idempotent(s: AppSettings, saved: AppSettings)
    requires
        first_violation(s).is_none(),
        same_but_thresholds(saved, s),
        thresholds_normalized(
            s.notifications.remaining_thresholds@,
            saved.notifications.remaining_thresholds@,
        ),
    ensures
        first_violation(saved).is_none(),
        thresholds_normalized(
            saved.notifications.remaining_thresholds@,
            saved.notifications.remaining_thresholds@,
        ),
{
    let t = saved.notifications.remaining_thresholds@;
    assert forall|x: u8| t.contains(x) implies 1 <= x <= 100 by {}
}

/// The thresholds of a validated value are its own normalization, so a second
/// validation stores exactly the same list.
pub proof fn lemma_normalized_thresholds_fixed(input: Seq<u8>, once: Seq<u8>, twice: Seq<u8>)
    requires
        thresholds_normalized(input, once),
        thresholds_normalized(once, twice),
    ensures
        twice == once,
{
    assert forall|x: u8| once.contains(x) implies 1 <= x <= 100 by {}
    lemma_descending_unique(once, twice);
}


/// A settings value is accepted exactly when the compact delay is 5 to
/// 86,400 seconds, the retention 30 to 3,650 days, the warning level below
/// the healthy level and that at most 100, and a fixed refresh interval 10
/// to 3,600 seconds; the first rule broken, in that order, is the one reported.
pub proof fn lemma_settings_rules(s: AppSettings)
    ensures
        first_violation(s).is_none() <==> (5 <= s.compact_after_seconds <= 86_400 && 30
            <= s.retention_days <= 3650 && s.warning_remaining_percent < s.healthy_remaining_percent
            && s.healthy_remaining_percent <= 100 && (s.refresh_mode matches RefreshMode::Fixed(x)
            ==> 10 <= x <= 3600)),
        !(5 <= s.compact_after_seconds <= 86_400) ==> first_violation(s) matches Some(
            SettingsViolation::CompactDelay,
        ),
        5 <= s.compact_after_seconds <= 86_400 && !(30 <= s.retention_days <= 3650)
            ==> first_violation(s) matches Some(SettingsViolation::Retention),
        5 <= s.compact_after_seconds <= 86_400 && 30 <= s.retention_days <= 3650 && !(
        s.warning_remaining_percent < s.healthy_remaining_percent && s.healthy_remaining_percent
            <= 100) ==> first_violation(s) matches Some(SettingsViolation::RemainingOrder),
        first_violation(s) matches Some(SettingsViolation::Retention) ==> violation_message(
            SettingsViolation::Retention,
        ) == "retentionDays must be between 30 and 3650"@,
{
}

} // verus!
