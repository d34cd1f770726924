//! The shapes that the user interface reads and writes.
use vstd::prelude::*;

use crate::analytics::{DataSource, TokenBreakdown, UsageRange};
use crate::quota::{ProviderKind, QuotaStatus};
use crate::settings::{
    same_but_thresholds, settings_same, AppSettings, Language, QuotaWindowPreference, RefreshMode,
    ThemeMode,
};
use crate::text::{decimal, decimal_text};

verus! {

/// The source label that the interface shows.
#[derive(Debug, Clone, Copy, PartialEq, Eq, Structural)]
pub enum MetricSource {
    Official,
    Local,
    Estimated,
    Mock,
}

pub open spec fn metric_source_of(source: DataSource, provider: Option<ProviderKind>) -> MetricSource {
    if provider == Some(ProviderKind::Mock) {
        MetricSource::Mock
    } else {
        match source {
            DataSource::Official => MetricSource::Official,
            DataSource::Local => MetricSource::Local,
            DataSource::Estimated => MetricSource::Estimated,
        }
    }
}

impl MetricSource {
    /// Anything that a mock provider produced is labelled mock, whatever its source says.
    pub fn from_internal(source: DataSource, provider: Option<ProviderKind>) -> (label: Self)
        ensures
            label == metric_source_of(source, provider),
    {
        if provider == Some(ProviderKind::Mock) {
            MetricSource::Mock
        } else {
            match source {
                DataSource::Official => MetricSource::Official,
                DataSource::Local => MetricSource::Local,
                DataSource::Estimated => MetricSource::Estimated,
            }
        }
    }
}

/// Mock data is always labelled mock, and real data never is.
pub proof fn lemma_mock_label_isolated(source: DataSource, provider: Option<ProviderKind>)
    ensures
        (metric_source_of(source, provider) == MetricSource::Mock) <==> (provider == Some(
            ProviderKind::Mock,
        )),
{
}

#[derive(Debug, Clone, Copy, PartialEq, Eq, Structural)]
pub struct WireTokenBreakdown {
    pub input: i64,
    pub output: i64,
    pub cached: i64,
    pub reasoning: i64,
    pub total: i64,
}

impl WireTokenBreakdown {
    pub fn from_tokens(value: TokenBreakdown) -> (wire: Self)
        ensures
            wire.input == value.input_tokens,
            wire.output == value.output_tokens,
            wire.cached == value.cached_input_tokens,
            wire.reasoning == value.reasoning_tokens,
            wire.total == value.total_tokens,
    {
        WireTokenBreakdown {
            input: value.input_tokens,
            output: value.output_tokens,
            cached: value.cached_input_tokens,
            reasoning: value.reasoning_tokens,
            total: value.total_tokens,
        }
    }
}

/// One project row of the usage summary.
#[derive(Debug, Clone)]
pub struct WireProjectUsage {
    pub id: String,
    pub name: String,
    pub path: String,
    pub tokens: WireTokenBreakdown,
    pub sessions: i64,
    pub requests: i64,
    pub active_seconds: i64,
    pub last_active_at: String,
    pub source: MetricSource,
}

pub open spec fn wire_status_text(status: QuotaStatus) -> Seq<char> {
    match status {
        QuotaStatus::Available => "ok"@,
        QuotaStatus::Stale => "stale"@,
        QuotaStatus::SignedOut => "signed_out"@,
        QuotaStatus::Unavailable => "unavailable"@,
        QuotaStatus::Incompatible => "schema_changed"@,
    }
}

/// The status text of a quota snapshot on the wire.
pub fn wire_status(status: QuotaStatus) -> (text: &'static str)
    ensures
        text@ == wire_status_text(status),
{
    match status {
        QuotaStatus::Available => "ok",
        QuotaStatus::Stale => "stale",
        QuotaStatus::SignedOut => "signed_out",
        QuotaStatus::Unavailable => "unavailable",
        QuotaStatus::Incompatible => "schema_changed",
    }
}

pub open spec fn wire_provider_text(provider: ProviderKind) -> Seq<char> {
    match provider {
        ProviderKind::AppServer => "codex-app-server"@,
        ProviderKind::Mock => "mock"@,
        ProviderKind::Unavailable => "unavailable"@,
    }
}

/// The provider text of a quota snapshot on the wire.
pub fn wire_provider(provider: ProviderKind) -> (text: &'static str)
    ensures
        text@ == wire_provider_text(provider),
{
    match provider {
        ProviderKind::AppServer => "codex-app-server",
        ProviderKind::Mock => "mock",
        ProviderKind::Unavailable => "unavailable",
    }
}

/// The label of a quota window: by its length when known, else by its role.
pub open spec fn window_label(is_primary: bool, minutes: Option<i64>) -> Seq<char> {
    match minutes {
        None => if is_primary {
            "主要额度"@
        } else {
            "次要额度"@
        },
        Some(m) => if 0 <= m <= 59 {
            decimal(m as int) + " 分钟额度"@
        } else if 60 <= m <= 1439 && m % 60 == 0 {
            decimal(m / 60) + " 小时额度"@
        } else if m % 1440 == 0 {
            decimal(m / 1440) + " 天额度"@
        } else {
            decimal(m as int) + " 分钟额度"@
        },
    }
}

fn joined(head: String, tail: &str) -> (text: String)
    ensures
        text@ == head@ + tail@,
{
    let mut text: String = head;
    text.append(tail);
    text
}

/// The label of the window with the given id (`primary` or `secondary`).
pub fn quota_window_label(id: &str, minutes: Option<i64>) -> (label: String)
    ensures
        label@ == window_label(id@ == "primary"@, minutes),
{
    match minutes {
        None => {
            if crate::text::str_eq(id, "primary") {
                "主要额度".to_owned()
            } else {
                "次要额度".to_owned()
            }
        },
        Some(m) => {
            if 0 <= m && m <= 59 {
                joined(decimal_text(m), " 分钟额度")
            } else if 60 <= m && m <= 1439 && m % 60 == 0 {
                joined(decimal_text(m / 60), " 小时额度")
            } else if m >= 0 && m % 1440 == 0 {
                joined(decimal_text(m / 1440), " 天额度")
            } else if m < 0 && crate::text::magnitude(m) % 1440 == 0 {
                let days: u64 = crate::text::magnitude(m) / 1440;
                proof {
                    assert(m % 1440 == 0) by (nonlinear_arith)
                        requires
                            m < 0,
                            (-m) % 1440 == 0,
                    ;
                    assert(m / 1440 == -(days as int)) by (nonlinear_arith)
                        requires
                            m < 0,
                            (-m) % 1440 == 0,
                            days == (-m) / 1440,
                    ;
                }
                joined(decimal_text(-(days as i64)), " 天额度")
            } else {
                proof {
                    if m < 0 {
                        assert(m % 1440 != 0) by (nonlinear_arith)
                            requires
                                m < 0,
                                (-m) % 1440 != 0,
                        ;
                    }
                }
                joined(decimal_text(m), " 分钟额度")
            }
        },
    }
}

/// The settings as the settings page shows them.
#[derive(Debug, Clone)]
pub struct WireSettings {
    pub mock_mode: bool,
    pub launch_at_startup: bool,
    pub show_widget_on_launch: bool,
    pub close_to_tray: bool,
    pub always_on_top: bool,
    pub capsule_mode: bool,
    pub lock_position: bool,
    pub auto_collapse: bool,
    pub show_in_taskbar: bool,
    pub theme: String,
    pub language: String,
    pub refresh_mode: String,
    pub custom_refresh_seconds: u64,
    pub notification_thresholds: Vec<u8>,
    pub primary_quota_window: String,
}

pub open spec fn theme_text(theme: ThemeMode) -> Seq<char> {
    match theme {
        ThemeMode::Light => "light"@,
        ThemeMode::Dark => "dark"@,
        ThemeMode::System => "system"@,
    }
}

pub open spec fn theme_from_text(text: Seq<char>) -> Option<ThemeMode> {
    if text == "light"@ {
        Some(ThemeMode::Light)
    } else if text == "dark"@ {
        Some(ThemeMode::Dark)
    } else if text == "system"@ {
        Some(ThemeMode::System)
    } else {
        None
    }
}

pub open spec fn language_text(language: Language) -> Seq<char> {
    match language {
        Language::ZhCn => "zh-CN"@,
        Language::En => "en"@,
    }
}

pub open spec fn language_from_text(text: Seq<char>) -> Option<Language> {
    if text == "zh-CN"@ {
        Some(Language::ZhCn)
    } else if text == "en"@ {
        Some(Language::En)
    } else {
        None
    }
}

/// The refresh choice and the custom seconds that the page shows for a refresh mode.
pub open spec fn refresh_text(mode: RefreshMode) -> (Seq<char>, u64) {
    match mode {
        RefreshMode::Smart => ("smart"@, 30),
        RefreshMode::Fixed(seconds) => if seconds == 10 {
            ("10s"@, 10)
        } else if seconds == 30 {
            ("30s"@, 30)
        } else if seconds == 60 {
            ("1m"@, 60)
        } else if seconds == 300 {
            ("5m"@, 300)
        } else {
            ("custom"@, seconds)
        },
    }
}

pub open spec fn refresh_from_text(text: Seq<char>, custom_seconds: u64) -> Option<RefreshMode> {
    if text == "smart"@ {
        Some(RefreshMode::Smart)
    } else if text == "10s"@ {
        Some(RefreshMode::Fixed(10))
    } else if text == "30s"@ {
        Some(RefreshMode::Fixed(30))
    } else if text == "1m"@ {
        Some(RefreshMode::Fixed(60))
    } else if text == "5m"@ {
        Some(RefreshMode::Fixed(300))
    } else if text == "custom"@ {
        Some(RefreshMode::Fixed(custom_seconds))
    } else {
        None
    }
}

pub open spec fn window_pref_text(pref: QuotaWindowPreference) -> Seq<char> {
    match pref {
        QuotaWindowPreference::Primary => "primary"@,
        QuotaWindowPreference::Secondary => "secondary"@,
    }
}

pub open spec fn window_pref_from_text(text: Seq<char>) -> Option<QuotaWindowPreference> {
    if text == "primary"@ {
        Some(QuotaWindowPreference::Primary)
    } else if text == "secondary"@ {
        Some(QuotaWindowPreference::Secondary)
    } else {
        None
    }
}

/// `wire` shows the settings `value`.
pub open spec fn shows(wire: WireSettings, value: AppSettings) -> bool {
    &&& wire.mock_mode == value.mock_mode
    &&& wire.launch_at_startup == value.launch_at_login
    &&& wire.show_widget_on_launch == value.show_floating_on_start
    &&& wire.close_to_tray == value.hide_dashboard_on_close
    &&& wire.always_on_top == value.always_on_top
    &&& wire.capsule_mode == value.capsule_mode
    &&& wire.lock_position == value.lock_widget_position
    &&& wire.auto_collapse == value.auto_compact
    &&& wire.show_in_taskbar == value.show_in_taskbar
    &&& wire.theme@ == theme_text(value.theme)
    &&& wire.language@ == language_text(value.language)
    &&& wire.refresh_mode@ == refresh_text(value.refresh_mode).0
    &&& wire.custom_refresh_seconds == refresh_text(value.refresh_mode).1
    &&& wire.notification_thresholds@ == value.notifications.remaining_thresholds@
    &&& wire.primary_quota_window@ == window_pref_text(value.primary_quota_window)
}

/// Which field of a page value cannot be read back, if any, in the order they are read.
pub enum WireSettingsProblem {
    Theme,
    Language,
    RefreshMode,
    QuotaWindow,
}

pub open spec fn wire_problem(wire: WireSettings) -> Option<WireSettingsProblem> {
    if theme_from_text(wire.theme@).is_none() {
        Some(WireSettingsProblem::Theme)
    } else if language_from_text(wire.language@).is_none() {
        Some(WireSettingsProblem::Language)
    } else if refresh_from_text(wire.refresh_mode@, wire.custom_refresh_seconds).is_none() {
        Some(WireSettingsProblem::RefreshMode)
    } else if window_pref_from_text(wire.primary_quota_window@).is_none() {
        Some(WireSettingsProblem::QuotaWindow)
    } else {
        None
    }
}

pub open spec fn wire_problem_message(problem: WireSettingsProblem) -> Seq<char> {
    match problem {
        WireSettingsProblem::Theme => "theme must be light, dark, or system"@,
        WireSettingsProblem::Language => "language must be zh-CN or en"@,
        WireSettingsProblem::RefreshMode => "refreshMode is not supported"@,
        WireSettingsProblem::QuotaWindow => "primaryQuotaWindow must be primary or secondary"@,
    }
}

/// `updated` is `base` with every field that the page shows taken from `wire`.
pub open spec fn applied(wire: WireSettings, base: AppSettings, updated: AppSettings) -> bool {
    &&& updated.schema_version == base.schema_version
    &&& updated.compact_after_seconds == base.compact_after_seconds
    &&& updated.widget_x == base.widget_x
    &&& updated.widget_y == base.widget_y
    &&& updated.retention_days == base.retention_days
    &&& updated.notifications.enabled == base.notifications.enabled
    &&& updated.notifications.notify_on_unavailable == base.notifications.notify_on_unavailable
    &&& updated.healthy_remaining_percent == base.healthy_remaining_percent
    &&& updated.warning_remaining_percent == base.warning_remaining_percent
    &&& updated.mock_mode == wire.mock_mode
    &&& updated.launch_at_login == wire.launch_at_startup
    &&& updated.show_floating_on_start == wire.show_widget_on_launch
    &&& updated.hide_dashboard_on_close == wire.close_to_tray
    &&& updated.always_on_top == wire.always_on_top
    &&& updated.capsule_mode == wire.capsule_mode
    &&& updated.lock_widget_position == wire.lock_position
    &&& updated.auto_compact == wire.auto_collapse
    &&& updated.show_in_taskbar == wire.show_in_taskbar
    &&& Some(updated.theme) == theme_from_text(wire.theme@)
    &&& Some(updated.language) == language_from_text(wire.language@)
    &&& Some(updated.refresh_mode) == refresh_from_text(wire.refresh_mode@, wire.custom_refresh_seconds)
    &&& updated.notifications.remaining_thresholds@ == wire.notification_thresholds@
    &&& Some(updated.primary_quota_window) == window_pref_from_text(wire.primary_quota_window@)
}

fn theme_choice(text: &str) -> (theme: Option<ThemeMode>)
    ensures
        theme == theme_from_text(text@),
{
    if crate::text::str_eq(text, "light") {
        Some(ThemeMode::Light)
    } else if crate::text::str_eq(text, "dark") {
        Some(ThemeMode::Dark)
    } else if crate::text::str_eq(text, "system") {
        Some(ThemeMode::System)
    } else {
        None
    }
}

fn language_choice(text: &str) -> (language: Option<Language>)
    ensures
        language == language_from_text(text@),
{
    if crate::text::str_eq(text, "zh-CN") {
        Some(Language::ZhCn)
    } else if crate::text::str_eq(text, "en") {
        Some(Language::En)
    } else {
        None
    }
}

fn refresh_choice(text: &str, custom_seconds: u64) -> (mode: Option<RefreshMode>)
    ensures
        mode == refresh_from_text(text@, custom_seconds),
{
    if crate::text::str_eq(text, "smart") {
        Some(RefreshMode::Smart)
    } else if crate::text::str_eq(text, "10s") {
        Some(RefreshMode::Fixed(10))
    } else if crate::text::str_eq(text, "30s") {
        Some(RefreshMode::Fixed(30))
    } else if crate::text::str_eq(text, "1m") {
        Some(RefreshMode::Fixed(60))
    } else if crate::text::str_eq(text, "5m") {
        Some(RefreshMode::Fixed(300))
    } else if crate::text::str_eq(text, "custom") {
        Some(RefreshMode::Fixed(custom_seconds))
    } else {
        None
    }
}

fn window_choice(text: &str) -> (preference: Option<QuotaWindowPreference>)
    ensures
        preference == window_pref_from_text(text@),
{
    if crate::text::str_eq(text, "primary") {
        Some(QuotaWindowPreference::Primary)
    } else if crate::text::str_eq(text, "secondary") {
        Some(QuotaWindowPreference::Secondary)
    } else {
        None
    }
}

fn err_text(message: &str) -> (r: Result<AppSettings, String>)
    ensures
        r matches Err(m) && m@ == message@,
{
    Err(message.to_owned())
}

impl WireSettings {
    /// The page value that shows `value`.
    pub fn from_settings(value: AppSettings) -> (wire: Self)
        ensures
            shows(wire, value),
    {
        let (refresh_mode, custom_refresh_seconds): (&str, u64) = match value.refresh_mode {
            RefreshMode::Smart => ("smart", 30),
            RefreshMode::Fixed(seconds) => {
                if seconds == 10 {
                    ("10s", 10)
                } else if seconds == 30 {
                    ("30s", 30)
                } else if seconds == 60 {
                    ("1m", 60)
                } else if seconds == 300 {
                    ("5m", 300)
                } else {
                    ("custom", seconds)
                }
            },
        };
        let theme: &str = match value.theme {
            ThemeMode::Light => "light",
            ThemeMode::Dark => "dark",
            ThemeMode::System => "system",
        };
        let language: &str = match value.language {
            Language::ZhCn => "zh-CN",
            Language::En => "en",
        };
        let window: &str = match value.primary_quota_window {
            QuotaWindowPreference::Primary => "primary",
            QuotaWindowPreference::Secondary => "secondary",
        };
        WireSettings {
            mock_mode: value.mock_mode,
            launch_at_startup: value.launch_at_login,
            show_widget_on_launch: value.show_floating_on_start,
            close_to_tray: value.hide_dashboard_on_close,
            always_on_top: value.always_on_top,
            capsule_mode: value.capsule_mode,
            lock_position: value.lock_widget_position,
            auto_collapse: value.auto_compact,
            show_in_taskbar: value.show_in_taskbar,
            theme: theme.to_owned(),
            language: language.to_owned(),
            refresh_mode: refresh_mode.to_owned(),
            custom_refresh_seconds,
            notification_thresholds: value.notifications.remaining_thresholds,
            primary_quota_window: window.to_owned(),
        }
    }

    /// Writes the page's fields into `value`; a text that names no known
    /// choice is refused with a message, checked in the order theme,
    /// language, refresh mode, quota window.
    pub fn apply_to(self, value: AppSettings) -> (result: Result<AppSettings, String>)
        ensures
            match wire_problem(self) {
                Some(problem) => result matches Err(message) && message@ == wire_problem_message(
                    problem,
                ),
                None => result matches Ok(updated) && applied(self, value, updated),
            },
    {
        let theme: ThemeMode = match theme_choice(self.theme.as_str()) {
            Some(theme) => theme,
            None => {
                return err_text("theme must be light, dark, or system");
            },
        };
        let language: Language = match language_choice(self.language.as_str()) {
            Some(language) => language,
            None => {
                return err_text("language must be zh-CN or en");
            },
        };
        let refresh: RefreshMode = match refresh_choice(
            self.refresh_mode.as_str(),
            self.custom_refresh_seconds,
        ) {
            Some(refresh) => refresh,
            None => {
                return err_text("refreshMode is not supported");
            },
        };
        let preference: QuotaWindowPreference = match window_choice(
            self.primary_quota_window.as_str(),
        ) {
            Some(preference) => preference,
            None => {
                return err_text("primaryQuotaWindow must be primary or secondary");
            },
        };
        let notifications = crate::settings::NotificationSettings {
            enabled: value.notifications.enabled,
            remaining_thresholds: self.notification_thresholds,
            notify_on_unavailable: value.notifications.notify_on_unavailable,
        };
        Ok(
            AppSettings {
                schema_version: value.schema_version,
                theme,
                language,
                launch_at_login: self.launch_at_startup,
                show_floating_on_start: self.show_widget_on_launch,
                hide_dashboard_on_close: self.close_to_tray,
                always_on_top: self.always_on_top,
                capsule_mode: self.capsule_mode,
                lock_widget_position: self.lock_position,
                auto_compact: self.auto_collapse,
                compact_after_seconds: value.compact_after_seconds,
                show_in_taskbar: self.show_in_taskbar,
                refresh_mode: refresh,
                mock_mode: self.mock_mode,
                widget_x: value.widget_x,
                widget_y: value.widget_y,
                retention_days: value.retention_days,
                notifications,
                healthy_remaining_percent: value.healthy_remaining_percent,
                warning_remaining_percent: value.warning_remaining_percent,
                primary_quota_window: preference,
            },
        )
    }
}

proof fn lemma_choice_texts_distinct()
    ensures
        theme_from_text("light"@) == Some(ThemeMode::Light),
        theme_from_text("dark"@) == Some(ThemeMode::Dark),
        theme_from_text("system"@) == Some(ThemeMode::System),
        language_from_text("zh-CN"@) == Some(Language::ZhCn),
        language_from_text("en"@) == Some(Language::En),
        refresh_from_text("smart"@, 30) == Some(RefreshMode::Smart),
        refresh_from_text("10s"@, 10) == Some(RefreshMode::Fixed(10)),
        refresh_from_text("30s"@, 30) == Some(RefreshMode::Fixed(30)),
        refresh_from_text("1m"@, 60) == Some(RefreshMode::Fixed(60)),
        refresh_from_text("5m"@, 300) == Some(RefreshMode::Fixed(300)),
        forall|n: u64| refresh_from_text("custom"@, n) == Some(RefreshMode::Fixed(n)),
        window_pref_from_text("primary"@) == Some(QuotaWindowPreference::Primary),
        window_pref_from_text("secondary"@) == Some(QuotaWindowPreference::Secondary),
{
    reveal_strlit("light");
    reveal_strlit("dark");
    reveal_strlit("system");
    reveal_strlit("zh-CN");
    reveal_strlit("en");
    reveal_strlit("smart");
    reveal_strlit("10s");
    reveal_strlit("30s");
    reveal_strlit("1m");
    reveal_strlit("5m");
    reveal_strlit("custom");
    reveal_strlit("primary");
    reveal_strlit("secondary");
    assert("light"@.len() == 5 && "dark"@.len() == 4 && "system"@.len() == 6);
    assert("zh-CN"@.len() == 5 && "en"@.len() == 2);
    assert("smart"@.len() == 5 && "10s"@.len() == 3 && "30s"@.len() == 3 && "1m"@.len() == 2
        && "5m"@.len() == 2 && "custom"@.len() == 6);
    assert("10s"@[0] != "30s"@[0]);
    assert("1m"@[0] != "5m"@[0]);
    assert("primary"@.len() == 7 && "secondary"@.len() == 9);
}

/// Writing back what the settings page shows leaves the settings unchanged.
pub proof fn lemma_settings_page_round_trip(value: AppSettings, wire: WireSettings, updated: AppSettings)
    requires
        shows(wire, value),
        applied(wire, value, updated),
    ensures
        wire_problem(wire).is_none(),
        settings_same(updated, value),
{
    lemma_choice_texts_distinct();
}

/// A page value that reads back without a problem is accepted.
pub proof fn lemma_shown_settings_accepted(value: AppSettings, wire: WireSettings)
    requires
        shows(wire, value),
    ensures
        wire_problem(wire).is_none(),
{
    lemma_choice_texts_distinct();
}

/// The number of rows a ranking returns when the request names none.
pub fn default_limit() -> (limit: u16)
    ensures
        limit == 50,
{
    50
}

/// A request for a ranking: the time range and how many rows.
#[derive(Debug, Clone, Copy)]
pub struct RankingQuery {
    pub range: UsageRange,
    pub limit: u16,
}

impl RankingQuery {
    /// The number of rows actually returned: the limit, kept between 1 and 500.
    pub fn row_limit(&self) -> (rows: u16)
        ensures
            rows == (if self.limit < 1 {
                1
            } else if self.limit > 500 {
                500
            } else {
                self.limit
            }),
    {
        if self.limit < 1 {
            1
        } else if self.limit > 500 {
            500
        } else {
            self.limit
        }
    }
}

impl Default for RankingQuery {
    fn default() -> (query: Self)
        ensures
            query.range == UsageRange::ThirtyDays,
            query.limit == 50,
    {
        RankingQuery { range: UsageRange::default(), limit: default_limit() }
    }
}


/// The token total of day `day` (0 is the oldest, 89 today) of the mock
/// series: the 83 older days share 1.8 billion as evenly as integers allow
/// (21,686,746 each, one more on the first 82 days), then the last seven
/// days rise to 2.94 billion today.
pub open spec fn mock_day_total(day: int) -> i64 {
    if day < 82 {
        21_686_747
    } else if day < 83 {
        21_686_746
    } else if day == 83 {
        410_000_000
    } else if day == 84 {
        520_000_000
    } else if day == 85 {
        610_000_000
    } else if day == 86 {
        690_000_000
    } else if day == 87 {
        760_000_000
    } else if day == 88 {
        870_000_000
    } else {
        2_940_000_000
    }
}

/// The sum of a series of totals.
pub open spec fn sum_totals(s: Seq<i64>) -> int
    decreases s.len(),
{
    if s.len() == 0 {
        0
    } else {
        sum_totals(s.drop_last()) + s.last()
    }
}

proof fn lemma_sum_push(s: Seq<i64>, x: i64)
    ensures
        sum_totals(s.push(x)) == sum_totals(s) + x,
{
    assert(s.push(x).drop_last() =~= s);
}

proof fn lemma_sum_concat(a: Seq<i64>, b: Seq<i64>)
    ensures
        sum_totals(a + b) == sum_totals(a) + sum_totals(b),
    decreases b.len(),
{
    if b.len() > 0 {
        lemma_sum_concat(a, b.drop_last());
        assert((a + b).drop_last() =~= a + b.drop_last());
    }
}

/// The daily token totals of the mock summary, oldest first: 90 days, the
/// first 83 summing to 1.8 billion, the last seven to 6.8 billion with 2.94
/// billion today, 8.6 billion in all, so that the chart and the cards agree.
pub fn mock_daily_totals() -> (totals: Vec<i64>)
    ensures
        totals@.len() == 90,
        forall|d: int| 0 <= d < 90 ==> totals@[d] == mock_day_total(d),
        sum_totals(totals@.take(83)) == 1_800_000_000,
        sum_totals(totals@.skip(83)) == 6_800_000_000,
        totals@[89] == 2_940_000_000,
        sum_totals(totals@) == 8_600_000_000,
{
    let mut totals: Vec<i64> = Vec::new();
    let mut day: usize = 0;
    while day < 83
        invariant
            day <= 83,
            totals@.len() == day,
            forall|d: int| 0 <= d < day ==> totals@[d] == mock_day_total(d),
            sum_totals(totals@) == 21_686_746 * day + if day <= 82 { day as int } else { 82int },
        decreases 83 - day,
    {
        let total: i64 = if day < 82 {
            21_686_747
        } else {
            21_686_746
        };
        proof {
            lemma_sum_push(totals@, total);
        }
        totals.push(total);
        day = day + 1;
    }
    let ghost older = totals@;
    let recent: [i64; 7] = [
        410_000_000,
        520_000_000,
        610_000_000,
        690_000_000,
        760_000_000,
        870_000_000,
        2_940_000_000,
    ];
    let mut k: usize = 0;
    while k < 7
        invariant
            k <= 7,
            totals@.len() == 83 + k,
            totals@.take(83) == older,
            forall|d: int| 0 <= d < 83 + k ==> totals@[d] == mock_day_total(d),
            forall|j: int| 0 <= j < 7 ==> recent@[j] == mock_day_total(83 + j),
            sum_totals(older) == 1_800_000_000,
        decreases 7 - k,
    {
        let ghost before = totals@;
        totals.push(recent[k]);
        assert(totals@.take(83) =~= before.take(83));
        k = k + 1;
    }
    proof {
        let rest = totals@.skip(83);
        assert(rest =~= seq![410_000_000i64, 520_000_000i64, 610_000_000i64, 690_000_000i64, 760_000_000i64, 870_000_000i64, 2_940_000_000i64]);
        reveal_with_fuel(sum_totals, 8);
        assert(sum_totals(rest) == 6_800_000_000);
        assert(totals@ =~= older + rest);
        lemma_sum_concat(older, rest);
    }
    totals
}

} // verus!
