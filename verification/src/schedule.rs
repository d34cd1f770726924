//! When to refresh the official quota: the interval the companion
//! recommends, the back-off after failures, and what a refresh shows.
use vstd::prelude::*;

use crate::analytics::{ts_le, Timestamp};
use crate::quota::{ProviderKind, QuotaStatus};
use crate::settings::RefreshMode;

verus! {

/// The latest instant that chrono represents, in seconds since the Unix epoch.
pub const MAX_INSTANT_SECONDS: i64 = 8210266876799;

/// The wait after `failures` failed refreshes in a row: 10, 30, 60, 120,
/// then 300 seconds.
pub open spec fn backoff_spec(failures: u8) -> i64 {
    if failures == 0 {
        10
    } else if failures == 1 {
        30
    } else if failures == 2 {
        60
    } else if failures == 3 {
        120
    } else {
        300
    }
}

pub fn backoff_seconds(failures: u8) -> (seconds: i64)
    ensures
        seconds == backoff_spec(failures),
{
    if failures == 0 {
        10
    } else if failures == 1 {
        30
    } else if failures == 2 {
        60
    } else if failures == 3 {
        120
    } else {
        300
    }
}

/// A refresh interval kept between 10 seconds and one hour.
pub open spec fn clamp_interval(seconds: u64) -> u64 {
    if seconds < 10 {
        10
    } else if seconds > 3600 {
        3600
    } else {
        seconds
    }
}

pub fn clamp_refresh_seconds(seconds: u64) -> (clamped: u64)
    ensures
        clamped == clamp_interval(seconds),
{
    if seconds < 10 {
        10
    } else if seconds > 3600 {
        3600
    } else {
        seconds
    }
}

/// The interval the companion recommends: a fixed interval as configured
/// (clamped); otherwise 10 seconds when the quota resets within five
/// minutes or Codex was active lately, 30 while a window is visible, else 60.
pub open spec fn recommended_spec(
    mode: Option<RefreshMode>,
    reset_in_seconds: Option<i64>,
    recently_active: bool,
    window_visible: bool,
) -> u64 {
    match mode {
        Some(RefreshMode::Fixed(seconds)) => clamp_interval(seconds),
        _ => {
            let reset_soon = match reset_in_seconds {
                Some(r) => 0 <= r <= 300,
                None => false,
            };
            if reset_soon || recently_active {
                10
            } else if window_visible {
                30
            } else {
                60
            }
        },
    }
}

/// The refresh interval to recommend, from the configured mode (when the
/// settings could be read), the seconds until the quota resets, recent
/// Codex activity and window visibility.
pub fn recommended_refresh_seconds(
    mode: Option<RefreshMode>,
    reset_in_seconds: Option<i64>,
    recently_active: bool,
    window_visible: bool,
) -> (seconds: u64)
    ensures
        seconds == recommended_spec(mode, reset_in_seconds, recently_active, window_visible),
        10 <= seconds <= 3600,
{
    if let Some(RefreshMode::Fixed(seconds)) = mode {
        return clamp_refresh_seconds(seconds);
    }
    let reset_soon: bool = match reset_in_seconds {
        Some(r) => 0 <= r && r <= 300,
        None => false,
    };
    if reset_soon || recently_active {
        10
    } else if window_visible {
        30
    } else {
        60
    }
}

/// When the last refreshes happened and when the next one is due.
#[derive(Debug, Clone, Copy)]
pub struct RefreshSchedule {
    pub last_attempt_at: Option<Timestamp>,
    pub last_success_at: Option<Timestamp>,
    pub next_refresh_at: Timestamp,
    pub consecutive_failures: u8,
}

/// The most jitter added to the back-off after `failures` failures: a tenth
/// of it (1, 3, 6, 12, then 30 seconds).
pub open spec fn jitter_bound_spec(failures: u8) -> int {
    backoff_spec(failures) / 10
}

/// The delay before the next refresh after one that succeeded or failed. A
/// failure waits the back-off plus a small jitter: the drawn `jitter` reduced
/// to at most a tenth of the back-off.
pub open spec fn next_delay(
    failures: u8,
    successful: bool,
    desired_interval_seconds: u64,
    jitter: u64,
) -> int {
    if successful {
        clamp_interval(desired_interval_seconds) as int
    } else {
        backoff_spec(failures) as int + (jitter as int) % (jitter_bound_spec(failures) + 1)
    }
}

/// The delay before the next refresh, in seconds.
pub fn refresh_delay(failures: u8, successful: bool, desired_interval_seconds: u64, jitter: u64) -> (delay: i64)
    ensures
        delay == next_delay(failures, successful, desired_interval_seconds, jitter),
        10 <= delay <= 3600,
{
    if successful {
        clamp_refresh_seconds(desired_interval_seconds) as i64
    } else {
        let backoff: i64 = backoff_seconds(failures);
        let bound: u64 = (backoff / 10) as u64;
        backoff + (jitter % (bound + 1)) as i64
    }
}

/// `now`, `delay` seconds later.
pub open spec fn later_by(now: Timestamp, delay: int) -> Timestamp {
    Timestamp { seconds: (now.seconds + delay) as i64, nanos: now.nanos }
}

impl RefreshSchedule {
    /// A schedule that is due at `now`.
    pub fn new(last_success_at: Option<Timestamp>, now: Timestamp) -> (schedule: Self)
        ensures
            schedule.last_attempt_at.is_none(),
            schedule.last_success_at == last_success_at,
            schedule.next_refresh_at == now,
            schedule.consecutive_failures == 0,
    {
        RefreshSchedule {
            last_attempt_at: None,
            last_success_at,
            next_refresh_at: now,
            consecutive_failures: 0,
        }
    }

    /// Whether a refresh is due at `now`.
    pub fn is_due(&self, now: Timestamp) -> (due: bool)
        ensures
            due == ts_le(self.next_refresh_at, now),
    {
        self.next_refresh_at.is_at_most(&now)
    }

    /// A refresh starts at `now`.
    pub fn start_attempt(&mut self, now: Timestamp)
        ensures
            *final(self) == (RefreshSchedule { last_attempt_at: Some(now), ..*old(self) }),
    {
        self.last_attempt_at = Some(now);
    }

    /// The refresh that started at `now` ended. A success clears the
    /// failures and waits the desired interval (10 seconds to one hour); a
    /// failure waits by the back-off for the failures so far plus a small
    /// jitter (from the drawn `jitter`), and counts one more failure.
    pub fn finish_attempt(
        &mut self,
        now: Timestamp,
        successful: bool,
        desired_interval_seconds: u64,
        jitter: u64,
    )
        requires
            now.nanos < 1_000_000_000,
            now.seconds + next_delay(
                old(self).consecutive_failures,
                successful,
                desired_interval_seconds,
                jitter,
            ) <= MAX_INSTANT_SECONDS,
        ensures
            final(self).last_attempt_at == old(self).last_attempt_at,
            final(self).next_refresh_at == later_by(
                now,
                next_delay(old(self).consecutive_failures, successful, desired_interval_seconds, jitter),
            ),
            successful ==> final(self).consecutive_failures == 0 && final(self).last_success_at
                == Some(now),
            !successful ==> final(self).last_success_at == old(self).last_success_at
                && final(self).consecutive_failures as int == if old(self).consecutive_failures
                == u8::MAX {
                u8::MAX as int
            } else {
                old(self).consecutive_failures + 1
            },
            !successful ==> backoff_spec(old(self).consecutive_failures) <= final(self).next_refresh_at.seconds
                - now.seconds <= backoff_spec(old(self).consecutive_failures) + jitter_bound_spec(
                old(self).consecutive_failures,
            ),
    {
        let delay: i64 = refresh_delay(self.consecutive_failures, successful, desired_interval_seconds, jitter);
        self.next_refresh_at = Timestamp { seconds: now.seconds + delay, nanos: now.nanos };
        if successful {
            self.consecutive_failures = 0;
            self.last_success_at = Some(now);
        } else {
            self.consecutive_failures = if self.consecutive_failures == u8::MAX {
                u8::MAX
            } else {
                self.consecutive_failures + 1
            };
        }
    }
}

/// The back-off never shrinks as failures accumulate, and it stays between
/// 10 seconds and five minutes.
pub proof fn lemma_backoff_grows(a: u8, b: u8)
    requires
        a <= b,
    ensures
        backoff_spec(a) <= backoff_spec(b),
        10 <= backoff_spec(a) <= 300,
{
}

/// After any refresh the next one is at least 10 seconds and at most one
/// hour away; after a failure it is the back-off plus at most a tenth of it.
pub proof fn lemma_next_refresh_window(failures: u8, successful: bool, desired: u64, jitter: u64)
    ensures
        10 <= next_delay(failures, successful, desired, jitter) <= 3600,
        !successful ==> backoff_spec(failures) <= next_delay(failures, successful, desired, jitter)
            <= backoff_spec(failures) + jitter_bound_spec(failures),
{
}

/// What a finished refresh shows.
#[derive(Debug, Clone, Copy, PartialEq, Eq, Structural)]
pub enum RefreshPlan {
    /// Show the fresh quota; store it and check the notification
    /// thresholds when it is official (`record`).
    Publish { record: bool },
    /// The official source is unreachable: show the last stored quota,
    /// marked stale, when there is one; else what was fetched.
    FallBackToStored,
    /// Signed out or incompatible: show exactly that, never numbers from before.
    ShowFetched,
}

pub open spec fn refresh_plan_spec(status: QuotaStatus, provider: ProviderKind) -> RefreshPlan {
    match status {
        QuotaStatus::Available => RefreshPlan::Publish { record: provider != ProviderKind::Mock },
        QuotaStatus::Unavailable => RefreshPlan::FallBackToStored,
        _ => RefreshPlan::ShowFetched,
    }
}

/// What to show after a refresh that returned `status` from `provider`.
pub fn refresh_plan(status: QuotaStatus, provider: ProviderKind) -> (plan: RefreshPlan)
    ensures
        plan == refresh_plan_spec(status, provider),
{
    match status {
        QuotaStatus::Available => RefreshPlan::Publish {
            record: match provider {
                ProviderKind::Mock => false,
                _ => true,
            },
        },
        QuotaStatus::Unavailable => RefreshPlan::FallBackToStored,
        _ => RefreshPlan::ShowFetched,
    }
}

/// Mock data is never stored, and only a refresh with available quota counts as a success.
pub proof fn lemma_mock_never_recorded(status: QuotaStatus)
    ensures
        refresh_plan_spec(status, ProviderKind::Mock) != (RefreshPlan::Publish { record: true }),
        refresh_plan_spec(status, ProviderKind::AppServer) is Publish <==> status
            == QuotaStatus::Available,
{
}


/// The recommended interval: a fixed interval as configured, kept between
/// 10 seconds and one hour; otherwise (smart mode, or no mode known) 10
/// seconds when Codex was active lately or the quota resets within five
/// minutes, whatever the windows show; else 30 while a window is visible,
/// and 60 when none is.
pub proof fn lemma_recommended_interval_rules(
    mode: Option<RefreshMode>,
    reset_in_seconds: Option<i64>,
    recently_active: bool,
    window_visible: bool,
)
    ensures
        mode matches Some(RefreshMode::Fixed(s)) ==> recommended_spec(
            mode,
            reset_in_seconds,
            recently_active,
            window_visible,
        ) == (if s < 10 {
            10
        } else if s > 3600 {
            3600
        } else {
            s
        }),
        !(mode matches Some(RefreshMode::Fixed(_))) && recently_active ==> recommended_spec(
            mode,
            reset_in_seconds,
            recently_active,
            window_visible,
        ) == 10,
        !(mode matches Some(RefreshMode::Fixed(_))) && (reset_in_seconds matches Some(r) && 0 <= r
            <= 300) ==> recommended_spec(mode, reset_in_seconds, recently_active, window_visible)
            == 10,
        !(mode matches Some(RefreshMode::Fixed(_))) && !recently_active && !(reset_in_seconds matches Some(
            r,
        ) && 0 <= r <= 300) ==> recommended_spec(
            mode,
            reset_in_seconds,
            recently_active,
            window_visible,
        ) == if window_visible {
            30u64
        } else {
            60u64
        },
{
}

} // verus!
