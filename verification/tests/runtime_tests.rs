use my_codex::alerts::{NotificationController, Remaining};
use my_codex::analytics::Timestamp;
use my_codex::desktop::{any_recent, modified_recently, Elapsed, WindowTarget};
use my_codex::ingest::{
    blank_line, file_size_allowed, hash_path_text, BoundedLine, FileOutcome, IngestReport, LineAccumulator,
    SessionFile, SessionIngestor,
};
use my_codex::quota::{ProviderKind, QuotaStatus};
use my_codex::schedule::{
    backoff_seconds, recommended_refresh_seconds, refresh_plan, RefreshPlan, RefreshSchedule,
};
use my_codex::settings::RefreshMode;
use my_codex::wire::{default_limit, RankingQuery};

#[test]
fn digests_are_lowercase_hex() {
    assert_eq!(
        my_codex::digest::digest_hex("abc"),
        "ba7816bf8f01cfea414140de5dae2223b00361a396177a9cb410ff61f20015ad"
    );
    assert_eq!(hash_path_text("/x/abc", false), my_codex::digest::digest_hex("/x/abc"));
    assert_eq!(hash_path_text("C:\\ABC", true), my_codex::digest::digest_hex("c:\\abc"));
}

#[test]
fn lines_are_bounded_and_trimmed() {
    let mut acc = LineAccumulator::new();
    assert_eq!(acc.take(b"{\"a\":1}\r\n{\"b\""), (9, true));
    match acc.finish() {
        BoundedLine::Line(bytes) => assert_eq!(bytes, b"{\"a\":1}".to_vec()),
        _ => panic!("expected a line"),
    }
    let mut acc = LineAccumulator::new();
    assert_eq!(acc.take(b"abc"), (3, false));
    assert_eq!(acc.take(b"def"), (3, false));
    assert!(matches!(acc.finish(), BoundedLine::Line(bytes) if bytes == b"abcdef".to_vec()));
    assert!(matches!(LineAccumulator::new().finish(), BoundedLine::Eof));
    let big = vec![b'x'; 8 * 1024 * 1024];
    let mut acc = LineAccumulator::new();
    acc.take(&big);
    assert_eq!(acc.take(b"y\n"), (2, true));
    assert!(matches!(acc.finish(), BoundedLine::Oversized));
    let mut exact = LineAccumulator::new();
    exact.take(&big[..big.len() - 1]);
    exact.take(b"\n");
    assert!(matches!(exact.finish(), BoundedLine::Line(bytes) if bytes.len() == big.len() - 1));
}

#[test]
fn accumulators_keep_their_own_limit() {
    let mut acc = LineAccumulator::with_limit(4);
    assert_eq!(acc.take(b"abc"), (3, false));
    assert!(!acc.oversized());
    assert_eq!(acc.take(b"d\nrest"), (2, true));
    assert!(acc.oversized());
    assert!(matches!(acc.finish(), BoundedLine::Oversized));
    let mut fits = LineAccumulator::with_limit(4);
    assert_eq!(fits.take(b"ab\r\n"), (4, true));
    assert!(!fits.oversized());
    assert!(matches!(fits.finish(), BoundedLine::Line(bytes) if bytes == b"ab".to_vec()));
}

#[test]
fn session_files_count_lines() {
    let mut file = SessionFile::new("hash".to_string(), false);
    file.read(BoundedLine::Line(b"  \t".to_vec()));
    file.read(BoundedLine::Oversized);
    file.read(BoundedLine::Line(b"garbage".to_vec()));
    file.read(BoundedLine::Line(
        br#"{"timestamp":"2026-08-12T00:00:00Z","type":"event_msg","payload":{}}"#.to_vec(),
    ));
    file.read(BoundedLine::Eof);
    assert_eq!(file.valid_lines(), 1);
    assert_eq!(file.invalid_lines(), 2);
    let session = file.finish().expect("a timed session");
    assert_eq!(session.session_id, "hash");
    let empty = SessionFile::new("none".to_string(), false);
    assert!(empty.finish().is_none());
    assert!(blank_line(b" \r\n"));
    assert!(!blank_line(b" x "));
    assert!(file_size_allowed(256 * 1024 * 1024));
    assert!(!file_size_allowed(256 * 1024 * 1024 + 1));
}

#[test]
fn reports_count_saturating() {
    let mut report = IngestReport::default();
    assert!(!report.needs_rebuild());
    report.record_file(FileOutcome::Stored);
    report.record_file(FileOutcome::Unchanged);
    report.record_file(FileOutcome::Skipped);
    report.record_file(FileOutcome::Skipped);
    assert_eq!(report.files_discovered, 4);
    assert_eq!(report.files_processed, 1);
    assert_eq!(report.files_unchanged, 1);
    assert_eq!(report.files_skipped, 2);
    assert_eq!(report.sessions_upserted, 1);
    assert_eq!(
        report.files_discovered,
        report.files_processed + report.files_unchanged + report.files_skipped
    );
    assert!(report.needs_rebuild());
    report.files_skipped = u64::MAX;
    report.record_file(FileOutcome::Skipped);
    assert_eq!(report.files_skipped, u64::MAX);
    assert_eq!(report.files_discovered, 5);
    let ingestor = SessionIngestor::from_root(std::path::PathBuf::from("/tmp/sessions"));
    assert_eq!(ingestor.roots().len(), 1);
}

#[test]
fn refresh_backs_off_and_resets() {
    let now = Timestamp { seconds: 1_000, nanos: 0 };
    let mut schedule = RefreshSchedule::new(None, now);
    assert!(schedule.is_due(now));
    let mut waits = Vec::new();
    for _ in 0..6 {
        schedule.start_attempt(now);
        schedule.finish_attempt(now, false, 60, 0);
        waits.push(schedule.next_refresh_at.seconds - now.seconds);
    }
    assert_eq!(waits, vec![10, 30, 60, 120, 300, 300]);
    assert_eq!(schedule.consecutive_failures, 6);
    assert!(!schedule.is_due(now));
    schedule.finish_attempt(now, true, 5, 7);
    assert_eq!(schedule.consecutive_failures, 0);
    assert_eq!(schedule.next_refresh_at.seconds, 1_010);
    assert_eq!(schedule.last_success_at, Some(now));
    schedule.finish_attempt(now, true, 86_400, 7);
    assert_eq!(schedule.next_refresh_at.seconds, 4_600);
    assert_eq!(backoff_seconds(255), 300);
}

#[test]
fn failure_back_off_carries_a_small_jitter() {
    let now = Timestamp { seconds: 1_000, nanos: 0 };
    let mut waits = Vec::new();
    let mut schedule = RefreshSchedule::new(None, now);
    for jitter in [25u64, 25, 25, 25, 25] {
        schedule.finish_attempt(now, false, 60, jitter);
        waits.push(schedule.next_refresh_at.seconds - now.seconds);
    }
    // Jitter bounds 1, 3, 6, 12, 30: 25 % 2, 25 % 4, 25 % 7, 25 % 13, 25 % 31.
    assert_eq!(waits, vec![11, 31, 64, 132, 325]);
    assert_eq!(my_codex::schedule::refresh_delay(4, false, 60, u64::MAX), 315);
    assert_eq!(my_codex::schedule::refresh_delay(0, true, 45, 999), 45);
}

#[test]
fn recommended_refresh_follows_activity() {
    assert_eq!(recommended_refresh_seconds(Some(RefreshMode::Fixed(5)), None, true, true), 10);
    assert_eq!(recommended_refresh_seconds(Some(RefreshMode::Fixed(900)), None, true, true), 900);
    assert_eq!(recommended_refresh_seconds(Some(RefreshMode::Smart), Some(120), false, false), 10);
    assert_eq!(recommended_refresh_seconds(None, Some(301), false, true), 30);
    assert_eq!(recommended_refresh_seconds(None, Some(-5), true, false), 10);
    assert_eq!(recommended_refresh_seconds(None, None, false, false), 60);
}

#[test]
fn refresh_plans() {
    assert_eq!(
        refresh_plan(QuotaStatus::Available, ProviderKind::AppServer),
        RefreshPlan::Publish { record: true }
    );
    assert_eq!(
        refresh_plan(QuotaStatus::Available, ProviderKind::Mock),
        RefreshPlan::Publish { record: false }
    );
    assert_eq!(
        refresh_plan(QuotaStatus::Unavailable, ProviderKind::AppServer),
        RefreshPlan::FallBackToStored
    );
    assert_eq!(
        refresh_plan(QuotaStatus::SignedOut, ProviderKind::AppServer),
        RefreshPlan::ShowFetched
    );
}

#[test]
fn thresholds_are_announced_once_until_recovery() {
    let thresholds = vec![50, 25, 20, 10, 5];
    let mut controller = NotificationController::default();
    let available = QuotaStatus::Available;
    assert_eq!(controller.evaluate(true, available, Remaining::AtMost(60), &thresholds), None);
    assert_eq!(controller.evaluate(true, available, Remaining::AtMost(22), &thresholds), Some(25));
    assert_eq!(controller.evaluate(true, available, Remaining::AtMost(22), &thresholds), None);
    assert_eq!(controller.evaluate(true, available, Remaining::AtMost(18), &thresholds), Some(20));
    assert_eq!(controller.evaluate(true, available, Remaining::AtMost(30), &thresholds), Some(50));
    assert_eq!(controller.evaluate(true, available, Remaining::AtMost(24), &thresholds), Some(25));
    assert_eq!(controller.evaluate(false, available, Remaining::AtMost(1), &thresholds), None);
    assert_eq!(
        controller.evaluate(true, QuotaStatus::Stale, Remaining::AtMost(1), &thresholds),
        None
    );
    assert_eq!(controller.evaluate(true, available, Remaining::NoWindow, &thresholds), None);
    assert_eq!(controller.evaluate(true, available, Remaining::Unknown, &thresholds), None);
    assert_eq!(controller.evaluate(true, available, Remaining::AtMost(24), &thresholds), Some(25));
}

#[test]
fn desktop_helpers() {
    assert_eq!(WindowTarget::Floating.label(), "floating");
    assert_eq!(WindowTarget::Dashboard.label(), "dashboard");
    let within = Elapsed { seconds: 90, nanos: 0 };
    assert!(modified_recently(Some(Elapsed { seconds: 90, nanos: 0 }), within));
    assert!(!modified_recently(Some(Elapsed { seconds: 90, nanos: 1 }), within));
    assert!(modified_recently(None, within));
    assert!(!any_recent(&vec![Some(Elapsed { seconds: 500, nanos: 0 })], within));
    assert!(any_recent(&vec![Some(Elapsed { seconds: 500, nanos: 0 }), None], within));
    assert_eq!(default_limit(), 50);
    assert_eq!(RankingQuery::default().limit, 50);
    let query = RankingQuery { range: my_codex::analytics::UsageRange::All, limit: 0 };
    assert_eq!(query.row_limit(), 1);
    let query = RankingQuery { range: my_codex::analytics::UsageRange::All, limit: 9000 };
    assert_eq!(query.row_limit(), 500);
}

#[test]
fn mock_series_matches_its_cards() {
    let totals = my_codex::wire::mock_daily_totals();
    assert_eq!(totals.len(), 90);
    assert_eq!(totals[..83].iter().sum::<i64>(), 1_800_000_000);
    assert_eq!(totals[83..].iter().sum::<i64>(), 6_800_000_000);
    assert_eq!(totals[89], 2_940_000_000);
    assert_eq!(totals.iter().sum::<i64>(), 8_600_000_000);
    assert_eq!(totals[0], 1_800_000_000 / 83 + 1);
    assert_eq!(totals[82], 1_800_000_000 / 83);
}

fn file_name(path: &str, windows: bool) -> Option<String> {
    let chars: Vec<char> = path.chars().collect();
    my_codex::paths::final_component_of(&chars, windows).map(|name| name.into_iter().collect())
}

#[test]
fn windows_prefixes_are_not_file_names() {
    assert_eq!(file_name(r"\\server\share", true), None);
    assert_eq!(file_name(r"\\server\share\", true), None);
    assert_eq!(file_name(r"\\server\share\repo", true), Some("repo".into()));
    assert_eq!(file_name(r"\\server", true), Some("server".into()));
    assert_eq!(file_name(r"\\?\UNC\server\share", true), None);
    assert_eq!(file_name(r"\\?\UNC\server\share\repo", true), Some("repo".into()));
    assert_eq!(file_name(r"\\?\C:\work\repo", true), Some("repo".into()));
    assert_eq!(file_name(r"\\?\C:\work/repo", true), Some("work/repo".into()));
    assert_eq!(file_name(r"\\?\C:\work\.", true), None);
    assert_eq!(file_name(r"\\?\C:", true), None);
    assert_eq!(file_name(r"\\.\COM42", true), None);
    assert_eq!(file_name(r"\\.\pipe\codex", true), Some("codex".into()));
    assert_eq!(file_name(r"C:\work\.", true), Some("work".into()));
    assert_eq!(file_name("C:", true), None);
    assert_eq!(file_name("C:repo", true), Some("repo".into()));
    assert_eq!(file_name(r"\\server\share", false), Some(r"\\server\share".into()));
    assert_eq!(file_name("/work/repo/..", false), None);
}
