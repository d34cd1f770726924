use my_codex::quota::{
    assess_account, classify_rpc_error, quota_message, quota_status, select_codex_bucket,
    AccountReadResult, AccountSummary, CapabilityProbe, CapabilityState, DailyUsageRpc,
    ProviderKind, QuotaService, QuotaStatus, RpcError, RpcReply, UsageReadResult,
    UsageSummaryRpc,
};
use my_codex::wire::{quota_window_label, MetricSource};

#[test]
fn prefers_named_codex_bucket() {
    assert_eq!(select_codex_bucket(Some("codex"), Some("fallback")), Some("codex"));
    assert_eq!(select_codex_bucket(None, Some("fallback")), Some("fallback"));
    assert_eq!(select_codex_bucket::<&str>(None, None), None);
}

#[test]
fn usage_summary_does_not_invent_token_breakdown() {
    let usage = UsageReadResult {
        summary: Some(UsageSummaryRpc {
            lifetime_tokens: Some(1234),
            peak_daily_tokens: None,
            longest_running_turn_sec: None,
            current_streak_days: None,
            longest_streak_days: None,
        }),
        daily_usage_buckets: Some(vec![DailyUsageRpc {
            start_date: "2026-06-18".to_string(),
            tokens: 123,
        }]),
    }
    .into_public();
    assert_eq!(usage.lifetime_tokens, Some(1234));
    assert_eq!(usage.daily_usage.len(), 1);
}

#[test]
fn usage_summary_drops_negative_and_oversized_buckets() {
    let usage = UsageReadResult {
        summary: None,
        daily_usage_buckets: Some(vec![
            DailyUsageRpc { start_date: "2026-06-18".to_string(), tokens: -1 },
            DailyUsageRpc { start_date: "x".repeat(33), tokens: 5 },
            DailyUsageRpc { start_date: "2026-06-19".to_string(), tokens: 0 },
        ]),
    }
    .into_public();
    assert_eq!(usage.lifetime_tokens, None);
    assert_eq!(usage.daily_usage.len(), 1);
    assert_eq!(usage.daily_usage[0].start_date, "2026-06-19");
}

#[test]
fn rpc_errors_are_classified_by_code() {
    assert_eq!(classify_rpc_error(&RpcError { code: -32601 }), CapabilityState::Unsupported);
    assert_eq!(classify_rpc_error(&RpcError { code: -32602 }), CapabilityState::Incompatible);
    assert_eq!(classify_rpc_error(&RpcError { code: -32600 }), CapabilityState::Incompatible);
    assert_eq!(
        classify_rpc_error(&RpcError { code: -32000 }),
        CapabilityState::TemporarilyUnavailable
    );
}

#[test]
fn a_missing_account_means_signed_out() {
    let signed_out = assess_account(RpcReply::Parsed(AccountReadResult {
        account: None,
        requires_openai_auth: true,
    }));
    assert!(signed_out.signed_out);
    assert_eq!(signed_out.state, CapabilityState::AuthUnavailable);
    let signed_in = assess_account(RpcReply::Parsed(AccountReadResult {
        account: Some(AccountSummary { plan_type: Some("plus".to_string()) }),
        requires_openai_auth: false,
    }));
    assert!(!signed_in.signed_out);
    assert_eq!(signed_in.plan.as_deref(), Some("plus"));
    let failed = assess_account(RpcReply::Failed(RpcError { code: -32601 }));
    assert!(!failed.signed_out);
    assert_eq!(failed.state, CapabilityState::Unsupported);
}

#[test]
fn statuses_never_invent_quota() {
    assert_eq!(quota_status(true, CapabilityState::Supported, true), QuotaStatus::SignedOut);
    assert_eq!(quota_status(false, CapabilityState::Supported, true), QuotaStatus::Available);
    assert_eq!(quota_status(false, CapabilityState::Supported, false), QuotaStatus::Unavailable);
    assert_eq!(
        quota_status(false, CapabilityState::Incompatible, true),
        QuotaStatus::Incompatible
    );
    assert!(quota_message(QuotaStatus::Available).is_none());
    assert_eq!(
        quota_message(QuotaStatus::SignedOut).as_deref(),
        Some("Codex app-server 报告当前未登录。")
    );
}

#[test]
fn stored_texts_round_trip() {
    for kind in [ProviderKind::AppServer, ProviderKind::Mock, ProviderKind::Unavailable] {
        assert_eq!(ProviderKind::from_str(kind.as_str()), kind);
    }
    for status in [
        QuotaStatus::Available,
        QuotaStatus::Stale,
        QuotaStatus::SignedOut,
        QuotaStatus::Unavailable,
        QuotaStatus::Incompatible,
    ] {
        assert_eq!(QuotaStatus::from_str(status.as_str()), status);
    }
}

#[test]
fn quota_service_picks_its_provider() {
    let without = QuotaService::new(None);
    assert_eq!(without.provider_for(false), ProviderKind::Unavailable);
    assert_eq!(without.provider_for(true), ProviderKind::Mock);
    let with = QuotaService::new(Some(std::path::PathBuf::from("/usr/bin/codex")));
    assert_eq!(with.provider_for(false), ProviderKind::AppServer);
    assert!(with.app_server.is_available());
    assert_eq!(
        with.app_server.executable(),
        &Some(std::path::PathBuf::from("/usr/bin/codex"))
    );
    assert_eq!(without.app_server.executable(), &None);
    let probe = CapabilityProbe::default();
    assert_eq!(probe.account_read, CapabilityState::NotProbed);
}

#[test]
fn mock_data_is_labelled_as_mock() {
    assert_eq!(
        MetricSource::from_internal(my_codex::analytics::DataSource::Official, Some(ProviderKind::Mock)),
        MetricSource::Mock
    );
    assert_eq!(
        MetricSource::from_internal(my_codex::analytics::DataSource::Local, None),
        MetricSource::Local
    );
}

#[test]
fn quota_windows_are_named_by_length() {
    assert_eq!(quota_window_label("primary", Some(300)), "5 小时额度");
    assert_eq!(quota_window_label("secondary", Some(10080)), "7 天额度");
    assert_eq!(quota_window_label("primary", Some(45)), "45 分钟额度");
    assert_eq!(quota_window_label("secondary", None), "次要额度");
}

#[test]
fn snapshot_prefers_the_bucket_plan_and_the_secondary_reset() {
    assert_eq!(my_codex::quota::prefer(Some("pro"), Some("plus")), Some("pro"));
    assert_eq!(my_codex::quota::prefer(None, Some("plus")), Some("plus"));
    assert_eq!(my_codex::quota::prefer::<i64>(None, None), None);
}
