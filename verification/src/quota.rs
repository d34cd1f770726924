//! Quota providers and the classification of what the Codex app-server answers.
use vstd::prelude::*;

verus! {

/// `std::path::PathBuf`, carried for the application and never read here.
#[verifier::external_type_specification]
#[verifier::external_body]
pub struct ExPathBuf(std::path::PathBuf);

/// Which provider produced a quota snapshot.
#[derive(Debug, Clone, Copy, PartialEq, Eq, Structural)]
pub enum ProviderKind {
    AppServer,
    Mock,
    Unavailable,
}

pub open spec fn provider_text(kind: ProviderKind) -> Seq<char> {
    match kind {
        ProviderKind::AppServer => "app_server"@,
        ProviderKind::Mock => "mock"@,
        ProviderKind::Unavailable => "unavailable"@,
    }
}

pub open spec fn provider_from_text(text: Seq<char>) -> ProviderKind {
    if text == "app_server"@ {
        ProviderKind::AppServer
    } else if text == "mock"@ {
        ProviderKind::Mock
    } else {
        ProviderKind::Unavailable
    }
}

impl ProviderKind {
    pub fn as_str(self) -> (text: &'static str)
        ensures
            text@ == provider_text(self),
    {
        match self {
            ProviderKind::AppServer => "app_server",
            ProviderKind::Mock => "mock",
            ProviderKind::Unavailable => "unavailable",
        }
    }

    /// Reads a stored provider; anything unknown reads as unavailable.
    pub fn from_str(value: &str) -> (kind: Self)
        ensures
            kind == provider_from_text(value@),
    {
        if crate::text::str_eq(value, "app_server") {
            ProviderKind::AppServer
        } else if crate::text::str_eq(value, "mock") {
            ProviderKind::Mock
        } else {
            ProviderKind::Unavailable
        }
    }
}

/// The state of a quota snapshot.
#[derive(Debug, Clone, Copy, PartialEq, Eq, Structural)]
pub enum QuotaStatus {
    Available,
    Stale,
    SignedOut,
    Unavailable,
    Incompatible,
}

pub open spec fn status_text(status: QuotaStatus) -> Seq<char> {
    match status {
        QuotaStatus::Available => "available"@,
        QuotaStatus::Stale => "stale"@,
        QuotaStatus::SignedOut => "signed_out"@,
        QuotaStatus::Unavailable => "unavailable"@,
        QuotaStatus::Incompatible => "incompatible"@,
    }
}

pub open spec fn status_from_text(text: Seq<char>) -> QuotaStatus {
    if text == "available"@ {
        QuotaStatus::Available
    } else if text == "stale"@ {
        QuotaStatus::Stale
    } else if text == "signed_out"@ {
        QuotaStatus::SignedOut
    } else if text == "incompatible"@ {
        QuotaStatus::Incompatible
    } else {
        QuotaStatus::Unavailable
    }
}

impl QuotaStatus {
    pub fn as_str(self) -> (text: &'static str)
        ensures
            text@ == status_text(self),
    {
        match self {
            QuotaStatus::Available => "available",
            QuotaStatus::Stale => "stale",
            QuotaStatus::SignedOut => "signed_out",
            QuotaStatus::Unavailable => "unavailable",
            QuotaStatus::Incompatible => "incompatible",
        }
    }

    /// Reads a stored status; anything unknown reads as unavailable.
    pub fn from_str(value: &str) -> (status: Self)
        ensures
            status == status_from_text(value@),
    {
        if crate::text::str_eq(value, "available") {
            QuotaStatus::Available
        } else if crate::text::str_eq(value, "stale") {
            QuotaStatus::Stale
        } else if crate::text::str_eq(value, "signed_out") {
            QuotaStatus::SignedOut
        } else if crate::text::str_eq(value, "incompatible") {
            QuotaStatus::Incompatible
        } else {
            QuotaStatus::Unavailable
        }
    }
}

/// Stored providers and statuses read back as what was stored.
pub proof fn lemma_stored_text_round_trip(kind: ProviderKind, status: QuotaStatus)
    ensures
        provider_from_text(provider_text(kind)) == kind,
        status_from_text(status_text(status)) == status,
{
    reveal_strlit("app_server");
    reveal_strlit("mock");
    reveal_strlit("unavailable");
    reveal_strlit("available");
    reveal_strlit("stale");
    reveal_strlit("signed_out");
    reveal_strlit("incompatible");
    assert("app_server"@.len() == 10);
    assert("mock"@.len() == 4);
    assert("unavailable"@.len() == 11);
    assert("available"@.len() == 9);
    assert("stale"@.len() == 5);
    assert("signed_out"@.len() == 10);
    assert("incompatible"@.len() == 12);
    assert("signed_out"@[0] != "app_server"@[0]);
    assert("unavailable"@ != "app_server"@);
    assert("unavailable"@ != "mock"@);
    assert("unavailable"@ != "available"@);
    assert("unavailable"@ != "stale"@);
    assert("unavailable"@ != "signed_out"@);
    assert("unavailable"@ != "incompatible"@);
    assert("signed_out"@ != "available"@);
    assert("signed_out"@ != "stale"@);
    assert("incompatible"@ != "available"@);
    assert("incompatible"@ != "stale"@);
    assert("incompatible"@ != "signed_out"@);
    assert("stale"@ != "available"@);
}

/// What the app-server supports for one method.
#[derive(Debug, Clone, Copy, PartialEq, Eq, Structural)]
pub enum CapabilityState {
    Supported,
    Unsupported,
    AuthUnavailable,
    TemporarilyUnavailable,
    Incompatible,
    NotProbed,
}

#[derive(Debug, Clone, Copy, PartialEq, Eq, Structural)]
pub struct CapabilityProbe {
    pub account_read: CapabilityState,
    pub rate_limits_read: CapabilityState,
    pub usage_read: CapabilityState,
}

impl Default for CapabilityProbe {
    fn default() -> (probe: Self)
        ensures
            probe.account_read == CapabilityState::NotProbed,
            probe.rate_limits_read == CapabilityState::NotProbed,
            probe.usage_read == CapabilityState::NotProbed,
    {
        CapabilityProbe {
            account_read: CapabilityState::NotProbed,
            rate_limits_read: CapabilityState::NotProbed,
            usage_read: CapabilityState::NotProbed,
        }
    }
}

impl CapabilityProbe {
    /// The same state for every method.
    pub fn uniform(state: CapabilityState) -> (probe: Self)
        ensures
            probe.account_read == state,
            probe.rate_limits_read == state,
            probe.usage_read == state,
    {
        CapabilityProbe { account_read: state, rate_limits_read: state, usage_read: state }
    }
}

/// A JSON-RPC error object; only its code is read.
#[derive(Debug, Clone, Copy)]
pub struct RpcError {
    pub code: i64,
}

/// The first value present: the quota snapshot takes the plan of the selected
/// bucket before the account's, and the reset time of the secondary window
/// before the primary's.
pub fn prefer<T>(first: Option<T>, fallback: Option<T>) -> (chosen: Option<T>)
    ensures
        chosen == match first {
            Some(x) => Some(x),
            None => fallback,
        },
{
    match first {
        Some(x) => Some(x),
        None => fallback,
    }
}

/// What one reply line of the app-server means to a request waiting for the
/// reply with `expected_id`.
#[derive(Debug, Clone, Copy)]
pub enum ReplyStep {
    /// A reply to another request, or a notification: read on.
    Skip,
    /// The reply carries an error.
    Failed(RpcError),
    /// The reply carries its result (`null` when it has none).
    Succeeded,
}

pub open spec fn reply_step_spec(expected_id: u64, id: Option<u64>, error: Option<RpcError>) -> ReplyStep {
    if id != Some(expected_id) {
        ReplyStep::Skip
    } else {
        match error {
            Some(e) => ReplyStep::Failed(e),
            None => ReplyStep::Succeeded,
        }
    }
}

/// Matches a reply line by its `id` and reads whether it failed.
pub fn reply_step(expected_id: u64, id: Option<u64>, error: Option<RpcError>) -> (step: ReplyStep)
    ensures
        step == reply_step_spec(expected_id, id, error),
{
    match id {
        Some(found) => {
            if found == expected_id {
                match error {
                    Some(e) => ReplyStep::Failed(e),
                    None => ReplyStep::Succeeded,
                }
            } else {
                ReplyStep::Skip
            }
        },
        None => ReplyStep::Skip,
    }
}

pub open spec fn rpc_error_state(code: i64) -> CapabilityState {
    if code == -32601 {
        CapabilityState::Unsupported
    } else if code == -32602 || code == -32600 {
        CapabilityState::Incompatible
    } else {
        CapabilityState::TemporarilyUnavailable
    }
}

/// Method not found is unsupported; invalid parameters or requests are an
/// incompatible protocol; every other error is temporary.
pub fn classify_rpc_error(error: &RpcError) -> (state: CapabilityState)
    ensures
        state == rpc_error_state(error.code),
{
    if error.code == -32601 {
        CapabilityState::Unsupported
    } else if error.code == -32602 || error.code == -32600 {
        CapabilityState::Incompatible
    } else {
        CapabilityState::TemporarilyUnavailable
    }
}

/// The outcome of one request: a result of the expected shape, a result of
/// another shape, or an error.
pub enum RpcReply<T> {
    Parsed(T),
    Unparsable,
    Failed(RpcError),
}

pub open spec fn reply_state<T>(reply: RpcReply<T>) -> CapabilityState {
    match reply {
        RpcReply::Parsed(_) => CapabilityState::Supported,
        RpcReply::Unparsable => CapabilityState::Incompatible,
        RpcReply::Failed(error) => rpc_error_state(error.code),
    }
}

/// The capability that a reply shows, and its result if it had the expected shape.
pub fn assess_reply<T>(reply: RpcReply<T>) -> (assessed: (CapabilityState, Option<T>))
    ensures
        assessed.0 == reply_state(reply),
        assessed.1 == (match reply {
            RpcReply::Parsed(value) => Some(value),
            _ => None,
        }),
{
    match reply {
        RpcReply::Parsed(value) => (CapabilityState::Supported, Some(value)),
        RpcReply::Unparsable => (CapabilityState::Incompatible, None),
        RpcReply::Failed(error) => (classify_rpc_error(&error), None),
    }
}

#[derive(Debug, Clone)]
pub struct AccountSummary {
    pub plan_type: Option<String>,
}

/// The result of `account/read`.
#[derive(Debug, Clone)]
pub struct AccountReadResult {
    pub account: Option<AccountSummary>,
    pub requires_openai_auth: bool,
}

/// What `account/read` tells: the capability, whether the user is signed
/// out, and the plan that the account reports.
pub struct AccountAssessment {
    pub state: CapabilityState,
    pub signed_out: bool,
    pub plan: Option<String>,
}

pub open spec fn account_state(reply: RpcReply<AccountReadResult>) -> CapabilityState {
    match reply {
        RpcReply::Parsed(result) => if result.account.is_some() {
            CapabilityState::Supported
        } else {
            CapabilityState::AuthUnavailable
        },
        _ => reply_state(reply),
    }
}

/// A parsed account result without an account means signed out; a
/// missing or failed result says nothing about the sign-in.
pub fn assess_account(reply: RpcReply<AccountReadResult>) -> (assessed: AccountAssessment)
    ensures
        assessed.state == account_state(reply),
        assessed.signed_out == (reply matches RpcReply::Parsed(result) && result.account.is_none()),
        assessed.plan == (match reply {
            RpcReply::Parsed(result) => match result.account {
                Some(account) => account.plan_type,
                None => None,
            },
            _ => None,
        }),
{
    match reply {
        RpcReply::Parsed(result) => match result.account {
            Some(account) => AccountAssessment {
                state: CapabilityState::Supported,
                signed_out: false,
                plan: account.plan_type,
            },
            None => AccountAssessment {
                state: CapabilityState::AuthUnavailable,
                signed_out: true,
                plan: None,
            },
        },
        RpcReply::Unparsable => AccountAssessment {
            state: CapabilityState::Incompatible,
            signed_out: false,
            plan: None,
        },
        RpcReply::Failed(error) => AccountAssessment {
            state: classify_rpc_error(&error),
            signed_out: false,
            plan: None,
        },
    }
}

/// `account/usage/read` is asked for unless the account is known to be signed out.
pub fn usage_read_needed(account: CapabilityState) -> (needed: bool)
    ensures
        needed == (account != CapabilityState::AuthUnavailable),
{
    account != CapabilityState::AuthUnavailable
}

/// The rate-limit bucket that counts for Codex: the one named `codex`,
/// else the backward-compatible single bucket.
pub fn select_codex_bucket<B>(named_codex: Option<B>, fallback: Option<B>) -> (bucket: Option<B>)
    ensures
        bucket == (match named_codex {
            Some(b) => Some(b),
            None => fallback,
        }),
{
    match named_codex {
        Some(bucket) => Some(bucket),
        None => fallback,
    }
}

pub open spec fn quota_status_of(signed_out: bool, rate_limits: CapabilityState, has_bucket: bool) -> QuotaStatus {
    if signed_out {
        QuotaStatus::SignedOut
    } else if rate_limits == CapabilityState::Supported && has_bucket {
        QuotaStatus::Available
    } else if rate_limits == CapabilityState::Incompatible {
        QuotaStatus::Incompatible
    } else {
        QuotaStatus::Unavailable
    }
}

/// The status of a collected quota: signed out wins; a supported rate-limit
/// read with a Codex bucket is available; an unreadable one is incompatible.
pub fn quota_status(signed_out: bool, rate_limits: CapabilityState, has_bucket: bool) -> (status: QuotaStatus)
    ensures
        status == quota_status_of(signed_out, rate_limits, has_bucket),
{
    if signed_out {
        QuotaStatus::SignedOut
    } else if rate_limits == CapabilityState::Supported && has_bucket {
        QuotaStatus::Available
    } else if rate_limits == CapabilityState::Incompatible {
        QuotaStatus::Incompatible
    } else {
        QuotaStatus::Unavailable
    }
}

/// A signed-out account never shows an available quota, and an available
/// quota always rests on a supported rate-limit read that found a bucket.
pub proof fn lemma_status_never_invents_quota(signed_out: bool, rate_limits: CapabilityState, has_bucket: bool)
    ensures
        signed_out ==> quota_status_of(signed_out, rate_limits, has_bucket) == QuotaStatus::SignedOut,
        quota_status_of(signed_out, rate_limits, has_bucket) == QuotaStatus::Available ==> (!signed_out
            && rate_limits == CapabilityState::Supported && has_bucket),
{
}

pub open spec fn status_message(status: QuotaStatus) -> Option<Seq<char>> {
    match status {
        QuotaStatus::Available => None,
        QuotaStatus::SignedOut => Some("Codex app-server 报告当前未登录。"@),
        QuotaStatus::Incompatible => Some("Codex app-server 返回了当前版本无法解析的额度结构。"@),
        _ => Some("Codex app-server 可用，但官方额度方法当前不可用。"@),
    }
}

/// The message that accompanies a collected quota of the given status.
pub fn quota_message(status: QuotaStatus) -> (message: Option<String>)
    ensures
        match status_message(status) {
            Some(text) => message matches Some(m) && m@ == text,
            None => message.is_none(),
        },
{
    match status {
        QuotaStatus::Available => None,
        QuotaStatus::SignedOut => Some("Codex app-server 报告当前未登录。".to_owned()),
        QuotaStatus::Incompatible => Some(
            "Codex app-server 返回了当前版本无法解析的额度结构。".to_owned(),
        ),
        _ => Some("Codex app-server 可用，但官方额度方法当前不可用。".to_owned()),
    }
}

#[derive(Debug, Clone)]
pub struct OfficialDailyUsage {
    pub start_date: String,
    pub tokens: i64,
}

#[derive(Debug, Clone)]
pub struct OfficialUsageSummary {
    pub lifetime_tokens: Option<i64>,
    pub peak_daily_tokens: Option<i64>,
    pub longest_running_turn_seconds: Option<i64>,
    pub current_streak_days: Option<i64>,
    pub longest_streak_days: Option<i64>,
    pub daily_usage: Vec<OfficialDailyUsage>,
}

#[derive(Debug, Clone)]
pub struct UsageSummaryRpc {
    pub lifetime_tokens: Option<i64>,
    pub peak_daily_tokens: Option<i64>,
    pub longest_running_turn_sec: Option<i64>,
    pub current_streak_days: Option<i64>,
    pub longest_streak_days: Option<i64>,
}

#[derive(Debug, Clone)]
pub struct DailyUsageRpc {
    pub start_date: String,
    pub tokens: i64,
}

/// The result of `account/usage/read`.
#[derive(Debug, Clone)]
pub struct UsageReadResult {
    pub summary: Option<UsageSummaryRpc>,
    pub daily_usage_buckets: Option<Vec<DailyUsageRpc>>,
}

/// A daily bucket is kept when its tokens are not negative and its date
/// takes at most 32 bytes.
pub open spec fn bucket_kept(bucket: DailyUsageRpc) -> bool {
    bucket.tokens >= 0 && crate::text::byte_len(bucket.start_date@) <= 32
}

pub open spec fn kept_buckets(buckets: Seq<DailyUsageRpc>) -> Seq<DailyUsageRpc>
    decreases buckets.len(),
{
    if buckets.len() == 0 {
        Seq::empty()
    } else {
        let rest = kept_buckets(buckets.drop_last());
        if bucket_kept(buckets.last()) {
            rest.push(buckets.last())
        } else {
            rest
        }
    }
}

/// The public daily list holds exactly the kept buckets, in order.
pub open spec fn daily_usage_matches(daily: Seq<OfficialDailyUsage>, kept: Seq<DailyUsageRpc>) -> bool {
    &&& daily.len() == kept.len()
    &&& forall|i: int|
        #![trigger daily[i]]
        0 <= i < daily.len() ==> daily[i].start_date@ == kept[i].start_date@ && daily[i].tokens
            == kept[i].tokens
}

fn keep_daily_buckets(buckets: &Vec<DailyUsageRpc>) -> (daily: Vec<OfficialDailyUsage>)
    ensures
        daily_usage_matches(daily@, kept_buckets(buckets@)),
{
    let ghost all = buckets@;
    let mut daily: Vec<OfficialDailyUsage> = Vec::new();
    let mut i: usize = 0;
    while i < buckets.len()
        invariant
            all == buckets@,
            i <= buckets@.len(),
            daily_usage_matches(daily@, kept_buckets(all.take(i as int))),
        decreases buckets@.len() - i,
    {
        let bucket = &buckets[i];
        let ghost prefix = all.take(i + 1);
        assert(prefix.drop_last() =~= all.take(i as int));
        assert(prefix.last() == all[i as int]);
        assert(kept_buckets(prefix) == if bucket_kept(all[i as int]) {
            kept_buckets(all.take(i as int)).push(all[i as int])
        } else {
            kept_buckets(all.take(i as int))
        });
        let ghost before = daily@;
        if bucket.tokens >= 0 && bucket.start_date.as_str().len() <= 32 {
            daily.push(
                OfficialDailyUsage { start_date: bucket.start_date.clone(), tokens: bucket.tokens },
            );
        }
        assert forall|k: int| 0 <= k < before.len() implies daily@[k] == before[k] by {}
        i = i + 1;
    }
    assert(all.take(all.len() as int) =~= all);
    daily
}

impl UsageReadResult {
    /// The public summary: the summary's fields as reported (all absent when
    /// there is no summary) and the kept daily buckets in their order.
    pub fn into_public(self) -> (public: OfficialUsageSummary)
        ensures
            match self.summary {
                Some(s) => {
                    &&& public.lifetime_tokens == s.lifetime_tokens
                    &&& public.peak_daily_tokens == s.peak_daily_tokens
                    &&& public.longest_running_turn_seconds == s.longest_running_turn_sec
                    &&& public.current_streak_days == s.current_streak_days
                    &&& public.longest_streak_days == s.longest_streak_days
                },
                None => {
                    &&& public.lifetime_tokens.is_none()
                    &&& public.peak_daily_tokens.is_none()
                    &&& public.longest_running_turn_seconds.is_none()
                    &&& public.current_streak_days.is_none()
                    &&& public.longest_streak_days.is_none()
                },
            },
            daily_usage_matches(
                public.daily_usage@,
                match self.daily_usage_buckets {
                    Some(b) => kept_buckets(b@),
                    None => Seq::empty(),
                },
            ),
    {
        let (lifetime, peak, longest_turn, current_streak, longest_streak) = match self.summary {
            Some(s) => (
                s.lifetime_tokens,
                s.peak_daily_tokens,
                s.longest_running_turn_sec,
                s.current_streak_days,
                s.longest_streak_days,
            ),
            None => (None, None, None, None, None),
        };
        let daily: Vec<OfficialDailyUsage> = match self.daily_usage_buckets {
            Some(buckets) => keep_daily_buckets(&buckets),
            None => Vec::new(),
        };
        OfficialUsageSummary {
            lifetime_tokens: lifetime,
            peak_daily_tokens: peak,
            longest_running_turn_seconds: longest_turn,
            current_streak_days: current_streak,
            longest_streak_days: longest_streak,
            daily_usage: daily,
        }
    }
}

/// The provider that reads quota from a local Codex app-server.
pub struct AppServerProvider {
    executable: Option<std::path::PathBuf>,
}

impl AppServerProvider {
    /// A provider for the Codex executable that was found, if any.
    pub fn new(executable: Option<std::path::PathBuf>) -> (provider: Self)
        ensures
            provider.executable_path() == executable,
            provider.executable_found() == executable.is_some(),
    {
        AppServerProvider { executable }
    }

    /// The Codex executable this provider starts, if one was found.
    pub closed spec fn executable_path(&self) -> Option<std::path::PathBuf> {
        self.executable
    }

    pub open spec fn executable_found(&self) -> bool {
        self.executable_path().is_some()
    }

    pub fn is_available(&self) -> (available: bool)
        ensures
            available == self.executable_found(),
    {
        self.executable.is_some()
    }

    /// The executable to start, if one was found.
    pub fn executable(&self) -> (path: &Option<std::path::PathBuf>)
        ensures
            *path == self.executable_path(),
            path.is_some() == self.executable_found(),
    {
        &self.executable
    }
}

/// The provider of fixed demonstration data.
pub struct MockQuotaProvider;

/// The provider that answers when no Codex app-server can be used.
pub struct UnavailableQuotaProvider;

impl UnavailableQuotaProvider {
    /// Every method is unsupported when there is no app-server.
    pub fn capabilities(&self) -> (probe: CapabilityProbe)
        ensures
            probe == CapabilityProbe::uniform_spec(CapabilityState::Unsupported),
    {
        CapabilityProbe::uniform(CapabilityState::Unsupported)
    }
}

impl CapabilityProbe {
    pub open spec fn uniform_spec(state: CapabilityState) -> CapabilityProbe {
        CapabilityProbe { account_read: state, rate_limits_read: state, usage_read: state }
    }
}

/// The three providers, of which each fetch uses one.
pub struct QuotaService {
    pub app_server: AppServerProvider,
    pub mock: MockQuotaProvider,
    pub unavailable: UnavailableQuotaProvider,
}

pub open spec fn chosen_provider(mock_mode: bool, app_server_found: bool) -> ProviderKind {
    if mock_mode {
        ProviderKind::Mock
    } else if app_server_found {
        ProviderKind::AppServer
    } else {
        ProviderKind::Unavailable
    }
}

impl QuotaService {
    pub fn new(codex_binary: Option<std::path::PathBuf>) -> (service: Self)
        ensures
            service.app_server.executable_path() == codex_binary,
            service.app_server.executable_found() == codex_binary.is_some(),
    {
        QuotaService {
            app_server: AppServerProvider::new(codex_binary),
            mock: MockQuotaProvider,
            unavailable: UnavailableQuotaProvider,
        }
    }

    /// The provider that a fetch uses: mock data only in mock mode, the
    /// app-server when one was found, and otherwise the unavailable provider;
    /// a failing real provider is never replaced by mock data.
    pub fn provider_for(&self, mock_mode: bool) -> (kind: ProviderKind)
        ensures
            kind == chosen_provider(mock_mode, self.app_server.executable_found()),
    {
        if mock_mode {
            ProviderKind::Mock
        } else if self.app_server.is_available() {
            ProviderKind::AppServer
        } else {
            ProviderKind::Unavailable
        }
    }
}

/// Mock data is used exactly in mock mode: outside it, a missing app-server
/// gives the unavailable provider and never mock numbers.
pub proof fn lemma_mock_only_in_mock_mode(mock_mode: bool, app_server_found: bool)
    ensures
        (chosen_provider(mock_mode, app_server_found) == ProviderKind::Mock) == mock_mode,
        !mock_mode && !app_server_found ==> chosen_provider(mock_mode, app_server_found)
            == ProviderKind::Unavailable,
{
}


/// The status of a collected quota: signed out comes first; else a
/// supported rate-limit read with a Codex bucket is available; else an
/// incompatible rate-limit read is incompatible, with or without a bucket;
/// anything else is unavailable.
pub proof fn lemma_quota_status_rules(signed_out: bool, rate_limits: CapabilityState, has_bucket: bool)
    ensures
        signed_out ==> quota_status_of(signed_out, rate_limits, has_bucket) == QuotaStatus::SignedOut,
        !signed_out && rate_limits == CapabilityState::Supported && has_bucket ==> quota_status_of(
            signed_out,
            rate_limits,
            has_bucket,
        ) == QuotaStatus::Available,
        !signed_out && rate_limits == CapabilityState::Incompatible ==> quota_status_of(
            signed_out,
            rate_limits,
            has_bucket,
        ) == QuotaStatus::Incompatible,
        !signed_out && rate_limits != CapabilityState::Incompatible && !(rate_limits
            == CapabilityState::Supported && has_bucket) ==> quota_status_of(
            signed_out,
            rate_limits,
            has_bucket,
        ) == QuotaStatus::Unavailable,
{
}

} // verus!
