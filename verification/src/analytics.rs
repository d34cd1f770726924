//! Token accounting and the aggregates that the local statistics are made of.
use vstd::prelude::*;

verus! {

/// Where a number comes from.
#[derive(Debug, Clone, Copy, PartialEq, Eq, Structural)]
pub enum DataSource {
    Official,
    Local,
    Estimated,
}

/// The text that stands for a data source in storage and on the wire.
pub open spec fn data_source_text(source: DataSource) -> Seq<char> {
    match source {
        DataSource::Official => "official"@,
        DataSource::Local => "local"@,
        DataSource::Estimated => "estimated"@,
    }
}

/// The data source stored as `text`; anything unknown reads as official.
pub open spec fn data_source_from_text(text: Seq<char>) -> DataSource {
    if text == "local"@ {
        DataSource::Local
    } else if text == "estimated"@ {
        DataSource::Estimated
    } else {
        DataSource::Official
    }
}

impl DataSource {
    pub fn as_str(self) -> (text: &'static str)
        ensures
            text@ == data_source_text(self),
    {
        match self {
            DataSource::Official => "official",
            DataSource::Local => "local",
            DataSource::Estimated => "estimated",
        }
    }

    /// Reads a stored source column: `local`, `estimated`, anything else is official.
    pub fn from_stored(text: &str) -> (source: DataSource)
        ensures
            source == data_source_from_text(text@),
    {
        if crate::text::str_eq(text, "local") {
            DataSource::Local
        } else if crate::text::str_eq(text, "estimated") {
            DataSource::Estimated
        } else {
            DataSource::Official
        }
    }
}

/// Reading back the stored text of a data source gives the same source.
pub proof fn lemma_data_source_round_trip(source: DataSource)
    ensures
        data_source_from_text(data_source_text(source)) == source,
{
    reveal_strlit("official");
    reveal_strlit("local");
    reveal_strlit("estimated");
    assert("official"@.len() == 8);
    assert("local"@.len() == 5);
    assert("estimated"@.len() == 9);
    assert("official"@ != "local"@);
    assert("official"@ != "estimated"@);
}

/// `x + y` clamped to the range of `i64`, as `i64::saturating_add` computes it.
pub open spec fn sat_add(x: int, y: int) -> int {
    if x + y > i64::MAX {
        i64::MAX as int
    } else if x + y < i64::MIN {
        i64::MIN as int
    } else {
        x + y
    }
}

/// `i64::saturating_add`.
pub fn saturating_add_i64(x: i64, y: i64) -> (sum: i64)
    ensures
        sum == sat_add(x as int, y as int),
{
    match x.checked_add(y) {
        Some(value) => value,
        None => {
            if y > 0 {
                i64::MAX
            } else {
                i64::MIN
            }
        },
    }
}

pub open spec fn max0(x: i64) -> i64 {
    if x < 0 {
        0
    } else {
        x
    }
}

/// Token counts of one unit of usage.
#[derive(Debug, Clone, Copy, Default, PartialEq, Eq, Structural)]
pub struct TokenBreakdown {
    pub input_tokens: i64,
    pub output_tokens: i64,
    pub cached_input_tokens: i64,
    pub reasoning_tokens: i64,
    pub total_tokens: i64,
}

/// The breakdown with all zero counts.
pub open spec fn zero_tokens() -> TokenBreakdown {
    TokenBreakdown {
        input_tokens: 0,
        output_tokens: 0,
        cached_input_tokens: 0,
        reasoning_tokens: 0,
        total_tokens: 0,
    }
}

/// Normalization: counts are never negative, cached input is part of the
/// input, and the total covers input plus output. Cached and reasoning
/// tokens are never added to the total a second time.
pub open spec fn normalized(t: TokenBreakdown) -> TokenBreakdown {
    let input = max0(t.input_tokens);
    let output = max0(t.output_tokens);
    let cached = if t.cached_input_tokens < 0 {
        0
    } else if t.cached_input_tokens > input {
        input
    } else {
        t.cached_input_tokens
    };
    let floor = sat_add(input as int, output as int);
    TokenBreakdown {
        input_tokens: input,
        output_tokens: output,
        cached_input_tokens: cached,
        reasoning_tokens: max0(t.reasoning_tokens),
        total_tokens: if t.total_tokens < floor {
            floor as i64
        } else {
            t.total_tokens
        },
    }
}

/// A breakdown that normalization leaves as it is.
pub open spec fn is_normalized(t: TokenBreakdown) -> bool {
    &&& 0 <= t.input_tokens
    &&& 0 <= t.output_tokens
    &&& 0 <= t.cached_input_tokens <= t.input_tokens
    &&& 0 <= t.reasoning_tokens
    &&& t.total_tokens >= sat_add(t.input_tokens as int, t.output_tokens as int)
}

/// The field-wise saturating sum of two breakdowns, normalized.
pub open spec fn tokens_sum(a: TokenBreakdown, b: TokenBreakdown) -> TokenBreakdown {
    normalized(
        TokenBreakdown {
            input_tokens: sat_add(a.input_tokens as int, b.input_tokens as int) as i64,
            output_tokens: sat_add(a.output_tokens as int, b.output_tokens as int) as i64,
            cached_input_tokens: sat_add(
                a.cached_input_tokens as int,
                b.cached_input_tokens as int,
            ) as i64,
            reasoning_tokens: sat_add(a.reasoning_tokens as int, b.reasoning_tokens as int) as i64,
            total_tokens: sat_add(a.total_tokens as int, b.total_tokens as int) as i64,
        },
    )
}

impl TokenBreakdown {
    pub fn normalize(self) -> (result: Self)
        ensures
            result == normalized(self),
    {
        let input: i64 = if self.input_tokens < 0 {
            0
        } else {
            self.input_tokens
        };
        let output: i64 = if self.output_tokens < 0 {
            0
        } else {
            self.output_tokens
        };
        let cached: i64 = if self.cached_input_tokens < 0 {
            0
        } else if self.cached_input_tokens > input {
            input
        } else {
            self.cached_input_tokens
        };
        let reasoning: i64 = if self.reasoning_tokens < 0 {
            0
        } else {
            self.reasoning_tokens
        };
        let floor: i64 = saturating_add_i64(input, output);
        let total: i64 = if self.total_tokens < floor {
            floor
        } else {
            self.total_tokens
        };
        TokenBreakdown {
            input_tokens: input,
            output_tokens: output,
            cached_input_tokens: cached,
            reasoning_tokens: reasoning,
            total_tokens: total,
        }
    }

    pub fn saturating_add(self, other: Self) -> (result: Self)
        ensures
            result == tokens_sum(self, other),
    {
        TokenBreakdown {
            input_tokens: saturating_add_i64(self.input_tokens, other.input_tokens),
            output_tokens: saturating_add_i64(self.output_tokens, other.output_tokens),
            cached_input_tokens: saturating_add_i64(
                self.cached_input_tokens,
                other.cached_input_tokens,
            ),
            reasoning_tokens: saturating_add_i64(self.reasoning_tokens, other.reasoning_tokens),
            total_tokens: saturating_add_i64(self.total_tokens, other.total_tokens),
        }.normalize()
    }
}

/// Normalizing gives a normalized breakdown, and a normalized breakdown is left unchanged.
pub proof fn lemma_normalize_idempotent(t: TokenBreakdown)
    ensures
        is_normalized(normalized(t)),
        normalized(normalized(t)) == normalized(t),
        is_normalized(t) ==> normalized(t) == t,
{
}

/// The total that normalization produces never counts cached or reasoning
/// tokens: it is the recorded total, or input plus output when that is larger.
pub proof fn lemma_normalized_total_excludes_cache(t: TokenBreakdown)
    ensures
        normalized(t).total_tokens == if t.total_tokens < sat_add(
            max0(t.input_tokens) as int,
            max0(t.output_tokens) as int,
        ) {
            sat_add(max0(t.input_tokens) as int, max0(t.output_tokens) as int)
        } else {
            t.total_tokens as int
        },
        normalized(t).cached_input_tokens <= normalized(t).input_tokens,
{
}

/// Adding breakdowns does not depend on the order of the operands, and adding
/// the zero breakdown only normalizes.
pub proof fn lemma_tokens_sum_commutes(a: TokenBreakdown, b: TokenBreakdown)
    ensures
        tokens_sum(a, b) == tokens_sum(b, a),
        tokens_sum(a, zero_tokens()) == normalized(a),
        is_normalized(tokens_sum(a, b)),
{
}

/// A time range that the statistics are asked for.
#[derive(Debug, Clone, Copy, PartialEq, Eq, Structural)]
pub enum UsageRange {
    Today,
    SevenDays,
    ThirtyDays,
    NinetyDays,
    All,
}

impl Default for UsageRange {
    fn default() -> (range: Self)
        ensures
            range == UsageRange::ThirtyDays,
    {
        UsageRange::ThirtyDays
    }
}

/// A calendar day, counted as in `chrono::NaiveDate::num_days_from_ce`.
#[derive(Debug, Clone, Copy, PartialEq, Eq, Structural)]
pub struct CalendarDay {
    pub days_from_ce: i32,
}

/// How many days before today a range starts; `None` for all time.
pub open spec fn range_days_back(range: UsageRange) -> Option<int> {
    match range {
        UsageRange::Today => Some(0),
        UsageRange::SevenDays => Some(6),
        UsageRange::ThirtyDays => Some(29),
        UsageRange::NinetyDays => Some(89),
        UsageRange::All => None,
    }
}

impl UsageRange {
    /// The first day that belongs to the range, counting today as its last day.
    pub fn cutoff(self, today: CalendarDay) -> (first: Option<CalendarDay>)
        requires
            today.days_from_ce >= i32::MIN + 89,
        ensures
            first == match range_days_back(self) {
                Some(back) => Some(CalendarDay { days_from_ce: (today.days_from_ce - back) as i32 }),
                None => None,
            },
    {
        match self {
            UsageRange::Today => Some(today),
            UsageRange::SevenDays => Some(CalendarDay { days_from_ce: today.days_from_ce - 6 }),
            UsageRange::ThirtyDays => Some(CalendarDay { days_from_ce: today.days_from_ce - 29 }),
            UsageRange::NinetyDays => Some(CalendarDay { days_from_ce: today.days_from_ce - 89 }),
            UsageRange::All => None,
        }
    }
}

/// An instant in UTC: whole seconds since the Unix epoch and the
/// sub-second nanoseconds (a leap second carries nanoseconds of one second or more).
#[derive(Debug, Clone, Copy, PartialEq, Eq, Structural)]
pub struct Timestamp {
    pub seconds: i64,
    pub nanos: u32,
}

/// Instants in time order.
pub open spec fn ts_le(a: Timestamp, b: Timestamp) -> bool {
    a.seconds < b.seconds || (a.seconds == b.seconds && a.nanos <= b.nanos)
}

pub open spec fn ts_min(a: Timestamp, b: Timestamp) -> Timestamp {
    if ts_le(a, b) {
        a
    } else {
        b
    }
}

pub open spec fn ts_max(a: Timestamp, b: Timestamp) -> Timestamp {
    if ts_le(a, b) {
        b
    } else {
        a
    }
}

impl Timestamp {
    pub fn is_at_most(&self, other: &Timestamp) -> (r: bool)
        ensures
            r == ts_le(*self, *other),
    {
        self.seconds < other.seconds || (self.seconds == other.seconds && self.nanos
            <= other.nanos)
    }
}

/// The instant that `text` denotes in RFC 3339 form, when chrono reads it as one.
pub uninterp spec fn rfc3339_instant(text: Seq<char>) -> Option<Timestamp>;

/// `chrono::DateTime::parse_from_rfc3339`, taken to UTC. The instant is named;
/// the contract does not restate the RFC 3339 grammar.
#[verifier::external_body]
pub(crate) fn parse_rfc3339(text: &str) -> (instant: Option<Timestamp>)
    ensures
        instant == rfc3339_instant(text@),
{
    match chrono::DateTime::parse_from_rfc3339(text) {
        Ok(parsed) => {
            let utc = parsed.with_timezone(&chrono::Utc);
            Some(Timestamp { seconds: utc.timestamp(), nanos: utc.timestamp_subsec_nanos() })
        },
        Err(_) => None,
    }
}

/// The whole seconds from `earlier` to `later`, truncated toward zero, as
/// chrono counts them (leap seconds included); nothing when either is not
/// an instant chrono can represent.
pub uninterp spec fn whole_seconds_between(later: Timestamp, earlier: Timestamp) -> Option<i64>;

/// `signed_duration_since(..).num_seconds()` on the two instants. The count is
/// named; the contract does not restate chrono's leap-second arithmetic.
#[verifier::external_body]
pub(crate) fn seconds_between(later: Timestamp, earlier: Timestamp) -> (gap: Option<i64>)
    ensures
        gap == whole_seconds_between(later, earlier),
{
    match (
        chrono::DateTime::from_timestamp(later.seconds, later.nanos),
        chrono::DateTime::from_timestamp(earlier.seconds, earlier.nanos),
    ) {
        (Some(a), Some(b)) => Some(a.signed_duration_since(b).num_seconds()),
        _ => None,
    }
}

/// Totals over a range.
#[derive(Debug, Clone, Default)]
pub struct UsageTotals {
    pub tokens: TokenBreakdown,
    pub requests: i64,
    pub sessions: i64,
    pub active_seconds: i64,
    pub source: Option<DataSource>,
}

impl UsageTotals {
    /// Totals from the summed daily columns: the tokens are normalized and
    /// the source is local exactly when at least one session is counted.
    pub fn from_sums(tokens: TokenBreakdown, requests: i64, sessions: i64, active_seconds: i64) -> (totals: UsageTotals)
        ensures
            totals.tokens == normalized(tokens),
            totals.requests == requests,
            totals.sessions == sessions,
            totals.active_seconds == active_seconds,
            totals.source == (if sessions > 0 { Some(DataSource::Local) } else { None::<DataSource> }),
    {
        UsageTotals {
            tokens: tokens.normalize(),
            requests,
            sessions,
            active_seconds,
            source: if sessions > 0 {
                Some(DataSource::Local)
            } else {
                None
            },
        }
    }
}

/// The token columns of a stored quota snapshot: present exactly when the
/// input column is, missing other columns read as zero, normalized.
pub fn stored_tokens(
    input: Option<i64>,
    output: Option<i64>,
    cached: Option<i64>,
    reasoning: Option<i64>,
    total: Option<i64>,
) -> (tokens: Option<TokenBreakdown>)
    ensures
        tokens == match input {
            Some(i) => Some(
                normalized(
                    TokenBreakdown {
                        input_tokens: i,
                        output_tokens: match output {
                            Some(v) => v,
                            None => 0,
                        },
                        cached_input_tokens: match cached {
                            Some(v) => v,
                            None => 0,
                        },
                        reasoning_tokens: match reasoning {
                            Some(v) => v,
                            None => 0,
                        },
                        total_tokens: match total {
                            Some(v) => v,
                            None => 0,
                        },
                    },
                ),
            ),
            None => None,
        },
{
    match input {
        Some(input_tokens) => Some(
            TokenBreakdown {
                input_tokens,
                output_tokens: match output {
                    Some(v) => v,
                    None => 0,
                },
                cached_input_tokens: match cached {
                    Some(v) => v,
                    None => 0,
                },
                reasoning_tokens: match reasoning {
                    Some(v) => v,
                    None => 0,
                },
                total_tokens: match total {
                    Some(v) => v,
                    None => 0,
                },
            }.normalize(),
        ),
        None => None,
    }
}

/// How a range's input splits between cached and uncached tokens.
#[derive(Debug, Clone, Copy, PartialEq, Eq, Structural)]
pub struct CacheSplit {
    pub input_tokens: i64,
    pub cached_input_tokens: i64,
    pub uncached_input_tokens: i64,
}

/// The cache split of a range's totals: the cached tokens are kept between
/// zero and the input, and the rest of the input is uncached.
pub fn cache_split(tokens: TokenBreakdown) -> (split: CacheSplit)
    ensures
        split.input_tokens == tokens.input_tokens,
        split.cached_input_tokens == (if tokens.cached_input_tokens > tokens.input_tokens {
            if tokens.input_tokens < 0 {
                0
            } else {
                tokens.input_tokens
            }
        } else if tokens.cached_input_tokens < 0 {
            0
        } else {
            tokens.cached_input_tokens
        }),
        split.uncached_input_tokens == sat_add(
            tokens.input_tokens as int,
            -split.cached_input_tokens,
        ),
{
    let input: i64 = tokens.input_tokens;
    let at_most_input: i64 = if tokens.cached_input_tokens > input {
        input
    } else {
        tokens.cached_input_tokens
    };
    let cached: i64 = if at_most_input < 0 {
        0
    } else {
        at_most_input
    };
    let uncached: i64 = saturating_add_i64(input, -cached);
    CacheSplit { input_tokens: input, cached_input_tokens: cached, uncached_input_tokens: uncached }
}

/// Usage of one skill inside one session.
#[derive(Debug, Clone)]
pub struct SessionSkillAggregate {
    pub skill_name: String,
    pub invocations: i64,
    pub tokens: TokenBreakdown,
    pub last_used_at: Option<Timestamp>,
}

/// Everything that the statistics keep of one session.
#[derive(Debug, Clone)]
pub struct SessionAggregate {
    pub session_id: String,
    pub started_at: Option<Timestamp>,
    pub ended_at: Option<Timestamp>,
    pub project_id: Option<String>,
    pub project_name: Option<String>,
    pub project_path: Option<String>,
    pub model: Option<String>,
    pub tokens: TokenBreakdown,
    pub requests: i64,
    pub active_seconds: i64,
    pub skills: Vec<SessionSkillAggregate>,
}

impl SessionAggregate {
    /// An empty aggregate for the given session id.
    pub fn empty(session_id: String) -> (session: SessionAggregate)
        ensures
            session.session_id == session_id,
            session.started_at.is_none(),
            session.ended_at.is_none(),
            session.project_id.is_none(),
            session.project_name.is_none(),
            session.project_path.is_none(),
            session.model.is_none(),
            session.tokens == zero_tokens(),
            session.requests == 0,
            session.active_seconds == 0,
            session.skills@.len() == 0,
    {
        SessionAggregate {
            session_id,
            started_at: None,
            ended_at: None,
            project_id: None,
            project_name: None,
            project_path: None,
            model: None,
            tokens: TokenBreakdown {
                input_tokens: 0,
                output_tokens: 0,
                cached_input_tokens: 0,
                reasoning_tokens: 0,
                total_tokens: 0,
            },
            requests: 0,
            active_seconds: 0,
            skills: Vec::new(),
        }
    }
}


/// Adding breakdowns adds each count: for non-negative counts whose sums fit,
/// the sum's input, output, reasoning and cached input are the sums of the
/// operands' (cached input kept within the summed input), and its total is
/// the summed total, or the summed input plus output when that is larger.
pub proof fn lemma_sum_adds_each_count(a: TokenBreakdown, b: TokenBreakdown)
    requires
        a.input_tokens >= 0 && a.output_tokens >= 0 && a.cached_input_tokens >= 0,
        a.reasoning_tokens >= 0 && a.total_tokens >= 0,
        b.input_tokens >= 0 && b.output_tokens >= 0 && b.cached_input_tokens >= 0,
        b.reasoning_tokens >= 0 && b.total_tokens >= 0,
        a.input_tokens + b.input_tokens + a.output_tokens + b.output_tokens <= i64::MAX,
        a.cached_input_tokens + b.cached_input_tokens <= i64::MAX,
        a.reasoning_tokens + b.reasoning_tokens <= i64::MAX,
        a.total_tokens + b.total_tokens <= i64::MAX,
    ensures
        tokens_sum(a, b).input_tokens == a.input_tokens + b.input_tokens,
        tokens_sum(a, b).output_tokens == a.output_tokens + b.output_tokens,
        tokens_sum(a, b).reasoning_tokens == a.reasoning_tokens + b.reasoning_tokens,
        tokens_sum(a, b).cached_input_tokens == if a.cached_input_tokens + b.cached_input_tokens
            <= a.input_tokens + b.input_tokens {
            a.cached_input_tokens + b.cached_input_tokens
        } else {
            a.input_tokens + b.input_tokens
        },
        tokens_sum(a, b).total_tokens == if a.total_tokens + b.total_tokens >= a.input_tokens
            + b.input_tokens + a.output_tokens + b.output_tokens {
            a.total_tokens + b.total_tokens
        } else {
            a.input_tokens + b.input_tokens + a.output_tokens + b.output_tokens
        },
{
}

} // verus!
