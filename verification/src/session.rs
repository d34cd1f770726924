//! The session parser: reads a Codex session log line by line and keeps
//! only whitelisted metadata, cumulative token snapshots, request counts
//! and skill use. Message text never leaves the line it came in.
use vstd::prelude::*;

use crate::analytics::{
    parse_rfc3339, rfc3339_instant, sat_add, seconds_between, tokens_sum, ts_le, ts_max, ts_min,
    whole_seconds_between, zero_tokens, SessionAggregate, SessionSkillAggregate, Timestamp,
    TokenBreakdown,
};
use crate::json::{get, get_str, json_equal, json_get, json_parse, json_view, string_field, JsonValue, JsonView};
use crate::members::repeats_record_member;
use crate::order::{chars_lt, seq_lt, strictly_sorted};
use crate::record::{
    decode_record, explicit_names, record_view, token_usage_of, tool_names, RecordView,
    SafeRecord,
};
use crate::skills::sanitized_identifier;

verus! {

broadcast use vstd::std_specs::vec::group_vec_axioms;

/// The longest working directory that is kept, in bytes.
pub const MAX_PATH_LENGTH: usize = 32768;

/// The longest gap between two events that still counts as active time, in seconds.
pub const ACTIVE_GAP_CAP_SECONDS: i64 = 300;

/// The project name used when a directory has no usable final component.
pub open spec fn unnamed_project() -> Seq<char> {
    "未命名项目"@
}

/// What identifies a counted request: the kind of line, its instant and
/// the fingerprint of its token counts.
#[derive(Debug, Clone, Copy)]
pub struct RequestKey {
    pub response_item: bool,
    pub timestamp: Option<Timestamp>,
    pub fingerprint: [i64; 5],
}

pub struct RequestKeyView {
    pub kind: Seq<char>,
    pub timestamp: Option<Timestamp>,
    pub fingerprint: Seq<i64>,
}

/// The five counts of a breakdown in the order input, output, cached input,
/// reasoning, total.
pub open spec fn fingerprint_of(t: TokenBreakdown) -> Seq<i64> {
    seq![t.input_tokens, t.output_tokens, t.cached_input_tokens, t.reasoning_tokens, t.total_tokens]
}

pub open spec fn request_kind(response_item: bool) -> Seq<char> {
    if response_item {
        "response_item"@
    } else {
        "event_msg"@
    }
}

pub open spec fn request_view(k: RequestKey) -> RequestKeyView {
    RequestKeyView {
        kind: request_kind(k.response_item),
        timestamp: k.timestamp,
        fingerprint: k.fingerprint@,
    }
}

/// What makes one use of a skill count once.
#[derive(Debug)]
pub enum EvidenceKey {
    /// A skill event: its type, instant and whole payload.
    Event { event_type: String, timestamp: Option<Timestamp>, payload: JsonValue },
    /// A tool call without a call id: its type, instant and the skill.
    Tool { event_type: String, timestamp: Option<Timestamp>, skill: String },
    /// A tool call with a call id: `tool:`, the id, `:` and the skill.
    ToolCall(String),
}

pub enum EvidenceView {
    Event(Seq<char>, Option<Timestamp>, JsonView),
    Tool(Seq<char>, Option<Timestamp>, Seq<char>),
    ToolCall(Seq<char>),
}

pub open spec fn evidence_view(k: EvidenceKey) -> EvidenceView {
    match k {
        EvidenceKey::Event { event_type, timestamp, payload } => EvidenceView::Event(
            event_type@,
            timestamp,
            json_view(payload),
        ),
        EvidenceKey::Tool { event_type, timestamp, skill } => EvidenceView::Tool(
            event_type@,
            timestamp,
            skill@,
        ),
        EvidenceKey::ToolCall(text) => EvidenceView::ToolCall(text@),
    }
}

/// A session's fields other than its skills.
pub struct SessionView {
    pub session_id: Seq<char>,
    pub started_at: Option<Timestamp>,
    pub ended_at: Option<Timestamp>,
    pub project_id: Option<Seq<char>>,
    pub project_name: Option<Seq<char>>,
    pub project_path: Option<Seq<char>>,
    pub model: Option<Seq<char>>,
    pub tokens: TokenBreakdown,
    pub requests: i64,
    pub active_seconds: i64,
}

pub open spec fn opt_text(t: Option<String>) -> Option<Seq<char>> {
    match t {
        Some(s) => Some(s@),
        None => None,
    }
}

pub open spec fn session_view(a: SessionAggregate) -> SessionView {
    SessionView {
        session_id: a.session_id@,
        started_at: a.started_at,
        ended_at: a.ended_at,
        project_id: opt_text(a.project_id),
        project_name: opt_text(a.project_name),
        project_path: opt_text(a.project_path),
        model: opt_text(a.model),
        tokens: a.tokens,
        requests: a.requests,
        active_seconds: a.active_seconds,
    }
}

/// One skill's use within a session.
pub struct SkillView {
    pub invocations: i64,
    pub tokens: TokenBreakdown,
    pub last_used_at: Option<Timestamp>,
}

pub open spec fn skill_view(a: SessionSkillAggregate) -> SkillView {
    SkillView { invocations: a.invocations, tokens: a.tokens, last_used_at: a.last_used_at }
}

/// The names of a list of skills, in order.
pub open spec fn skill_names(s: Seq<SessionSkillAggregate>) -> Seq<Seq<char>> {
    Seq::new(s.len(), |i: int| s[i].skill_name@)
}

/// Where the skill `n` stands in a list of skills.
pub open spec fn skill_index(s: Seq<SessionSkillAggregate>, n: Seq<char>) -> int {
    choose|i: int| 0 <= i < s.len() && s[i].skill_name@ == n
}

/// A list of skills by name.
pub open spec fn skills_map(s: Seq<SessionSkillAggregate>) -> Map<Seq<char>, SkillView> {
    Map::new(
        |n: Seq<char>| exists|i: int| 0 <= i < s.len() && s[i].skill_name@ == n,
        |n: Seq<char>| skill_view(s[skill_index(s, n)]),
    )
}

/// Everything the parser has gathered.
pub struct ParserView {
    pub session: SessionView,
    pub last_event_at: Option<Timestamp>,
    pub skills: Map<Seq<char>, SkillView>,
    pub requests_seen: Set<RequestKeyView>,
    pub evidence: Set<EvidenceView>,
    pub windows_paths: bool,
}

/// The state of a new parser.
pub open spec fn initial_view(session_id: Seq<char>, windows_paths: bool) -> ParserView {
    ParserView {
        session: SessionView {
            session_id,
            started_at: None,
            ended_at: None,
            project_id: None,
            project_name: None,
            project_path: None,
            model: None,
            tokens: zero_tokens(),
            requests: 0,
            active_seconds: 0,
        },
        last_event_at: None,
        skills: Map::empty(),
        requests_seen: Set::empty(),
        evidence: Set::empty(),
        windows_paths,
    }
}

/// An event at `t`: the session spans it, and the gap since the previous
/// event, when positive, counts as active time up to five minutes.
pub open spec fn observe_spec(s: ParserView, t: Timestamp) -> ParserView {
    let started = match s.session.started_at {
        Some(c) => ts_min(c, t),
        None => t,
    };
    let ended = match s.session.ended_at {
        Some(c) => ts_max(c, t),
        None => t,
    };
    let active = match s.last_event_at {
        Some(previous) => if previous == t {
            s.session.active_seconds
        } else {
            match whole_seconds_between(t, previous) {
            Some(gap) => if gap > 0 {
                sat_add(
                    s.session.active_seconds as int,
                    if gap < 300 {
                        gap as int
                    } else {
                        300
                    },
                ) as i64
            } else {
                s.session.active_seconds
            },
            None => s.session.active_seconds,
        }
        },
        None => s.session.active_seconds,
    };
    ParserView {
        session: SessionView {
            started_at: Some(started),
            ended_at: Some(ended),
            active_seconds: active,
            ..s.session
        },
        last_event_at: Some(t),
        ..s
    }
}

/// The name of the project in `cwd`: its sanitized final component, or the
/// name for unnamed projects.
pub open spec fn project_name_of(cwd: Seq<char>, windows: bool) -> Seq<char> {
    match crate::paths::final_component(cwd, windows) {
        Some(n) => match sanitized_identifier(n) {
            Some(name) => name,
            None => unnamed_project(),
        },
        None => unnamed_project(),
    }
}

/// A working directory: kept when it is not empty and not longer than
/// 32768 bytes, with the digest that identifies the project and its name.
pub open spec fn set_project_spec(s: ParserView, cwd: Option<Seq<char>>) -> ParserView {
    match cwd {
        Some(c) => if c.len() == 0 || crate::text::byte_len(c) > 32768 {
            s
        } else {
            ParserView {
                session: SessionView {
                    project_id: Some(
                        crate::digest::sha256_hex(crate::paths::project_key(c, s.windows_paths)),
                    ),
                    project_path: Some(c),
                    project_name: Some(project_name_of(c, s.windows_paths)),
                    ..s.session
                },
                ..s
            }
        },
        None => s,
    }
}

/// The `model` member, kept when it sanitizes to an identifier.
pub open spec fn model_spec(s: ParserView, payload: JsonView) -> ParserView {
    match string_field(payload, "model"@) {
        Some(m) => match sanitized_identifier(m) {
            Some(model) => ParserView {
                session: SessionView { model: Some(model), ..s.session },
                ..s
            },
            None => s,
        },
        None => s,
    }
}

/// Session metadata: the session id (`id`, else `session_id`), the working
/// directory and the model.
pub open spec fn session_meta_spec(s: ParserView, payload: JsonView) -> ParserView {
    let id = match string_field(payload, "id"@) {
        Some(x) => Some(x),
        None => string_field(payload, "session_id"@),
    };
    let s1 = match id {
        Some(x) => match sanitized_identifier(x) {
            Some(v) => ParserView { session: SessionView { session_id: v, ..s.session }, ..s },
            None => s,
        },
        None => s,
    };
    model_spec(set_project_spec(s1, string_field(payload, "cwd"@)), payload)
}

/// Turn context: the working directory and the model.
pub open spec fn turn_context_spec(s: ParserView, payload: JsonView) -> ParserView {
    model_spec(set_project_spec(s, string_field(payload, "cwd"@)), payload)
}

/// The usage that a skill or tool event carries: its `token_usage`, else
/// `info.last_token_usage`; zero when there is none or it is invalid.
pub open spec fn event_tokens(payload: JsonView) -> TokenBreakdown {
    let usage = match json_get(payload, "token_usage"@) {
        Some(u) => Some(u),
        None => match json_get(payload, "info"@) {
            Some(info) => json_get(info, "last_token_usage"@),
            None => None,
        },
    };
    match usage {
        Some(u) => match token_usage_of(u) {
            Some(t) => t,
            None => zero_tokens(),
        },
        None => zero_tokens(),
    }
}

/// One more use of `name`, unless the evidence `key` was already counted.
/// Its usage is added to the skill and never to the session.
pub open spec fn record_skill_spec(
    s: ParserView,
    name: Seq<char>,
    tokens: TokenBreakdown,
    key: EvidenceView,
    ts: Option<Timestamp>,
) -> ParserView {
    if s.evidence.contains(key) {
        s
    } else {
        let before = if s.skills.contains_key(name) {
            s.skills[name]
        } else {
            SkillView { invocations: 0, tokens: zero_tokens(), last_used_at: None }
        };
        let after = SkillView {
            invocations: sat_add(before.invocations as int, 1) as i64,
            tokens: tokens_sum(before.tokens, tokens),
            last_used_at: if ts.is_some() {
                ts
            } else {
                before.last_used_at
            },
        };
        ParserView { skills: s.skills.insert(name, after), evidence: s.evidence.insert(key), ..s }
    }
}

/// A token count event. `total_token_usage` (else `token_usage`) is a
/// cumulative snapshot: it replaces the session's usage when its total is
/// not smaller. `last_token_usage` counts one request, once per line kind,
/// instant and counts.
pub open spec fn token_count_spec(
    s: ParserView,
    kind: Seq<char>,
    payload: JsonView,
    ts: Option<Timestamp>,
) -> ParserView {
    match json_get(payload, "info"@) {
        None => s,
        Some(info) => {
            let cumulative = match json_get(info, "total_token_usage"@) {
                Some(u) => token_usage_of(u),
                None => match json_get(info, "token_usage"@) {
                    Some(u) => token_usage_of(u),
                    None => None,
                },
            };
            let s1 = match cumulative {
                Some(t) => if t.total_tokens >= s.session.tokens.total_tokens {
                    ParserView { session: SessionView { tokens: t, ..s.session }, ..s }
                } else {
                    s
                },
                None => s,
            };
            let last = match json_get(info, "last_token_usage"@) {
                Some(u) => token_usage_of(u),
                None => None,
            };
            match last {
                Some(t) => {
                    let key = RequestKeyView { kind, timestamp: ts, fingerprint: fingerprint_of(t) };
                    if s1.requests_seen.contains(key) {
                        s1
                    } else {
                        ParserView {
                            session: SessionView {
                                requests: sat_add(s1.session.requests as int, 1) as i64,
                                ..s1.session
                            },
                            requests_seen: s1.requests_seen.insert(key),
                            ..s1
                        }
                    }
                },
                None => s1,
            }
        },
    }
}

/// A skill event: its first explicitly named skill is used once per
/// type, instant and payload.
pub open spec fn skill_event_spec(
    s: ParserView,
    event_type: Seq<char>,
    payload: JsonView,
    ts: Option<Timestamp>,
) -> ParserView {
    let names = explicit_names(payload);
    if names.len() > 0 {
        record_skill_spec(
            s,
            names[0],
            event_tokens(payload),
            EvidenceView::Event(event_type, ts, payload),
            ts,
        )
    } else {
        s
    }
}

/// The id of a tool call: `call_id`, else `id`, else empty.
pub open spec fn call_id_of(payload: JsonView) -> Seq<char> {
    match string_field(payload, "call_id"@) {
        Some(c) => c,
        None => match string_field(payload, "id"@) {
            Some(c) => c,
            None => Seq::empty(),
        },
    }
}

/// The evidence of a tool call for one skill.
pub open spec fn tool_key(
    call_id: Seq<char>,
    event_type: Seq<char>,
    ts: Option<Timestamp>,
    name: Seq<char>,
) -> EvidenceView {
    if call_id.len() == 0 {
        EvidenceView::Tool(event_type, ts, name)
    } else {
        EvidenceView::ToolCall("tool:"@ + call_id + ":"@ + name)
    }
}

/// The first `k` of `names` recorded in order.
pub open spec fn record_tools_spec(
    s: ParserView,
    names: Seq<Seq<char>>,
    k: int,
    call_id: Seq<char>,
    event_type: Seq<char>,
    tokens: TokenBreakdown,
    ts: Option<Timestamp>,
) -> ParserView
    decreases k,
{
    if k <= 0 || k > names.len() {
        s
    } else {
        record_skill_spec(
            record_tools_spec(s, names, k - 1, call_id, event_type, tokens, ts),
            names[k - 1],
            tokens,
            tool_key(call_id, event_type, ts, names[k - 1]),
            ts,
        )
    }
}

/// A tool call: every skill it names is used once per call id (or, without
/// an id, per type and instant).
pub open spec fn tool_call_spec(
    s: ParserView,
    event_type: Seq<char>,
    payload: JsonView,
    ts: Option<Timestamp>,
) -> ParserView {
    let names = tool_names(payload);
    record_tools_spec(
        s,
        names,
        names.len() as int,
        call_id_of(payload),
        event_type,
        event_tokens(payload),
        ts,
    )
}

pub open spec fn is_tool_event(t: Seq<char>) -> bool {
    t == "custom_tool_call"@ || t == "function_call"@ || t == "custom_tool_call_output"@ || t
        == "function_call_output"@
}

/// An `event_msg` or `response_item` line.
pub open spec fn safe_event_spec(
    s: ParserView,
    kind: Seq<char>,
    payload: JsonView,
    ts: Option<Timestamp>,
) -> ParserView {
    match string_field(payload, "type"@) {
        Some(t) => if t == "token_count"@ {
            token_count_spec(s, kind, payload, ts)
        } else if t == "skill_invocation"@ || t == "skill_call"@ {
            skill_event_spec(s, t, payload, ts)
        } else if kind == "response_item"@ && is_tool_event(t) {
            tool_call_spec(s, t, payload, ts)
        } else {
            s
        },
        None => s,
    }
}

/// The instant of a line: its own timestamp, else its payload's.
pub open spec fn record_instant(r: RecordView) -> Option<Timestamp> {
    let own = match r.timestamp {
        Some(t) => rfc3339_instant(t),
        None => None,
    };
    match own {
        Some(x) => Some(x),
        None => match string_field(r.payload, "timestamp"@) {
            Some(t) => rfc3339_instant(t),
            None => None,
        },
    }
}

/// The instant of a line, when it has one, observed.
pub open spec fn after_instant(s: ParserView, ts: Option<Timestamp>) -> ParserView {
    match ts {
        Some(t) => observe_spec(s, t),
        None => s,
    }
}

/// What a line does by its kind: metadata, turn context or a safe event.
pub open spec fn dispatch_spec(s: ParserView, r: RecordView, ts: Option<Timestamp>) -> ParserView {
    if r.kind == "session_meta"@ {
        session_meta_spec(s, r.payload)
    } else if r.kind == "turn_context"@ {
        turn_context_spec(s, r.payload)
    } else if r.kind == "event_msg"@ || r.kind == "response_item"@ {
        safe_event_spec(s, r.kind, r.payload, ts)
    } else {
        s
    }
}

/// What one valid line does to the parser.
pub open spec fn record_spec(s: ParserView, r: RecordView) -> ParserView {
    dispatch_spec(after_instant(s, record_instant(r)), r, record_instant(r))
}

/// The log line in `line`, when it is one: valid JSON whose top-level object
/// names none of `type`, `timestamp` and `payload` twice, holding a record.
pub open spec fn line_record(line: Seq<u8>) -> Option<RecordView> {
    match json_parse(line) {
        Some(v) => if repeats_record_member(line) {
            None
        } else {
            decode_record(v)
        },
        None => None,
    }
}

/// What a line does to the parser: a line that is not a valid record leaves it unchanged.
pub open spec fn ingest_spec(s: ParserView, line: Seq<u8>) -> ParserView {
    match line_record(line) {
        Some(r) => record_spec(s, r),
        None => s,
    }
}

/// Recording a skill changes only the skills and the evidence; the evidence
/// afterwards holds the key.
proof fn lemma_record_skill_frame(
    s: ParserView,
    name: Seq<char>,
    tokens: TokenBreakdown,
    key: EvidenceView,
    ts: Option<Timestamp>,
)
    ensures
        record_skill_spec(s, name, tokens, key, ts).session == s.session,
        record_skill_spec(s, name, tokens, key, ts).last_event_at == s.last_event_at,
        record_skill_spec(s, name, tokens, key, ts).requests_seen == s.requests_seen,
        record_skill_spec(s, name, tokens, key, ts).windows_paths == s.windows_paths,
        record_skill_spec(s, name, tokens, key, ts).evidence.contains(key),
        s.evidence.subset_of(record_skill_spec(s, name, tokens, key, ts).evidence),
{
}

proof fn lemma_record_tools_frame(
    s: ParserView,
    names: Seq<Seq<char>>,
    k: int,
    call_id: Seq<char>,
    event_type: Seq<char>,
    tokens: TokenBreakdown,
    ts: Option<Timestamp>,
)
    requires
        0 <= k <= names.len(),
    ensures
        record_tools_spec(s, names, k, call_id, event_type, tokens, ts).session == s.session,
        record_tools_spec(s, names, k, call_id, event_type, tokens, ts).last_event_at
            == s.last_event_at,
        record_tools_spec(s, names, k, call_id, event_type, tokens, ts).requests_seen
            == s.requests_seen,
        record_tools_spec(s, names, k, call_id, event_type, tokens, ts).windows_paths
            == s.windows_paths,
        s.evidence.subset_of(
            record_tools_spec(s, names, k, call_id, event_type, tokens, ts).evidence,
        ),
        forall|i: int|
            0 <= i < k ==> record_tools_spec(
                s,
                names,
                k,
                call_id,
                event_type,
                tokens,
                ts,
            ).evidence.contains(#[trigger] tool_key(call_id, event_type, ts, names[i])),
    decreases k,
{
    if k > 0 {
        lemma_record_tools_frame(s, names, k - 1, call_id, event_type, tokens, ts);
        let before = record_tools_spec(s, names, k - 1, call_id, event_type, tokens, ts);
        lemma_record_skill_frame(
            before,
            names[k - 1],
            tokens,
            tool_key(call_id, event_type, ts, names[k - 1]),
            ts,
        );
    }
}

proof fn lemma_record_tools_known(
    s: ParserView,
    names: Seq<Seq<char>>,
    k: int,
    call_id: Seq<char>,
    event_type: Seq<char>,
    tokens: TokenBreakdown,
    ts: Option<Timestamp>,
)
    requires
        0 <= k <= names.len(),
        forall|i: int|
            0 <= i < k ==> s.evidence.contains(
                #[trigger] tool_key(call_id, event_type, ts, names[i]),
            ),
    ensures
        record_tools_spec(s, names, k, call_id, event_type, tokens, ts) == s,
    decreases k,
{
    if k > 0 {
        lemma_record_tools_known(s, names, k - 1, call_id, event_type, tokens, ts);
        assert(s.evidence.contains(tool_key(call_id, event_type, ts, names[k - 1])));
    }
}

/// The fields that only the instants of lines change.
pub open spec fn same_clock(a: ParserView, b: ParserView) -> bool {
    &&& a.session.started_at == b.session.started_at
    &&& a.session.ended_at == b.session.ended_at
    &&& a.session.active_seconds == b.session.active_seconds
    &&& a.last_event_at == b.last_event_at
    &&& a.windows_paths == b.windows_paths
}

proof fn lemma_dispatch_frame(s: ParserView, r: RecordView, ts: Option<Timestamp>)
    ensures
        same_clock(dispatch_spec(s, r, ts), s),
{
    if r.kind != "session_meta"@ && r.kind != "turn_context"@ && (r.kind == "event_msg"@
        || r.kind == "response_item"@) {
        match string_field(r.payload, "type"@) {
            Some(t) => {
                if t != "token_count"@ && !(t == "skill_invocation"@ || t == "skill_call"@) && r.kind
                    == "response_item"@ && is_tool_event(t) {
                    let names = tool_names(r.payload);
                    lemma_record_tools_frame(
                        s,
                        names,
                        names.len() as int,
                        call_id_of(r.payload),
                        t,
                        event_tokens(r.payload),
                        ts,
                    );
                }
            },
            None => {},
        }
    }
}

proof fn lemma_dispatch_twice(s: ParserView, r: RecordView, ts: Option<Timestamp>)
    ensures
        dispatch_spec(dispatch_spec(s, r, ts), r, ts) == dispatch_spec(s, r, ts),
{
    if r.kind != "session_meta"@ && r.kind != "turn_context"@ && (r.kind == "event_msg"@
        || r.kind == "response_item"@) {
        match string_field(r.payload, "type"@) {
            Some(t) => {
                if t == "token_count"@ {
                } else if t == "skill_invocation"@ || t == "skill_call"@ {
                    let names = explicit_names(r.payload);
                    if names.len() > 0 {
                        lemma_record_skill_frame(
                            s,
                            names[0],
                            event_tokens(r.payload),
                            EvidenceView::Event(t, ts, r.payload),
                            ts,
                        );
                    }
                } else if r.kind == "response_item"@ && is_tool_event(t) {
                    let names = tool_names(r.payload);
                    let n = names.len() as int;
                    let id = call_id_of(r.payload);
                    let tokens = event_tokens(r.payload);
                    lemma_record_tools_frame(s, names, n, id, t, tokens, ts);
                    let once = record_tools_spec(s, names, n, id, t, tokens, ts);
                    lemma_record_tools_known(once, names, n, id, t, tokens, ts);
                }
            },
            None => {},
        }
    }
}

proof fn lemma_observe_again(s: ParserView, t: Timestamp)
    requires
        s.last_event_at == Some(t),
        s.session.started_at matches Some(c) && ts_le(c, t),
        s.session.ended_at matches Some(e) && ts_le(t, e),
    ensures
        observe_spec(s, t) == s,
{
    let c = s.session.started_at->0;
    let e = s.session.ended_at->0;
    assert(ts_min(c, t) == c);
    if ts_le(e, t) {
        assert(e == t);
    }
    assert(ts_max(e, t) == e);
}

/// Reading the same line twice in a row changes nothing the second time:
/// a replayed line adds no request, no skill use, no active time and no tokens.
pub proof fn lemma_replayed_line_changes_nothing(s: ParserView, line: Seq<u8>)
    ensures
        ingest_spec(ingest_spec(s, line), line) == ingest_spec(s, line),
{
    match line_record(line) {
        Some(r) => {
            let ts = record_instant(r);
            let s1 = after_instant(s, ts);
            let once = dispatch_spec(s1, r, ts);
            lemma_dispatch_frame(s1, r, ts);
            match ts {
                Some(t) => {
                    let c = match s.session.started_at {
                        Some(c) => c,
                        None => t,
                    };
                    let e = match s.session.ended_at {
                        Some(e) => e,
                        None => t,
                    };
                    assert(ts_le(ts_min(c, t), t));
                    assert(ts_le(t, ts_max(e, t)));
                    lemma_observe_again(once, t);
                },
                None => {},
            }
            assert(after_instant(once, ts) == once);
            lemma_dispatch_twice(s1, r, ts);
        },
        None => {},
    }
}

/// The session's time span: both ends known or both unknown, the start no
/// later than the end.
pub open spec fn span_ordered(s: ParserView) -> bool {
    match (s.session.started_at, s.session.ended_at) {
        (Some(a), Some(b)) => ts_le(a, b),
        (None, None) => true,
        _ => false,
    }
}

/// Every line keeps the session's span ordered, and an instant it carries
/// lies within the span afterwards; active time never goes down.
pub proof fn lemma_span_stays_ordered(s: ParserView, line: Seq<u8>)
    requires
        span_ordered(s),
    ensures
        span_ordered(ingest_spec(s, line)),
        ingest_spec(s, line).session.active_seconds >= s.session.active_seconds,
        match line_record(line) {
            Some(r) => match record_instant(r) {
                Some(t) => ts_le(ingest_spec(s, line).session.started_at->0, t) && ts_le(
                    t,
                    ingest_spec(s, line).session.ended_at->0,
                ),
                None => true,
            },
            None => true,
        },
{
    match line_record(line) {
        Some(r) => {
            let ts = record_instant(r);
            let s1 = after_instant(s, ts);
            lemma_dispatch_frame(s1, r, ts);
        },
        None => {},
    }
}

/// The session's token usage never goes down: a line either keeps it or
/// replaces it by a cumulative snapshot whose total is not smaller.
pub proof fn lemma_session_total_never_decreases(s: ParserView, line: Seq<u8>)
    ensures
        ingest_spec(s, line).session.tokens.total_tokens >= s.session.tokens.total_tokens,
        ingest_spec(s, line).session.tokens == s.session.tokens || (
        ingest_spec(s, line).session.tokens.total_tokens >= s.session.tokens.total_tokens
            && exists|u: JsonView| token_usage_of(u) == Some(ingest_spec(s, line).session.tokens)),
{
    match line_record(line) {
        Some(r) => {
            let ts = record_instant(r);
            let s1 = after_instant(s, ts);
            assert(s1.session.tokens == s.session.tokens);
            lemma_dispatch_tokens(s1, r, ts);
        },
        None => {},
    }
}

proof fn lemma_dispatch_tokens(s: ParserView, r: RecordView, ts: Option<Timestamp>)
    ensures
        dispatch_spec(s, r, ts).session.tokens == s.session.tokens || (
        dispatch_spec(s, r, ts).session.tokens.total_tokens >= s.session.tokens.total_tokens
            && exists|u: JsonView| token_usage_of(u) == Some(dispatch_spec(s, r, ts).session.tokens)),
        dispatch_spec(s, r, ts).session.tokens.total_tokens >= s.session.tokens.total_tokens,
{
    if r.kind != "session_meta"@ && r.kind != "turn_context"@ && (r.kind == "event_msg"@
        || r.kind == "response_item"@) {
        match string_field(r.payload, "type"@) {
            Some(t) => {
                if t == "token_count"@ {
                    match json_get(r.payload, "info"@) {
                        Some(info) => {
                            match json_get(info, "total_token_usage"@) {
                                Some(u) => {
                                    if token_usage_of(u).is_some() {
                                        assert(exists|v: JsonView| token_usage_of(v) == token_usage_of(u));
                                    }
                                },
                                None => match json_get(info, "token_usage"@) {
                                    Some(u) => {
                                        if token_usage_of(u).is_some() {
                                            assert(exists|v: JsonView| token_usage_of(v) == token_usage_of(u));
                                        }
                                    },
                                    None => {},
                                },
                            }
                        },
                        None => {},
                    }
                } else if t == "skill_invocation"@ || t == "skill_call"@ {
                    let names = explicit_names(r.payload);
                    if names.len() > 0 {
                        lemma_record_skill_frame(
                            s,
                            names[0],
                            event_tokens(r.payload),
                            EvidenceView::Event(t, ts, r.payload),
                            ts,
                        );
                    }
                } else if r.kind == "response_item"@ && is_tool_event(t) {
                    let names = tool_names(r.payload);
                    lemma_record_tools_frame(
                        s,
                        names,
                        names.len() as int,
                        call_id_of(r.payload),
                        t,
                        event_tokens(r.payload),
                        ts,
                    );
                }
            },
            None => {},
        }
    }
}

/// The cumulative token snapshot that a line carries, if any: a valid
/// `event_msg` or `response_item` line of type `token_count` whose `info`
/// holds a valid `total_token_usage` (else `token_usage`).
pub open spec fn line_snapshot(line: Seq<u8>) -> Option<TokenBreakdown> {
    match line_record(line) {
        Some(r) => if (r.kind == "event_msg"@ || r.kind == "response_item"@) && string_field(
            r.payload,
            "type"@,
        ) == Some("token_count"@) {
            match json_get(r.payload, "info"@) {
                Some(info) => match json_get(info, "total_token_usage"@) {
                    Some(u) => token_usage_of(u),
                    None => match json_get(info, "token_usage"@) {
                        Some(u) => token_usage_of(u),
                        None => None,
                    },
                },
                None => None,
            }
        } else {
            None
        },
        None => None,
    }
}

/// The request that a line counts, if any: a valid `event_msg` or
/// `response_item` line of type `token_count` whose `info` holds a valid
/// `last_token_usage`, keyed by the line's kind, instant and counts.
pub open spec fn line_request_key(line: Seq<u8>) -> Option<RequestKeyView> {
    match line_record(line) {
        Some(r) => if (r.kind == "event_msg"@ || r.kind == "response_item"@) && string_field(
            r.payload,
            "type"@,
        ) == Some("token_count"@) {
            match json_get(r.payload, "info"@) {
                Some(info) => match json_get(info, "last_token_usage"@) {
                    Some(u) => match token_usage_of(u) {
                        Some(t) => Some(
                            RequestKeyView {
                                kind: r.kind,
                                timestamp: record_instant(r),
                                fingerprint: fingerprint_of(t),
                            },
                        ),
                        None => None,
                    },
                    None => None,
                },
                None => None,
            }
        } else {
            None
        },
        None => None,
    }
}

/// The distinct requests counted by `lines`.
pub open spec fn line_request_keys(lines: Seq<Seq<u8>>) -> Set<RequestKeyView>
    decreases lines.len(),
{
    if lines.len() == 0 {
        Set::empty()
    } else {
        match line_request_key(lines.last()) {
            Some(k) => line_request_keys(lines.drop_last()).insert(k),
            None => line_request_keys(lines.drop_last()),
        }
    }
}

/// The snapshots carried by `lines`, in order.
pub open spec fn line_snapshots(lines: Seq<Seq<u8>>) -> Seq<TokenBreakdown>
    decreases lines.len(),
{
    if lines.len() == 0 {
        Seq::empty()
    } else {
        match line_snapshot(lines.last()) {
            Some(t) => line_snapshots(lines.drop_last()).push(t),
            None => line_snapshots(lines.drop_last()),
        }
    }
}

/// The parser after reading `lines` in order.
pub open spec fn ingest_all(s: ParserView, lines: Seq<Seq<u8>>) -> ParserView
    decreases lines.len(),
{
    if lines.len() == 0 {
        s
    } else {
        ingest_spec(ingest_all(s, lines.drop_last()), lines.last())
    }
}

proof fn lemma_line_tokens(s: ParserView, line: Seq<u8>)
    ensures
        ingest_spec(s, line).session.tokens == match line_snapshot(line) {
            Some(t) => if t.total_tokens >= s.session.tokens.total_tokens {
                t
            } else {
                s.session.tokens
            },
            None => s.session.tokens,
        },
        ingest_spec(s, line).requests_seen == match line_request_key(line) {
            Some(k) => s.requests_seen.insert(k),
            None => s.requests_seen,
        },
        requests_counted(s) ==> requests_counted(ingest_spec(s, line)),
{
    reveal_strlit("event_msg");
    reveal_strlit("response_item");
    reveal_strlit("session_meta");
    reveal_strlit("turn_context");
    match line_record(line) {
        Some(r) => {
            let ts = record_instant(r);
            let s1 = after_instant(s, ts);
            assert(s1.session.tokens == s.session.tokens);
            if r.kind != "session_meta"@ && r.kind != "turn_context"@ && (r.kind == "event_msg"@
                || r.kind == "response_item"@) {
                match string_field(r.payload, "type"@) {
                    Some(t) => {
                        if t == "token_count"@ {
                            assert(dispatch_spec(s1, r, ts) == token_count_spec(s1, r.kind, r.payload, ts));
                            assert(line_snapshot(line) == match json_get(r.payload, "info"@) {
                                Some(info) => match json_get(info, "total_token_usage"@) {
                                    Some(u) => token_usage_of(u),
                                    None => match json_get(info, "token_usage"@) {
                                        Some(u) => token_usage_of(u),
                                        None => None,
                                    },
                                },
                                None => None,
                            });
                        } else {
                            assert(line_snapshot(line).is_none());
                        }
                        if t != "token_count"@ && (t == "skill_invocation"@ || t == "skill_call"@) {
                            let names = explicit_names(r.payload);
                            if names.len() > 0 {
                                lemma_record_skill_frame(
                                    s1,
                                    names[0],
                                    event_tokens(r.payload),
                                    EvidenceView::Event(t, ts, r.payload),
                                    ts,
                                );
                            }
                        } else if t != "token_count"@ && r.kind == "response_item"@ && is_tool_event(t) {
                            let names = tool_names(r.payload);
                            lemma_record_tools_frame(
                                s1,
                                names,
                                names.len() as int,
                                call_id_of(r.payload),
                                t,
                                event_tokens(r.payload),
                                ts,
                            );
                        }
                    },
                    None => {
                        assert(line_snapshot(line).is_none());
                    },
                }
            } else {
                assert("session_meta"@.len() == 12 && "turn_context"@.len() == 12);
                assert("event_msg"@.len() == 9 && "response_item"@.len() == 13);
                assert(line_snapshot(line).is_none());
            }
        },
        None => {},
    }
}

proof fn lemma_usage_total_nonnegative(u: JsonView)
    ensures
        token_usage_of(u) matches Some(t) ==> t.total_tokens >= 0,
{
}

/// A session's tokens are never a sum of snapshots: after any lines read by
/// a fresh parser they are zero when no line carried a cumulative snapshot,
/// else the last of the snapshots with the greatest total.
pub proof fn lemma_tokens_are_last_greatest_snapshot(s: ParserView, lines: Seq<Seq<u8>>)
    requires
        s.session.tokens == zero_tokens(),
    ensures
        line_snapshots(lines).len() == 0 ==> ingest_all(s, lines).session.tokens == zero_tokens(),
        line_snapshots(lines).len() > 0 ==> exists|j: int|
            0 <= j < line_snapshots(lines).len() && ingest_all(s, lines).session.tokens
                == line_snapshots(lines)[j] && (forall|i: int|
                0 <= i < line_snapshots(lines).len() ==> line_snapshots(lines)[i].total_tokens
                    <= line_snapshots(lines)[j].total_tokens) && (forall|i: int|
                j < i < line_snapshots(lines).len() ==> line_snapshots(lines)[i].total_tokens
                    < line_snapshots(lines)[j].total_tokens),
    decreases lines.len(),
{
    if lines.len() > 0 {
        let before = lines.drop_last();
        let line = lines.last();
        lemma_tokens_are_last_greatest_snapshot(s, before);
        let prev = ingest_all(s, before);
        lemma_line_tokens(prev, line);
        let sn0 = line_snapshots(before);
        let sn = line_snapshots(lines);
        match line_snapshot(line) {
            Some(t) => {
                assert(sn == sn0.push(t));
                match line_record(line) {
                    Some(r) => match json_get(r.payload, "info"@) {
                        Some(info) => match json_get(info, "total_token_usage"@) {
                            Some(v) => lemma_usage_total_nonnegative(v),
                            None => match json_get(info, "token_usage"@) {
                                Some(v) => lemma_usage_total_nonnegative(v),
                                None => {},
                            },
                        },
                        None => {},
                    },
                    None => {},
                }
                assert(t.total_tokens >= 0);
                if sn0.len() == 0 {
                    assert(sn[0] == t);
                } else {
                    let j0 = choose|j: int|
                        0 <= j < sn0.len() && prev.session.tokens == sn0[j] && (forall|i: int|
                            0 <= i < sn0.len() ==> sn0[i].total_tokens <= sn0[j].total_tokens)
                            && (forall|i: int|
                            j < i < sn0.len() ==> sn0[i].total_tokens < sn0[j].total_tokens);
                    if t.total_tokens >= prev.session.tokens.total_tokens {
                        let j = sn0.len() as int;
                        assert(sn[j] == t);
                        assert forall|i: int| 0 <= i < sn.len() implies sn[i].total_tokens
                            <= sn[j].total_tokens by {
                            if i < sn0.len() {
                                assert(sn[i] == sn0[i]);
                            }
                        }
                    } else {
                        assert(sn[j0] == sn0[j0]);
                        assert forall|i: int| 0 <= i < sn.len() implies sn[i].total_tokens
                            <= sn[j0].total_tokens by {
                            if i < sn0.len() {
                                assert(sn[i] == sn0[i]);
                            }
                        }
                        assert forall|i: int| j0 < i < sn.len() implies sn[i].total_tokens
                            < sn[j0].total_tokens by {
                            if i < sn0.len() {
                                assert(sn[i] == sn0[i]);
                            }
                        }
                    }
                }
            },
            None => {
                assert(sn == sn0);
            },
        }
    }
}

/// After any lines read by a new parser, the requests seen are exactly the
/// distinct request keys of the token count lines, and the request count is
/// their number (kept at `i64::MAX`); the tokens are zero without a
/// cumulative snapshot, else the last of the snapshots with the greatest total.
pub proof fn lemma_lines_read_by_new_parser(
    session_id: Seq<char>,
    windows_paths: bool,
    lines: Seq<Seq<u8>>,
)
    ensures
        ingest_all(initial_view(session_id, windows_paths), lines).requests_seen
            == line_request_keys(lines),
        requests_counted(ingest_all(initial_view(session_id, windows_paths), lines)),
        line_snapshots(lines).len() == 0 ==> ingest_all(
            initial_view(session_id, windows_paths),
            lines,
        ).session.tokens == zero_tokens(),
        line_snapshots(lines).len() > 0 ==> exists|j: int|
            0 <= j < line_snapshots(lines).len() && ingest_all(
                initial_view(session_id, windows_paths),
                lines,
            ).session.tokens == line_snapshots(lines)[j] && (forall|i: int|
                0 <= i < line_snapshots(lines).len() ==> line_snapshots(lines)[i].total_tokens
                    <= line_snapshots(lines)[j].total_tokens) && (forall|i: int|
                j < i < line_snapshots(lines).len() ==> line_snapshots(lines)[i].total_tokens
                    < line_snapshots(lines)[j].total_tokens),
    decreases lines.len(),
{
    let s0 = initial_view(session_id, windows_paths);
    lemma_tokens_are_last_greatest_snapshot(s0, lines);
    if lines.len() == 0 {
        assert(s0.requests_seen.len() == 0);
    } else {
        lemma_lines_read_by_new_parser(session_id, windows_paths, lines.drop_last());
        lemma_line_tokens(ingest_all(s0, lines.drop_last()), lines.last());
    }
}

/// Skill attribution is a view over usage: recording the skills of a skill
/// event or a tool call never changes the session itself (its tokens, its
/// requests, its time span).
pub proof fn lemma_skill_use_leaves_session(
    s: ParserView,
    event_type: Seq<char>,
    payload: JsonView,
    ts: Option<Timestamp>,
)
    ensures
        skill_event_spec(s, event_type, payload, ts).session == s.session,
        tool_call_spec(s, event_type, payload, ts).session == s.session,
{
    let names = explicit_names(payload);
    if names.len() > 0 {
        lemma_record_skill_frame(
            s,
            names[0],
            event_tokens(payload),
            EvidenceView::Event(event_type, ts, payload),
            ts,
        );
    }
    let tools = tool_names(payload);
    lemma_record_tools_frame(
        s,
        tools,
        tools.len() as int,
        call_id_of(payload),
        event_type,
        event_tokens(payload),
        ts,
    );
}

/// The parser of one session log.
pub struct SafeSessionParser {
    session: SessionAggregate,
    last_event_at: Option<Timestamp>,
    skills: Vec<SessionSkillAggregate>,
    request_keys: Vec<RequestKey>,
    evidence: Vec<EvidenceKey>,
    windows_paths: bool,
}

pub open spec fn request_views(v: Seq<RequestKey>) -> Seq<RequestKeyView> {
    Seq::new(v.len(), |i: int| request_view(v[i]))
}

pub open spec fn evidence_views(v: Seq<EvidenceKey>) -> Seq<EvidenceView> {
    Seq::new(v.len(), |i: int| evidence_view(v[i]))
}

/// The request count is the number of distinct requests seen, up to `i64::MAX`.
pub open spec fn requests_counted(v: ParserView) -> bool {
    &&& v.requests_seen.finite()
    &&& v.session.requests as int == if v.requests_seen.len() < i64::MAX {
        v.requests_seen.len() as int
    } else {
        i64::MAX as int
    }
}

impl View for SafeSessionParser {
    type V = ParserView;

    closed spec fn view(&self) -> ParserView {
        ParserView {
            session: session_view(self.session),
            last_event_at: self.last_event_at,
            skills: skills_map(self.skills@),
            requests_seen: request_views(self.request_keys@).to_set(),
            evidence: evidence_views(self.evidence@).to_set(),
            windows_paths: self.windows_paths,
        }
    }
}

proof fn lemma_skills_map_at(s: Seq<SessionSkillAggregate>, k: int)
    requires
        strictly_sorted(skill_names(s)),
        0 <= k < s.len(),
    ensures
        skills_map(s).contains_key(s[k].skill_name@),
        skills_map(s)[s[k].skill_name@] == skill_view(s[k]),
{
    let n = s[k].skill_name@;
    assert(skill_names(s)[k] == n);
    let j = skill_index(s, n);
    if j != k {
        assert(skill_names(s)[j] == n);
        crate::order::lemma_sorted_distinct(skill_names(s), k, j);
    }
    assert(skills_map(s).dom().contains(n));
}

proof fn lemma_request_kinds_differ()
    ensures
        request_kind(true) != request_kind(false),
        "event_msg"@ != "response_item"@,
{
    reveal_strlit("event_msg");
    reveal_strlit("response_item");
    assert("event_msg"@.len() != "response_item"@.len());
}

fn same_instant(a: Option<Timestamp>, b: Option<Timestamp>) -> (same: bool)
    ensures
        same == (a == b),
{
    match (a, b) {
        (Some(x), Some(y)) => x == y,
        (None, None) => true,
        _ => false,
    }
}

fn same_request(a: &RequestKey, b: &RequestKey) -> (same: bool)
    ensures
        same == (request_view(*a) == request_view(*b)),
{
    proof {
        lemma_request_kinds_differ();
    }
    let same_counts: bool = a.fingerprint[0] == b.fingerprint[0] && a.fingerprint[1]
        == b.fingerprint[1] && a.fingerprint[2] == b.fingerprint[2] && a.fingerprint[3]
        == b.fingerprint[3] && a.fingerprint[4] == b.fingerprint[4];
    assert(same_counts == (a.fingerprint@ =~= b.fingerprint@));
    a.response_item == b.response_item && same_instant(a.timestamp, b.timestamp) && same_counts
}

fn same_evidence(a: &EvidenceKey, b: &EvidenceKey) -> (same: bool)
    ensures
        same == (evidence_view(*a) == evidence_view(*b)),
{
    match (a, b) {
        (
            EvidenceKey::Event { event_type: t1, timestamp: s1, payload: p1 },
            EvidenceKey::Event { event_type: t2, timestamp: s2, payload: p2 },
        ) => crate::text::str_eq(t1.as_str(), t2.as_str()) && same_instant(*s1, *s2) && json_equal(
            p1,
            p2,
        ),
        (
            EvidenceKey::Tool { event_type: t1, timestamp: s1, skill: k1 },
            EvidenceKey::Tool { event_type: t2, timestamp: s2, skill: k2 },
        ) => crate::text::str_eq(t1.as_str(), t2.as_str()) && same_instant(*s1, *s2)
            && crate::text::str_eq(k1.as_str(), k2.as_str()),
        (EvidenceKey::ToolCall(x), EvidenceKey::ToolCall(y)) => crate::text::str_eq(
            x.as_str(),
            y.as_str(),
        ),
        _ => false,
    }
}

fn unnamed_project_text() -> (text: String)
    ensures
        text@ == unnamed_project(),
{
    "未命名项目".to_owned()
}

/// The usage that a skill or tool event carries.
fn event_tokens_of(payload: &JsonValue) -> (tokens: TokenBreakdown)
    ensures
        tokens == event_tokens(json_view(*payload)),
{
    let usage: Option<&JsonValue> = match get(payload, "token_usage") {
        Some(u) => Some(u),
        None => match get(payload, "info") {
            Some(info) => get(info, "last_token_usage"),
            None => None,
        },
    };
    let zero = TokenBreakdown {
        input_tokens: 0,
        output_tokens: 0,
        cached_input_tokens: 0,
        reasoning_tokens: 0,
        total_tokens: 0,
    };
    match usage {
        Some(u) => match crate::record::parse_token_usage(u) {
            Some(t) => t,
            None => zero,
        },
        None => zero,
    }
}

fn call_id_text(payload: &JsonValue) -> (id: String)
    ensures
        id@ == call_id_of(json_view(*payload)),
{
    match get_str(payload, "call_id") {
        Some(c) => c.to_owned(),
        None => match get_str(payload, "id") {
            Some(c) => c.to_owned(),
            None => String::new(),
        },
    }
}

fn is_tool_event_text(t: &str) -> (r: bool)
    ensures
        r == is_tool_event(t@),
{
    crate::text::str_eq(t, "custom_tool_call") || crate::text::str_eq(t, "function_call")
        || crate::text::str_eq(t, "custom_tool_call_output") || crate::text::str_eq(
        t,
        "function_call_output",
    )
}

impl SafeSessionParser {
    /// The parser's own consistency: skills sorted by name, each request
    /// key once, and the request count in step with the keys.
    pub closed spec fn wf(&self) -> bool {
        &&& strictly_sorted(skill_names(self.skills@))
        &&& request_views(self.request_keys@).no_duplicates()
        &&& self.session.skills@.len() == 0
        &&& self.session.requests as int == if self.request_keys@.len() < i64::MAX {
            self.request_keys@.len() as int
        } else {
            i64::MAX as int
        }
    }

    proof fn lemma_counted(&self)
        requires
            self.wf(),
        ensures
            requests_counted(self@),
    {
        request_views(self.request_keys@).unique_seq_to_set();
    }

    /// A parser for a session whose log does not name it, reading working
    /// directories by the path rules of the machine it runs on (Windows rules
    /// where the main path separator is `\`).
    pub fn new(fallback_session_id: String) -> (parser: Self)
        ensures
            parser.wf(),
            parser@ == initial_view(fallback_session_id@, parser@.windows_paths),
            requests_counted(parser@),
    {
        let windows: bool = crate::paths::host_separator() == '\\';
        Self::with_path_style(fallback_session_id, windows)
    }

    /// A parser that reads working directories as Windows paths when `windows_paths`.
    pub fn with_path_style(fallback_session_id: String, windows_paths: bool) -> (parser: Self)
        ensures
            parser.wf(),
            parser@ == initial_view(fallback_session_id@, windows_paths),
            requests_counted(parser@),
    {
        let parser = SafeSessionParser {
            session: SessionAggregate::empty(fallback_session_id),
            last_event_at: None,
            skills: Vec::new(),
            request_keys: Vec::new(),
            evidence: Vec::new(),
            windows_paths,
        };
        assert(skills_map(parser.skills@) =~= Map::empty());
        assert(request_views(parser.request_keys@).to_set() =~= Set::empty());
        assert(evidence_views(parser.evidence@).to_set() =~= Set::empty());
        proof {
            parser.lemma_counted();
        }
        parser
    }

    fn observe_timestamp(&mut self, t: Timestamp)
        requires
            old(self).wf(),
        ensures
            final(self).wf(),
            final(self)@ == observe_spec(old(self)@, t),
    {
        let started: Timestamp = match self.session.started_at {
            Some(c) => if c.is_at_most(&t) {
                c
            } else {
                t
            },
            None => t,
        };
        let ended: Timestamp = match self.session.ended_at {
            Some(c) => if c.is_at_most(&t) {
                t
            } else {
                c
            },
            None => t,
        };
        let mut active: i64 = self.session.active_seconds;
        // The same instant again is no gap; chrono counts it as zero seconds.
        match self.last_event_at {
            Some(previous) => if !(previous == t) {
                match seconds_between(t, previous) {
                    Some(gap) => {
                        if gap > 0 {
                            let counted: i64 = if gap < ACTIVE_GAP_CAP_SECONDS {
                                gap
                            } else {
                                ACTIVE_GAP_CAP_SECONDS
                            };
                            active = crate::analytics::saturating_add_i64(active, counted);
                        }
                    },
                    None => {},
                }
            },
            None => {},
        }
        self.session.started_at = Some(started);
        self.session.ended_at = Some(ended);
        self.session.active_seconds = active;
        self.last_event_at = Some(t);
    }

    fn set_project(&mut self, cwd: Option<&str>)
        requires
            old(self).wf(),
        ensures
            final(self).wf(),
            final(self)@ == set_project_spec(old(self)@, crate::json::opt_str_view(cwd)),
    {
        let cwd: &str = match cwd {
            Some(c) => c,
            None => {
                return;
            },
        };
        if cwd.is_empty() || cwd.len() > MAX_PATH_LENGTH {
            return;
        }
        let key: String = crate::paths::project_key_text(cwd, self.windows_paths);
        let id: String = crate::digest::digest_hex(key.as_str());
        let chars: Vec<char> = crate::text::chars_of(cwd);
        let name: String = match crate::paths::final_component_of(&chars, self.windows_paths) {
            Some(component) => {
                let text: String = crate::text::string_from_chars(component.as_slice());
                match crate::skills::sanitize_identifier(Some(text.as_str())) {
                    Some(n) => n,
                    None => unnamed_project_text(),
                }
            },
            None => unnamed_project_text(),
        };
        self.session.project_id = Some(id);
        self.session.project_path = Some(cwd.to_owned());
        self.session.project_name = Some(name);
    }

    fn set_model(&mut self, payload: &JsonValue)
        requires
            old(self).wf(),
        ensures
            final(self).wf(),
            final(self)@ == model_spec(old(self)@, json_view(*payload)),
    {
        if let Some(model) = get_str(payload, "model") {
            if let Some(kept) = crate::skills::sanitize_identifier(Some(model)) {
                self.session.model = Some(kept);
            }
        }
    }

    fn ingest_session_meta(&mut self, payload: &JsonValue)
        requires
            old(self).wf(),
        ensures
            final(self).wf(),
            final(self)@ == session_meta_spec(old(self)@, json_view(*payload)),
    {
        let id: Option<&str> = match get_str(payload, "id") {
            Some(x) => Some(x),
            None => get_str(payload, "session_id"),
        };
        if let Some(x) = id {
            if let Some(kept) = crate::skills::sanitize_identifier(Some(x)) {
                self.session.session_id = kept;
            }
        }
        self.set_project(get_str(payload, "cwd"));
        self.set_model(payload);
    }

    fn ingest_turn_context(&mut self, payload: &JsonValue)
        requires
            old(self).wf(),
        ensures
            final(self).wf(),
            final(self)@ == turn_context_spec(old(self)@, json_view(*payload)),
    {
        self.set_project(get_str(payload, "cwd"));
        self.set_model(payload);
    }

    fn has_evidence(&self, key: &EvidenceKey) -> (found: bool)
        ensures
            found == self@.evidence.contains(evidence_view(*key)),
    {
        let ghost views = evidence_views(self.evidence@);
        let mut k: usize = 0;
        while k < self.evidence.len()
            invariant
                k <= self.evidence@.len(),
                views == evidence_views(self.evidence@),
                forall|i: int| 0 <= i < k ==> #[trigger] views[i] != evidence_view(*key),
            decreases self.evidence@.len() - k,
        {
            if same_evidence(&self.evidence[k], key) {
                assert(views[k as int] == evidence_view(*key));
                return true;
            }
            k = k + 1;
        }
        false
    }

    fn has_request(&self, key: &RequestKey) -> (found: bool)
        ensures
            found == self@.requests_seen.contains(request_view(*key)),
    {
        let ghost views = request_views(self.request_keys@);
        let mut k: usize = 0;
        while k < self.request_keys.len()
            invariant
                k <= self.request_keys@.len(),
                views == request_views(self.request_keys@),
                forall|i: int| 0 <= i < k ==> #[trigger] views[i] != request_view(*key),
            decreases self.request_keys@.len() - k,
        {
            if same_request(&self.request_keys[k], key) {
                assert(views[k as int] == request_view(*key));
                return true;
            }
            k = k + 1;
        }
        false
    }

    fn record_skill(
        &mut self,
        name: String,
        tokens: TokenBreakdown,
        key: EvidenceKey,
        ts: Option<Timestamp>,
    )
        requires
            old(self).wf(),
        ensures
            final(self).wf(),
            final(self)@ == record_skill_spec(old(self)@, name@, tokens, evidence_view(key), ts),
    {
        if self.has_evidence(&key) {
            return;
        }
        let ghost s0 = self@;
        let ghost old_skills = self.skills@;
        let ghost ev = evidence_views(self.evidence@);
        let ghost kv = evidence_view(key);
        self.evidence.push(key);
        assert(evidence_views(self.evidence@) =~= ev.push(kv));
        proof {
            ev.lemma_push_to_set_commute(kv);
        }
        let name_chars: Vec<char> = crate::text::chars_of(name.as_str());
        let ghost names = skill_names(old_skills);
        let mut k: usize = 0;
        while k < self.skills.len()
            invariant
                k <= self.skills@.len(),
                self.skills@ == old_skills,
                names == skill_names(old_skills),
                strictly_sorted(names),
                forall|i: int| 0 <= i < k ==> seq_lt(#[trigger] names[i], name_chars@),
            ensures
                k <= self.skills@.len(),
                self.skills@ == old_skills,
                forall|i: int| 0 <= i < k ==> seq_lt(#[trigger] names[i], name_chars@),
                k < self.skills@.len() ==> !seq_lt(names[k as int], name_chars@),
            decreases self.skills@.len() - k,
        {
            let current: Vec<char> = crate::text::chars_of(self.skills[k].skill_name.as_str());
            if !chars_lt(&current, &name_chars) {
                break;
            }
            k = k + 1;
        }
        let found: bool = k < self.skills.len() && !chars_lt(
            &name_chars,
            &crate::text::chars_of(self.skills[k].skill_name.as_str()),
        );
        if found {
            proof {
                crate::order::lemma_lt_total(names[k as int], name_chars@);
                lemma_skills_map_at(old_skills, k as int);
            }
            let previous: SessionSkillAggregate = self.skills.remove(k);
            let entry = SessionSkillAggregate {
                skill_name: previous.skill_name,
                invocations: crate::analytics::saturating_add_i64(previous.invocations, 1),
                tokens: previous.tokens.saturating_add(tokens),
                last_used_at: if ts.is_some() {
                    ts
                } else {
                    previous.last_used_at
                },
            };
            self.skills.insert(k, entry);
            let ghost new_skills = self.skills@;
            assert(new_skills =~= old_skills.update(k as int, entry));
            assert(skill_names(new_skills) =~= names);
            assert(skills_map(new_skills) =~= skills_map(old_skills).insert(
                name@,
                skill_view(entry),
            )) by {
                lemma_skills_map_at(new_skills, k as int);
                assert forall|n: Seq<char>|
                    #![trigger skills_map(new_skills).contains_key(n)]
                    skills_map(new_skills).contains_key(n) <==> skills_map(
                        old_skills,
                    ).insert(name@, skill_view(entry)).contains_key(n) by {
                    if skills_map(new_skills).contains_key(n) {
                        let j = skill_index(new_skills, n);
                        assert(names[j] == n);
                        assert(old_skills[j].skill_name@ == n);
                    }
                    if skills_map(old_skills).contains_key(n) {
                        let j = skill_index(old_skills, n);
                        assert(names[j] == n);
                        assert(new_skills[j].skill_name@ == n);
                    }
                }
                assert forall|n: Seq<char>| #[trigger]
                    skills_map(new_skills).contains_key(n) implies skills_map(new_skills)[n]
                    == skills_map(old_skills).insert(name@, skill_view(entry))[n] by {
                    let j = skill_index(new_skills, n);
                    assert(names[j] == n);
                    lemma_skills_map_at(new_skills, j);
                    if j != k {
                        lemma_skills_map_at(old_skills, j);
                        crate::order::lemma_sorted_distinct(names, j, k as int);
                    }
                }
            }
        } else {
            proof {
                if k < old_skills.len() {
                    crate::order::lemma_lt_total(names[k as int], name_chars@);
                    assert(seq_lt(name_chars@, names[k as int]));
                }
                assert(!skills_map(old_skills).contains_key(name@)) by {
                    if skills_map(old_skills).contains_key(name@) {
                        let j = skill_index(old_skills, name@);
                        assert(names[j] == name@);
                        if j < k {
                            crate::order::lemma_lt_irreflexive(name@);
                        } else {
                            if j > k {
                                assert(seq_lt(names[k as int], names[j]));
                                crate::order::lemma_lt_transitive(
                                    name@,
                                    names[k as int],
                                    names[j],
                                );
                            }
                            crate::order::lemma_lt_irreflexive(name@);
                        }
                    }
                }
            }
            let zero = TokenBreakdown {
                input_tokens: 0,
                output_tokens: 0,
                cached_input_tokens: 0,
                reasoning_tokens: 0,
                total_tokens: 0,
            };
            let entry = SessionSkillAggregate {
                skill_name: name,
                invocations: 1,
                tokens: zero.saturating_add(tokens),
                last_used_at: ts,
            };
            self.skills.insert(k, entry);
            let ghost new_skills = self.skills@;
            assert(new_skills =~= old_skills.insert(k as int, entry));
            let ghost new_names = skill_names(new_skills);
            assert(new_names =~= names.insert(k as int, name@));
            assert(strictly_sorted(new_names)) by {
                assert forall|a: int, b: int| 0 <= a < b < new_names.len() implies seq_lt(
                    #[trigger] new_names[a],
                    #[trigger] new_names[b],
                ) by {
                    if b < k {
                    } else if b == k {
                        assert(new_names[a] == names[a]);
                    } else if a == k {
                        assert(new_names[b] == names[b - 1]);
                        if b - 1 > k {
                            assert(seq_lt(names[k as int], names[b - 1]));
                            crate::order::lemma_lt_transitive(
                                name@,
                                names[k as int],
                                names[b - 1],
                            );
                        }
                    } else if a < k {
                        assert(new_names[a] == names[a]);
                        assert(new_names[b] == names[b - 1]);
                    } else {
                        assert(new_names[a] == names[a - 1]);
                        assert(new_names[b] == names[b - 1]);
                    }
                }
            }
            assert(skills_map(new_skills) =~= skills_map(old_skills).insert(
                name@,
                skill_view(entry),
            )) by {
                lemma_skills_map_at(new_skills, k as int);
                assert forall|n: Seq<char>|
                    #![trigger skills_map(new_skills).contains_key(n)]
                    skills_map(new_skills).contains_key(n) <==> skills_map(
                        old_skills,
                    ).insert(name@, skill_view(entry)).contains_key(n) by {
                    if skills_map(new_skills).contains_key(n) {
                        let j = skill_index(new_skills, n);
                        assert(new_names[j] == n);
                        if j < k {
                            assert(old_skills[j].skill_name@ == n);
                        } else if j > k {
                            assert(old_skills[j - 1].skill_name@ == n);
                        }
                    }
                    if skills_map(old_skills).contains_key(n) {
                        let j = skill_index(old_skills, n);
                        if j < k {
                            assert(new_skills[j].skill_name@ == n);
                        } else {
                            assert(new_skills[j + 1].skill_name@ == n);
                        }
                    }
                }
                assert forall|n: Seq<char>| #[trigger]
                    skills_map(new_skills).contains_key(n) implies skills_map(new_skills)[n]
                    == skills_map(old_skills).insert(name@, skill_view(entry))[n] by {
                    let j = skill_index(new_skills, n);
                    assert(new_names[j] == n);
                    lemma_skills_map_at(new_skills, j);
                    if j < k {
                        lemma_skills_map_at(old_skills, j);
                        crate::order::lemma_sorted_distinct(new_names, j, k as int);
                    } else if j > k {
                        lemma_skills_map_at(old_skills, j - 1);
                        crate::order::lemma_sorted_distinct(new_names, j, k as int);
                    }
                }
            }
        }
    }

    fn ingest_token_count(&mut self, response_item: bool, payload: &JsonValue, ts: Option<Timestamp>)
        requires
            old(self).wf(),
        ensures
            final(self).wf(),
            final(self)@ == token_count_spec(
                old(self)@,
                request_kind(response_item),
                json_view(*payload),
                ts,
            ),
    {
        let info: &JsonValue = match get(payload, "info") {
            Some(i) => i,
            None => {
                return;
            },
        };
        // A cumulative snapshot replaces the session's usage; snapshots are never added up.
        let cumulative: Option<TokenBreakdown> = match get(info, "total_token_usage") {
            Some(u) => crate::record::parse_token_usage(u),
            None => match get(info, "token_usage") {
                Some(u) => crate::record::parse_token_usage(u),
                None => None,
            },
        };
        if let Some(t) = cumulative {
            if t.total_tokens >= self.session.tokens.total_tokens {
                self.session.tokens = t;
            }
        }
        // The per-request usage only counts the request, once per line kind, instant and counts.
        let last: Option<TokenBreakdown> = match get(info, "last_token_usage") {
            Some(u) => crate::record::parse_token_usage(u),
            None => None,
        };
        if let Some(t) = last {
            let key = RequestKey {
                response_item,
                timestamp: ts,
                fingerprint: crate::record::token_fingerprint(t),
            };
            if !self.has_request(&key) {
                let ghost views = request_views(self.request_keys@);
                self.request_keys.push(key);
                self.session.requests = crate::analytics::saturating_add_i64(
                    self.session.requests,
                    1,
                );
                assert(request_views(self.request_keys@) =~= views.push(request_view(key)));
                proof {
                    views.lemma_push_to_set_commute(request_view(key));
                    assert(!views.contains(request_view(key)));
                }
            }
        }
    }

    fn ingest_skill_event(&mut self, event_type: String, payload: JsonValue, ts: Option<Timestamp>)
        requires
            old(self).wf(),
        ensures
            final(self).wf(),
            final(self)@ == skill_event_spec(old(self)@, event_type@, json_view(payload), ts),
    {
        let names: Vec<String> = crate::record::explicit_skill_names(&payload);
        let tokens: TokenBreakdown = event_tokens_of(&payload);
        if names.len() == 0 {
            return;
        }
        // Every name of the event shares one piece of evidence, so only the
        // first name can ever be counted.
        let first: String = names[0].as_str().to_owned();
        assert(crate::record::string_views(names@)[0] == first@);
        let key = EvidenceKey::Event { event_type, timestamp: ts, payload };
        self.record_skill(first, tokens, key, ts);
    }

    fn ingest_tool_call(&mut self, event_type: &str, payload: &JsonValue, ts: Option<Timestamp>)
        requires
            old(self).wf(),
        ensures
            final(self).wf(),
            final(self)@ == tool_call_spec(old(self)@, event_type@, json_view(*payload), ts),
    {
        let call_id: String = call_id_text(payload);
        let tokens: TokenBreakdown = event_tokens_of(payload);
        let names: Vec<String> = crate::record::tool_skill_names(payload);
        let ghost ns = crate::record::string_views(names@);
        let ghost s0 = self@;
        let mut k: usize = 0;
        while k < names.len()
            invariant
                k <= names@.len(),
                ns == crate::record::string_views(names@),
                ns == tool_names(json_view(*payload)),
                call_id@ == call_id_of(json_view(*payload)),
                self.wf(),
                self@ == record_tools_spec(
                    s0,
                    ns,
                    k as int,
                    call_id@,
                    event_type@,
                    tokens,
                    ts,
                ),
            decreases names@.len() - k,
        {
            let name: String = names[k].as_str().to_owned();
            assert(ns[k as int] == name@);
            let key: EvidenceKey = if call_id.as_str().is_empty() {
                EvidenceKey::Tool {
                    event_type: event_type.to_owned(),
                    timestamp: ts,
                    skill: name.as_str().to_owned(),
                }
            } else {
                let mut text: String = "tool:".to_owned();
                text.append(call_id.as_str());
                text.append(":");
                text.append(name.as_str());
                EvidenceKey::ToolCall(text)
            };
            assert(evidence_view(key) == tool_key(call_id@, event_type@, ts, name@));
            self.record_skill(name, tokens, key, ts);
            k = k + 1;
        }
    }

    fn ingest_safe_event(&mut self, response_item: bool, payload: JsonValue, ts: Option<Timestamp>)
        requires
            old(self).wf(),
        ensures
            final(self).wf(),
            final(self)@ == safe_event_spec(
                old(self)@,
                request_kind(response_item),
                json_view(payload),
                ts,
            ),
    {
        let event_type: String = match get_str(&payload, "type") {
            Some(t) => t.to_owned(),
            None => {
                return;
            },
        };
        proof {
            lemma_request_kinds_differ();
        }
        if crate::text::str_eq(event_type.as_str(), "token_count") {
            self.ingest_token_count(response_item, &payload, ts);
        } else if crate::text::str_eq(event_type.as_str(), "skill_invocation")
            || crate::text::str_eq(event_type.as_str(), "skill_call") {
            self.ingest_skill_event(event_type, payload, ts);
        } else if response_item && is_tool_event_text(event_type.as_str()) {
            self.ingest_tool_call(event_type.as_str(), &payload, ts);
        }
    }

    fn apply_record(&mut self, record: SafeRecord)
        requires
            old(self).wf(),
        ensures
            final(self).wf(),
            final(self)@ == record_spec(old(self)@, record_view(record)),
    {
        let ghost r = record_view(record);
        let SafeRecord { kind, timestamp, payload } = record;
        let own: Option<Timestamp> = match &timestamp {
            Some(t) => parse_rfc3339(t.as_str()),
            None => None,
        };
        let ts: Option<Timestamp> = match own {
            Some(x) => Some(x),
            None => match get_str(&payload, "timestamp") {
                Some(t) => parse_rfc3339(t),
                None => None,
            },
        };
        assert(ts == record_instant(r));
        if let Some(t) = ts {
            self.observe_timestamp(t);
        }
        if crate::text::str_eq(kind.as_str(), "session_meta") {
            self.ingest_session_meta(&payload);
        } else if crate::text::str_eq(kind.as_str(), "turn_context") {
            self.ingest_turn_context(&payload);
        } else if crate::text::str_eq(kind.as_str(), "event_msg") || crate::text::str_eq(
            kind.as_str(),
            "response_item",
        ) {
            let response_item: bool = crate::text::str_eq(kind.as_str(), "response_item");
            assert(request_kind(response_item) == r.kind);
            self.ingest_safe_event(response_item, payload, ts);
        }
    }

    /// Reads one log line. A line that is not a valid record is refused
    /// (`false`) and changes nothing; a valid one is accepted and applied.
    pub fn ingest_line(&mut self, line: &[u8]) -> (accepted: bool)
        requires
            old(self).wf(),
        ensures
            final(self).wf(),
            accepted == line_record(line@).is_some(),
            final(self)@ == ingest_spec(old(self)@, line@),
            requests_counted(final(self)@),
    {
        let value: JsonValue = match crate::json::parse_json(line) {
            Some(v) => v,
            None => {
                proof {
                    self.lemma_counted();
                }
                return false;
            },
        };
        if crate::members::has_repeated_record_member(line) {
            proof {
                self.lemma_counted();
            }
            return false;
        }
        let record: SafeRecord = match crate::record::decode_safe_record(value) {
            Some(r) => r,
            None => {
                proof {
                    self.lemma_counted();
                }
                return false;
            },
        };
        self.apply_record(record);
        proof {
            self.lemma_counted();
        }
        true
    }

    /// The session gathered so far, with its skills in ascending name order.
    pub fn finish(self) -> (session: SessionAggregate)
        requires
            self.wf(),
        ensures
            session_view(session) == self@.session,
            strictly_sorted(skill_names(session.skills@)),
            skills_map(session.skills@) == self@.skills,
    {
        let mut session = self.session;
        session.skills = self.skills;
        session
    }
}

} // verus!
