use my_codex::session::SafeSessionParser;

#[test]
fn ignores_unstructured_skill_words() {
    let mut parser = SafeSessionParser::new("safe".into());
    assert!(parser.ingest_line(br#"{"timestamp":"2026-08-12T00:00:00Z","type":"event_msg","payload":{"type":"user_message","message":"redacted"}}"#));
    assert!(parser.finish().skills.is_empty());
}

#[test]
fn reads_skill_paths_from_tool_calls_without_adding_them_to_session_total() {
    let mut parser = SafeSessionParser::new("safe".into());
    assert!(parser.ingest_line(br#"{"timestamp":"2026-08-12T00:00:01Z","type":"response_item","payload":{"type":"custom_tool_call","call_id":"skill-read-1","name":"read_file","arguments":{"path":"C:\\Users\\q1384\\.codex\\skills\\frontend-app-builder\\SKILL.md"}}}"#));
    assert!(parser.ingest_line(br#"{"timestamp":"2026-08-12T00:00:02Z","type":"response_item","payload":{"type":"custom_tool_call_output","call_id":"skill-read-1","output":[{"type":"input_text","text":"C:\\Users\\q1384\\.codex\\skills\\frontend-app-builder\\SKILL.md"}]}}"#));
    assert!(parser.ingest_line(br#"{"timestamp":"2026-08-12T00:00:03Z","type":"event_msg","payload":{"type":"token_count","info":{"total_token_usage":{"input_tokens":100,"output_tokens":20,"total_tokens":120},"last_token_usage":{"input_tokens":100,"output_tokens":20,"total_tokens":120}}}}"#));
    let session = parser.finish();
    assert_eq!(session.tokens.total_tokens, 120);
    assert_eq!(session.skills.len(), 1);
    assert_eq!(session.skills[0].skill_name, "frontend-app-builder");
    assert_eq!(session.skills[0].invocations, 1);
    assert_eq!(session.skills[0].tokens.total_tokens, 0);
}

#[test]
fn ignores_colon_delimited_non_skill_values_in_tool_payloads() {
    let mut parser = SafeSessionParser::new("safe".into());
    assert!(parser.ingest_line(br#"{"timestamp":"2026-08-12T00:00:01Z","type":"response_item","payload":{"type":"function_call","call_id":"not-a-skill","arguments":"{\"selector\":\"button:hover\",\"filter\":\"exact:true\"}"}}"#));
    assert!(parser.finish().skills.is_empty());
}

#[test]
fn uses_final_monotonic_cumulative_snapshot_and_deduplicates_requests() {
    let mut parser = SafeSessionParser::new("safe".into());
    let first = br#"{"timestamp":"2026-08-12T00:00:01Z","type":"event_msg","payload":{"type":"token_count","info":{"total_token_usage":{"input_tokens":80,"output_tokens":20,"total_tokens":100},"last_token_usage":{"input_tokens":80,"output_tokens":20,"total_tokens":100}}}}"#;
    assert!(parser.ingest_line(first));
    assert!(parser.ingest_line(first));
    assert!(parser.ingest_line(br#"{"timestamp":"2026-08-12T00:00:02Z","type":"event_msg","payload":{"type":"token_count","info":{"total_token_usage":{"input_tokens":60,"output_tokens":20,"total_tokens":80},"last_token_usage":{"input_tokens":60,"output_tokens":20,"total_tokens":80}}}}"#));
    assert!(parser.ingest_line(br#"{"timestamp":"2026-08-12T00:00:03Z","type":"event_msg","payload":{"type":"token_count","info":{"total_token_usage":{"input_tokens":120,"output_tokens":30,"total_tokens":150},"last_token_usage":{"input_tokens":40,"output_tokens":10,"total_tokens":50}}}}"#));
    let session = parser.finish();
    assert_eq!(session.tokens.total_tokens, 150);
    assert_eq!(session.requests, 3);
}

#[test]
fn canonicalizes_plugin_skill_paths() {
    let mut parser = SafeSessionParser::new("safe".into());
    assert!(parser.ingest_line(br#"{"timestamp":"2026-08-12T00:00:01Z","type":"response_item","payload":{"type":"function_call","call_id":"skill-read-2","arguments":"{\"path\":\"C:/Users/q1384/.codex/plugins/cache/openai-curated-remote/product-design/0.1.52/skills/image-to-code/SKILL.md\"}"}}"#));
    let session = parser.finish();
    assert_eq!(session.skills[0].skill_name, "product-design:image-to-code");
}

#[test]
fn keeps_session_metadata_and_time_span() {
    let mut parser = SafeSessionParser::new("fallback".into());
    assert!(parser.ingest_line(br#"{"timestamp":"2026-08-12T00:00:00Z","type":"session_meta","payload":{"id":"  safe-session-001  ","cwd":"/home/dev/projects/widget","model":"gpt-test","instructions":"secret"}}"#));
    assert!(parser.ingest_line(br#"{"timestamp":"2026-08-12T00:02:00Z","type":"turn_context","payload":{"model":"gpt-next"}}"#));
    assert!(parser.ingest_line(br#"{"timestamp":"2026-08-12T00:20:00Z","type":"event_msg","payload":{"type":"agent_message","message":"text"}}"#));
    let session = parser.finish();
    assert_eq!(session.session_id, "safe-session-001");
    assert_eq!(session.model.as_deref(), Some("gpt-next"));
    assert_eq!(session.project_path.as_deref(), Some("/home/dev/projects/widget"));
    assert_eq!(session.project_name.as_deref(), Some("widget"));
    assert_eq!(
        session.project_id.as_deref(),
        Some(my_codex::digest::digest_hex("/home/dev/projects/widget").as_str())
    );
    // 120 s between the first two events, then a gap capped at 300 s.
    assert_eq!(session.active_seconds, 420);
    assert_eq!(session.started_at.map(|t| t.seconds), Some(1_786_492_800));
    assert_eq!(session.ended_at.map(|t| t.seconds), Some(1_786_494_000));
}

#[test]
fn refuses_lines_that_are_not_records() {
    let mut parser = SafeSessionParser::new("safe".into());
    assert!(!parser.ingest_line(b"not json"));
    assert!(!parser.ingest_line(br#"{"timestamp":"2026-08-12T00:00:00Z"}"#));
    assert!(!parser.ingest_line(br#"{"type":7}"#));
    assert!(!parser.ingest_line(br#"{"type":"event_msg","timestamp":5}"#));
    assert!(!parser.ingest_line(br#"["a","b","c","d"]"#));
    assert!(parser.ingest_line(br#"["event_msg"]"#));
    assert!(parser.ingest_line(br#"{"type":"unknown_kind"}"#));
    let session = parser.finish();
    assert_eq!(session.session_id, "safe");
    assert!(session.started_at.is_none());
}

#[test]
fn replayed_lines_change_nothing() {
    let line = br#"{"timestamp":"2026-08-12T00:00:05Z","type":"event_msg","payload":{"type":"skill_invocation","skill_name":"ImageGen","skill":"visualize","token_usage":{"input_tokens":7,"output_tokens":3}}}"#;
    let mut parser = SafeSessionParser::new("safe".into());
    assert!(parser.ingest_line(line));
    assert!(parser.ingest_line(line));
    let session = parser.finish();
    assert_eq!(session.skills.len(), 1);
    assert_eq!(session.skills[0].skill_name, "imagegen");
    assert_eq!(session.skills[0].invocations, 1);
    assert_eq!(session.skills[0].tokens.total_tokens, 10);
    assert_eq!(session.tokens.total_tokens, 0);
    assert_eq!(session.active_seconds, 0);
}

#[test]
fn token_usage_may_be_an_array_and_refuses_doubled_reasoning() {
    let mut parser = SafeSessionParser::new("safe".into());
    assert!(parser.ingest_line(br#"{"timestamp":"2026-08-12T00:00:01Z","type":"event_msg","payload":{"type":"token_count","info":{"total_token_usage":[10,5,2,1,0]}}}"#));
    assert!(parser.ingest_line(br#"{"timestamp":"2026-08-12T00:00:02Z","type":"event_msg","payload":{"type":"token_count","info":{"total_token_usage":{"input_tokens":500,"reasoning_tokens":1,"reasoning_output_tokens":2}}}}"#));
    let session = parser.finish();
    assert_eq!(session.tokens.input_tokens, 10);
    assert_eq!(session.tokens.total_tokens, 15);
    assert_eq!(session.tokens.cached_input_tokens, 2);
    assert_eq!(session.requests, 0);
}

#[test]
fn tool_calls_without_ids_count_per_instant_and_skill() {
    let mut parser = SafeSessionParser::new("safe".into());
    assert!(parser.ingest_line(br#"{"timestamp":"2026-08-12T00:00:01Z","type":"response_item","payload":{"type":"function_call","arguments":"cat /a/skills/zeta/SKILL.md; cat /b/skills/alpha/SKILL.md"}}"#));
    assert!(parser.ingest_line(br#"{"timestamp":"2026-08-12T00:00:02Z","type":"response_item","payload":{"type":"function_call","arguments":"cat /a/skills/zeta/SKILL.md"}}"#));
    assert!(parser.ingest_line(br#"{"timestamp":"2026-08-12T00:00:02Z","type":"event_msg","payload":{"type":"function_call","arguments":"cat /a/skills/omega/SKILL.md"}}"#));
    let session = parser.finish();
    let names: Vec<&str> = session.skills.iter().map(|s| s.skill_name.as_str()).collect();
    assert_eq!(names, vec!["alpha", "zeta"]);
    assert_eq!(session.skills[1].invocations, 2);
}

#[test]
fn windows_paths_name_projects_case_insensitively() {
    let mut unix = SafeSessionParser::new("a".into());
    assert!(unix.ingest_line(br#"{"type":"turn_context","payload":{"cwd":"C:\\Work\\Repo\\"}}"#));
    let unix = unix.finish();
    assert_eq!(unix.project_name.as_deref(), Some("C:\\Work\\Repo\\"));
    let mut windows = SafeSessionParser::with_path_style("b".into(), true);
    assert!(windows.ingest_line(br#"{"type":"turn_context","payload":{"cwd":"C:/Work/Repo/"}}"#));
    let windows = windows.finish();
    assert_eq!(windows.project_name.as_deref(), Some("Repo"));
    assert_eq!(
        windows.project_id.as_deref(),
        Some(my_codex::digest::digest_hex("c:\\work\\repo\\").as_str())
    );
    let mut root = SafeSessionParser::new("c".into());
    assert!(root.ingest_line(br#"{"type":"turn_context","payload":{"cwd":"/"}}"#));
    assert_eq!(root.finish().project_name.as_deref(), Some("未命名项目"));
}

#[test]
fn refuses_lines_that_repeat_a_record_member() {
    let mut parser = SafeSessionParser::new("dup".into());
    assert!(!parser.ingest_line(br#"{"type":"event_msg","type":"turn_context"}"#));
    assert!(!parser.ingest_line(br#"{"type":"turn_context","t\u0079pe":"turn_context"}"#));
    assert!(!parser.ingest_line(
        br#"{"type":"turn_context","timestamp":null,"timestamp":"2026-08-12T00:00:00Z"}"#
    ));
    assert!(!parser.ingest_line(br#"{"payload":{},"type":"turn_context","payload":{}}"#));
    let session = parser.finish();
    assert_eq!(session.started_at, None);
}

#[test]
fn accepts_repeats_outside_the_record_members() {
    let mut parser = SafeSessionParser::new("dup".into());
    assert!(parser.ingest_line(br#"{"type":"turn_context","note":1,"note":2}"#));
    assert!(parser.ingest_line(br#"{"type":"turn_context","payload":{"type":1,"type":2}}"#));
    assert!(parser.ingest_line(br#"{"type":"turn_context","payload":"\"type\":\"x\",\"type\""}"#));
    assert!(parser.ingest_line(br#"["turn_context",null,{"type":"a","type":"b"}]"#));
    assert!(parser.ingest_line(br#"{"type":"turn_context","payload":["type","type"]}"#));
}

// The sanitized session fixture of the original project is not available
// here; these lines are a sanitized session of the same shape: whitelisted
// metadata next to free text that must not be read.
const SANITIZED_SESSION: &[u8] = br#"{"timestamp":"2026-08-12T00:00:00Z","type":"session_meta","payload":{"id":"safe-session-001","cwd":"/work/safe-project","model":"gpt-test","instructions":"redacted instructions"}}
{"timestamp":"2026-08-12T00:00:01Z","type":"turn_context","payload":{"cwd":"/work/safe-project","model":"gpt-test","approval_policy":"never"}}
{"timestamp":"2026-08-12T00:00:02Z","type":"event_msg","payload":{"type":"user_message","message":"please use the github skill on this repository"}}
{"timestamp":"2026-08-12T00:00:03Z","type":"event_msg","payload":{"type":"skill_invocation","skill_name":"browser"}}
{"timestamp":"2026-08-12T00:00:04Z","type":"event_msg","payload":{"type":"token_count","info":{"total_token_usage":{"input_tokens":100,"cached_input_tokens":40,"output_tokens":50,"total_tokens":150},"last_token_usage":{"input_tokens":100,"cached_input_tokens":40,"output_tokens":50,"total_tokens":150}}}}
{"timestamp":"2026-08-12T00:00:04Z","type":"event_msg","payload":{"type":"token_count","info":{"total_token_usage":{"input_tokens":100,"cached_input_tokens":40,"output_tokens":50,"total_tokens":150},"last_token_usage":{"input_tokens":100,"cached_input_tokens":40,"output_tokens":50,"total_tokens":150}}}}
{"timestamp":"2026-08-12T00:00:05Z","type":"response_item","payload":{"type":"message","role":"assistant","content":[{"type":"output_text","text":"skill: frontend-design"}]}}
"#;

#[test]
fn parses_only_whitelisted_metadata_from_sanitized_fixture() {
    let mut parser = SafeSessionParser::new("fallback".into());
    for line in SANITIZED_SESSION
        .split(|byte| *byte == b'\n')
        .filter(|line| !line.is_empty())
    {
        assert!(parser.ingest_line(line));
    }
    let session = parser.finish();
    assert_eq!(session.session_id, "safe-session-001");
    assert_eq!(session.model.as_deref(), Some("gpt-test"));
    assert_eq!(session.tokens.total_tokens, 150);
    assert_eq!(session.requests, 1);
    assert_eq!(session.skills.len(), 1);
    assert_eq!(session.skills[0].skill_name, "browser");
}

#[test]
fn session_tokens_are_the_last_greatest_snapshot() {
    let snapshot = |second: u32, input: i64, total: i64| {
        format!(
            r#"{{"timestamp":"2026-08-12T00:00:{second:02}Z","type":"event_msg","payload":{{"type":"token_count","info":{{"total_token_usage":{{"input_tokens":{input},"output_tokens":0,"total_tokens":{total}}}}}}}}}"#
        )
    };
    let mut parser = SafeSessionParser::new("snapshots".into());
    assert_eq!(
        SafeSessionParser::new("none".into()).finish().tokens.total_tokens,
        0
    );
    for line in [
        snapshot(1, 10, 100),
        snapshot(2, 20, 300),
        snapshot(3, 30, 200),
        snapshot(4, 40, 300),
        snapshot(5, 50, 250),
    ] {
        assert!(parser.ingest_line(line.as_bytes()));
    }
    let session = parser.finish();
    assert_eq!(session.tokens.total_tokens, 300);
    assert_eq!(session.tokens.input_tokens, 40);
    assert_eq!(session.requests, 0);
}
