use my_codex::analytics::{
    saturating_add_i64, CalendarDay, DataSource, Timestamp, TokenBreakdown, UsageRange,
    UsageTotals,
};

#[test]
fn token_normalization_does_not_double_count_cache_or_reasoning() {
    let tokens = TokenBreakdown {
        input_tokens: 100,
        output_tokens: 40,
        cached_input_tokens: 80,
        reasoning_tokens: 20,
        total_tokens: 0,
    }
    .normalize();

    assert_eq!(tokens.total_tokens, 140);
    assert_eq!(tokens.cached_input_tokens, 80);
}

#[test]
fn normalization_clamps_negative_counts_and_excess_cache() {
    let tokens = TokenBreakdown {
        input_tokens: -5,
        output_tokens: 10,
        cached_input_tokens: 30,
        reasoning_tokens: -1,
        total_tokens: 3,
    }
    .normalize();
    assert_eq!(tokens.input_tokens, 0);
    assert_eq!(tokens.cached_input_tokens, 0);
    assert_eq!(tokens.reasoning_tokens, 0);
    assert_eq!(tokens.total_tokens, 10);
}

#[test]
fn normalization_keeps_a_larger_recorded_total() {
    let tokens = TokenBreakdown {
        input_tokens: 10,
        output_tokens: 10,
        cached_input_tokens: 5,
        reasoning_tokens: 7,
        total_tokens: 50,
    }
    .normalize();
    assert_eq!(tokens.total_tokens, 50);
    assert_eq!(tokens, tokens.normalize());
}

#[test]
fn saturating_addition_stays_in_range() {
    assert_eq!(saturating_add_i64(i64::MAX, 1), i64::MAX);
    assert_eq!(saturating_add_i64(i64::MIN, -1), i64::MIN);
    let a = TokenBreakdown {
        input_tokens: i64::MAX,
        output_tokens: 1,
        cached_input_tokens: 0,
        reasoning_tokens: 0,
        total_tokens: 0,
    };
    let sum = a.saturating_add(a);
    assert_eq!(sum.input_tokens, i64::MAX);
    assert_eq!(sum.output_tokens, 2);
    assert_eq!(sum.total_tokens, i64::MAX);
    assert_eq!(a.saturating_add(TokenBreakdown::default()), a.normalize());
}

#[test]
fn data_source_text_round_trips() {
    for source in [DataSource::Official, DataSource::Local, DataSource::Estimated] {
        assert_eq!(DataSource::from_stored(source.as_str()), source);
    }
    assert_eq!(DataSource::Local.as_str(), "local");
    assert_eq!(DataSource::from_stored("bogus"), DataSource::Official);
}

#[test]
fn usage_range_cutoffs() {
    let today = CalendarDay { days_from_ce: 739_000 };
    assert_eq!(UsageRange::default(), UsageRange::ThirtyDays);
    assert_eq!(UsageRange::Today.cutoff(today), Some(today));
    assert_eq!(
        UsageRange::SevenDays.cutoff(today),
        Some(CalendarDay { days_from_ce: 738_994 })
    );
    assert_eq!(
        UsageRange::NinetyDays.cutoff(today),
        Some(CalendarDay { days_from_ce: 738_911 })
    );
    assert_eq!(UsageRange::All.cutoff(today), None);
}

#[test]
fn totals_are_local_only_with_sessions() {
    let tokens = TokenBreakdown {
        input_tokens: 1,
        output_tokens: 2,
        cached_input_tokens: 0,
        reasoning_tokens: 0,
        total_tokens: 0,
    };
    let totals = UsageTotals::from_sums(tokens, 4, 2, 60);
    assert_eq!(totals.tokens.total_tokens, 3);
    assert_eq!(totals.source, Some(DataSource::Local));
    assert_eq!(UsageTotals::from_sums(tokens, 0, 0, 0).source, None);
}

#[test]
fn rfc3339_instants_are_read_in_utc() {
    let mut parser = my_codex::session::SafeSessionParser::new("clock".into());
    assert!(parser.ingest_line(
        br#"{"type":"turn_context","timestamp":"2026-08-12T02:01:30.0000005+02:00","payload":{}}"#
    ));
    assert!(parser.ingest_line(
        br#"{"type":"turn_context","timestamp":"2026-08-12T00:00:00Z","payload":{}}"#
    ));
    assert!(parser.ingest_line(
        br#"{"type":"turn_context","timestamp":"yesterday","payload":{}}"#
    ));
    let session = parser.finish();
    assert_eq!(
        session.started_at,
        Some(Timestamp {
            seconds: 1_786_492_800,
            nanos: 0
        })
    );
    assert_eq!(
        session.ended_at,
        Some(Timestamp {
            seconds: 1_786_492_890,
            nanos: 500
        })
    );
    assert_eq!(session.active_seconds, 0);
}

#[test]
fn whole_second_gaps_between_instants_count_as_active_time() {
    let mut parser = my_codex::session::SafeSessionParser::new("clock".into());
    assert!(parser.ingest_line(
        br#"{"type":"turn_context","timestamp":"2026-08-12T00:00:00.9Z","payload":{}}"#
    ));
    assert!(parser.ingest_line(
        br#"{"type":"turn_context","timestamp":"2026-08-12T02:01:30.0000005+02:00","payload":{}}"#
    ));
    let session = parser.finish();
    assert_eq!(session.active_seconds, 89);
}

#[test]
fn stored_token_columns_and_cache_split() {
    assert_eq!(my_codex::analytics::stored_tokens(None, Some(5), None, None, None), None);
    let tokens = my_codex::analytics::stored_tokens(Some(10), None, Some(30), None, Some(4))
        .expect("present");
    assert_eq!(tokens.cached_input_tokens, 10);
    assert_eq!(tokens.total_tokens, 10);
    let split = my_codex::analytics::cache_split(TokenBreakdown {
        input_tokens: 100,
        output_tokens: 0,
        cached_input_tokens: 140,
        reasoning_tokens: 0,
        total_tokens: 0,
    });
    assert_eq!(split.cached_input_tokens, 100);
    assert_eq!(split.uncached_input_tokens, 0);
    let split = my_codex::analytics::cache_split(TokenBreakdown {
        input_tokens: 100,
        output_tokens: 0,
        cached_input_tokens: -3,
        reasoning_tokens: 0,
        total_tokens: 0,
    });
    assert_eq!(split.cached_input_tokens, 0);
    assert_eq!(split.uncached_input_tokens, 100);
}
