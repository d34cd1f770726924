//! The shape of one session log line and of a token usage object, read from
//! parsed JSON the way the log format defines them.
use vstd::prelude::*;

use crate::analytics::{normalized, TokenBreakdown};
use crate::json::{
    get, get_str, items_view, json_get, json_view, keys_view, lemma_items_view, members_get_from,
    string_field, JsonNumber, JsonValue, JsonView, NumberView,
};
use crate::skills::{canonical_skill, canonical_skill_name, text_matches};

verus! {

broadcast use vstd::std_specs::vec::group_vec_axioms;

/// One log line: its `type`, its optional `timestamp` text and its `payload`.
#[derive(Debug)]
pub struct SafeRecord {
    pub kind: String,
    pub timestamp: Option<String>,
    pub payload: JsonValue,
}

pub struct RecordView {
    pub kind: Seq<char>,
    pub timestamp: Option<Seq<char>>,
    pub payload: JsonView,
}

pub open spec fn record_view(r: SafeRecord) -> RecordView {
    RecordView {
        kind: r.kind@,
        timestamp: match r.timestamp {
            Some(t) => Some(t@),
            None => None,
        },
        payload: json_view(r.payload),
    }
}

/// The optional timestamp member: missing or `null` is no timestamp, a
/// string is one, anything else makes the line invalid (outer `None`).
pub open spec fn timestamp_member(v: Option<JsonView>) -> Option<Option<Seq<char>>> {
    match v {
        None => Some(None),
        Some(JsonView::Null) => Some(None),
        Some(JsonView::Str(t)) => Some(Some(t)),
        _ => None,
    }
}

/// A log line is an object with a string `type`, an optional `timestamp`
/// and a `payload` (`null` when missing), or an array of one to three
/// elements holding the same members in that order.
pub open spec fn decode_record(v: JsonView) -> Option<RecordView> {
    match v {
        JsonView::Object(_, _) => match (
            json_get(v, "type"@),
            timestamp_member(json_get(v, "timestamp"@)),
        ) {
            (Some(JsonView::Str(kind)), Some(ts)) => Some(
                RecordView {
                    kind,
                    timestamp: ts,
                    payload: match json_get(v, "payload"@) {
                        Some(p) => p,
                        None => JsonView::Null,
                    },
                },
            ),
            _ => None,
        },
        JsonView::Array(items) => {
            if 1 <= items.len() <= 3 {
                match (
                    items[0],
                    timestamp_member(
                        if items.len() >= 2 {
                            Some(items[1])
                        } else {
                            None
                        },
                    ),
                ) {
                    (JsonView::Str(kind), Some(ts)) => Some(
                        RecordView {
                            kind,
                            timestamp: ts,
                            payload: if items.len() == 3 {
                                items[2]
                            } else {
                                JsonView::Null
                            },
                        },
                    ),
                    _ => None,
                }
            } else {
                None
            }
        },
        _ => None,
    }
}

/// Where the member `key` of an object stands.
fn member_index(keys: &Vec<String>, values: &Vec<JsonValue>, key: &str) -> (found: Option<usize>)
    ensures
        match found {
            Some(i) => i < values@.len() && members_get_from(
                keys_view(keys@),
                items_view(values@),
                key@,
                0,
            ) == Some(items_view(values@)[i as int]),
            None => members_get_from(keys_view(keys@), items_view(values@), key@, 0).is_none(),
        },
{
    proof {
        lemma_items_view(values@);
    }
    let ghost kv = keys_view(keys@);
    let ghost vv = items_view(values@);
    let mut k: usize = 0;
    while k < keys.len() && k < values.len()
        invariant
            k <= keys@.len(),
            kv == keys_view(keys@),
            vv == items_view(values@),
            vv.len() == values@.len(),
            members_get_from(kv, vv, key@, 0) == members_get_from(kv, vv, key@, k as int),
        decreases keys@.len() - k,
    {
        if crate::text::str_eq(keys[k].as_str(), key) {
            assert(kv[k as int] == key@);
            return Some(k);
        }
        assert(kv[k as int] != key@);
        k = k + 1;
    }
    None
}

fn timestamp_text(v: Option<&JsonValue>) -> (ts: Option<Option<String>>)
    ensures
        match ts {
            None => timestamp_member(crate::json::opt_view(v)).is_none(),
            Some(None) => timestamp_member(crate::json::opt_view(v)) == Some(None::<Seq<char>>),
            Some(Some(t)) => timestamp_member(crate::json::opt_view(v)) == Some(Some(t@)),
        },
{
    match v {
        None => Some(None),
        Some(JsonValue::Null) => Some(None),
        Some(JsonValue::Str(t)) => Some(Some(t.as_str().to_owned())),
        Some(_) => None,
    }
}

/// Reads a log line out of its parsed JSON.
pub fn decode_safe_record(value: JsonValue) -> (record: Option<SafeRecord>)
    ensures
        match record {
            Some(r) => decode_record(json_view(value)) == Some(record_view(r)),
            None => decode_record(json_view(value)).is_none(),
        },
{
    let ghost whole = json_view(value);
    match value {
        JsonValue::Object(keys, mut values) => {
            let obj_kind: Option<String> = {
                let ki = member_index(&keys, &values, "type");
                match ki {
                    Some(i) => match &values[i] {
                        JsonValue::Str(s) => Some(s.as_str().to_owned()),
                        _ => None,
                    },
                    None => None,
                }
            };
            proof {
                lemma_items_view(values@);
            }
            let kind: String = match obj_kind {
                Some(k) => k,
                None => {
                    return None;
                },
            };
            let ti = member_index(&keys, &values, "timestamp");
            let ts: Option<Option<String>> = match ti {
                Some(i) => timestamp_text(Some(&values[i])),
                None => timestamp_text(None),
            };
            let timestamp: Option<String> = match ts {
                Some(t) => t,
                None => {
                    return None;
                },
            };
            let pi = member_index(&keys, &values, "payload");
            let payload: JsonValue = match pi {
                Some(i) => values.remove(i),
                None => JsonValue::Null,
            };
            Some(SafeRecord { kind, timestamp, payload })
        },
        JsonValue::Array(mut items) => {
            proof {
                lemma_items_view(items@);
            }
            if items.len() < 1 || items.len() > 3 {
                return None;
            }
            let kind: String = match &items[0] {
                JsonValue::Str(s) => s.as_str().to_owned(),
                _ => {
                    return None;
                },
            };
            let ts: Option<Option<String>> = if items.len() >= 2 {
                timestamp_text(Some(&items[1]))
            } else {
                timestamp_text(None)
            };
            let timestamp: Option<String> = match ts {
                Some(t) => t,
                None => {
                    return None;
                },
            };
            let payload: JsonValue = if items.len() == 3 {
                items.remove(2)
            } else {
                JsonValue::Null
            };
            Some(SafeRecord { kind, timestamp, payload })
        },
        _ => None,
    }
}


/// The token counts of a usage object, as the log writes them.
#[derive(Debug, Clone, Copy, PartialEq, Eq, Structural)]
pub struct TokenUsageRecord {
    pub input_tokens: i64,
    pub output_tokens: i64,
    pub cached_input_tokens: i64,
    pub reasoning_output_tokens: i64,
    pub total_tokens: i64,
}

/// A count member: missing reads as zero; present, it must be an integer
/// that fits `i64` (outer `None` otherwise).
pub open spec fn count_member(v: Option<JsonView>) -> Option<i64> {
    match v {
        None => Some(0),
        Some(JsonView::Number(NumberView::PosInt(u))) => if u <= i64::MAX {
            Some(u as i64)
        } else {
            None
        },
        Some(JsonView::Number(NumberView::NegInt(i))) => Some(i),
        _ => None,
    }
}

pub open spec fn usage_of_counts(
    input: Option<i64>,
    output: Option<i64>,
    cached: Option<i64>,
    reasoning: Option<i64>,
    total: Option<i64>,
) -> Option<TokenUsageRecord> {
    match (input, output, cached, reasoning, total) {
        (Some(i), Some(o), Some(c), Some(r), Some(t)) => Some(
            TokenUsageRecord {
                input_tokens: i,
                output_tokens: o,
                cached_input_tokens: c,
                reasoning_output_tokens: r,
                total_tokens: t,
            },
        ),
        _ => None,
    }
}

pub open spec fn nth_member(items: Seq<JsonView>, k: int) -> Option<JsonView> {
    if 0 <= k < items.len() {
        Some(items[k])
    } else {
        None
    }
}

/// A usage object: an object whose five count members are all optional
/// (`reasoning_tokens` is another name for `reasoning_output_tokens`, and
/// giving both is invalid), or an array of at most five counts in the order
/// input, output, cached input, reasoning, total.
pub open spec fn decode_token_usage(v: JsonView) -> Option<TokenUsageRecord> {
    match v {
        JsonView::Object(_, _) => {
            let r1 = json_get(v, "reasoning_output_tokens"@);
            let r2 = json_get(v, "reasoning_tokens"@);
            if r1.is_some() && r2.is_some() {
                None
            } else {
                usage_of_counts(
                    count_member(json_get(v, "input_tokens"@)),
                    count_member(json_get(v, "output_tokens"@)),
                    count_member(json_get(v, "cached_input_tokens"@)),
                    count_member(
                        if r1.is_some() {
                            r1
                        } else {
                            r2
                        },
                    ),
                    count_member(json_get(v, "total_tokens"@)),
                )
            }
        },
        JsonView::Array(items) => {
            if items.len() <= 5 {
                usage_of_counts(
                    count_member(nth_member(items, 0)),
                    count_member(nth_member(items, 1)),
                    count_member(nth_member(items, 2)),
                    count_member(nth_member(items, 3)),
                    count_member(nth_member(items, 4)),
                )
            } else {
                None
            }
        },
        _ => None,
    }
}

pub open spec fn usage_breakdown(r: TokenUsageRecord) -> TokenBreakdown {
    normalized(
        TokenBreakdown {
            input_tokens: r.input_tokens,
            output_tokens: r.output_tokens,
            cached_input_tokens: r.cached_input_tokens,
            reasoning_tokens: r.reasoning_output_tokens,
            total_tokens: r.total_tokens,
        },
    )
}

/// The normalized breakdown of a usage object, when it is one.
pub open spec fn token_usage_of(v: JsonView) -> Option<TokenBreakdown> {
    match decode_token_usage(v) {
        Some(r) => Some(usage_breakdown(r)),
        None => None,
    }
}

impl TokenUsageRecord {
    /// The normalized breakdown of these counts.
    pub fn to_breakdown(&self) -> (tokens: TokenBreakdown)
        ensures
            tokens == usage_breakdown(*self),
    {
        TokenBreakdown {
            input_tokens: self.input_tokens,
            output_tokens: self.output_tokens,
            cached_input_tokens: self.cached_input_tokens,
            reasoning_tokens: self.reasoning_output_tokens,
            total_tokens: self.total_tokens,
        }.normalize()
    }
}

fn count_of(v: Option<&JsonValue>) -> (count: Option<i64>)
    ensures
        count == count_member(crate::json::opt_view(v)),
{
    match v {
        None => Some(0),
        Some(JsonValue::Number(JsonNumber::PosInt(u))) => {
            if *u <= 9223372036854775807u64 {
                Some(*u as i64)
            } else {
                None
            }
        },
        Some(JsonValue::Number(JsonNumber::NegInt(i))) => Some(*i),
        Some(_) => None,
    }
}

fn nth_item(items: &Vec<JsonValue>, k: usize) -> (item: Option<&JsonValue>)
    ensures
        crate::json::opt_view(item) == nth_member(items_view(items@), k as int),
{
    proof {
        lemma_items_view(items@);
    }
    if k < items.len() {
        Some(&items[k])
    } else {
        None
    }
}

/// Reads a usage object.
pub fn parse_usage_record(value: &JsonValue) -> (record: Option<TokenUsageRecord>)
    ensures
        record == decode_token_usage(json_view(*value)),
{
    match value {
        JsonValue::Object(_, _) => {
            let r1 = get(value, "reasoning_output_tokens");
            let r2 = get(value, "reasoning_tokens");
            if r1.is_some() && r2.is_some() {
                return None;
            }
            let reasoning = if r1.is_some() {
                r1
            } else {
                r2
            };
            let input = count_of(get(value, "input_tokens"));
            let output = count_of(get(value, "output_tokens"));
            let cached = count_of(get(value, "cached_input_tokens"));
            let reasoning = count_of(reasoning);
            let total = count_of(get(value, "total_tokens"));
            match (input, output, cached, reasoning, total) {
                (Some(i), Some(o), Some(c), Some(r), Some(t)) => Some(
                    TokenUsageRecord {
                        input_tokens: i,
                        output_tokens: o,
                        cached_input_tokens: c,
                        reasoning_output_tokens: r,
                        total_tokens: t,
                    },
                ),
                _ => None,
            }
        },
        JsonValue::Array(items) => {
            proof {
                lemma_items_view(items@);
            }
            if items.len() > 5 {
                return None;
            }
            let input = count_of(nth_item(items, 0));
            let output = count_of(nth_item(items, 1));
            let cached = count_of(nth_item(items, 2));
            let reasoning = count_of(nth_item(items, 3));
            let total = count_of(nth_item(items, 4));
            match (input, output, cached, reasoning, total) {
                (Some(i), Some(o), Some(c), Some(r), Some(t)) => Some(
                    TokenUsageRecord {
                        input_tokens: i,
                        output_tokens: o,
                        cached_input_tokens: c,
                        reasoning_output_tokens: r,
                        total_tokens: t,
                    },
                ),
                _ => None,
            }
        },
        _ => None,
    }
}

/// The normalized breakdown of a usage object.
pub fn parse_token_usage(value: &JsonValue) -> (tokens: Option<TokenBreakdown>)
    ensures
        tokens == token_usage_of(json_view(*value)),
{
    match parse_usage_record(value) {
        Some(r) => Some(r.to_breakdown()),
        None => None,
    }
}

/// The five counts of a breakdown, in the order input, output, cached
/// input, reasoning, total.
pub fn token_fingerprint(tokens: TokenBreakdown) -> (fingerprint: [i64; 5])
    ensures
        fingerprint@ == seq![
            tokens.input_tokens,
            tokens.output_tokens,
            tokens.cached_input_tokens,
            tokens.reasoning_tokens,
            tokens.total_tokens,
        ],
{
    let fingerprint: [i64; 5] = [
        tokens.input_tokens,
        tokens.output_tokens,
        tokens.cached_input_tokens,
        tokens.reasoning_tokens,
        tokens.total_tokens,
    ];
    assert(fingerprint@ =~= seq![
        tokens.input_tokens,
        tokens.output_tokens,
        tokens.cached_input_tokens,
        tokens.reasoning_tokens,
        tokens.total_tokens,
    ]);
    fingerprint
}


/// The skill named by the member `field`, when it is a string naming one.
pub open spec fn named_skill(payload: JsonView, field: Seq<char>) -> Option<Seq<char>> {
    match string_field(payload, field) {
        Some(s) => canonical_skill(s),
        None => None,
    }
}

pub open spec fn opt_seq(o: Option<Seq<char>>) -> Seq<Seq<char>> {
    match o {
        Some(x) => seq![x],
        None => Seq::empty(),
    }
}

/// The skills that a payload names in its `skill_name`, `skill`, `skill_id`
/// and `skill_resource` members, in that order.
pub open spec fn explicit_names(payload: JsonView) -> Seq<Seq<char>> {
    opt_seq(named_skill(payload, "skill_name"@)) + opt_seq(named_skill(payload, "skill"@)) + opt_seq(
        named_skill(payload, "skill_id"@),
    ) + opt_seq(named_skill(payload, "skill_resource"@))
}

pub open spec fn string_views(v: Seq<String>) -> Seq<Seq<char>> {
    Seq::new(v.len(), |i: int| v[i]@)
}

fn push_named_skill(names: &mut Vec<String>, payload: &JsonValue, field: &str)
    ensures
        string_views(final(names)@) == string_views(old(names)@) + opt_seq(
            named_skill(json_view(*payload), field@),
        ),
{
    match get_str(payload, field) {
        Some(text) => match canonical_skill_name(text) {
            Some(name) => {
                let ghost before = string_views(names@);
                names.push(name);
                assert(string_views(names@) =~= before + seq![name@]);
            },
            None => {
                assert(string_views(names@) =~= string_views(names@) + Seq::<Seq<char>>::empty());
            },
        },
        None => {
            assert(string_views(names@) =~= string_views(names@) + Seq::<Seq<char>>::empty());
        },
    }
}

/// The skills that a payload names explicitly.
pub fn explicit_skill_names(payload: &JsonValue) -> (names: Vec<String>)
    ensures
        string_views(names@) == explicit_names(json_view(*payload)),
{
    let mut names: Vec<String> = Vec::new();
    assert(string_views(names@) =~= Seq::<Seq<char>>::empty());
    push_named_skill(&mut names, payload, "skill_name");
    push_named_skill(&mut names, payload, "skill");
    push_named_skill(&mut names, payload, "skill_id");
    push_named_skill(&mut names, payload, "skill_resource");
    names
}

/// The characters that end a word of free text when looking for skill paths.
pub open spec fn is_separator(c: char) -> bool {
    crate::text::is_white_space(c) || c == '"' || c == '\'' || c == '`' || c == ',' || c == ';'
        || c == '(' || c == ')' || c == '[' || c == ']' || c == '{' || c == '}'
}

fn separator(c: char) -> (r: bool)
    ensures
        r == is_separator(c),
{
    crate::text::white_space(c) || c == '"' || c == '\'' || c == '`' || c == ',' || c == ';' || c
        == '(' || c == ')' || c == '[' || c == ']' || c == '{' || c == '}'
}

/// `s[i..j]` is one of the pieces that splitting `s` at separators gives.
pub open spec fn is_word(s: Seq<char>, i: int, j: int) -> bool {
    &&& 0 <= i <= j <= s.len()
    &&& (i == 0 || is_separator(s[i - 1]))
    &&& (j == s.len() || is_separator(s[j]))
    &&& forall|m: int| i <= m < j ==> !is_separator(#[trigger] s[m])
}

/// The skills named by paths among the words of `s` that end before `k`.
pub open spec fn text_names_before(s: Seq<char>, k: int) -> Set<Seq<char>> {
    Set::new(
        |n: Seq<char>|
            exists|i: int, j: int|
                is_word(s, i, j) && j < k && #[trigger] crate::skills::skill_from_path(
                    s.subrange(i, j),
                ) == Some(n),
    )
}

/// The skills named by paths among the words of `s`.
pub open spec fn text_names(s: Seq<char>) -> Set<Seq<char>> {
    text_names_before(s, s.len() as int + 1)
}

/// The skills named by paths in the strings of a JSON value, at any depth.
pub open spec fn json_names(v: JsonView) -> Set<Seq<char>>
    decreases v,
{
    match v {
        JsonView::Str(s) => text_names(s),
        JsonView::Array(items) => items_names(items, items.len() as int),
        JsonView::Object(_, values) => items_names(values, values.len() as int),
        _ => Set::empty(),
    }
}

/// The skills named in the first `k` items.
pub open spec fn items_names(items: Seq<JsonView>, k: int) -> Set<Seq<char>>
    decreases items, k,
{
    if k <= 0 || k > items.len() {
        Set::empty()
    } else {
        items_names(items, k - 1) + json_names(items[k - 1])
    }
}

proof fn lemma_word_start(s: Seq<char>, start: int, i: int, k: int)
    requires
        0 <= start <= k,
        start == 0 || is_separator(s[start - 1]),
        forall|m: int| start <= m < k ==> !is_separator(#[trigger] s[m]),
        is_word(s, i, k),
    ensures
        i == start,
{
    if i < start {
        assert(!is_separator(s[start - 1]));
    } else if i > start {
        assert(!is_separator(s[i - 1]));
    }
}

pub open spec fn word_names(s: Seq<char>, i: int, j: int) -> Set<Seq<char>> {
    match crate::skills::skill_from_path(s.subrange(i, j)) {
        Some(n) => set![n],
        None => Set::empty(),
    }
}

proof fn lemma_names_step(s: Seq<char>, start: int, k: int)
    requires
        0 <= start <= k <= s.len(),
        start == 0 || is_separator(s[start - 1]),
        forall|m: int| start <= m < k ==> !is_separator(#[trigger] s[m]),
    ensures
        text_names_before(s, k + 1) == if k == s.len() || is_separator(s[k]) {
            text_names_before(s, k) + word_names(s, start, k)
        } else {
            text_names_before(s, k)
        },
{
    let ends = k == s.len() || is_separator(s[k]);
    let rhs = if ends {
        text_names_before(s, k) + word_names(s, start, k)
    } else {
        text_names_before(s, k)
    };
    assert forall|n: Seq<char>| text_names_before(s, k + 1).contains(n) implies rhs.contains(n) by {
        let (i, j) = choose|i: int, j: int|
            is_word(s, i, j) && j < k + 1 && #[trigger] crate::skills::skill_from_path(
                s.subrange(i, j),
            ) == Some(n);
        if j == k {
            lemma_word_start(s, start, i, k);
        } else {
            assert(text_names_before(s, k).contains(n));
        }
    }
    assert forall|n: Seq<char>| rhs.contains(n) implies text_names_before(s, k + 1).contains(n) by {
        if text_names_before(s, k).contains(n) {
            let (i, j) = choose|i: int, j: int|
                is_word(s, i, j) && j < k && #[trigger] crate::skills::skill_from_path(
                    s.subrange(i, j),
                ) == Some(n);
            assert(crate::skills::skill_from_path(s.subrange(i, j)) == Some(n));
        } else {
            assert(ends);
            assert(is_word(s, start, k));
            assert(crate::skills::skill_from_path(s.subrange(start, k)) == Some(n));
        }
    }
    assert(text_names_before(s, k + 1) =~= rhs);
}

fn add_word_name(chars: &Vec<char>, start: usize, end: usize, names: &mut Vec<Vec<char>>)
    requires
        start <= end <= chars@.len(),
        crate::order::strictly_sorted(crate::order::views_of(old(names)@)),
    ensures
        crate::order::strictly_sorted(crate::order::views_of(final(names)@)),
        crate::order::views_of(final(names)@).to_set() == crate::order::views_of(
            old(names)@,
        ).to_set() + word_names(chars@, start as int, end as int),
{
    let mut word: Vec<char> = Vec::new();
    let mut m: usize = start;
    while m < end
        invariant
            start <= m <= end <= chars@.len(),
            word@ == chars@.subrange(start as int, m as int),
        decreases end - m,
    {
        word.push(chars[m]);
        m = m + 1;
        assert(word@ =~= chars@.subrange(start as int, m as int));
    }
    let ghost before = crate::order::views_of(names@).to_set();
    match crate::skills::skill_name_from_path(&word) {
        Some(name) => {
            crate::order::insert_name(names, crate::text::chars_of(name.as_str()));
            assert(before.insert(name@) =~= before + set![name@]);
        },
        None => {
            assert(before + Set::empty() =~= before);
        },
    }
}

/// Adds the skills named by path words of `text` to a sorted list of names.
pub fn collect_text_names(text: &str, names: &mut Vec<Vec<char>>)
    requires
        crate::order::strictly_sorted(crate::order::views_of(old(names)@)),
    ensures
        crate::order::strictly_sorted(crate::order::views_of(final(names)@)),
        crate::order::views_of(final(names)@).to_set() == crate::order::views_of(
            old(names)@,
        ).to_set() + text_names(text@),
{
    let chars: Vec<char> = crate::text::chars_of(text);
    let ghost s = chars@;
    let ghost base = crate::order::views_of(names@).to_set();
    let mut start: usize = 0;
    let mut k: usize = 0;
    assert(text_names_before(s, 0) =~= Set::empty());
    assert(base + text_names_before(s, 0) =~= base);
    while k < chars.len()
        invariant
            s == chars@,
            start <= k <= s.len(),
            start == 0 || is_separator(s[start - 1]),
            forall|m: int| start <= m < k ==> !is_separator(#[trigger] s[m]),
            crate::order::strictly_sorted(crate::order::views_of(names@)),
            crate::order::views_of(names@).to_set() == base + text_names_before(s, k as int),
        decreases s.len() - k,
    {
        proof {
            lemma_names_step(s, start as int, k as int);
        }
        if separator(chars[k]) {
            let ghost mid = crate::order::views_of(names@).to_set();
            add_word_name(&chars, start, k, names);
            assert(mid + word_names(s, start as int, k as int) == base + text_names_before(
                s,
                k as int + 1,
            ));
            start = k + 1;
        }
        k = k + 1;
    }
    proof {
        lemma_names_step(s, start as int, k as int);
    }
    add_word_name(&chars, start, k, names);
}

fn collect_string_names(text: &String, names: &mut Vec<Vec<char>>)
    requires
        crate::order::strictly_sorted(crate::order::views_of(old(names)@)),
    ensures
        crate::order::strictly_sorted(crate::order::views_of(final(names)@)),
        crate::order::views_of(final(names)@).to_set() == crate::order::views_of(
            old(names)@,
        ).to_set() + text_names(text@),
{
    collect_text_names(text.as_str(), names)
}

fn collect_json_names(value: &JsonValue, names: &mut Vec<Vec<char>>)
    requires
        crate::order::strictly_sorted(crate::order::views_of(old(names)@)),
    ensures
        crate::order::strictly_sorted(crate::order::views_of(final(names)@)),
        crate::order::views_of(final(names)@).to_set() == crate::order::views_of(
            old(names)@,
        ).to_set() + json_names(json_view(*value)),
    decreases value, 1nat,
{
    match value {
        JsonValue::Str(text) => {
            assert(json_names(json_view(*value)) == text_names(text@));
            collect_string_names(text, names)
        },
        JsonValue::Array(items) => {
            proof {
                lemma_items_view(items@);
            }
            collect_items_names(items, value, names)
        },
        JsonValue::Object(_, values) => {
            proof {
                lemma_items_view(values@);
            }
            collect_items_names(values, value, names)
        },
        _ => {
            assert(json_names(json_view(*value)) =~= Set::empty());
            assert(crate::order::views_of(names@).to_set() + Set::empty() =~= crate::order::views_of(
                names@,
            ).to_set());
        },
    }
}

fn collect_items_names(items: &Vec<JsonValue>, whole: &JsonValue, names: &mut Vec<Vec<char>>)
    requires
        forall|i: int| 0 <= i < items@.len() ==> decreases_to!(*whole => #[trigger] items@[i]),
        crate::order::strictly_sorted(crate::order::views_of(old(names)@)),
    ensures
        crate::order::strictly_sorted(crate::order::views_of(final(names)@)),
        crate::order::views_of(final(names)@).to_set() == crate::order::views_of(
            old(names)@,
        ).to_set() + items_names(items_view(items@), items@.len() as int),
    decreases whole, 0nat,
{
    proof {
        lemma_items_view(items@);
    }
    let ghost views = items_view(items@);
    let ghost base = crate::order::views_of(names@).to_set();
    assert(base + items_names(views, 0) =~= base);
    let mut k: usize = 0;
    while k < items.len()
        invariant
            k <= items@.len(),
            views == items_view(items@),
            views.len() == items@.len(),
            forall|i: int| 0 <= i < items@.len() ==> #[trigger] views[i] == json_view(items@[i]),
            forall|i: int| 0 <= i < items@.len() ==> decreases_to!(*whole => #[trigger] items@[i]),
            crate::order::strictly_sorted(crate::order::views_of(names@)),
            crate::order::views_of(names@).to_set() == base + items_names(views, k as int),
        decreases items@.len() - k,
    {
        collect_json_names(&items[k], names);
        assert(views[k as int] == json_view(items@[k as int]));
        assert(items_names(views, k as int + 1) == items_names(views, k as int) + json_names(
            views[k as int],
        ));
        assert(base + items_names(views, k as int + 1) =~= base + items_names(views, k as int)
            + json_names(views[k as int]));
        k = k + 1;
    }
}

/// The skills that a tool call names: explicitly, or by a path to a
/// `SKILL.md` in any string of its payload.
pub open spec fn tool_name_set(payload: JsonView) -> Set<Seq<char>> {
    explicit_names(payload).to_set() + json_names(payload)
}

/// Those skills in ascending order, each once.
pub open spec fn tool_names(payload: JsonView) -> Seq<Seq<char>> {
    choose|s: Seq<Seq<char>>| crate::order::strictly_sorted(s) && s.to_set() == tool_name_set(payload)
}

/// The skills that a tool call names, sorted, each once.
pub fn tool_skill_names(payload: &JsonValue) -> (names: Vec<String>)
    ensures
        string_views(names@) == tool_names(json_view(*payload)),
{
    let explicit: Vec<String> = explicit_skill_names(payload);
    let ghost ex = string_views(explicit@);
    let mut sorted: Vec<Vec<char>> = Vec::new();
    assert(crate::order::views_of(sorted@) =~= Seq::<Seq<char>>::empty());
    assert(ex.take(0).to_set() =~= Set::empty());
    let mut k: usize = 0;
    while k < explicit.len()
        invariant
            k <= explicit@.len(),
            ex == string_views(explicit@),
            crate::order::strictly_sorted(crate::order::views_of(sorted@)),
            crate::order::views_of(sorted@).to_set() == ex.take(k as int).to_set(),
        decreases explicit@.len() - k,
    {
        crate::order::insert_name(&mut sorted, crate::text::chars_of(explicit[k].as_str()));
        assert(ex.take(k as int + 1) =~= ex.take(k as int).push(ex[k as int]));
        proof {
            broadcast use vstd::seq_lib::group_seq_properties;

            assert(ex.take(k as int).push(ex[k as int]).to_set() =~= ex.take(
                k as int,
            ).to_set().insert(ex[k as int]));
        }
        k = k + 1;
    }
    assert(ex.take(ex.len() as int) =~= ex);
    collect_json_names(payload, &mut sorted);
    let ghost p = json_view(*payload);
    let ghost sv = crate::order::views_of(sorted@);
    assert(sv.to_set() == tool_name_set(p));
    proof {
        let chosen = tool_names(p);
        assert(crate::order::strictly_sorted(chosen) && chosen.to_set() == tool_name_set(p));
        crate::order::lemma_sorted_unique(sv, chosen);
    }
    let mut names: Vec<String> = Vec::new();
    let mut m: usize = 0;
    while m < sorted.len()
        invariant
            m <= sorted@.len(),
            sv == crate::order::views_of(sorted@),
            string_views(names@) == sv.take(m as int),
        decreases sorted@.len() - m,
    {
        let text: String = crate::text::string_from_chars(sorted[m].as_slice());
        assert(text@ == sv[m as int]);
        let ghost before = string_views(names@);
        names.push(text);
        assert(string_views(names@) =~= before.push(sv[m as int]));
        assert(string_views(names@) =~= sv.take(m as int + 1));
        m = m + 1;
    }
    assert(sv.take(sv.len() as int) =~= sv);
    names
}


/// The reasoning count of a usage object is the member `reasoning_output_tokens`,
/// or, when only that is absent, its other name `reasoning_tokens`; an object
/// that gives both is no usage object. An object with only a reasoning count
/// decodes to that count and zeros.
pub proof fn lemma_reasoning_count_names(v: JsonView, n: u64, m: i64)
    requires
        v is Object,
        n <= i64::MAX,
    ensures
        json_get(v, "reasoning_output_tokens"@).is_some() && json_get(v, "reasoning_tokens"@).is_some()
            ==> decode_token_usage(v).is_none(),
        json_get(v, "reasoning_output_tokens"@) == Some(JsonView::Number(NumberView::PosInt(n)))
            && json_get(v, "reasoning_tokens"@).is_none() ==> (decode_token_usage(v) matches Some(
            r,
        ) ==> r.reasoning_output_tokens == n),
        json_get(v, "reasoning_tokens"@) == Some(JsonView::Number(NumberView::PosInt(n)))
            && json_get(v, "reasoning_output_tokens"@).is_none() ==> (decode_token_usage(v) matches Some(
            r,
        ) ==> r.reasoning_output_tokens == n),
        json_get(v, "reasoning_output_tokens"@) == Some(JsonView::Number(NumberView::NegInt(m)))
            && json_get(v, "reasoning_tokens"@).is_none() ==> (decode_token_usage(v) matches Some(
            r,
        ) ==> r.reasoning_output_tokens == m),
        json_get(v, "reasoning_tokens"@) == Some(JsonView::Number(NumberView::NegInt(m)))
            && json_get(v, "reasoning_output_tokens"@).is_none() ==> (decode_token_usage(v) matches Some(
            r,
        ) ==> r.reasoning_output_tokens == m),
        json_get(v, "input_tokens"@).is_none() && json_get(v, "output_tokens"@).is_none() && json_get(
            v,
            "cached_input_tokens"@,
        ).is_none() && json_get(v, "total_tokens"@).is_none() && (json_get(
            v,
            "reasoning_output_tokens"@,
        ) == Some(JsonView::Number(NumberView::PosInt(n))) && json_get(v, "reasoning_tokens"@).is_none()
            || json_get(v, "reasoning_tokens"@) == Some(JsonView::Number(NumberView::PosInt(n)))
            && json_get(v, "reasoning_output_tokens"@).is_none()) ==> decode_token_usage(v) == Some(
            TokenUsageRecord {
                input_tokens: 0,
                output_tokens: 0,
                cached_input_tokens: 0,
                reasoning_output_tokens: n as i64,
                total_tokens: 0,
            },
        ),
{
}


/// A usage array gives its counts by position: input, output, cached input,
/// reasoning, total; missing trailing counts are zero and more than five
/// elements is no usage object.
pub proof fn lemma_usage_array_positions(items: Seq<JsonView>, c: Seq<u64>)
    requires
        items.len() == c.len(),
        forall|k: int| 0 <= k < c.len() ==> c[k] <= i64::MAX && items[k] == JsonView::Number(
            NumberView::PosInt(#[trigger] c[k]),
        ),
    ensures
        items.len() > 5 ==> decode_token_usage(JsonView::Array(items)).is_none(),
        items.len() == 5 ==> decode_token_usage(JsonView::Array(items)) == Some(
            TokenUsageRecord {
                input_tokens: c[0] as i64,
                output_tokens: c[1] as i64,
                cached_input_tokens: c[2] as i64,
                reasoning_output_tokens: c[3] as i64,
                total_tokens: c[4] as i64,
            },
        ),
        items.len() == 2 ==> decode_token_usage(JsonView::Array(items)) == Some(
            TokenUsageRecord {
                input_tokens: c[0] as i64,
                output_tokens: c[1] as i64,
                cached_input_tokens: 0,
                reasoning_output_tokens: 0,
                total_tokens: 0,
            },
        ),
{
    if items.len() >= 2 {
        assert(items[0] == JsonView::Number(NumberView::PosInt(c[0])));
        assert(items[1] == JsonView::Number(NumberView::PosInt(c[1])));
    }
    if items.len() == 5 {
        assert(items[2] == JsonView::Number(NumberView::PosInt(c[2])));
        assert(items[3] == JsonView::Number(NumberView::PosInt(c[3])));
        assert(items[4] == JsonView::Number(NumberView::PosInt(c[4])));
    }
}

} // verus!
