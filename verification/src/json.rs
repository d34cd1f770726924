//! JSON values as the session parser reads them.
use vstd::prelude::*;

verus! {

broadcast use vstd::std_specs::vec::group_vec_axioms;

/// `serde_json::Value`, carried only between the parser and its conversion.
#[verifier::external_type_specification]
#[verifier::external_body]
pub struct ExSerdeJsonValue(serde_json::Value);

/// `serde_json::Number`, carried only into its conversion.
#[verifier::external_type_specification]
#[verifier::external_body]
pub struct ExSerdeJsonNumber(serde_json::Number);

/// A JSON number: a non-negative integer, a negative integer, or any other
/// number kept as the text that `serde_json` prints for it.
#[derive(Debug, Clone)]
pub enum JsonNumber {
    PosInt(u64),
    NegInt(i64),
    Float(String),
}

/// A parsed JSON value. Object members are kept in ascending key order,
/// each key once, as `serde_json` stores them.
#[derive(Debug)]
pub enum JsonValue {
    Null,
    Bool(bool),
    Number(JsonNumber),
    Str(String),
    Array(Vec<JsonValue>),
    /// The member keys and, at the same positions, their values.
    Object(Vec<String>, Vec<JsonValue>),
}

pub enum NumberView {
    PosInt(u64),
    NegInt(i64),
    Float(Seq<char>),
}

/// The mathematical content of a JSON value.
pub enum JsonView {
    Null,
    Bool(bool),
    Number(NumberView),
    Str(Seq<char>),
    Array(Seq<JsonView>),
    Object(Seq<Seq<char>>, Seq<JsonView>),
}

pub open spec fn number_view(n: JsonNumber) -> NumberView {
    match n {
        JsonNumber::PosInt(u) => NumberView::PosInt(u),
        JsonNumber::NegInt(i) => NumberView::NegInt(i),
        JsonNumber::Float(text) => NumberView::Float(text@),
    }
}

pub open spec fn json_view(v: JsonValue) -> JsonView
    decreases v,
{
    match v {
        JsonValue::Null => JsonView::Null,
        JsonValue::Bool(b) => JsonView::Bool(b),
        JsonValue::Number(n) => JsonView::Number(number_view(n)),
        JsonValue::Str(s) => JsonView::Str(s@),
        JsonValue::Array(items) => JsonView::Array(items_view(items@)),
        JsonValue::Object(keys, values) => JsonView::Object(keys_view(keys@), items_view(values@)),
    }
}

pub open spec fn items_view(items: Seq<JsonValue>) -> Seq<JsonView>
    decreases items,
{
    if items.len() == 0 {
        Seq::empty()
    } else {
        items_view(items.drop_last()).push(json_view(items.last()))
    }
}

pub open spec fn keys_view(keys: Seq<String>) -> Seq<Seq<char>> {
    Seq::new(keys.len(), |i: int| keys[i]@)
}

pub proof fn lemma_items_view(items: Seq<JsonValue>)
    ensures
        items_view(items).len() == items.len(),
        forall|i: int| 0 <= i < items.len() ==> #[trigger] items_view(items)[i] == json_view(items[i]),
    decreases items.len(),
{
    if items.len() > 0 {
        lemma_items_view(items.drop_last());
    }
}

/// The value of the first member named `key`, from position `i` on.
pub open spec fn members_get_from(keys: Seq<Seq<char>>, values: Seq<JsonView>, key: Seq<char>, i: int) -> Option<JsonView>
    decreases keys.len() - i,
{
    if i < 0 || i >= keys.len() || i >= values.len() {
        None
    } else if keys[i] == key {
        Some(values[i])
    } else {
        members_get_from(keys, values, key, i + 1)
    }
}

/// `value.get(key)`: the member `key` of an object; nothing for other values.
pub open spec fn json_get(v: JsonView, key: Seq<char>) -> Option<JsonView> {
    match v {
        JsonView::Object(keys, values) => members_get_from(keys, values, key, 0),
        _ => None,
    }
}

/// `value.get(key).and_then(Value::as_str)`.
pub open spec fn string_field(v: JsonView, key: Seq<char>) -> Option<Seq<char>> {
    match json_get(v, key) {
        Some(JsonView::Str(s)) => Some(s),
        _ => None,
    }
}

pub open spec fn opt_view(v: Option<&JsonValue>) -> Option<JsonView> {
    match v {
        Some(x) => Some(json_view(*x)),
        None => None,
    }
}

/// The member `key` of an object value.
pub fn get<'a>(value: &'a JsonValue, key: &str) -> (member: Option<&'a JsonValue>)
    ensures
        opt_view(member) == json_get(json_view(*value), key@),
{
    match value {
        JsonValue::Object(keys, values) => {
            proof {
                lemma_items_view(values@);
            }
            let ghost kv = keys_view(keys@);
            let ghost vv = items_view(values@);
            assert(json_view(*value) == JsonView::Object(kv, vv));
            let mut k: usize = 0;
            while k < keys.len() && k < values.len()
                invariant
                    json_view(*value) == JsonView::Object(kv, vv),
                    k <= keys@.len(),
                    kv == keys_view(keys@),
                    vv == items_view(values@),
                    vv.len() == values@.len(),
                    forall|i: int| 0 <= i < values@.len() ==> #[trigger] vv[i] == json_view(values@[i]),
                    members_get_from(kv, vv, key@, 0) == members_get_from(kv, vv, key@, k as int),
                decreases keys@.len() - k,
            {
                if crate::text::str_eq(keys[k].as_str(), key) {
                    assert(kv[k as int] == key@);
                    assert(vv[k as int] == json_view(values@[k as int]));
                    return Some(&values[k]);
                }
                assert(kv[k as int] != key@);
                k = k + 1;
            }
            None
        },
        _ => None,
    }
}

/// The text of the member `key`, when it is a string.
pub fn get_str<'a>(value: &'a JsonValue, key: &str) -> (text: Option<&'a str>)
    ensures
        match text {
            Some(t) => string_field(json_view(*value), key@) == Some(t@),
            None => string_field(json_view(*value), key@).is_none(),
        },
{
    match get(value, key) {
        Some(JsonValue::Str(s)) => Some(s.as_str()),
        _ => None,
    }
}

pub open spec fn opt_str_view(s: Option<&str>) -> Option<Seq<char>> {
    match s {
        Some(t) => Some(t@),
        None => None,
    }
}

fn numbers_equal(a: &JsonNumber, b: &JsonNumber) -> (same: bool)
    ensures
        same == (number_view(*a) == number_view(*b)),
{
    match (a, b) {
        (JsonNumber::PosInt(x), JsonNumber::PosInt(y)) => *x == *y,
        (JsonNumber::NegInt(x), JsonNumber::NegInt(y)) => *x == *y,
        (JsonNumber::Float(x), JsonNumber::Float(y)) => crate::text::str_eq(x.as_str(), y.as_str()),
        _ => false,
    }
}

fn keys_equal(x: &Vec<String>, y: &Vec<String>) -> (same: bool)
    ensures
        same == (keys_view(x@) == keys_view(y@)),
{
    if x.len() != y.len() {
        assert(keys_view(x@).len() != keys_view(y@).len());
        return false;
    }
    let mut k: usize = 0;
    while k < x.len()
        invariant
            k <= x@.len(),
            x@.len() == y@.len(),
            forall|i: int| 0 <= i < k ==> (#[trigger] x@[i])@ == y@[i]@,
        decreases x@.len() - k,
    {
        if x[k] != y[k] {
            assert(keys_view(x@)[k as int] != keys_view(y@)[k as int]);
            return false;
        }
        k = k + 1;
    }
    assert(keys_view(x@) =~= keys_view(y@));
    true
}

fn values_equal(x: &Vec<JsonValue>, y: &Vec<JsonValue>, whole: &JsonValue) -> (same: bool)
    requires
        forall|i: int| 0 <= i < x@.len() ==> decreases_to!(*whole => #[trigger] x@[i]),
    ensures
        same == (items_view(x@) == items_view(y@)),
    decreases whole, 0nat,
{
    proof {
        lemma_items_view(x@);
        lemma_items_view(y@);
    }
    if x.len() != y.len() {
        return false;
    }
    let mut k: usize = 0;
    while k < x.len()
        invariant
            k <= x@.len(),
            x@.len() == y@.len(),
            items_view(x@).len() == x@.len(),
            items_view(y@).len() == y@.len(),
            forall|i: int| 0 <= i < x@.len() ==> #[trigger] items_view(x@)[i] == json_view(x@[i]),
            forall|i: int| 0 <= i < y@.len() ==> #[trigger] items_view(y@)[i] == json_view(y@[i]),
            forall|i: int| 0 <= i < k ==> json_view(#[trigger] x@[i]) == json_view(y@[i]),
            forall|i: int| 0 <= i < x@.len() ==> decreases_to!(*whole => #[trigger] x@[i]),
        decreases x@.len() - k,
    {
        if !json_equal(&x[k], &y[k]) {
            assert(items_view(x@)[k as int] != items_view(y@)[k as int]);
            return false;
        }
        k = k + 1;
    }
    assert(items_view(x@) =~= items_view(y@));
    true
}

/// Whether two values have the same content.
pub fn json_equal(a: &JsonValue, b: &JsonValue) -> (same: bool)
    ensures
        same == (json_view(*a) == json_view(*b)),
    decreases a, 1nat,
{
    match (a, b) {
        (JsonValue::Null, JsonValue::Null) => true,
        (JsonValue::Bool(x), JsonValue::Bool(y)) => *x == *y,
        (JsonValue::Number(x), JsonValue::Number(y)) => numbers_equal(x, y),
        (JsonValue::Str(x), JsonValue::Str(y)) => crate::text::str_eq(x.as_str(), y.as_str()),
        (JsonValue::Array(x), JsonValue::Array(y)) => values_equal(x, y, a),
        (JsonValue::Object(xk, xv), JsonValue::Object(yk, yv)) => {
            if !keys_equal(xk, yk) {
                return false;
            }
            values_equal(xv, yv, a)
        },
        _ => false,
    }
}

/// What `serde_json` parses from the given bytes, as a JSON value; nothing
/// when the bytes are not exactly one JSON value (surrounding white space aside).
pub uninterp spec fn json_parse(bytes: Seq<u8>) -> Option<JsonView>;

/// `serde_json::from_slice::<serde_json::Value>`, converted one for one. The
/// value is named (`json_parse`): the contract claims that the same bytes
/// always give the same value and that the bytes are refused exactly when
/// the name says so; it does not restate the JSON grammar.
#[verifier::external_body]
pub(crate) fn parse_json(bytes: &[u8]) -> (value: Option<JsonValue>)
    ensures
        match value {
            Some(v) => json_parse(bytes@) == Some(json_view(v)),
            None => json_parse(bytes@).is_none(),
        },
{
    match serde_json::from_slice::<serde_json::Value>(bytes) {
        Ok(value) => Some(from_serde(value)),
        Err(_) => None,
    }
}

/// The one-for-one conversion of a `serde_json::Value` that `parse_json` returns.
#[verifier::external_body]
fn from_serde(value: serde_json::Value) -> JsonValue {
    match value {
        serde_json::Value::Null => JsonValue::Null,
        serde_json::Value::Bool(b) => JsonValue::Bool(b),
        serde_json::Value::Number(n) => JsonValue::Number(from_number(n)),
        serde_json::Value::String(s) => JsonValue::Str(s),
        serde_json::Value::Array(items) => JsonValue::Array(items.into_iter().map(from_serde).collect()),
        serde_json::Value::Object(map) => {
            let (keys, values) = map.into_iter().map(|(k, v)| (k, from_serde(v))).unzip();
            JsonValue::Object(keys, values)
        },
    }
}

/// The one-for-one conversion of a `serde_json::Number`: its non-negative
/// integer, its negative integer, or its printed text for other numbers.
#[verifier::external_body]
fn from_number(n: serde_json::Number) -> JsonNumber {
    match (n.as_u64(), n.as_i64()) {
        (Some(u), _) => JsonNumber::PosInt(u),
        (None, Some(i)) => JsonNumber::NegInt(i),
        (None, None) => JsonNumber::Float(n.to_string()),
    }
}

} // verus!
