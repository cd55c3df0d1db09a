use vstd::prelude::*;

verus! {

/// A JSON number: its literal text, and its value as an unsigned 64-bit
/// integer where it is one.
pub struct JsonNumber {
    pub as_u64: Option<u64>,
    pub text: String,
}

/// A JSON value handed over by a script. The keys of an object are
/// distinct and kept in their order.
pub enum JsonValue {
    Null,
    Bool(bool),
    Number(JsonNumber),
    String(String),
    Array(Vec<JsonValue>),
    Object(Vec<(String, JsonValue)>),
}

/// The value stored under `key` in the fields of an object: the first
/// field with that key.
pub open spec fn field_value(fields: Seq<(String, JsonValue)>, key: Seq<char>) -> Option<JsonValue>
    decreases fields.len(),
{
    if fields.len() == 0 {
        None
    } else if fields[0].0@ == key {
        Some(fields[0].1)
    } else {
        field_value(fields.drop_first(), key)
    }
}

/// The value stored under `key`, where `v` is an object that has it.
pub open spec fn spec_get(v: JsonValue, key: Seq<char>) -> Option<JsonValue> {
    match v {
        JsonValue::Object(fields) => field_value(fields@, key),
        _ => None,
    }
}

/// The text of a JSON string.
pub open spec fn spec_as_str(v: JsonValue) -> Option<Seq<char>> {
    match v {
        JsonValue::String(s) => Some(s@),
        _ => None,
    }
}

/// The value of a JSON number that is an unsigned 64-bit integer.
pub open spec fn spec_as_u64(v: JsonValue) -> Option<u64> {
    match v {
        JsonValue::Number(n) => n.as_u64,
        _ => None,
    }
}

/// The value of a JSON boolean.
pub open spec fn spec_as_bool(v: JsonValue) -> Option<bool> {
    match v {
        JsonValue::Bool(b) => Some(b),
        _ => None,
    }
}

/// Whether two texts are equal.
pub fn text_eq(a: &str, b: &str) -> (r: bool)
    ensures
        r == (a@ == b@),
{
    let a1 = a.to_string();
    let b1 = b.to_string();
    a1 == b1
}

impl JsonValue {
    /// The value stored under `key`, where `self` is an object that has it.
    pub fn get(&self, key: &str) -> (r: Option<&JsonValue>)
        ensures
            match r {
                Some(v) => spec_get(*self, key@) == Some(*v),
                None => spec_get(*self, key@) is None,
            },
    {
        match self {
            JsonValue::Object(fields) => {
                let n = fields.len();
                let mut i: usize = 0;
                assert(fields@.skip(0) =~= fields@);
                while i < n
                    invariant
                        n == fields@.len(),
                        i <= n,
                        spec_get(*self, key@) == field_value(fields@, key@),
                        field_value(fields@, key@) == field_value(fields@.skip(i as int), key@),
                    decreases n - i,
                {
                    proof {
                        assert(fields@.skip(i as int).drop_first() =~= fields@.skip(i as int + 1));
                        assert(fields@.skip(i as int)[0] == fields@[i as int]);
                    }
                    if text_eq(fields[i].0.as_str(), key) {
                        assert(fields@.skip(i as int).len() > 0);
                        assert(field_value(fields@.skip(i as int), key@) == Some(fields@[i as int].1));
                        return Some(&fields[i].1);
                    }
                    i = i + 1;
                }
                None
            },
            _ => None,
        }
    }

    /// The text of a JSON string.
    pub fn as_str(&self) -> (r: Option<&String>)
        ensures
            match r {
                Some(s) => spec_as_str(*self) == Some(s@),
                None => spec_as_str(*self) is None,
            },
    {
        match self {
            JsonValue::String(s) => Some(s),
            _ => None,
        }
    }

    /// The value of a JSON number that is an unsigned 64-bit integer.
    pub fn as_u64(&self) -> (r: Option<u64>)
        ensures
            r == spec_as_u64(*self),
    {
        match self {
            JsonValue::Number(n) => n.as_u64,
            _ => None,
        }
    }

    /// The value of a JSON boolean.
    pub fn as_bool(&self) -> (r: Option<bool>)
        ensures
            r == spec_as_bool(*self),
    {
        match self {
            JsonValue::Bool(b) => Some(*b),
            _ => None,
        }
    }
}

/// Takes the value stored under `key` out of an object.
pub fn take_field(value: JsonValue, key: &str) -> (r: Option<JsonValue>)
    ensures
        r == spec_get(value, key@),
{
    let ghost whole = value;
    let mut fields = match value {
        JsonValue::Object(fields) => fields,
        _ => {
            return None;
        },
    };
    let ghost all = fields@;
    assert(all.skip(0) =~= all);
    while fields.len() > 0
        invariant
            whole == value,
            spec_get(whole, key@) == field_value(all, key@),
            field_value(all, key@) == field_value(fields@, key@),
        decreases fields@.len(),
    {
        let ghost before = fields@;
        let (name, item) = fields.remove(0);
        proof {
            assert(before.drop_first() =~= fields@);
        }
        if text_eq(name.as_str(), key) {
            assert(before[0] == (name, item));
            assert(field_value(before, key@) == Some(item));
            return Some(item);
        }
    }
    None
}

/// The error text of a failure payload `{ok: false, error}`.
pub open spec fn payload_error(payload: JsonValue) -> Seq<char> {
    match spec_get(payload, "error"@) {
        Some(e) => match spec_as_str(e) {
            Some(t) => t,
            None => "调用失败"@,
        },
        None => "调用失败"@,
    }
}

/// Whether a payload reports success: `ok` is `true`.
pub open spec fn payload_ok(payload: JsonValue) -> bool {
    match spec_get(payload, "ok"@) {
        Some(o) => spec_as_bool(o) == Some(true),
        None => false,
    }
}

fn read_payload_ok(payload: &JsonValue) -> (r: bool)
    ensures
        r == payload_ok(*payload),
{
    match payload.get("ok") {
        Some(o) => match o.as_bool() {
            Some(b) => b,
            None => false,
        },
        None => false,
    }
}

fn read_payload_error(payload: &JsonValue) -> (r: String)
    ensures
        r@ == payload_error(*payload),
{
    match payload.get("error") {
        Some(e) => match e.as_str() {
            Some(t) => t.clone(),
            None => "调用失败".to_string(),
        },
        None => "调用失败".to_string(),
    }
}

/// The mathematical value of a result that holds a JSON value.
pub open spec fn value_result_view(r: Result<JsonValue, String>) -> Result<JsonValue, Seq<char>> {
    match r {
        Ok(v) => Ok(v),
        Err(e) => Err(e@),
    }
}

/// A host reply `{ok: true, ...}` as it is, or the error text of a
/// failure reply.
pub fn parse_host_ok_payload(payload: JsonValue) -> (r: Result<JsonValue, String>)
    ensures
        value_result_view(r) == if payload_ok(payload) {
            Ok::<JsonValue, Seq<char>>(payload)
        } else {
            Err::<JsonValue, Seq<char>>(payload_error(payload))
        },
{
    if read_payload_ok(&payload) {
        Ok(payload)
    } else {
        Err(read_payload_error(&payload))
    }
}

/// The `data` of a reply `{ok: true, data}` from a script function
/// (`null` when absent), or the error text of a failure reply.
pub fn call_payload_data(payload: JsonValue) -> (r: Result<JsonValue, String>)
    ensures
        value_result_view(r) == if payload_ok(payload) {
            Ok::<JsonValue, Seq<char>>(match spec_get(payload, "data"@) {
                Some(d) => d,
                None => JsonValue::Null,
            })
        } else {
            Err::<JsonValue, Seq<char>>(payload_error(payload))
        },
{
    if read_payload_ok(&payload) {
        match take_field(payload, "data") {
            Some(d) => Ok(d),
            None => Ok(JsonValue::Null),
        }
    } else {
        Err(read_payload_error(&payload))
    }
}

} // verus!
