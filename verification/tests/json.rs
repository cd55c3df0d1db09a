use rquickjs_playground::http::{plan_http_request, string_headers};
use rquickjs_playground::json::{call_payload_data, parse_host_ok_payload, take_field, JsonNumber, JsonValue};

fn num(n: u64) -> JsonValue {
    JsonValue::Number(JsonNumber { as_u64: Some(n), text: n.to_string() })
}

fn text(s: &str) -> JsonValue {
    JsonValue::String(s.to_string())
}

fn obj(fields: Vec<(&str, JsonValue)>) -> JsonValue {
    JsonValue::Object(fields.into_iter().map(|(k, v)| (k.to_string(), v)).collect())
}

#[test]
fn get_and_take_field() {
    let v = obj(vec![("a", num(1)), ("b", text("x"))]);
    assert_eq!(v.get("b").and_then(|x| x.as_str()).map(|s| s.as_str()), Some("x"));
    assert!(v.get("c").is_none());
    assert!(matches!(take_field(v, "a"), Some(JsonValue::Number(JsonNumber { as_u64: Some(1), .. }))));
    assert!(take_field(num(1), "a").is_none());
}

#[test]
fn call_payload_success_and_failure() {
    let ok = obj(vec![("ok", JsonValue::Bool(true)), ("data", text("d"))]);
    assert!(matches!(call_payload_data(ok), Ok(JsonValue::String(s)) if s == "d"));
    let ok_no_data = obj(vec![("ok", JsonValue::Bool(true))]);
    assert!(matches!(call_payload_data(ok_no_data), Ok(JsonValue::Null)));
    let failed = obj(vec![("ok", JsonValue::Bool(false)), ("error", text("bad"))]);
    assert_eq!(call_payload_data(failed).err(), Some("bad".to_string()));
    let odd = obj(vec![("ok", num(1))]);
    assert_eq!(call_payload_data(odd).err(), Some("调用失败".to_string()));
}

#[test]
fn host_ok_payload_keeps_success() {
    let ok = obj(vec![("ok", JsonValue::Bool(true)), ("id", num(3))]);
    let back = parse_host_ok_payload(ok).unwrap();
    assert_eq!(back.get("id").and_then(|v| v.as_u64()), Some(3));
    let failed = obj(vec![("error", text("input id 不存在"))]);
    assert_eq!(parse_host_ok_payload(failed).err(), Some("input id 不存在".to_string()));
}

#[test]
fn headers_keep_only_strings() {
    let h = obj(vec![("a", text("1")), ("b", num(2)), ("c", text("3"))]);
    assert_eq!(
        string_headers(&h),
        vec![("a".to_string(), "1".to_string()), ("c".to_string(), "3".to_string())]
    );
    assert!(string_headers(&text("x")).is_empty());
}

#[test]
fn plan_http_request_reads_method_then_headers() {
    let h = obj(vec![("accept", text("*/*")), ("n", num(1))]);
    let plan = plan_http_request("POST", Ok(h)).unwrap();
    assert_eq!(plan.method.text(), "POST");
    assert_eq!(plan.headers, vec![("accept".to_string(), "*/*".to_string())]);
    let custom = plan_http_request("PURGE", Ok(text("x"))).unwrap();
    assert_eq!(custom.method.text(), "PURGE");
    assert!(custom.headers.is_empty());
}

#[test]
fn plan_http_request_errors() {
    assert_eq!(plan_http_request("", Ok(obj(vec![]))).err(), Some("invalid HTTP method".to_string()));
    assert_eq!(plan_http_request("GE T", Err("bad json".to_string())).err(), Some("invalid HTTP method".to_string()));
    assert_eq!(plan_http_request("GET", Err("bad json".to_string())).err(), Some("bad json".to_string()));
    assert_eq!(plan_http_request("GÉT", Ok(obj(vec![]))).err(), Some("invalid HTTP method".to_string()));
    assert_eq!(plan_http_request("M(X)", Ok(obj(vec![]))).err(), Some("invalid HTTP method".to_string()));
    assert!(plan_http_request("X-CUSTOM_1.2~", Ok(obj(vec![]))).is_ok());
}
