use rquickjs_playground::json::{JsonNumber, JsonValue};
use rquickjs_playground::native::{
    bridge_call_inner, native_apply_op, native_buffer_free, native_buffer_put, native_buffer_put_raw,
    native_buffer_take, native_buffer_take_raw, native_exec, native_exec_chain, parse_argv,
    parse_bridge_args, parse_chain_steps, parse_u8_json_value, wasi_prepare,
    BridgeData, NativePool,
};

fn luma(r: u8, g: u8, b: u8) -> u8 {
    (0.299 * r as f32 + 0.587 * g as f32 + 0.114 * b as f32).round() as u8
}

fn num(n: u64) -> JsonValue {
    JsonValue::Number(JsonNumber { as_u64: Some(n), text: n.to_string() })
}

fn float() -> JsonValue {
    JsonValue::Number(JsonNumber { as_u64: None, text: "1.5".to_string() })
}

fn text(s: &str) -> JsonValue {
    JsonValue::String(s.to_string())
}

fn arr(items: Vec<JsonValue>) -> JsonValue {
    JsonValue::Array(items)
}

fn obj(fields: Vec<(&str, JsonValue)>) -> JsonValue {
    JsonValue::Object(fields.into_iter().map(|(k, v)| (k.to_string(), v)).collect())
}

fn bytes_json(bytes: &[u64]) -> JsonValue {
    arr(bytes.iter().map(|b| num(*b)).collect())
}

#[test]
fn put_raw_then_take_raw_roundtrip() {
    let mut pool = NativePool::new();
    let id = native_buffer_put_raw(&mut pool, vec![1, 2, 3]);
    assert_eq!(id, 1);
    let id2 = native_buffer_put_raw(&mut pool, vec![9]);
    assert_eq!(id2, 2);
    assert_eq!(native_buffer_take_raw(&mut pool, id), Some(vec![1, 2, 3]));
    assert_eq!(native_buffer_take_raw(&mut pool, id), None);
    assert_eq!(native_buffer_take_raw(&mut pool, id2), Some(vec![9]));
}

#[test]
fn take_and_free_report_missing_ids() {
    let mut pool = NativePool::new();
    assert_eq!(native_buffer_take(&mut pool, 5), Err("buffer id 不存在".to_string()));
    let id = native_buffer_put_raw(&mut pool, vec![7]);
    assert!(native_buffer_free(&mut pool, id));
    assert!(!native_buffer_free(&mut pool, id));
    let id = native_buffer_put_raw(&mut pool, vec![8]);
    assert_eq!(native_buffer_take(&mut pool, id), Ok(vec![8]));
}

#[test]
fn put_json_byte_array() {
    let mut pool = NativePool::new();
    let id = native_buffer_put(&mut pool, &bytes_json(&[0, 128, 255])).unwrap();
    assert_eq!(native_buffer_take_raw(&mut pool, id), Some(vec![0, 128, 255]));
    assert_eq!(native_buffer_put(&mut pool, &text("x")), Err("数据必须是字节数组".to_string()));
    assert_eq!(
        native_buffer_put(&mut pool, &bytes_json(&[1, 256])),
        Err("字节数组元素必须在 0-255 范围".to_string())
    );
    assert_eq!(
        native_buffer_put(&mut pool, &arr(vec![num(1), float(), num(300)])),
        Err("字节数组元素必须是整数".to_string())
    );
    // a refused put uses no id
    assert_eq!(native_buffer_put_raw(&mut pool, vec![]), 2);
}

#[test]
fn parse_u8_first_error_wins() {
    assert_eq!(
        parse_u8_json_value(&arr(vec![num(999), text("a")])),
        Err("字节数组元素必须在 0-255 范围".to_string())
    );
    assert_eq!(parse_u8_json_value(&arr(vec![])), Ok(vec![]));
}

#[test]
fn apply_invert_xor_noop() {
    assert_eq!(native_apply_op("invert", vec![0, 10, 255], None, &luma), Ok(vec![255, 245, 0]));
    assert_eq!(native_apply_op("xor", vec![0b1100, 1], Some(vec![0b1010, 1]), &luma), Ok(vec![0b0110, 0]));
    assert_eq!(native_apply_op("noop", vec![4, 5], None, &luma), Ok(vec![4, 5]));
}

#[test]
fn apply_errors() {
    assert_eq!(native_apply_op("xor", vec![1], None, &luma), Err("xor 需要第二个输入参数".to_string()));
    assert_eq!(
        native_apply_op("xor", vec![1], Some(vec![1, 2]), &luma),
        Err("xor 两个输入长度必须一致".to_string())
    );
    assert_eq!(native_apply_op("blur", vec![1], None, &luma), Err("不支持的 native op: blur".to_string()));
}

#[test]
fn apply_grayscale_keeps_alpha_and_tail() {
    let out = native_apply_op("grayscale_rgba", vec![10, 20, 30, 255, 255, 0, 0, 7, 99], None, &luma).unwrap();
    assert_eq!(out, vec![18, 18, 18, 255, 76, 76, 76, 7, 99]);
}

#[test]
fn exec_stores_output_and_consumes_input() {
    let mut pool = NativePool::new();
    let input = native_buffer_put_raw(&mut pool, vec![0, 1]);
    let out = native_exec(&mut pool, "invert", input, None, &luma).unwrap();
    assert_eq!(out, 2);
    assert_eq!(native_buffer_take_raw(&mut pool, input), None);
    assert_eq!(native_buffer_take_raw(&mut pool, out), Some(vec![255, 254]));
}

#[test]
fn exec_missing_ids() {
    let mut pool = NativePool::new();
    assert_eq!(native_exec(&mut pool, "noop", 1, None, &luma), Err("input id 不存在".to_string()));
    let input = native_buffer_put_raw(&mut pool, vec![5]);
    assert_eq!(native_exec(&mut pool, "xor", input, Some(77), &luma), Err("extra input id 不存在".to_string()));
    // the input was put back
    assert_eq!(native_buffer_take_raw(&mut pool, input), Some(vec![5]));
}

#[test]
fn exec_with_extra_input() {
    let mut pool = NativePool::new();
    let a = native_buffer_put_raw(&mut pool, vec![1, 2, 3]);
    let b = native_buffer_put_raw(&mut pool, vec![1, 2, 3]);
    let out = native_exec(&mut pool, "xor", a, Some(b), &luma).unwrap();
    assert_eq!(native_buffer_take_raw(&mut pool, out), Some(vec![0, 0, 0]));
    assert_eq!(native_buffer_take_raw(&mut pool, b), None);
}

#[test]
fn exec_failed_op_consumes_inputs() {
    let mut pool = NativePool::new();
    let a = native_buffer_put_raw(&mut pool, vec![1]);
    assert!(native_exec(&mut pool, "nope", a, None, &luma).is_err());
    assert_eq!(native_buffer_take_raw(&mut pool, a), None);
}

#[test]
fn chain_runs_steps_in_order() {
    let mut pool = NativePool::new();
    let input = native_buffer_put_raw(&mut pool, vec![10, 20, 30, 255]);
    let extra = native_buffer_put_raw(&mut pool, vec![255, 255, 255, 0]);
    let steps = arr(vec![
        obj(vec![("op", text("grayscale_rgba"))]),
        obj(vec![("op", text("xor")), ("extraInputId", num(extra))]),
        obj(vec![("op", text("invert"))]),
    ]);
    let out = native_exec_chain(&mut pool, input, &steps, &luma).unwrap();
    assert_eq!(native_buffer_take_raw(&mut pool, out), Some(vec![18, 18, 18, 0]));
    assert_eq!(native_buffer_take_raw(&mut pool, extra), None);
}

#[test]
fn chain_rejects_bad_steps() {
    let mut pool = NativePool::new();
    let input = native_buffer_put_raw(&mut pool, vec![1]);
    assert_eq!(native_exec_chain(&mut pool, input, &arr(vec![]), &luma), Err("steps 不能为空".to_string()));
    assert_eq!(native_exec_chain(&mut pool, input, &num(1), &luma), Err("steps 必须是数组".to_string()));
    assert_eq!(
        native_exec_chain(&mut pool, input, &arr(vec![num(1)]), &luma),
        Err("steps 元素必须是对象".to_string())
    );
    assert_eq!(
        native_exec_chain(&mut pool, input, &arr(vec![obj(vec![("x", num(1))])]), &luma),
        Err("steps 元素缺少 op 字段".to_string())
    );
    // the input is untouched by refused steps
    assert_eq!(native_buffer_take_raw(&mut pool, input), Some(vec![1]));
}

#[test]
fn chain_missing_extra_and_input() {
    let mut pool = NativePool::new();
    let steps = arr(vec![obj(vec![("op", text("xor")), ("extraInputId", num(50))])]);
    assert_eq!(native_exec_chain(&mut pool, 9, &steps, &luma), Err("input id 不存在".to_string()));
    let input = native_buffer_put_raw(&mut pool, vec![1]);
    assert_eq!(native_exec_chain(&mut pool, input, &steps, &luma), Err("extra input id 不存在".to_string()));
    assert_eq!(native_buffer_take_raw(&mut pool, input), None);
}

#[test]
fn parse_chain_steps_reads_extra_ids() {
    let steps = parse_chain_steps(&arr(vec![
        obj(vec![("op", text("noop"))]),
        obj(vec![("extraInputId", num(3)), ("op", text("xor"))]),
        obj(vec![("op", text("xor")), ("extraInputId", text("3"))]),
    ]))
    .unwrap();
    assert_eq!(steps.len(), 3);
    assert_eq!((steps[0].op.as_str(), steps[0].extra_input_id), ("noop", None));
    assert_eq!((steps[1].op.as_str(), steps[1].extra_input_id), ("xor", Some(3)));
    assert_eq!(steps[2].extra_input_id, None);
}

#[test]
fn argv_parsing() {
    assert_eq!(parse_argv(None), Ok(vec![]));
    assert_eq!(parse_argv(Some(Err("bad json".to_string()))), Err("bad json".to_string()));
    assert_eq!(parse_argv(Some(Ok(arr(vec![text("a"), text("b")])))), Ok(vec!["a".to_string(), "b".to_string()]));
    assert_eq!(parse_argv(Some(Ok(arr(vec![text("a"), num(1)])))), Err("argv 必须是字符串数组".to_string()));
    assert_eq!(parse_argv(Some(Ok(text("a")))), Err("argv 必须是字符串数组".to_string()));
}

#[test]
fn wasi_prepare_consumes_module_by_default() {
    let mut pool = NativePool::new();
    let module = native_buffer_put_raw(&mut pool, vec![0, 97, 115, 109]);
    let stdin = native_buffer_put_raw(&mut pool, vec![1, 2]);
    let job = wasi_prepare(&mut pool, module, Some(stdin), Some(Ok(arr(vec![text("-v")]))), true).unwrap();
    assert_eq!(job.wasm, vec![0, 97, 115, 109]);
    assert_eq!(job.stdin, vec![1, 2]);
    assert_eq!(job.argv, vec!["module.wasm".to_string(), "-v".to_string()]);
    let again = wasi_prepare(&mut pool, module, None, None, true);
    assert_eq!(again.err(), Some("module id 不存在".to_string()));
}

#[test]
fn wasi_prepare_keeps_module_when_asked() {
    let mut pool = NativePool::new();
    let module = native_buffer_put_raw(&mut pool, vec![5]);
    let job = wasi_prepare(&mut pool, module, None, None, false).unwrap();
    assert_eq!(job.stdin, Vec::<u8>::new());
    assert_eq!(job.argv, vec!["module.wasm".to_string()]);
    assert_eq!(native_buffer_take_raw(&mut pool, module), Some(vec![5]));
}

#[test]
fn wasi_prepare_errors_keep_order() {
    let mut pool = NativePool::new();
    let module = native_buffer_put_raw(&mut pool, vec![5]);
    let r = wasi_prepare(&mut pool, module, Some(99), None, true);
    assert_eq!(r.err(), Some("stdin id 不存在".to_string()));
    // the module was already taken
    assert_eq!(native_buffer_take_raw(&mut pool, module), None);
}

#[test]
fn bridge_args() {
    assert_eq!(parse_bridge_args(None).unwrap().len(), 0);
    assert_eq!(parse_bridge_args(Some(Ok(num(1)))).err(), Some("args 必须是数组".to_string()));
    assert_eq!(parse_bridge_args(Some(Ok(arr(vec![num(1), text("x")])))).unwrap().len(), 2);
}

#[test]
fn bridge_native_put_exec_take() {
    let mut pool = NativePool::new();
    let put = bridge_call_inner(&mut pool, "native.put", Some(Ok(arr(vec![bytes_json(&[1, 2, 3])]))), &luma);
    let input = match put {
        Ok(BridgeData::Id(id)) => id,
        _ => panic!("expected an id"),
    };
    let exec = bridge_call_inner(
        &mut pool,
        "native.exec",
        Some(Ok(arr(vec![text("invert"), num(input), JsonValue::Null, JsonValue::Null]))),
        &luma,
    );
    let out = match exec {
        Ok(BridgeData::Id(id)) => id,
        _ => panic!("expected an id"),
    };
    match bridge_call_inner(&mut pool, "native.take", Some(Ok(arr(vec![num(out)]))), &luma) {
        Ok(BridgeData::Bytes(b)) => assert_eq!(b, vec![254, 253, 252]),
        _ => panic!("expected bytes"),
    }
}

#[test]
fn bridge_errors() {
    let mut pool = NativePool::new();
    let e = |r: Result<BridgeData, String>| r.err().unwrap();
    assert_eq!(e(bridge_call_inner(&mut pool, "math.add", None, &luma)), "缺少参数: a");
    assert_eq!(e(bridge_call_inner(&mut pool, "math.add", Some(Ok(arr(vec![num(1), text("2")]))), &luma)), "参数 b 必须是数字");
    assert!(matches!(bridge_call_inner(&mut pool, "math.add", Some(Ok(arr(vec![num(1), float()]))), &luma), Ok(BridgeData::Sum)));
    assert_eq!(e(bridge_call_inner(&mut pool, "native.take", Some(Ok(arr(vec![text("1")]))), &luma)), "参数 id 必须是非负整数");
    assert_eq!(e(bridge_call_inner(&mut pool, "native.take", Some(Ok(arr(vec![num(1)]))), &luma)), "buffer id 不存在");
    assert_eq!(e(bridge_call_inner(&mut pool, "native.exec", Some(Ok(arr(vec![num(1)]))), &luma)), "参数 op 必须是字符串");
    assert_eq!(e(bridge_call_inner(&mut pool, "native.exec", Some(Ok(arr(vec![text("noop")]))), &luma)), "缺少参数: inputId");
    assert_eq!(e(bridge_call_inner(&mut pool, "native.put", None, &luma)), "缺少参数: bytes");
    assert_eq!(e(bridge_call_inner(&mut pool, "fs.read", None, &luma)), "不支持的 bridge 方法: fs.read");
}

#[test]
fn single_step_chain_matches_exec() {
    for op in ["invert", "grayscale_rgba", "noop", "xor", "bogus"] {
        let mut a = NativePool::new();
        let mut b = NativePool::new();
        let ia = native_buffer_put_raw(&mut a, vec![1, 2, 3, 4, 5]);
        let ib = native_buffer_put_raw(&mut b, vec![1, 2, 3, 4, 5]);
        let chain = native_exec_chain(&mut a, ia, &arr(vec![obj(vec![("op", text(op))])]), &luma);
        let single = native_exec(&mut b, op, ib, None, &luma);
        assert_eq!(chain, single);
        if let Ok(id) = chain {
            assert_eq!(native_buffer_take_raw(&mut a, id), native_buffer_take_raw(&mut b, id));
        }
        assert_eq!(native_buffer_take_raw(&mut a, ia), native_buffer_take_raw(&mut b, ib));
    }
}

#[test]
fn bridge_put_then_take_returns_bytes() {
    let mut pool = NativePool::new();
    let id = match bridge_call_inner(&mut pool, "native.put", Some(Ok(arr(vec![bytes_json(&[9, 8])]))), &luma) {
        Ok(BridgeData::Id(id)) => id,
        _ => panic!("expected an id"),
    };
    match bridge_call_inner(&mut pool, "native.take", Some(Ok(arr(vec![num(id)]))), &luma) {
        Ok(BridgeData::Bytes(b)) => assert_eq!(b, vec![9, 8]),
        _ => panic!("expected bytes"),
    }
    assert_eq!(native_buffer_take_raw(&mut pool, id), None);
}

#[test]
fn successive_allocations_get_increasing_ids() {
    let mut pool = NativePool::new();
    let a = native_buffer_put_raw(&mut pool, vec![1]);
    let b = native_buffer_put_raw(&mut pool, vec![2]);
    assert_eq!(native_buffer_take_raw(&mut pool, a), Some(vec![1]));
    let c = native_buffer_put_raw(&mut pool, vec![3]);
    assert_eq!((a, b, c), (1, 2, 3));
}
