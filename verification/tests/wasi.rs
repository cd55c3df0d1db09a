use rquickjs_playground::json::JsonValue;
use rquickjs_playground::native::{native_buffer_put_raw, native_buffer_take_raw, NativePool};
use rquickjs_playground::wasi::{exit_code_of, wasi_execute, wasi_run, wasi_store_output};
use rquickjs_playground::native::WasiJob;

/// A module whose `_start` returns at once.
fn empty_command() -> Vec<u8> {
    vec![
        0x00, 0x61, 0x73, 0x6d, 0x01, 0x00, 0x00, 0x00, // header
        0x01, 0x04, 0x01, 0x60, 0x00, 0x00, // type: () -> ()
        0x03, 0x02, 0x01, 0x00, // one function of that type
        0x07, 0x0a, 0x01, 0x06, 0x5f, 0x73, 0x74, 0x61, 0x72, 0x74, 0x00, 0x00, // export "_start"
        0x0a, 0x04, 0x01, 0x02, 0x00, 0x0b, // empty body
    ]
}

#[test]
fn wasi_run_missing_module_is_an_error() {
    let mut pool = NativePool::new();
    let r = wasi_run(&mut pool, 42, None, None, true);
    assert_eq!(r.err(), Some("module id 不存在".to_string()));
}

#[test]
fn wasi_run_invalid_module_consumes_inputs() {
    let mut pool = NativePool::new();
    let module = native_buffer_put_raw(&mut pool, vec![1, 2, 3, 4]);
    let stdin = native_buffer_put_raw(&mut pool, vec![9]);
    let r = wasi_run(&mut pool, module, Some(stdin), None, true);
    assert!(r.is_err());
    assert!(native_buffer_take_raw(&mut pool, module).is_none());
    assert!(native_buffer_take_raw(&mut pool, stdin).is_none());
    // the failed run stored nothing: the next buffer gets the id after stdin
    assert_eq!(native_buffer_put_raw(&mut pool, vec![]), stdin + 1);
}

#[test]
fn wasi_run_bad_args_keep_module_when_not_consumed() {
    let mut pool = NativePool::new();
    let module = native_buffer_put_raw(&mut pool, empty_command());
    let r = wasi_run(&mut pool, module, None, Some(Ok(JsonValue::Bool(true))), false);
    assert!(r.is_err());
    assert_eq!(native_buffer_take_raw(&mut pool, module), Some(empty_command()));
}

#[test]
fn wasi_run_empty_command_stores_two_outputs() {
    let mut pool = NativePool::new();
    let module = native_buffer_put_raw(&mut pool, empty_command());
    let report = wasi_run(&mut pool, module, None, None, false).unwrap();
    assert_eq!(report.exit_code, 0);
    assert_eq!(report.stdout_id, module + 1);
    assert_eq!(report.stderr_id, module + 2);
    assert_eq!(native_buffer_take_raw(&mut pool, report.stdout_id), Some(vec![]));
    assert_eq!(native_buffer_take_raw(&mut pool, report.stderr_id), Some(vec![]));
    assert!(native_buffer_take_raw(&mut pool, module).is_some());
}

#[test]
fn wasi_execute_reports_exit_code_zero() {
    let job = WasiJob { wasm: empty_command(), stdin: vec![], argv: vec!["module.wasm".to_string()] };
    assert_eq!(wasi_execute(job).outcome, Ok((None, vec![], vec![])));
}

#[test]
fn wasi_store_output_uses_two_fresh_ids() {
    let mut pool = NativePool::new();
    let report = wasi_store_output(&mut pool, Some(3), vec![104, 105], vec![]);
    assert_eq!((report.exit_code, report.stdout_id, report.stderr_id), (3, 1, 2));
    assert_eq!(native_buffer_take_raw(&mut pool, 1), Some(vec![104, 105]));
    assert_eq!(native_buffer_take_raw(&mut pool, 2), Some(vec![]));
}

#[test]
fn exit_code_of_returned_entry_is_zero() {
    assert_eq!(exit_code_of(None), 0);
    assert_eq!(exit_code_of(Some(7)), 7);
    assert_eq!(exit_code_of(Some(-1)), -1);
}

#[test]
fn wasi_run_reuses_kept_module() {
    let mut pool = NativePool::new();
    let module = native_buffer_put_raw(&mut pool, empty_command());
    let first = wasi_run(&mut pool, module, None, None, false).unwrap();
    let second = wasi_run(&mut pool, module, None, None, false).unwrap();
    assert_eq!((first.exit_code, second.exit_code), (0, 0));
    assert_eq!(native_buffer_take_raw(&mut pool, module), Some(empty_command()));
}

#[test]
fn wasi_run_consumed_module_is_gone_afterwards() {
    let mut pool = NativePool::new();
    let module = native_buffer_put_raw(&mut pool, empty_command());
    assert_eq!(wasi_run(&mut pool, module, None, None, true).unwrap().exit_code, 0);
    assert_eq!(wasi_run(&mut pool, module, None, None, true).err(), Some("module id 不存在".to_string()));
}

