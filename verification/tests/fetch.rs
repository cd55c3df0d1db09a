use rquickjs_playground::script::{run_async_script, HostRuntime};

#[test]
fn fetch_abort_controller() {
    let script = r#"
      (async () => {
        const controller = new AbortController();
        controller.abort("cancelled");
        try {
          await fetch("http://127.0.0.1:9/unreachable", { signal: controller.signal });
          return "unexpected";
        } catch (err) {
          return `${err.name}:${String(err.message || "")}`;
        }
      })()
    "#;

    let result = run_async_script(script).expect("执行脚本失败");
    assert!(result.starts_with("AbortError:"));
}

#[test]
fn script_settles_with_text() {
    let out = run_async_script("(async () => { await null; return 'a' + 'b'; })()").expect("执行脚本失败");
    assert_eq!(out, "ab");
}

#[test]
fn script_rejection_is_an_error() {
    assert!(run_async_script("Promise.reject(new Error('no'))").is_err());
}

#[test]
fn headers_and_abort_signal_globals() {
    let out = rquickjs_playground::run_async_script_with_axios(
        "(async () => { const h = new Headers({'X-A': '1'}); h.append('x-a', '2'); \
         const c = new AbortController(); let seen = 0; c.signal.addEventListener('abort', () => { seen += 1; }); \
         c.abort(); c.abort(); return h.get('X-a') + '|' + c.signal.aborted + '|' + seen; })()",
    )
    .expect("执行脚本失败");
    assert_eq!(out, "1, 2|true|1");
}

#[test]
fn pump_jobs_on_idle_runtime() {
    let mut host = HostRuntime::new(false).unwrap();
    assert_eq!(host.pump_jobs(10), Ok(0));
}

#[test]
fn pump_jobs_runs_queued_jobs_up_to_the_limit() {
    let mut host = HostRuntime::new(false).unwrap();
    host.with_context(|ctx| ctx.eval::<(), _>("Promise.resolve().then(() => 1); Promise.resolve().then(() => 2);"))
        .unwrap();
    assert_eq!(host.pump_jobs(0), Ok(0));
    assert_eq!(host.pump_jobs(1), Ok(1));
    assert_eq!(host.pump_jobs(10), Ok(1));
    assert_eq!(host.pump_jobs(10), Ok(0));
}

#[test]
fn submit_without_dispatcher_fails() {
    let mut host = HostRuntime::new(false).unwrap();
    let err = host.submit_async_task(1, 1, "1").unwrap_err();
    assert!(err.starts_with("任务提交到 JS 失败: "));
}

#[test]
fn web_globals_are_installed_by_new() {
    let mut host = HostRuntime::new(true).unwrap();
    let kind: String = host
        .with_context(|ctx| ctx.eval::<String, _>("typeof AbortController + ',' + typeof fetch"))
        .unwrap();
    assert_eq!(kind, "function,function");
}

#[test]
fn global_call_script_calls_the_named_function() {
    let call = rquickjs_playground::script::global_call_script("\"twice\"", "[21]");
    let script = format!("globalThis.twice = async (x) => x * 2;{}", call);
    assert_eq!(run_async_script(&script).unwrap(), "{\"ok\":true,\"data\":42}");
    let missing = rquickjs_playground::script::global_call_script("\"nope\"", "[]");
    assert!(run_async_script(&missing).is_err());
}

#[test]
fn submit_hands_ids_and_script_in_order() {
    let mut host = HostRuntime::new(false).unwrap();
    host.with_context(|ctx| {
        ctx.eval::<(), _>(
            "globalThis.__seen = ''; globalThis.__host_runtime_dispatch_task = (r, t, s) => { __seen = r + '/' + t + '/' + s; };",
        )
    })
    .unwrap();
    assert_eq!(host.submit_async_task(7, 9, "1+1"), Ok(()));
    let seen: String = host.with_context(|ctx| ctx.eval::<String, _>("__seen")).unwrap();
    assert_eq!(seen, "7/9/1+1");
}
