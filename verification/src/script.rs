use rquickjs::{Context, Promise, Runtime};
use vstd::prelude::*;

verus! {

#[verifier::external_type_specification]
#[verifier::external_body]
pub struct ExJsRuntime(rquickjs::Runtime);

#[verifier::external_type_specification]
#[verifier::external_body]
pub struct ExJsContext(rquickjs::Context);

#[verifier::external_type_specification]
#[verifier::external_body]
pub struct ExJsError(rquickjs::Error);

/// Why a script could not be run or did not settle with a text.
#[derive(Debug)]
pub struct ScriptError {
    pub message: String,
}

/// The script that sets up the web-style globals (`AbortController`,
/// `Headers`, `Response`, `fetch`) on top of the host functions.
pub const WEB_POLYFILL: &'static str = r#"(function () {
  const g = globalThis;
  if (typeof g.console === "undefined") {
    g.console = { log() {}, info() {}, warn() {}, error() {}, debug() {} };
  }
  class DOMException extends Error {
    constructor(message, name) {
      super(message === undefined ? "" : String(message));
      this.name = name === undefined ? "Error" : String(name);
    }
  }
  class AbortSignal {
    constructor() {
      this.aborted = false;
      this.reason = undefined;
      this._listeners = [];
      this.onabort = null;
    }
    addEventListener(type, fn) {
      if (type === "abort" && typeof fn === "function") this._listeners.push(fn);
    }
    removeEventListener(type, fn) {
      this._listeners = this._listeners.filter((f) => f !== fn);
    }
    throwIfAborted() {
      if (this.aborted) throw this.reason;
    }
    _abort(reason) {
      if (this.aborted) return;
      this.aborted = true;
      this.reason = reason === undefined ? new DOMException("This operation was aborted", "AbortError") : reason;
      const event = { type: "abort", target: this };
      if (typeof this.onabort === "function") this.onabort(event);
      for (const fn of this._listeners.slice()) fn(event);
    }
  }
  class AbortController {
    constructor() {
      this.signal = new AbortSignal();
    }
    abort(reason) {
      this.signal._abort(reason);
    }
  }
  class Headers {
    constructor(init) {
      this._map = {};
      if (init instanceof Headers) {
        for (const k of Object.keys(init._map)) this._map[k] = init._map[k];
      } else if (Array.isArray(init)) {
        for (const [k, v] of init) this.append(k, v);
      } else if (init && typeof init === "object") {
        for (const k of Object.keys(init)) this.append(k, init[k]);
      }
    }
    append(k, v) {
      const key = String(k).toLowerCase();
      this._map[key] = key in this._map ? this._map[key] + ", " + String(v) : String(v);
    }
    set(k, v) { this._map[String(k).toLowerCase()] = String(v); }
    get(k) { const key = String(k).toLowerCase(); return key in this._map ? this._map[key] : null; }
    has(k) { return String(k).toLowerCase() in this._map; }
    delete(k) { delete this._map[String(k).toLowerCase()]; }
    forEach(fn) { for (const k of Object.keys(this._map)) fn(this._map[k], k, this); }
    entries() { return Object.keys(this._map).map((k) => [k, this._map[k]])[Symbol.iterator](); }
    toObject() { const out = {}; for (const k of Object.keys(this._map)) out[k] = this._map[k]; return out; }
  }
  class Response {
    constructor(body, init) {
      const opts = init || {};
      this._body = body === undefined || body === null ? "" : String(body);
      this.status = opts.status === undefined ? 200 : opts.status;
      this.statusText = opts.statusText || "";
      this.headers = new Headers(opts.headers || {});
      this.url = opts.url || "";
      this.ok = this.status >= 200 && this.status < 300;
    }
    async text() { return this._body; }
    async json() { return JSON.parse(this._body); }
  }
  function abortError(signal) {
    const reason = signal.reason;
    if (reason instanceof Error && reason.name === "AbortError") return reason;
    return new DOMException(reason === undefined ? "This operation was aborted" : String(reason), "AbortError");
  }
  async function fetch(input, init) {
    const opts = init || {};
    const signal = opts.signal;
    if (signal && signal.aborted) throw abortError(signal);
    if (typeof g.__http_request !== "function") {
      throw new TypeError("fetch is not available: the host offers no HTTP function");
    }
    const method = String(opts.method || "GET").toUpperCase();
    const headers = new Headers(opts.headers || {});
    const body = opts.body === undefined || opts.body === null ? undefined : String(opts.body);
    const raw = g.__http_request(method, String(input), JSON.stringify(headers.toObject()), body);
    if (signal && signal.aborted) throw abortError(signal);
    const payload = JSON.parse(raw);
    if (!payload.ok) throw new TypeError(String(payload.error));
    return new Response(payload.body, {
      status: payload.status,
      statusText: payload.statusText,
      headers: payload.headers,
      url: payload.url,
    });
  }
  g.DOMException = DOMException;
  g.AbortSignal = AbortSignal;
  g.AbortController = AbortController;
  g.Headers = Headers;
  g.Response = Response;
  g.fetch = fetch;
})();
"#;

/// The axios bundle that a runtime may load on top of the web globals;
/// this build ships none.
pub const AXIOS_BUNDLE: &'static str = "";

/// `rquickjs::Runtime::new`: a fresh script engine, or the engine's error.
#[verifier::external_body]
fn js_runtime_new() -> Result<Runtime, rquickjs::Error> {
    Runtime::new()
}

/// `rquickjs::Context::full`: a context with all standard globals, or the
/// engine's error.
#[verifier::external_body]
fn js_context_full(runtime: &Runtime) -> Result<Context, rquickjs::Error> {
    Context::full(runtime)
}

/// `rquickjs::Error`'s `Display` text.
#[verifier::external_body]
fn js_error_text(error: &rquickjs::Error) -> String {
    error.to_string()
}

/// `Runtime::is_job_pending`: whether the engine's job queue holds a job.
/// It locks the runtime; only `HostRuntime::pump_jobs`, which holds the
/// runtime mutably, calls it, so no `Context::with` is under way.
#[verifier::external_body]
fn js_is_job_pending(runtime: &Runtime) -> bool {
    runtime.is_job_pending()
}

/// The text of a `JobException`: its `Display` prints this fixed text and
/// nothing of the exception itself.
pub open spec fn job_exception_text() -> Seq<char> {
    "Job raised an exception"@
}

/// `Runtime::execute_pending_job`: runs the first pending job; `Ok(false)`
/// when the queue was empty, `Err` with the `JobException`'s text when the
/// job threw. It locks the runtime, as `js_is_job_pending` does.
#[verifier::external_body]
fn js_execute_pending_job(runtime: &Runtime) -> (r: Result<bool, String>)
    ensures
        r matches Err(e) ==> e@ == job_exception_text(),
{
    match runtime.execute_pending_job() {
        Ok(ran) => Ok(ran),
        Err(exception) => Err(exception.to_string()),
    }
}

fn script_error(error: rquickjs::Error) -> ScriptError {
    ScriptError { message: js_error_text(&error) }
}

/// The error text that `pump_jobs` reports for a job that threw.
pub open spec fn job_error_message(detail: Seq<char>) -> Seq<char> {
    "执行 JS event loop job 失败: "@ + detail
}

/// The error text that `submit_async_task` reports when the dispatcher
/// could not be reached or threw.
pub open spec fn submit_error_message(detail: Seq<char>) -> Seq<char> {
    "任务提交到 JS 失败: "@ + detail
}

/// One answer of the engine while jobs are pumped: whether a job was
/// pending, or what running one gave.
pub enum JobAnswer {
    Pending(bool),
    Ran(Result<bool, Seq<char>>),
}

/// The answer recorded for one run of a pending job.
pub open spec fn ran_answer(ran: Result<bool, String>) -> JobAnswer {
    match ran {
        Ok(b) => JobAnswer::Ran(Ok(b)),
        Err(e) => JobAnswer::Ran(Err(e@)),
    }
}

/// What pumping gives when the engine answers `a` in turn, `executed` jobs
/// have run and at most `max_jobs` may: while fewer than `max_jobs` ran,
/// ask whether a job is pending and run it; stop at the first "no", at a
/// run that found no job, or at a job that threw.
pub open spec fn pump_fold(a: Seq<JobAnswer>, executed: nat, max_jobs: nat) -> Result<nat, Seq<char>>
    decreases a.len(),
{
    if executed >= max_jobs || a.len() == 0 {
        Ok(executed)
    } else {
        match a[0] {
            JobAnswer::Pending(true) => {
                if a.len() < 2 {
                    Ok(executed)
                } else {
                    match a[1] {
                        JobAnswer::Ran(Ok(true)) => pump_fold(a.skip(2), executed + 1, max_jobs),
                        JobAnswer::Ran(Err(d)) => Err(job_error_message(d)),
                        _ => Ok(executed),
                    }
                }
            },
            _ => Ok(executed),
        }
    }
}

/// The sources that make up the web globals of a runtime: the polyfill,
/// then the axios bundle when it was asked for and this build has one.
pub open spec fn web_sources(load_axios: bool) -> Seq<Seq<char>> {
    if load_axios && AXIOS_BUNDLE@.len() != 0 {
        seq![WEB_POLYFILL@, AXIOS_BUNDLE@]
    } else {
        seq![WEB_POLYFILL@]
    }
}

/// A script engine (a QuickJS runtime and one full context), with the
/// sources handed to it for evaluation, the tasks handed to its dispatcher
/// and the answers it gave while jobs were pumped. Both engine objects are private: the runtime is locked only
/// inside one call of this type at a time, so pumping never meets a lock
/// that is already held.
pub struct HostRuntime {
    runtime: Runtime,
    context: Context,
    sources: Ghost<Seq<Seq<char>>>,
    answers: Ghost<Seq<JobAnswer>>,
    dispatched: Ghost<Seq<(u64, u64, Seq<char>)>>,
}

impl HostRuntime {
    /// The sources handed to the engine for evaluation, in order.
    pub closed spec fn evaluated(&self) -> Seq<Seq<char>> {
        self.sources@
    }

    /// The engine's answers while jobs were pumped, in order.
    pub closed spec fn job_answers(&self) -> Seq<JobAnswer> {
        self.answers@
    }

    /// The tasks handed to the script dispatcher, in order: runtime id,
    /// task id and script.
    pub closed spec fn dispatched(&self) -> Seq<(u64, u64, Seq<char>)> {
        self.dispatched@
    }

    /// A fresh engine (a runtime and one full context) on which nothing was
    /// evaluated yet.
    pub fn bare() -> (r: Result<HostRuntime, rquickjs::Error>)
        ensures
            r matches Ok(h) ==> {
                &&& h.evaluated() == Seq::<Seq<char>>::empty()
                &&& h.job_answers() == Seq::<JobAnswer>::empty()
                &&& h.dispatched() == Seq::<(u64, u64, Seq<char>)>::empty()
            },
    {
        let runtime = js_runtime_new()?;
        let context = js_context_full(&runtime)?;
        Ok(HostRuntime {
            runtime,
            context,
            sources: Ghost(Seq::empty()),
            answers: Ghost(Seq::empty()),
            dispatched: Ghost(Seq::empty()),
        })
    }

    /// `Ctx::eval` inside `Context::with`: runs `source` for its effects;
    /// the source is recorded as handed to the engine. `Context::with`
    /// locks the runtime; the engine is held mutably, so no lock is held
    /// already.
    #[verifier::external_body]
    fn eval(&mut self, source: &str) -> (r: Result<(), rquickjs::Error>)
        ensures
            final(self).evaluated() == old(self).evaluated().push(source@),
            final(self).job_answers() == old(self).job_answers(),
            final(self).dispatched() == old(self).dispatched(),
    {
        self.context.with(|ctx| ctx.eval::<(), _>(source))
    }

    /// `Ctx::eval` then `Promise::finish` inside `Context::with`: runs
    /// `source`, whose value is a promise, and drives the job queue until
    /// the promise settles with a text; the source is recorded as handed to
    /// the engine. It locks the runtime as `eval` does.
    #[verifier::external_body]
    fn eval_promise_text(&mut self, source: &str) -> (r: Result<String, rquickjs::Error>)
        ensures
            final(self).evaluated() == old(self).evaluated().push(source@),
            final(self).job_answers() == old(self).job_answers(),
            final(self).dispatched() == old(self).dispatched(),
    {
        self.context.with(|ctx| ctx.eval::<Promise, _>(source)?.finish::<String>())
    }

    /// `Context::with`, then `Ctx::globals`, `Object::get` of the task
    /// dispatcher and `Function::call` with the runtime id, the task id and
    /// the script, in that order; the three are recorded as handed over.
    #[verifier::external_body]
    fn dispatch_task(&mut self, runtime_id: u64, task_id: u64, script: &str) -> (r: Result<(), rquickjs::Error>)
        ensures
            final(self).dispatched() == old(self).dispatched().push((runtime_id, task_id, script@)),
            final(self).evaluated() == old(self).evaluated(),
            final(self).job_answers() == old(self).job_answers(),
    {
        self.context.with(|ctx| {
            let dispatch: rquickjs::Function = ctx.globals().get("__host_runtime_dispatch_task")?;
            dispatch.call::<_, ()>((runtime_id, task_id, script))
        })
    }

    /// Sets up the web globals: the polyfill is evaluated, then the axios
    /// bundle when `load_axios` and the build has one. On success exactly
    /// those sources were added, in that order.
    pub fn load_web_globals(&mut self, load_axios: bool) -> (r: Result<(), rquickjs::Error>)
        ensures
            r is Ok ==> final(self).evaluated() == old(self).evaluated() + web_sources(load_axios),
            final(self).job_answers() == old(self).job_answers(),
            final(self).dispatched() == old(self).dispatched(),
    {
        let ghost before = self.evaluated();
        self.eval(WEB_POLYFILL)?;
        if load_axios && !AXIOS_BUNDLE.is_empty() {
            self.eval(AXIOS_BUNDLE)?;
        }
        assert(self.evaluated() =~= before + web_sources(load_axios));
        Ok(())
    }

    /// A fresh engine with the web globals (`bare`, then
    /// `load_web_globals`). On success exactly those sources were
    /// evaluated, in that order.
    pub fn new(load_axios: bool) -> (r: Result<HostRuntime, rquickjs::Error>)
        ensures
            r matches Ok(h) ==> {
                &&& h.evaluated() == web_sources(load_axios)
                &&& h.job_answers() == Seq::<JobAnswer>::empty()
                &&& h.dispatched() == Seq::<(u64, u64, Seq<char>)>::empty()
            },
    {
        let mut host = HostRuntime::bare()?;
        host.load_web_globals(load_axios)?;
        assert(Seq::<Seq<char>>::empty() + web_sources(load_axios) =~= web_sources(load_axios));
        Ok(host)
    }

    /// `Context::with`: runs `f` on the engine's context with the runtime
    /// locked; the engine is held mutably meanwhile, so `f` cannot reach it
    /// again. Nothing is claimed of what `f` returns or does to the engine:
    /// its record of evaluated sources and job answers is unknown afterwards.
    #[verifier::external_body]
    pub fn with_context<R, F>(&mut self, f: F) -> Result<R, rquickjs::Error>
        where F: for<'js> FnOnce(rquickjs::Ctx<'js>) -> Result<R, rquickjs::Error>,
    {
        self.context.with(f)
    }

    /// Hands task `task_id` of runtime `runtime_id`, with its script, to the
    /// dispatcher that the runtime's scripts set up, and records that
    /// hand-over; on failure the error names the engine's reason.
    pub fn submit_async_task(&mut self, runtime_id: u64, task_id: u64, script: &str) -> (r: Result<(), String>)
        ensures
            final(self).dispatched() == old(self).dispatched().push((runtime_id, task_id, script@)),
            r matches Err(e) ==> exists|detail: Seq<char>| e@ == submit_error_message(detail),
            final(self).evaluated() == old(self).evaluated(),
            final(self).job_answers() == old(self).job_answers(),
    {
        match self.dispatch_task(runtime_id, task_id, script) {
            Ok(()) => Ok(()),
            Err(e) => {
                let detail = js_error_text(&e);
                let mut message = "任务提交到 JS 失败: ".to_string();
                message.append(detail.as_str());
                assert(message@ == submit_error_message(detail@));
                Err(message)
            },
        }
    }

    /// Runs pending jobs of the engine's queue until it is empty, a run
    /// finds no job, a job throws, or `max_jobs` ran; returns how many ran.
    /// The result is `pump_fold` of the answers the engine gave during this
    /// call, which are recorded; a job that threw gives the error with the
    /// `JobException`'s text.
    pub fn pump_jobs(&mut self, max_jobs: usize) -> (r: Result<usize, String>)
        ensures
            final(self).evaluated() == old(self).evaluated(),
            final(self).dispatched() == old(self).dispatched(),
            final(self).job_answers().len() >= old(self).job_answers().len(),
            final(self).job_answers().take(old(self).job_answers().len() as int) == old(self).job_answers(),
            ({
                let fresh = final(self).job_answers().skip(old(self).job_answers().len() as int);
                match r {
                    Ok(n) => pump_fold(fresh, 0, max_jobs as nat) == Ok::<nat, Seq<char>>(n as nat),
                    Err(e) => pump_fold(fresh, 0, max_jobs as nat) == Err::<nat, Seq<char>>(e@),
                }
            }),
            max_jobs == 0 ==> r == Ok::<usize, String>(0),
            r matches Ok(n) ==> n <= max_jobs,
            r matches Err(e) ==> e@ == job_error_message(job_exception_text()),
    {
        let ghost start = self.answers@;
        let mut executed: usize = 0;
        proof {
            assert forall|c: Seq<JobAnswer>| #[trigger] pump_fold((start + c).skip(start.len() as int), 0, max_jobs as nat)
                == pump_fold(c, 0, max_jobs as nat) by {
                assert((start + c).skip(start.len() as int) =~= c);
            }
        }
        loop
            invariant
                executed <= max_jobs,
                self.sources@ == old(self).evaluated(),
                self.dispatched@ == old(self).dispatched(),
                start == old(self).job_answers(),
                self.answers@.len() >= start.len(),
                self.answers@.take(start.len() as int) == start,
                forall|c: Seq<JobAnswer>| #[trigger] pump_fold((self.answers@ + c).skip(start.len() as int), 0, max_jobs as nat)
                    == pump_fold(c, executed as nat, max_jobs as nat),
            decreases max_jobs - executed,
        {
            let ghost log = self.answers@;
            if executed >= max_jobs {
                proof {
                    assert(log + Seq::<JobAnswer>::empty() =~= log);
                    assert(pump_fold((log + Seq::<JobAnswer>::empty()).skip(start.len() as int), 0, max_jobs as nat)
                        == pump_fold(Seq::<JobAnswer>::empty(), executed as nat, max_jobs as nat));
                }
                return Ok(executed);
            }
            let pending = js_is_job_pending(&self.runtime);
            proof {
                self.answers@ = self.answers@.push(JobAnswer::Pending(pending));
            }
            if !pending {
                proof {
                    let step = seq![JobAnswer::Pending(false)];
                    assert(log + step =~= self.answers@ + Seq::<JobAnswer>::empty());
                    assert(pump_fold((log + step).skip(start.len() as int), 0, max_jobs as nat)
                        == pump_fold(step, executed as nat, max_jobs as nat));
                }
                return Ok(executed);
            }
            let ran = js_execute_pending_job(&self.runtime);
            let ghost answer = ran_answer(ran);
            proof {
                self.answers@ = self.answers@.push(answer);
            }
            let ghost step = seq![JobAnswer::Pending(true), answer];
            assert(self.answers@ =~= log + step);
            match ran {
                Ok(true) => {
                    proof {
                        assert forall|c: Seq<JobAnswer>| #[trigger] pump_fold((self.answers@ + c).skip(start.len() as int), 0, max_jobs as nat)
                            == pump_fold(c, executed as nat + 1, max_jobs as nat) by {
                            assert(self.answers@ + c =~= log + (step + c));
                            assert(pump_fold((log + (step + c)).skip(start.len() as int), 0, max_jobs as nat)
                                == pump_fold(step + c, executed as nat, max_jobs as nat));
                            assert((step + c).skip(2) =~= c);
                        }
                    }
                    executed = executed + 1;
                },
                Ok(false) => {
                    proof {
                        assert(log + step =~= self.answers@);
                        assert(pump_fold((log + step).skip(start.len() as int), 0, max_jobs as nat)
                            == pump_fold(step, executed as nat, max_jobs as nat));
                        assert(self.answers@ + Seq::<JobAnswer>::empty() =~= self.answers@);
                    }
                    return Ok(executed);
                },
                Err(detail) => {
                    let mut message = "执行 JS event loop job 失败: ".to_string();
                    message.append(detail.as_str());
                    proof {
                        assert(pump_fold((log + step).skip(start.len() as int), 0, max_jobs as nat)
                            == pump_fold(step, executed as nat, max_jobs as nat));
                        assert(self.answers@ + Seq::<JobAnswer>::empty() =~= self.answers@);
                    }
                    assert(message@ == job_error_message(detail@));
                    return Err(message);
                },
            }
        }
    }
}

/// The sources that `run_async_script_in` hands to the engine, in order:
/// the polyfill, the axios bundle when asked for, then the script.
pub open spec fn script_sources(script: Seq<char>, load_axios: bool) -> Seq<Seq<char>> {
    if load_axios {
        seq![WEB_POLYFILL@, AXIOS_BUNDLE@, script]
    } else {
        seq![WEB_POLYFILL@, script]
    }
}

/// Sets up the web globals in `host` and runs `script`, whose value is a
/// promise, returning the text it settles with. The sources go to the
/// engine in the order of `script_sources`, and the first failure stops the
/// run: what was handed over is a non-empty prefix of them, all of them on
/// success.
pub fn run_async_script_in(host: &mut HostRuntime, script: &str, load_axios: bool) -> (r: Result<String, ScriptError>)
    ensures
        ({
            let full = script_sources(script@, load_axios);
            let fed = final(host).evaluated().skip(old(host).evaluated().len() as int);
            &&& final(host).evaluated().len() >= old(host).evaluated().len()
            &&& final(host).evaluated().take(old(host).evaluated().len() as int) == old(host).evaluated()
            &&& exists|k: int| 0 < k <= full.len() && fed == full.take(k) && (k < full.len() ==> r is Err)
            &&& r is Ok ==> fed == full
        }),
{
    let ghost before = host.evaluated();
    let ghost full = script_sources(script@, load_axios);
    let r1 = host.eval(WEB_POLYFILL);
    proof {
        assert(host.evaluated().skip(before.len() as int) =~= full.take(1));
        assert(host.evaluated().take(before.len() as int) =~= before);
    }
    if let Err(e) = r1 {
        return Err(script_error(e));
    }
    if load_axios {
        let r2 = host.eval(AXIOS_BUNDLE);
        proof {
            assert(host.evaluated().skip(before.len() as int) =~= full.take(2));
            assert(host.evaluated().take(before.len() as int) =~= before);
        }
        if let Err(e) = r2 {
            return Err(script_error(e));
        }
    }
    let r3 = host.eval_promise_text(script);
    proof {
        assert(host.evaluated().skip(before.len() as int) =~= full.take(full.len() as int));
        assert(full.take(full.len() as int) =~= full);
        assert(host.evaluated().take(before.len() as int) =~= before);
    }
    match r3 {
        Ok(text) => Ok(text),
        Err(e) => Err(script_error(e)),
    }
}

fn run_async_script_internal(script: &str, load_axios: bool) -> (r: Result<String, ScriptError>) {
    let mut host = match HostRuntime::bare() {
        Ok(host) => host,
        Err(e) => {
            return Err(script_error(e));
        },
    };
    run_async_script_in(&mut host, script, load_axios)
}

/// Runs `script`, whose value is a promise, in a fresh engine with the web
/// globals, and returns the text the promise settles with.
pub fn run_async_script(script: &str) -> Result<String, ScriptError> {
    run_async_script_internal(script, false)
}

/// As `run_async_script`, with the axios bundle loaded first.
pub fn run_async_script_with_axios(script: &str) -> Result<String, ScriptError> {
    run_async_script_internal(script, true)
}

/// The script text before the JSON name of a global function to call.
pub const GLOBAL_CALL_HEAD: &'static str = r#"
        (async () => {
          const fnName = "#;

/// The script text between the function name and the JSON arguments.
pub const GLOBAL_CALL_MIDDLE: &'static str = r#";
          const args = "#;

/// The script text after the JSON arguments: look the function up, call it,
/// await its value and settle with `{"ok": true, "data": ..}` as text.
pub const GLOBAL_CALL_TAIL: &'static str = r#";
          const fn = globalThis[fnName];
          if (typeof fn !== "function") {
            throw new Error(`JS 函数不存在: ${fnName}`);
          }
          const data = await fn(...args);
          return JSON.stringify({ ok: true, data });
        })()
        "#;

/// The script that calls the global function whose name is the JSON string
/// `name_json` with the arguments of the JSON array `args_json`.
pub open spec fn global_call_source(name_json: Seq<char>, args_json: Seq<char>) -> Seq<char> {
    GLOBAL_CALL_HEAD@ + name_json + GLOBAL_CALL_MIDDLE@ + args_json + GLOBAL_CALL_TAIL@
}

/// Builds `global_call_source`.
pub fn global_call_script(name_json: &str, args_json: &str) -> (r: String)
    ensures
        r@ == global_call_source(name_json@, args_json@),
{
    let mut out = GLOBAL_CALL_HEAD.to_string();
    out.append(name_json);
    out.append(GLOBAL_CALL_MIDDLE);
    out.append(args_json);
    out.append(GLOBAL_CALL_TAIL);
    out
}

} // verus!
