use vstd::prelude::*;
use wasmtime::{Engine, Linker, Module, Store, TypedFunc};
use wasmtime_wasi::p1::WasiP1Ctx;
use wasmtime_wasi::p2::pipe::{MemoryInputPipe, MemoryOutputPipe};
use wasmtime_wasi::WasiCtxBuilder;

use crate::json::JsonValue;
use crate::native::{
    law_next_id_is_fresh, native_buffer_put_raw, next_buffer_id, spec_argv, spec_wasi_prepare, texts_view,
    wasi_prepare, NativePool, WasiJob,
};

verus! {

#[verifier::external_type_specification]
#[verifier::external_body]
#[verifier::reject_recursive_types(Params)]
#[verifier::reject_recursive_types(Results)]
pub struct ExWasmTypedFunc<Params, Results>(wasmtime::TypedFunc<Params, Results>);

#[verifier::external_type_specification]
#[verifier::external_body]
#[verifier::reject_recursive_types(T)]
pub struct ExWasmStore<T: 'static>(wasmtime::Store<T>);

#[verifier::external_type_specification]
#[verifier::external_body]
pub struct ExWasiP1Ctx(wasmtime_wasi::p1::WasiP1Ctx);

#[verifier::external_type_specification]
#[verifier::external_body]
pub struct ExMemoryOutputPipe(wasmtime_wasi::p2::pipe::MemoryOutputPipe);

/// What a WASI run was handed: the module's bytes, the bytes of its
/// standard input and its argument vector.
pub struct WasiHandoff {
    pub wasm: Seq<u8>,
    pub stdin: Seq<u8>,
    pub argv: Seq<Seq<char>>,
}

/// What a job hands to a WASI run.
pub open spec fn job_handoff(job: WasiJob) -> WasiHandoff {
    WasiHandoff { wasm: job.wasm@, stdin: job.stdin@, argv: texts_view(job.argv@) }
}

/// A WASI store set up with its standard input and argument vector, and
/// what it was given. The store has its own engine; no module is loaded.
pub struct WasiProcess {
    store: Store<WasiP1Ctx>,
    given: Ghost<WasiHandoff>,
}

/// A WASI store with the entry point of a module instantiated in it. The
/// store and the entry are made together and never leave this value, so
/// the entry always belongs to the store.
pub struct WasiStarted {
    store: Store<WasiP1Ctx>,
    entry: TypedFunc<(), ()>,
    given: Ghost<WasiHandoff>,
}

impl WasiProcess {
    /// What the store was given (its module is not loaded yet).
    pub closed spec fn given(&self) -> WasiHandoff {
        self.given@
    }
}

impl WasiStarted {
    /// What the run was given.
    pub closed spec fn given(&self) -> WasiHandoff {
        self.given@
    }
}

/// `Engine::default`, `WasiCtxBuilder::new` with `stdin`
/// (`MemoryInputPipe::new`), `stdout` and `stderr` (each a
/// `MemoryOutputPipe::new(capacity)`, of which a clone is kept), `args` and
/// `build_p1` (once, on a fresh builder), then `Store::new`: a fresh store
/// whose standard input yields `stdin` and whose argument vector is `argv`,
/// with the two output buffers.
#[verifier::external_body]
fn wasi_process(stdin: Vec<u8>, argv: &Vec<String>, capacity: usize) -> (r: (WasiProcess, MemoryOutputPipe, MemoryOutputPipe))
    ensures
        r.0.given() == (WasiHandoff { wasm: Seq::empty(), stdin: stdin@, argv: texts_view(argv@) }),
{
    let given = Ghost(WasiHandoff { wasm: Seq::empty(), stdin: stdin@, argv: texts_view(argv@) });
    let (stdout, stderr) = (MemoryOutputPipe::new(capacity), MemoryOutputPipe::new(capacity));
    let mut builder = WasiCtxBuilder::new();
    builder.stdin(MemoryInputPipe::new(stdin)).stdout(stdout.clone()).stderr(stderr.clone()).args(argv);
    let store = Store::new(&Engine::default(), builder.build_p1());
    (WasiProcess { store, given }, stdout, stderr)
}

/// `Module::new` and `Linker::new` on the store's own engine,
/// `wasmtime_wasi::p1::add_to_linker_sync`, `Linker::instantiate` in the
/// store and `Instance::get_typed_func` of the export `entry`: the store
/// with the module's entry point, or the first error's text. The module
/// handed over is `wasm`.
#[verifier::external_body]
fn wasi_start(process: WasiProcess, wasm: &Vec<u8>, entry: &str) -> (r: Result<WasiStarted, String>)
    ensures
        r matches Ok(s) ==> s.given() == (WasiHandoff { wasm: wasm@, ..process.given() }),
{
    let given = Ghost(WasiHandoff { wasm: wasm@, ..process.given@ });
    let mut store = process.store;
    let module = Module::new(store.engine(), wasm).map_err(|e| e.to_string())?;
    let mut linker = Linker::new(store.engine());
    wasmtime_wasi::p1::add_to_linker_sync(&mut linker, |ctx| ctx).map_err(|e| e.to_string())?;
    let instance = linker.instantiate(&mut store, &module).map_err(|e| e.to_string())?;
    let entry = instance.get_typed_func::<(), ()>(&mut store, entry).map_err(|e| e.to_string())?;
    Ok(WasiStarted { store, entry, given })
}

/// `TypedFunc::call` of the entry point in its own store: `Ok(None)` when
/// it returns, `Ok(Some(code))` when it exits through `proc_exit(code)`
/// (a `wasmtime_wasi::I32Exit`), else the error's text.
#[verifier::external_body]
fn wasi_call(started: &mut WasiStarted) -> (r: Result<Option<i32>, String>)
    ensures
        final(started).given() == old(started).given(),
{
    match started.entry.call(&mut started.store, ()) {
        Ok(()) => Ok(None),
        Err(error) => match error.downcast_ref::<wasmtime_wasi::I32Exit>() {
            Some(code) => Ok(Some(code.0)),
            None => Err(error.to_string()),
        },
    }
}

/// `MemoryOutputPipe::contents`: the bytes written to the output so far.
#[verifier::external_body]
fn output_pipe_contents(pipe: &MemoryOutputPipe) -> Vec<u8> {
    pipe.contents().to_vec()
}

/// How many bytes of standard output, and of standard error, a WASI run
/// keeps.
pub const WASI_PIPE_CAPACITY: usize = 67108864;

/// The name of the entry point that a WASI command exports.
pub const WASI_ENTRY: &'static str = "_start";

/// The exit code of a run: the code given to `proc_exit`, or 0 when the
/// entry point returned.
pub open spec fn run_exit_code(exit: Option<i32>) -> i32 {
    match exit {
        Some(x) => x,
        None => 0,
    }
}

/// Computes `run_exit_code`.
pub fn exit_code_of(exit: Option<i32>) -> (c: i32)
    ensures
        c == run_exit_code(exit),
{
    match exit {
        Some(x) => x,
        None => 0,
    }
}

/// The result of a WASI run and what it was handed.
pub struct WasiExecution {
    /// How the entry point ended (`None`: it returned; `Some(c)`: it called
    /// `proc_exit(c)`), with the standard output and standard error; or
    /// the engine's error.
    pub outcome: Result<(Option<i32>, Vec<u8>, Vec<u8>), String>,
    /// The module, input and argument vector the run was handed.
    pub handed: Ghost<WasiHandoff>,
    /// What calling the entry point gave, when it was reached: how it ended,
    /// or the engine's error.
    pub answer: Ghost<Option<Result<Option<i32>, Seq<char>>>>,
}

/// A run whose entry point called `proc_exit(c)` reports `c`, and one
/// whose entry point returned reports 0; runs that report different codes
/// ended differently.
pub proof fn law_exit_code_follows_entry_end(a: Option<i32>, b: Option<i32>)
    ensures
        a matches Some(c) ==> run_exit_code(a) == c,
        a is None ==> run_exit_code(a) == 0,
        run_exit_code(a) != run_exit_code(b) ==> a != b,
{
}

/// The mathematical value of what calling an entry point gave.
pub open spec fn call_answer(ran: Result<Option<i32>, String>) -> Result<Option<i32>, Seq<char>> {
    match ran {
        Ok(exit) => Ok(exit),
        Err(e) => Err(e@),
    }
}

/// Runs a WASI command module with in-memory standard streams: the store
/// gets the job's standard input and argument vector, the job's module is
/// loaded in it and its `_start` runs. Whenever the run got as far as the
/// entry point, it was handed exactly the job's module, input and
/// arguments.
pub fn wasi_execute(job: WasiJob) -> (r: WasiExecution)
    ensures
        r.outcome is Ok ==> r.handed@ == job_handoff(job),
        r.outcome matches Ok((exit, _, _)) ==> r.answer@ == Some(Ok::<Option<i32>, Seq<char>>(exit)),
        r.answer@ matches Some(Ok(exit)) ==> (r.outcome matches Ok((e, _, _)) && e == exit),
{
    let ghost want = job_handoff(job);
    let WasiJob { wasm, stdin, argv } = job;
    let (process, stdout, stderr) = wasi_process(stdin, &argv, WASI_PIPE_CAPACITY);
    let mut started = match wasi_start(process, &wasm, WASI_ENTRY) {
        Ok(started) => started,
        Err(e) => {
            return WasiExecution { outcome: Err(e), handed: Ghost(want), answer: Ghost(None) };
        },
    };
    let ran = wasi_call(&mut started);
    let ghost answer = call_answer(ran);
    let outcome = match ran {
        Ok(exit) => Ok((exit, output_pipe_contents(&stdout), output_pipe_contents(&stderr))),
        Err(e) => Err(e),
    };
    WasiExecution { outcome, handed: Ghost(started.given()), answer: Ghost(Some(answer)) }
}

/// What a WASI run reports: the module's exit code and the ids under which
/// its standard output and standard error were stored; `ended` is how the
/// entry point ended as the engine answered the run, and `exit` how the
/// stored report was told it ended.
pub struct WasiRunReport {
    pub exit_code: i32,
    pub stdout_id: u64,
    pub stderr_id: u64,
    /// How the entry point ended, as the engine reported it.
    pub exit: Ghost<Option<i32>>,
    /// What the run was handed.
    pub handed: Ghost<WasiHandoff>,
    /// How the entry point ended, as the run reported it.
    pub ended: Ghost<Option<i32>>,
}

/// Stores the output of a finished WASI run, standard output first, then
/// standard error, each under a fresh id; the exit code is `exit_code_of`
/// how the entry point ended.
pub fn wasi_store_output(pool: &mut NativePool, exit: Option<i32>, stdout: Vec<u8>, stderr: Vec<u8>) -> (r: WasiRunReport)
    requires
        old(pool).wf(),
    ensures
        final(pool).wf(),
        old(pool).wrapped() ==> final(pool).wrapped(),
        !old(pool).wrapped() ==> !old(pool)@.contains_key(r.stdout_id),
        !old(pool).wrapped() && r.stdout_id != u64::MAX ==> !old(pool)@.contains_key(r.stderr_id) && r.stderr_id != r.stdout_id,
        r.exit_code == run_exit_code(exit),
        r.exit@ == exit,
        r.ended@ == exit,
        r.stdout_id == old(pool).next_id(),
        r.stderr_id == next_buffer_id(old(pool).next_id()),
        final(pool).next_id() == next_buffer_id(next_buffer_id(old(pool).next_id())),
        final(pool)@ == old(pool)@.insert(r.stdout_id, stdout@).insert(r.stderr_id, stderr@),
{
    let exit_code = exit_code_of(exit);
    let ghost before = *pool;
    let stdout_id = native_buffer_put_raw(pool, stdout);
    let stderr_id = native_buffer_put_raw(pool, stderr);
    proof {
        if !before.wrapped() {
            law_next_id_is_fresh(&before);
        }
    }
    WasiRunReport {
        exit_code,
        stdout_id,
        stderr_id,
        exit: Ghost(exit),
        handed: Ghost(WasiHandoff { wasm: Seq::empty(), stdin: Seq::empty(), argv: Seq::empty() }),
        ended: Ghost(exit),
    }
}

/// Runs the WASI module stored under `module_id`: the job is gathered from
/// the pool as `wasi_prepare` does, the module runs with exactly that job,
/// its exit code is `exit_code_of` how the entry point ended, and its
/// standard output and standard error are stored under the next two ids.
pub fn wasi_run(
    pool: &mut NativePool,
    module_id: u64,
    stdin_id: Option<u64>,
    args: Option<Result<JsonValue, String>>,
    consume_module: bool,
) -> (r: Result<WasiRunReport, String>)
    requires
        old(pool).wf(),
    ensures
        final(pool).wf(),
        old(pool).wrapped() ==> final(pool).wrapped(),
        ({
            let (prep, v1) = spec_wasi_prepare(old(pool)@, module_id, stdin_id, spec_argv(args), consume_module);
            let next = old(pool).next_id();
            match prep {
                Err(e) => r matches Err(m) && m@ == e && final(pool)@ == v1 && final(pool).next_id() == next,
                Ok((wasm, stdin, argv)) => match r {
                    Err(_) => final(pool)@ == v1 && final(pool).next_id() == next,
                    Ok(rep) => {
                        &&& rep.handed@ == (WasiHandoff { wasm, stdin, argv })
                        &&& rep.exit_code == run_exit_code(rep.exit@)
                        &&& rep.exit@ == rep.ended@
                        &&& rep.exit_code == run_exit_code(rep.ended@)
                        &&& rep.stdout_id == next
                        &&& rep.stderr_id == next_buffer_id(next)
                        &&& final(pool).next_id() == next_buffer_id(next_buffer_id(next))
                        &&& exists|out: Seq<u8>, err: Seq<u8>|
                            final(pool)@ == v1.insert(rep.stdout_id, out).insert(rep.stderr_id, err)
                        &&& !old(pool).wrapped() ==> !old(pool)@.contains_key(rep.stdout_id)
                        &&& !old(pool).wrapped() && next != u64::MAX ==> !old(pool)@.contains_key(rep.stderr_id)
                            && rep.stderr_id != rep.stdout_id
                    },
                },
            }
        }),
{
    let ghost before = *pool;
    let job = match wasi_prepare(pool, module_id, stdin_id, args, consume_module) {
        Ok(job) => job,
        Err(e) => {
            return Err(e);
        },
    };
    let ghost want = job_handoff(job);
    let run = wasi_execute(job);
    let ghost handed = run.handed@;
    let ghost answer = run.answer@;
    let (exit, stdout, stderr) = match run.outcome {
        Ok(outcome) => outcome,
        Err(e) => {
            return Err(e);
        },
    };
    let ghost out = stdout@;
    let ghost err = stderr@;
    let ghost prepared = pool@;
    let mut rep = wasi_store_output(pool, exit, stdout, stderr);
    proof {
        rep.handed@ = handed;
        rep.ended@ = answer->Some_0->Ok_0;
        let (prep, v1) = spec_wasi_prepare(before@, module_id, stdin_id, spec_argv(args), consume_module);
        assert(prep is Ok);
        assert(prepared == v1);
        assert(pool@ == v1.insert(rep.stdout_id, out).insert(rep.stderr_id, err));
        assert(handed == want);
        assert(prep == Ok::<(Seq<u8>, Seq<u8>, Seq<Seq<char>>), Seq<char>>((want.wasm, want.stdin, want.argv)));
        if !before.wrapped() {
            law_next_id_is_fresh(&before);
        }
    }
    Ok(rep)
}

} // verus!
