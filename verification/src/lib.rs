//! A host for JavaScript plugins on QuickJS: the bookkeeping of an
//! asynchronous script runtime, the byte-buffer pool and byte operations
//! that scripts reach through the host, the decoding of host-call
//! arguments, file-system request rules, and the script runner.

pub mod collect;
pub mod fsops;
pub mod http;
pub mod json;
pub mod native;
pub mod script;
pub mod tasks;
pub mod wasi;

pub use native::{native_buffer_put_raw, native_buffer_take_raw, NativePool};
pub use script::{run_async_script, run_async_script_with_axios};
pub use tasks::{RuntimeTaskStats, TaskTable};
