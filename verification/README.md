# rquickjs_playground

A host for JavaScript plugins on the QuickJS engine (`rquickjs`), with its
logic verified by Verus.

- `src/` — the verified library:
  - `tasks.rs`: the task table of the asynchronous runtime (task states,
    waiters, the worker's command handling, statistics) and its laws;
  - `native.rs`: the byte-buffer pool, the byte operations, operation
    chains, the WASI job preparation and the bridge calls;
  - `json.rs`: the JSON values that scripts hand to the host, and reading
    host replies;
  - `fsops.rs`: encoding names, error codes, write payloads and the rules of
    the file-system requests;
  - `http.rs`: the request headers taken from a script's headers object;
  - `script.rs`: running a script to a settled promise, and the job pump;
  - `collect.rs`: a specification helper for item-by-item decoding.
- `app/` — the embedding: the runtimes and their worker thread, the host
  functions registered in the script engine, and the I/O (HTTP, file
  system, WASI).
- `tests/` — tests of the library.
