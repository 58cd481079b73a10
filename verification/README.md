# pregel

A Pregel-style graph processing framework (bulk synchronous parallel
supersteps, vertex programs, optional WebAssembly compute modules) whose
library is specified and proved with Verus.

## Layout

- `src/` — the verified library.
  - `types`, `abi`, `errors`, `config`: the vocabulary, the compute ABI
    records with their limits, and the error type.
  - `text`, `codec`: decimal rendering and parsing, the bincode encoding of
    `u64` values.
  - `graph_loader`, `partition`, `storage`, `checkpoint`: edge-list parsing,
    adjacency, partitioning (hash or from a partition file), partitions,
    checkpoints and recovery.
  - `sdk`, `cc`, `aggregator`, `messaging`, `superstep`, `algo`: the vertex
    program API, connected components, aggregator results, message batches,
    supersteps and algorithm metadata.
  - `coordinator`, `service`, `results`: barrier, registries, and the
    coordinator's state machine (registration, barrier decisions, job
    results, timeouts) with what it answers.
  - `observability`: events and their rendering, metric updates.
  - `launch`: addresses, ports and process arguments of a cluster.
  - `wasm`, `guest`: running a compute module with wasmtime; an instance
    is kept together with the store that owns it, and the engine meters
    fuel (each store starts with `u64::MAX` units), so a guest that never
    stops traps once its fuel is spent.
- `tests/` — tests of the library.
- `app/` — the command-line program and the coordinator process: argument
  handling, files, processes, HTTP, Prometheus, clocks and locks.

The coordinator serves workers over HTTP with JSON bodies (`POST` to
`/register_worker`, `/wait_for_all_ready`, `/report_superstep_done`,
`/get_current_superstep`, `/wait_for_advance`, `/wait_for_job_start`,
`/report_job_results`), not over gRPC: workers that speak the gRPC
`pregel.coordinator` protocol cannot talk to it. Jobs are submitted with
`POST /jobs` on the session's HTTP port.
