# ere

The decision logic of a unified zkVM toolkit, written in Verus and proved
against its contracts: how guest input is framed, how execution reports and
traces become cost tables, how accelerator test vectors are stored and
ordered, what the distributed proving cluster's answers mean, how server
images are built and containers started, and what the server records.

## Layout

- `src/` — the verified library.
  - `text.rs`, `encoding.rs` — character, decimal, hex and byte helpers.
  - `zkvm_interface.rs` — accelerators, test vectors, fixtures and their order.
  - `cost.rs`, `zisk.rs`, `openvm.rs`, `sp1.rs` — cost estimation and the
    per-zkVM rules around a run.
  - `cluster.rs` — the cluster client's protocol.
  - `dockerized.rs` — image builds, server containers and retries.
  - `metrics.rs`, `resource.rs`, `compiler.rs`, `program.rs` — server metrics,
    prover resources, guest compiler settings, hashed-output checks.
  - `guest_heap.rs` — the bump allocators of the bare-metal test guests.
- `tests/` — tests on concrete values.
- `app/` — the I/O around the library: HTTP and event streams, serde and
  error forms, fixture files, the metrics recorder, docker driving and memory
  file reads.
