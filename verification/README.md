# bloodorchid

The verified core of the BloodOrchid simulation pipeline, written in Verus.

- `src/` is the library. Every function is verified, except a few small
  trusted wrappers around `std` and `uuid` calls (marked `external_body`), whose
  contracts state what those calls document:
  - `boundary/` — the simulation frame, its validation, the boundary runtime
    that alone owns and advances it, the admission check on encoded frames,
    and the architectural invariants checked over a record of a run;
  - `cve.rs` — frames to triangle meshes (vertex layout, triangle list,
    scene identity) and the FNV-1a hash of encoded data;
  - `observability.rs` — execution traces, their hash chain and merkle root,
    and replay checks over recorded traces;
  - `pipeline.rs` — the command line, the plan of rounds of a run and the
    run itself as a state machine that the program drives;
  - `structural.rs`, `channels.rs` — the validated node store and the
    messages and retry schedule that drive it;
  - `simulation.rs`, `telemetry.rs`, `text.rs`, `ieee754.rs`, `clock.rs`,
    `keyed.rs` — identifiers and settings, hooks, text rendering,
    IEEE-754 bit-pattern predicates, clock readings, keyed lookups.
- `app/` is the program around it: argument handling and output, the native
  heat kernel, binary32/binary64 arithmetic, serde and TOML encodings, threads
  and the asynchronous dispatcher.

Floating-point quantities are held in the library by their IEEE-754 bit
patterns; the arithmetic on them happens in `app/`.
