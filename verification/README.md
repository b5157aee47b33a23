# ai_hft_architecture

Verified core of a risk-constraint pipeline: a fixed-layout shared-memory protocol, a
bounded single-producer single-consumer queue, and the state machine that applies risk
constraints to a portfolio. The library is written in Verus; Verus proves every function in
`src/` against its contract, except the small trusted wrappers around `memmap2` and
`std::time`, whose contracts are assumed.

- `src/critical_path/wire.rs`: byte layout of the shared region (64-byte header,
  512-byte payload slots, little-endian), with encoders, decoders and round-trip laws.
- `src/critical_path/ipc_mmap.rs`: producer and consumer over memory mappings
  (`memmap2`). A consumer's reads are stated over the bytes of its mapping, and a
  consumer opened on a producer's region reads back what the producer wrote. These
  guarantees assume, as memmap2 requires, that the file under a mapping is not modified
  while it is mapped: a consumer reads a region after its producer has finished
  writing, not alongside it.
- `src/critical_path/spsc_queue.rs`: the ring buffer, specified as a FIFO sequence.
- `src/critical_path/constraint_engine.rs`: check precedence, counters and portfolio
  snapshot of constraint application.
- `app/`: the demo program, file handling, and the floating-point risk checks, which
  the verified library receives as flags. Floating-point values travel through the
  library as their binary64 bit patterns.
