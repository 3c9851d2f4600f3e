# cm — a verified context-mixing compressor

A lossless compressor in the lpaq family, written in Verus: every bit is
predicted by 99 hashed context models, six match models, 27 specialist
mixers, 10 combiners and a four-stage APM chain, and coded by a carry-less
32-bit binary arithmetic coder. An x86 branch filter is applied to code-like
inputs.

Layout:

- `src/algorithm/` — the codec (`codec.rs`), the arithmetic coder
  (`coder.rs`), the branch filter (`filter.rs`), the logistic tables
  (`tables.rs`, `logistic.rs`), a dynamic Markov model (`dmc.rs`) and the
  predictor (`model/`).
- `src/harness/` — corpus entries and the scoring rule.
- `src/telemetry.rs`, `src/metrics.rs`, `src/memcost.rs`, `src/instrument.rs`
  — allocation counters, meter workloads, the three-level LRU cache model and
  the memory-access instrumentation of wasm instruction sequences.
- `app/` — the command line, corpus I/O, the allocation meter and the
  floating-point context-tree-weighting model.
- `tests/` — round trips, exact coder/filter/table values and component tests.

Central proved facts: `decompress(compress(x)) == x` for every input of
at most 2^32 - 1 bytes (`algorithm::codec::lemma_roundtrip`), the decoder
retraces the encoder bit for bit over a whole run
(`algorithm::coder::lemma_decode_run`), reads an empty or all-0xFF stream as
zeros and ignores trailing 0xFF bytes (`lemma_all_ff_run`, `lemma_padding_run`), the
branch filter's encode and decode undo each other in either order
(`algorithm::filter::lemma_e8e9_roundtrip`), and
every public operation of the predictor is pinned to an abstract model
(`algorithm::model::cm`).
