# superstition

Verifiable astrology for on-chain data: an agent asks a language model for
statistical hypotheses and for WebAssembly detectors that test them, runs the
detectors against a content-addressed corpus, scores what they count, and
publishes the significant patterns with everything needed to reproduce them.

## Layout

- `src/` — the library, verified with Verus:
  - `corpus`, `hash`: the corpus and its BLAKE3 content address;
  - `scorer`, `host`: what a detector returns, and the checks it must pass
    before it is scored;
  - `fdr`: the family grouping of the Benjamini-Hochberg correction;
  - `feed`, `page`, `render`: published patterns, the feed, and its HTML and
    RSS pages;
  - `args`, `codegen`, `prompts`, `schema`, `builder`, `pipeline`, `state`:
    the agent's command line, its prompts and replies, the files of a
    generated detector, its build-and-fix steps and its memory;
  - `detectors`, `fixture`, `fetch`, `rng`, `sort`, `text`: the reference
    detectors, the test fixture, the market tables, and helpers.
- `app/` — the programs around the library: the agent loop, the wasmtime
  host, the feed server, the verifier, the data fetcher and the corpus
  generators (file, network and process I/O, and the floating-point
  statistics).
- `tests/` — tests of the library.
