# imgforge

The verified core of imgforge, a batch image converter with a remote processing
server and a side-by-side video review tool. The functions under `src/` are checked by
Verus against their `requires`/`ensures` contracts, except the small wrappers marked
`#[verifier::external_body]` around std and outside-crate calls (clocks, path parts,
SHA-256/HMAC, hex and URL encoding, date formatting, request ids, file existence, the
frame-cache hasher): their contracts are trusted as written, and a few of them, whose
results depend on the clock, the disk or a hasher, promise nothing of their result.

## Layout

- `src/server/` — the processing back end: configuration from environment pairs,
  bearer-token and workspace checks, a token-bucket rate limiter, the in-memory metadata
  store (jobs, events, idempotency keys, uploads, assets, review batches and items,
  annotations, extraction results, dead letters), the leased FIFO job queue, object
  storage keys and presigned URLs (AWS SigV4), the worker's attempt / retry / dead-letter
  decisions, and the HTTP routes as functions from request to answer.
- `src/video/` — video review: records and the search language, scope sampling and
  accumulation, waveform and histogram counting, FAST/BRIEF feature matching and the
  lag search of content alignment, alignment tiers, contact-sheet and comparison-video layouts and ffmpeg filter graphs,
  screenshot planning and naming, exports (columns, CSV records, HTML report), defect
  packages, playback decisions.
- `src/scheduler.rs`, `src/ui.rs` — conversion tasks, concurrency limits, run summaries,
  progress counters and tool diagnosis.
- `src/text.rs`, `src/keyed.rs`, `src/sorting.rs`, `src/paths.rs`, `src/clock.rs` —
  character-level text functions, keyed vectors used as maps, ordering and paging, path
  parts and clocks.
- `tests/` — tests run against the compiled library.
- `app/` — process glue: environment, files, external tools, JSON, and the
  floating-point colour and size maths.

Laws of the library are public proof functions named `law_*`.
