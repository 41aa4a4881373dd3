# nicy_runtime

The logic of the Nicy Luau runtime as a Verus library: the functions in `src/` carry
contracts that Verus proves, and the laws the runtime promises are proof functions.

A few calls into `std` and `serde_json` are trusted rather than proved: the small
`#[verifier::external_body]` wrappers around `std::path::Path` (`src/resolver/paths.rs`),
`String::push` (`src/text.rs`), `serde_json::from_str` (`src/resolver/aliases.rs`) and the
two panic-payload downcasts (`src/host.rs`), plus the declaration of `libloading::Library`.
Each says in its doc comment what its contract claims. `panic_payload_to_string` has no
contract of its own, since its result depends on the payload's type; the choice it makes
from the downcasts is `payload_text`, which is proved.

- `src/text.rs` — text helpers (lines, trimming, decimal numbers, lexicographic order).
- `src/error/` — error records, status codes, the concise and verbose renderings, and the
  pcall bookkeeping that decides what is reported.
- `src/directives.rs` — `--!native`, `--!optimize`, `--!coverage`, `--!profile` and
  `--!typeinfo` at the top of a source.
- `src/resolver/` — `require` specifiers to paths, `.luaurc` aliases, and the per-runtime
  module cache, loading marks and require chain.
- `src/scheduler.rs` — the cooperative scheduler behind `task.*`.
- `src/host.rs` — decisions of the C entry points: entry files, chunk names,
  `collectgarbage`, `runtime.loadlib` failures.
- `src/cli.rs` — the `nicy` command line and where the runtime library is looked for.

`app/` is the program around it: the `nicy` launcher, and the embedding that owns the Lua
state (through `mlua-sys`), the files, the clock and the process. It calls the library for
every decision on plain values.
