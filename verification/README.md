# rust-learn

Companion code for a thirty-chapter Rust course, written as a Verus library.

- `src/` is the verified library. Each chapter with logic has its own module
  (`rust03_functions` through `rust29_typesystem`). `strings.rs` holds the
  shared models of text: whitespace, trimming, words, lines, decimals.
  The crate root holds the C-ABI style helpers (saturating multiplication,
  byte sums, checksums). Calls into `rusqlite`, `clap`, `regex` and
  `unicode-segmentation` go through trusted items whose doc comments say
  what is assumed of them.
- `tests/` runs the library on concrete values.
- `app/` is the demo program. It prints each chapter's demonstration, and
  holds everything that cannot be verified: I/O, threads, async runtimes,
  floating point, serde/toml/JSON, logging and HTTP.
