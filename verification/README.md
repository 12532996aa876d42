# soroban-upgrade-safeguard

Tells whether an upgrade of a Soroban contract is safe: what a comparison of two
builds found is listed, counted and judged, and the outcome is written as text,
Markdown, HTML, JUnit XML, workflow commands or JSON. The library is verified
with Verus.

- `src/report/` makes the report: counts and verdict (`safety.rs`), hiding
  categories (`filtering.rs`), the formats, and what holds of all of them (the
  files named `*laws.rs`).
- `src/suppression.rs` and `src/severity_override.rs` are what a project may
  configure; `src/rules.rs` is the table of rules.
- `src/spec.rs` collects the interface of a build and finds names that are
  defined twice.
- `src/type_diff.rs` shows where two types differ.
- `src/loader/` checks builds and addresses and runs the steps of a fetch;
  `src/wasm_cache.rs` names and checks cached builds.
- `app/` reads files, talks to the network and to the cache on disk, and writes
  JSON.

Calls into other crates stand behind small functions marked
`#[verifier::external_body]`, each with a comment that says what is taken on
trust: `style.rs` (colored), `digest.rs` (sha2, hex), `spec.rs` and
`loader/fetch.rs` (stellar-xdr, stellar-strkey) and `loader/module.rs`
(wasmparser).
