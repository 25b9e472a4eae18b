# wasm_sandbox

A deterministic WebAssembly sandbox, verified with Verus.

- `src/` is the verified library: the capability model (`caps`), resource
  limits (`limits`), the deterministic xoshiro256** generator seeded from the
  BLAKE3 digest of a manifest (`prng`, `digest`), the determinism settings
  (`determinism`), capped output capture (`capture`), virtual filesystem
  rules (`vfs`), canonical JSON ordering (`json`), execution metrics and the
  runtime certificate (`observe`), and the decisions of the driver around
  one execution (`driver`). `text` holds the character-level helpers.
- `app/` is the host side: serde forms of the manifest, displayable errors,
  host filesystem access, and the wasmtime run that follows the library's
  plan.
- `tests/` exercises the library on concrete values.
