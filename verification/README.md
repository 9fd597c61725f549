# wasm_bindgen_backend

The code-generation backend of `#[wasm_bindgen]`, with its decisions verified
by Verus.

- `src/` (verified): for each item of a bindgen program (`model`), what is
  generated and under which names: export shims (`export`), struct glue
  (`structs`), imports (`import`), exported enums (`enums`), constants
  (`constant`), dictionaries (`dictionary`), the descriptor words of every
  shim and the registry that emits each descriptor once (`describe`), the
  custom section's bytes (`section`), span assignment (`respan`) and the
  whole program's order and error collection (`program`). The names shared
  with the CLI tool come from `wasm-bindgen-shared` through trusted wrappers
  (`shared`).
- `app/`: writes the tokens of each planned piece with `quote`, and holds the
  process-wide descriptor registry and program counter.
- `tests/`: concrete scenarios for the plans and their laws.
