# wasm_instrumentation

The abstract syntax of a WebAssembly (version 1) module and its binary encoding,
verified with Verus.

Decoding keeps the number of bytes of every LEB128 integer, count and size, so that
encoding a decoded module gives back the bytes it was read from; encoding recomputes
each section and function-body size from its content.

- `src/ast.rs`: the syntax tree (`Module`, `Section`, `Instr`, ...).
- `src/leb128.rs`: LEB128 integers, their byte form, and the laws relating both.
- `src/binary.rs`: the `WasmBinary` trait (a model, the format as spec functions, a
  decoder and an encoder, and the two round-trip laws), with its instances for
  bytes, integers, vectors, names, sized content and pairs.
- `src/types.rs`, `src/code.rs`, `src/sections.rs`: the instances for the types,
  instructions and sections of a module.
- `src/module.rs`: a whole module, and its round-trip laws.
- `tests/`: scenarios, including a comparison with the `leb128` crate.
