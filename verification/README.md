# hydrozoa

A WebAssembly runtime for the VEX V5 brain, with its logic verified by Verus.

- `src/` is the verified library:
  - `link_syntax`, `link_plan`, `sdk_api`: the `link!` macro that exposes SDK
    functions to WebAssembly programs — its grammar over token trees, the
    closure planned for each function, and the machine-readable description
    of the functions and enums.
  - `module`, `wasm_types`: what is handed to wasm3 when a host function is
    linked (C names, signature strings, argument type checks) and how host
    values are stored in stack slots.
  - `teavm`: strings exchanged with Java programs compiled by TeaVM.
  - `allocation`, `cstring`, `bits`, `sys_support`, `platform`: the C
    runtime support — the allocation registry behind `calloc`/`free`/
    `realloc`, `strcmp`, `vsnprintf`'s copy, population counts, `_sbrk`,
    `_write`, and the layout of the error screen.
- `tests/` runs the library on concrete inputs.
- `app/` holds what stays outside the proofs: the macro's token handling and
  code generation, the serde form of the description, and the `extern "C"`
  glue that calls the V5 SDK, the allocator and the display.
