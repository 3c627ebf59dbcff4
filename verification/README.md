# cuy

The verified core of a bare-metal runtime for Arm Cortex-M and AArch64 systems, written in
Verus: every function under `src/` carries a contract that Verus proves.

- `src/` — the library: MMIO register handles, the vector table and the active exception,
  the NVIC (probing, priorities, interrupt iteration), stack painting and usage, start-up
  memory initialization, AArch64 register decoding and stack reservation, the semihosting
  file name, the assembly post-processing of the `size` attribute, and the identification of
  a compilation target from the ARM build attributes of an object file.
- The trusted items, whose contracts Verus takes without proof: the calls into the `object`
  crate in `src/object_api.rs`, the default hasher in `src/optimize.rs` (`default_hash_of`)
  and `String::push` in `src/text.rs` (`push_char`).
- `tests/` — tests of the library on concrete values.
- `app/` — what cannot be verified: volatile register accesses, assembly, linker symbols,
  statics, the proc-macro entry point, running `rustc` and the semihosting I/O.
