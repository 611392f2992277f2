# RV32I emulator, verified

A 32-bit RISC-V (RV32I base integer) processor with one mebibyte of memory,
a memory-mapped terminal byte at `0x10000000` and a proxy kernel for the
`write` (64) and `exit` (93) system calls.

- `src/decode.rs`: instruction fields, immediates, `Instr` and `decode`.
- `src/memory.rs`: little-endian loads and stores over a byte sequence.
- `src/semantics.rs`: the architectural state and what each instruction does
  to it (`execute_spec`), what it asks of the host (`effect_spec`) and when it
  can run (`can_step_spec`).
- `src/machine.rs`: the executable processor `CPU` (`new`, `boot`,
  `write_register`, `fetch`, `execute`, `step`, `can_step`), each proved
  against the specifications above.
- `src/laws.rs`: properties across instructions (x0 stays zero, stores read
  back, add/sub, branch pairs, ...).
- `app/main.rs`: reads `test.bin`, runs the machine, prints the trace and
  performs terminal output and exit on the host.
