# chippy_core

A CHIP-8 interpreter core written in Verus. Every operation of the machine is
proved to follow a mathematical model of the instruction set.

- `src/spec.rs` — the abstract machine state (`EmuState`) and the meaning of
  each instruction (`step`), together with the conditions under which an
  instruction is accepted (`step_ok`, `tick_ok`).
- `src/machine.rs` — the executable interpreter `emu`; each method's contract
  states its effect on the abstract state.
- `src/laws.rs` — properties across instructions, such as a call followed by
  a return coming back to the caller, or drawing a sprite twice erasing it.
- `src/lemmas.rs` — modular arithmetic behind the wrap-around drawing.
- `src/rng.rs` — the random byte for CXNN, drawn from the `rand` crate.
- `app/main.rs` — the desktop front end (SDL2 window and event loop).
