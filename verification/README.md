# rusty_emulator

A Game Boy emulator core whose behaviour is stated in Verus contracts and proved.

- `src/cart.rs`: the cartridge, with MBC1 bank switching.
- `src/ppu.rs`: the picture processing unit: line timing and scanline rendering of the
  background and of up to ten sprites a line.
- `src/mmu.rs`: the memory bus, routing each address to the cartridge, a RAM or an I/O
  register through a page table.
- `src/cpu/`: the processor. `spec.rs` states what every instruction does over an abstract
  state; `alu.rs`, `load.rs`, `control.rs` and `bitops.rs` carry the instructions out;
  `check.rs` decides whether a step can run; `laws.rs` proves properties that span several
  instructions (push/pop and call/return round trips, decimal adjustment, the delay of
  EI and DI).
- `src/bits.rs`: bit-level facts used by the proofs.
- `app/`: the program: it reads a ROM file, runs the processor on one thread, shows the
  screen in a window on another, and writes the optional execution trace.
