# ferrisboy_core

A Game Boy (DMG) emulator core written in Verus: every function of the
library carries a `requires`/`ensures` contract that Verus proves.

## What it emulates

- The LR35902 CPU: all 256 unprefixed and 256 CB-prefixed opcodes (the
  eleven unused opcodes execute as 4-cycle no-ops), interrupt dispatch with
  priority, the one-instruction EI delay (cancelled by a DI), HALT with its
  wake-up on any pending interrupt and the HALT bug.
- The memory bus with echo RAM, OAM DMA and the interrupt registers.
- Cartridges without a mapper and with MBC1, MBC2, MBC3 (RAM banks) and
  MBC5, with battery-backed saves and the dirty flag.
- The timer (16-bit divider, TIMA clocked on falling edges of the divider bit
  TAC selects, reload from TMA with an interrupt on overflow).
- The PPU's mode state machine: 456-cycle scanlines through OAM scan,
  drawing and HBlank on lines 0..143, VBlank on 144..153, a finished frame
  and VBLANK every 70224 cycles, STAT interrupts on the rising edge of the
  STAT line; each visible line is rendered once, as drawing ends, from the
  background, the window (with its own line counter) and up to ten sprites
  (`render.rs`).
- Joypad and serial port (the serial output is how test ROMs report).

Not here: sound generation (the sound unit keeps its register file; samples
would be floating point).

## Layout

- `src/` — the verified library.
  - `lib.rs` — `GameBoy`, the machine a frontend drives.
  - `cpu/` — the register file (`registers.rs`), ALU primitives (`alu.rs`),
    the opcode tables (`exec.rs`) and interrupt / HALT / stack control and
    the step (`mod.rs`).
  - `mmu.rs` — the memory bus and its address map.
  - `cartridge.rs` — header decoding, title, MBC1/2/3/5 banking, battery RAM.
  - `ppu.rs`, `apu.rs`, `timer.rs`, `joypad.rs`, `serial.rs` — peripherals;
    `render.rs` — the scanline renderer.
  - `interrupts.rs` — interrupt bits and vectors.
  - `bits.rs` — shared bit-level facts used by the proofs.
  - `text.rs` — the text primitives (UTF-8 decoding, character classes)
    the cartridge title is built from.
- `tests/` — tests of the library on concrete values.
- `app/` — the desktop frontend (minifb window, cpal audio, rfd file dialog)
  and the WebAssembly frontend (`app/web.rs`).

Each type has an abstract state (its `View`), and each operation's contract
says how that state changes, e.g. `final(self)@ == old(self)@.write_byte(addr, val)`.
A CPU step is described by `step_spec`, built from one spec function per
group of the opcode table. Public proof functions state the laws that relate
operations, such as RAM reading back what was written, saves round-tripping
through power cycles, the dirty flag over any sequence of writes, interrupt
priority, the EI delay, the frame period of the PPU (also across any split
of its steps) and the DAA decimal adjust after addition and subtraction.
