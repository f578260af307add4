//! # ferrisboy_core
//!
//! A Game Boy (DMG) emulator core: pure logic, owning no windows, audio
//! devices or files. A frontend drives it through [`GameBoy`]: it steps the
//! machine, blits [`GameBoy::framebuffer`] to a screen and forwards input
//! through [`GameBoy::set_button`].
//!
//! ```text
//!   GameBoy
//!   ├── Cpu          Sharp LR35902: registers, ALU, opcode tables, interrupts, HALT
//!   └── Mmu          the bus: routes every address to the right component
//!       ├── Cartridge    ROM + banked RAM (no-MBC / MBC1 / MBC2 / MBC3 / MBC5)
//!       ├── Ppu          LCD: mode timing, background / window / sprites -> framebuffer
//!       ├── Apu          sound registers
//!       ├── Timer        DIV / TIMA
//!       ├── Joypad       button matrix
//!       └── Serial       link port (also the test-ROM output channel)
//! ```
use vstd::prelude::*;

pub mod apu;
pub mod bits;
pub mod cartridge;
pub mod cpu;
pub mod interrupts;
pub mod joypad;
pub mod mmu;
pub mod ppu;
pub mod render;
pub mod serial;
pub mod text;
pub mod timer;

pub use cartridge::CartridgeError;
pub use joypad::Button;
pub use ppu::{SCREEN_HEIGHT, SCREEN_WIDTH};

use cartridge::{
    classify_spec, lemma_save_round_trip, opt_bytes, ram_size_spec, Cartridge, CartridgeState, HEADER_END,
};
use cpu::exec::step_spec;
use cpu::{Cpu, CpuState};
use mmu::{Mmu, MmuState};
use ppu::{shades_to_rgba_spec, shades_to_xrgb_spec, PpuState};
use serial::SerialState;

verus! {

/// The DMG CPU clock: 2^22 Hz.
pub const CPU_CLOCK_HZ: u32 = 4_194_304;
/// Audio sample rate of the sound stream a frontend plays.
pub const AUDIO_SAMPLE_RATE: u32 = 44_100;
/// Number of RGBA bytes in a frame produced by [`GameBoy::framebuffer_rgba`].
pub const FRAMEBUFFER_RGBA_LEN: usize = SCREEN_WIDTH * SCREEN_HEIGHT * 4;

/// A fully assembled Game Boy: CPU + bus + all peripherals.
pub struct GameBoy {
    cpu: Cpu,
    mmu: Mmu,
}

/// The abstract state of the whole machine.
#[verifier::ext_equal]
pub struct GameBoyState {
    pub cpu: CpuState,
    pub mmu: MmuState,
}

impl GameBoyState {
    /// The machine right after power-on with the cartridge built from `rom`
    /// and `save`.
    pub open spec fn powered_on(rom: Seq<u8>, save: Option<Seq<u8>>) -> GameBoyState {
        GameBoyState {
            cpu: CpuState::post_boot(),
            mmu: MmuState::initial(CartridgeState::loaded(rom, save)),
        }
    }

    pub open spec fn wf(self) -> bool {
        self.mmu.wf()
    }

    /// The machine after one step: the CPU steps (see [`step_spec`]) and
    /// the peripherals are clocked by the T-cycles the step took.
    pub open spec fn after_step(self) -> GameBoyState {
        let o = step_spec(self.cpu, self.mmu);
        GameBoyState { cpu: o.cpu, mmu: o.mmu.ticked(o.cycles) }
    }

    /// The T-cycles one step takes.
    pub open spec fn step_cycles(self) -> nat {
        step_spec(self.cpu, self.mmu).cycles
    }

    /// The machine with the PPU's finished-frame flag taken (cleared).
    pub open spec fn frame_taken(self) -> GameBoyState {
        GameBoyState {
            mmu: MmuState { ppu: PpuState { frame_ready: false, ..self.mmu.ppu }, ..self.mmu },
            ..self
        }
    }

    /// Whether, within `n` steps, a step ends with the PPU reporting a
    /// finished frame.
    pub open spec fn frame_within(self, n: nat) -> bool
        decreases n,
    {
        n > 0 && (self.after_step().mmu.ppu.frame_ready || self.after_step().frame_within(
            (n - 1) as nat,
        ))
    }

    /// The machine after stepping until a step ends with a finished frame
    /// (whose flag is then taken), or after `n` steps if none does.
    pub open spec fn run_until_frame(self, n: nat) -> GameBoyState
        decreases n,
    {
        if n == 0 {
            self
        } else if self.after_step().mmu.ppu.frame_ready {
            self.after_step().frame_taken()
        } else {
            self.after_step().run_until_frame((n - 1) as nat)
        }
    }

    /// The machine after pressing or releasing `button`: a fresh press on a
    /// selected line also requests the joypad interrupt.
    pub open spec fn after_button(self, button: Button, pressed: bool) -> GameBoyState {
        let mmu = MmuState { joypad: self.mmu.joypad.set_button(button, pressed), ..self.mmu };
        if self.mmu.joypad.raises_interrupt(button, pressed) {
            GameBoyState {
                mmu: MmuState { iflags: mmu.iflags | interrupts::JOYPAD, ..mmu },
                ..self
            }
        } else {
            GameBoyState { mmu, ..self }
        }
    }
}

impl View for GameBoy {
    type V = GameBoyState;

    closed spec fn view(&self) -> GameBoyState {
        GameBoyState { cpu: self.cpu@, mmu: self.mmu@ }
    }
}

impl GameBoy {
    /// Build a Game Boy from cartridge ROM bytes.
    pub fn new(rom: Vec<u8>) -> (r: Result<Self, CartridgeError>)
        requires
            rom@.len() <= isize::MAX,
        ensures
            rom@.len() < HEADER_END ==> r == Err::<GameBoy, CartridgeError>(
                CartridgeError::TooSmall,
            ),
            rom@.len() >= HEADER_END && classify_spec(rom@[0x147]) is None ==> r == Err::<
                GameBoy,
                CartridgeError,
            >(CartridgeError::UnsupportedMapper(rom@[0x147])),
            rom@.len() >= HEADER_END && classify_spec(rom@[0x147]) is Some ==> (r matches Ok(gb)
                && gb@ == GameBoyState::powered_on(rom@, None) && gb@.wf()),
    {
        Self::with_save(rom, None)
    }

    /// Build a Game Boy, restoring previously saved battery RAM if provided.
    pub fn with_save(rom: Vec<u8>, save: Option<Vec<u8>>) -> (r: Result<Self, CartridgeError>)
        requires
            rom@.len() <= isize::MAX,
        ensures
            rom@.len() < HEADER_END ==> r == Err::<GameBoy, CartridgeError>(
                CartridgeError::TooSmall,
            ),
            rom@.len() >= HEADER_END && classify_spec(rom@[0x147]) is None ==> r == Err::<
                GameBoy,
                CartridgeError,
            >(CartridgeError::UnsupportedMapper(rom@[0x147])),
            rom@.len() >= HEADER_END && classify_spec(rom@[0x147]) is Some ==> (r matches Ok(gb)
                && gb@ == GameBoyState::powered_on(rom@, opt_bytes(save)) && gb@.wf()),
    {
        let ghost rom_seq = rom@;
        let cartridge = match Cartridge::new(rom, save) {
            Ok(c) => c,
            Err(e) => return Err(e),
        };
        Ok(Self { cpu: Cpu::new(), mmu: Mmu::new(cartridge) })
    }

    /// Run the system until the PPU reports a finished frame (~70224
    /// T-cycles with the LCD on). Returns the machine as it stands after the
    /// step that finished the frame, with the frame flag taken.
    pub fn run_frame(&mut self)
        requires
            old(self)@.wf(),
            exists|n: nat| old(self)@.frame_within(n),
        ensures
            forall|n: nat| #[trigger]
                old(self)@.frame_within(n) ==> final(self)@ == old(self)@.run_until_frame(n),
            final(self)@.wf(),
    {
        let ghost n0: nat = choose|n: nat| old(self)@.frame_within(n);
        let ghost mut k: nat = n0;
        loop
            invariant_except_break
                self@.wf(),
                self@.frame_within(k),
                self@.run_until_frame(k) == old(self)@.run_until_frame(n0),
            ensures
                self@ == old(self)@.run_until_frame(n0),
                self@.wf(),
            decreases k,
        {
            let ghost before = self@;
            let cycles = self.cpu.step(&mut self.mmu);
            self.mmu.tick(cycles);
            proof {
                self.mmu.lemma_view();
                assert(self@ == before.after_step());
            }
            if self.mmu.ppu.take_frame_ready() {
                proof {
                    self.mmu.lemma_view();
                    assert(self@ == before.after_step().frame_taken());
                }
                break;
            }
            proof {
                self.mmu.lemma_view();
                assert(self@ =~= before.after_step());
                k = (k - 1) as nat;
            }
        }
        proof {
            assert forall|n: nat| #[trigger] old(self)@.frame_within(n) implies self@ == old(
                self,
            )@.run_until_frame(n) by {
                lemma_run_until_frame_stable(old(self)@, n, n0);
            }
        }
    }

    /// Execute a single step (an interrupt dispatch, a HALT idle or one
    /// instruction) and advance the peripherals by its duration. Returns the
    /// elapsed T-cycles.
    pub fn step(&mut self) -> (cycles: u32)
        requires
            old(self)@.wf(),
        ensures
            cycles == old(self)@.step_cycles(),
            final(self)@ == old(self)@.after_step(),
            final(self)@.wf(),
    {
        let cycles = self.cpu.step(&mut self.mmu);
        self.mmu.tick(cycles);
        cycles
    }

    /// The current frame as 160x144 2-bit shade indices (0 = lightest .. 3 = darkest).
    pub fn framebuffer(&self) -> (fb: &[u8])
        ensures
            fb@ == self@.mmu.ppu.framebuffer,
    {
        proof {
            self.mmu.lemma_view();
        }
        self.mmu.ppu.framebuffer()
    }

    /// Write the current frame into `out` as RGBA8888 using the classic DMG
    /// green palette. `out` should hold at least [`FRAMEBUFFER_RGBA_LEN`] bytes;
    /// only as many whole pixels as fit are written.
    pub fn framebuffer_rgba(&self, out: &mut [u8])
        ensures
            final(out)@ == shades_to_rgba_spec(self@.mmu.ppu.framebuffer, old(out)@),
    {
        proof {
            self.mmu.lemma_view();
        }
        ppu::shades_to_rgba(self.mmu.ppu.framebuffer(), out);
    }

    /// Write the current frame into `out` as packed 0x00RRGGBB pixels of the
    /// classic DMG green palette, one `u32` per pixel; only as many pixels as
    /// fit are written.
    pub fn framebuffer_xrgb(&self, out: &mut [u32])
        ensures
            final(out)@ == shades_to_xrgb_spec(self@.mmu.ppu.framebuffer, old(out)@),
    {
        proof {
            self.mmu.lemma_view();
        }
        ppu::shades_to_xrgb(self.mmu.ppu.framebuffer(), out);
    }

    /// Press or release a button. Raises a joypad interrupt on a fresh press.
    pub fn set_button(&mut self, button: Button, pressed: bool)
        requires
            old(self)@.wf(),
        ensures
            final(self)@ == old(self)@.after_button(button, pressed),
            final(self)@.wf(),
    {
        proof {
            self.mmu.lemma_view();
        }
        if self.mmu.joypad.set_button(button, pressed) {
            proof {
                self.mmu.lemma_view();
            }
            self.mmu.request_interrupt(interrupts::JOYPAD);
        }
        proof {
            self.mmu.lemma_view();
        }
    }

    /// Battery-backed cartridge RAM to persist, if the cartridge has a battery.
    pub fn save_data(&self) -> (d: Option<Vec<u8>>)
        ensures
            opt_bytes(d) == self@.mmu.cartridge.save_data(),
    {
        proof {
            self.mmu.lemma_view();
        }
        self.mmu.cartridge.save_data()
    }

    /// Whether the cartridge RAM has changed since the last [`Self::mark_saved`].
    pub fn save_is_dirty(&self) -> (d: bool)
        ensures
            d == self@.mmu.cartridge.save_dirty,
    {
        proof {
            self.mmu.lemma_view();
        }
        self.mmu.cartridge.save_is_dirty()
    }

    /// Acknowledge that the current save RAM has been persisted.
    pub fn mark_saved(&mut self)
        ensures
            final(self)@ == (GameBoyState {
                mmu: MmuState {
                    cartridge: CartridgeState { save_dirty: false, ..old(self)@.mmu.cartridge },
                    ..old(self)@.mmu
                },
                ..old(self)@
            }),
    {
        proof {
            self.mmu.lemma_view();
        }
        self.mmu.cartridge.mark_saved();
        proof {
            self.mmu.lemma_view();
        }
    }

    /// What a frontend should persist now: the battery RAM when it has
    /// changed since the last [`Self::mark_saved`] (the frontend marks it
    /// saved once written), else nothing. A changed RAM without a battery has
    /// nothing to persist, and its dirty flag is cleared here so that it
    /// stops being asked.
    pub fn save_to_persist(&mut self) -> (d: Option<Vec<u8>>)
        ensures
            !old(self)@.mmu.cartridge.save_dirty ==> d is None && final(self)@ == old(self)@,
            old(self)@.mmu.cartridge.save_dirty && old(self)@.mmu.cartridge.save_data() is Some
                ==> opt_bytes(d) == old(self)@.mmu.cartridge.save_data() && final(self)@ == old(
                self,
            )@,
            old(self)@.mmu.cartridge.save_dirty && old(self)@.mmu.cartridge.save_data() is None
                ==> d is None && final(self)@ == (GameBoyState {
                mmu: MmuState {
                    cartridge: CartridgeState { save_dirty: false, ..old(self)@.mmu.cartridge },
                    ..old(self)@.mmu
                },
                ..old(self)@
            }),
    {
        if !self.save_is_dirty() {
            return None;
        }
        let data = self.save_data();
        if data.is_none() {
            self.mark_saved();
        }
        data
    }

    /// The cartridge's internal title string (header bytes 0x134..0x143).
    pub fn title(&self) -> (t: &str)
        ensures
            t@ == self@.mmu.cartridge.title,
    {
        proof {
            self.mmu.lemma_view();
        }
        self.mmu.cartridge.title()
    }

    /// Bytes the ROM has written to the serial port. Test ROMs report their
    /// results here.
    pub fn take_serial(&mut self) -> (out: Vec<u8>)
        ensures
            out@ == old(self)@.mmu.serial.output,
            final(self)@ == (GameBoyState {
                mmu: MmuState {
                    serial: SerialState { output: Seq::empty(), ..old(self)@.mmu.serial },
                    ..old(self)@.mmu
                },
                ..old(self)@
            }),
    {
        proof {
            self.mmu.lemma_view();
        }
        let out = self.mmu.serial.take_output();
        proof {
            self.mmu.lemma_view();
        }
        out
    }
}


// ---- laws of the machine ----

/// Running until a frame gives the same machine whatever step budget is
/// named, as long as the frame is finished within it.
pub proof fn lemma_run_until_frame_stable(s: GameBoyState, n1: nat, n2: nat)
    requires
        s.frame_within(n1),
        s.frame_within(n2),
    ensures
        s.run_until_frame(n1) == s.run_until_frame(n2),
    decreases n1,
{
    if !s.after_step().mmu.ppu.frame_ready {
        lemma_run_until_frame_stable(s.after_step(), (n1 - 1) as nat, (n2 - 1) as nat);
    }
}

/// A fresh press of a button on a selected line requests the joypad
/// interrupt; any other press or release requests nothing. Either way the
/// button state is recorded, the CPU is untouched and the machine stays well formed.
pub proof fn lemma_button_interrupt(gb: GameBoyState, button: Button, pressed: bool)
    requires
        gb.wf(),
    ensures
        gb.after_button(button, pressed).mmu.joypad == gb.mmu.joypad.set_button(button, pressed),
        gb.after_button(button, pressed).cpu == gb.cpu,
        gb.after_button(button, pressed).wf(),
        gb.mmu.joypad.raises_interrupt(button, pressed) ==> gb.after_button(
            button,
            pressed,
        ).mmu.iflags & interrupts::JOYPAD != 0,
        !gb.mmu.joypad.raises_interrupt(button, pressed) ==> gb.after_button(
            button,
            pressed,
        ).mmu.iflags == gb.mmu.iflags,
{
    let f = gb.mmu.iflags;
    assert((f | 0x10u8) & 0x10u8 != 0 && interrupts::JOYPAD == 0x10u8) by (bit_vector);
    let j = gb.mmu.joypad;
    let m = button.mask();
    assert(button.bit() < 4);
    bits::lemma_nibble_bits();
    let d = j.dpad;
    let b = j.buttons;
    assert((d & !m) & 0xF0 == 0 && (d | m) & 0xF0 == 0);
    assert((b & !m) & 0xF0 == 0 && (b | m) & 0xF0 == 0);
}

/// Battery saves persist across power cycles: a machine powered on with a
/// save of the cartridge's RAM size hands exactly that save back as its save
/// data (for a battery cartridge with RAM) and is not dirty.
pub proof fn lemma_save_restore(rom: Seq<u8>, save: Seq<u8>)
    requires
        rom.len() >= HEADER_END,
        classify_spec(rom[0x147]) matches Some((kind, battery)) && battery && save.len()
            == ram_size_spec(rom[0x149], kind) && save.len() > 0,
    ensures
        GameBoyState::powered_on(rom, Some(save)).mmu.cartridge.save_data() == Some(save),
        !GameBoyState::powered_on(rom, Some(save)).mmu.cartridge.save_dirty,
{
    lemma_save_round_trip(rom, save);
}

/// A powered-on machine starts at 0x0100 with SP at 0xFFFE, interrupts masked
/// (IME off, IE clear) and nothing pending.
pub proof fn lemma_power_on_state(rom: Seq<u8>, save: Option<Seq<u8>>)
    ensures
        GameBoyState::powered_on(rom, save).cpu.pc == 0x0100,
        GameBoyState::powered_on(rom, save).cpu.sp == 0xFFFE,
        !GameBoyState::powered_on(rom, save).cpu.ime,
        GameBoyState::powered_on(rom, save).mmu.pending() == 0,
{
    let f: u8 = 0xE1;
    assert(f & 0u8 & 0x1Fu8 == 0) by (bit_vector);
}

/// The machine after `n` steps.
pub open spec fn after_steps(s: GameBoyState, n: nat) -> GameBoyState
    decreases n,
{
    if n == 0 {
        s
    } else {
        after_steps(s.after_step(), (n - 1) as nat)
    }
}

/// A CPU halted with every interrupt masked in IE: it idles, 4 T-cycles a
/// step, while the LCD runs.
pub open spec fn idles_in_halt(s: GameBoyState) -> bool {
    &&& s.wf()
    &&& s.cpu.halted
    &&& s.mmu.ie & interrupts::ALL == 0
    &&& s.mmu.ppu.lcd_on()
}

/// While the CPU idles in HALT, `n` steps clock the PPU for 4n T-cycles.
proof fn lemma_idle_steps(s: GameBoyState, n: nat)
    requires
        idles_in_halt(s),
    ensures
        idles_in_halt(after_steps(s, n)),
        after_steps(s, n).mmu.ppu == s.mmu.ppu.clocked(4 * n),
    decreases n,
{
    let f = s.mmu.iflags;
    let e = s.mmu.ie;
    assert(e & 0x1Fu8 == 0 ==> f & e & 0x1Fu8 == 0) by (bit_vector);
    cpu::exec::lemma_halt_wake(s.cpu, s.mmu);
    let t = s.after_step();
    ppu::lemma_clocked_wf(s.mmu.ppu, 4);
    assert(t.mmu.ppu == s.mmu.ppu.clocked(4));
    if n > 0 {
        lemma_idle_steps(t, (n - 1) as nat);
        ppu::lemma_clocked_add(s.mmu.ppu, 4, 4 * (n - 1) as nat);
    }
}

/// Within `n` steps a frame is finished if it is after exactly `n`.
proof fn lemma_frame_within_by_end(s: GameBoyState, n: nat)
    requires
        idles_in_halt(s),
        n > 0,
        after_steps(s, n).mmu.ppu.frame_ready,
    ensures
        s.frame_within(n),
    decreases n,
{
    if !s.after_step().mmu.ppu.frame_ready {
        lemma_idle_steps(s, 1);
        assert(after_steps(s, 1) == after_steps(s.after_step(), 0));
        lemma_frame_within_by_end(s.after_step(), (n - 1) as nat);
    }
}

/// A frame every 70224 T-cycles, at the level of the machine: while the CPU
/// idles in HALT with the LCD on, a frame is finished within 17556 steps of
/// 4 T-cycles, so [`GameBoy::run_frame`] may be called and returns.
pub proof fn lemma_idle_machine_finishes_frame(s: GameBoyState)
    requires
        idles_in_halt(s),
    ensures
        s.frame_within(17556),
{
    lemma_idle_steps(s, 17556);
    ppu::lemma_frame_period(s.mmu.ppu);
    lemma_frame_within_by_end(s, 17556);
}

} // verus!
