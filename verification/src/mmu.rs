//! The memory bus.
//!
//! Every CPU memory access goes through [`Mmu::read_byte`] / [`Mmu::write_byte`],
//! which decode the 16-bit address space and route to the right component.
//!
//! | Range         | Target                                   |
//! |---------------|------------------------------------------|
//! | 0000-7FFF     | Cartridge ROM (banked)                   |
//! | 8000-9FFF     | PPU video RAM                            |
//! | A000-BFFF     | Cartridge external RAM (banked)          |
//! | C000-DFFF     | Work RAM                                 |
//! | E000-FDFF     | Echo of C000-DDFF                        |
//! | FE00-FE9F     | PPU sprite attribute table (OAM)         |
//! | FEA0-FEFF     | Prohibited                               |
//! | FF00          | Joypad                                   |
//! | FF01-FF02     | Serial                                   |
//! | FF04-FF07     | Timer                                    |
//! | FF0F          | IF: interrupt requests                   |
//! | FF10-FF3F     | APU (sound)                              |
//! | FF40-FF4B     | PPU registers (FF46 = OAM DMA, here)     |
//! | FF80-FFFE     | High RAM                                 |
//! | FFFF          | IE: interrupt enable                     |
use vstd::prelude::*;

use crate::apu::{Apu, APU_REGS};
use crate::bits::{lemma_byte_pair, lemma_mask_bounds};
use crate::cartridge::{Cartridge, CartridgeState};
use crate::interrupts;
use crate::joypad::{Joypad, JoypadState};
use crate::ppu::{Ppu, PpuState, OAM_LEN};
use crate::serial::{Serial, SerialState};
use crate::timer::{Timer, TimerState};

verus! {

/// Bytes of work RAM (C000..DFFF).
pub const WRAM_LEN: usize = 0x2000;
/// Bytes of high RAM (FF80..FFFE).
pub const HRAM_LEN: usize = 0x7F;

pub struct Mmu {
    pub(crate) cartridge: Cartridge,
    pub(crate) ppu: Ppu,
    pub(crate) apu: Apu,
    pub(crate) timer: Timer,
    pub(crate) joypad: Joypad,
    pub(crate) serial: Serial,
    pub(crate) wram: Vec<u8>,
    pub(crate) hram: Vec<u8>,
    /// IF (0xFF0F): pending interrupt requests.
    pub(crate) iflags: u8,
    /// IE (0xFFFF): interrupt enable mask.
    pub(crate) ie: u8,
}

/// The abstract state of the bus and everything attached to it.
#[verifier::ext_equal]
pub struct MmuState {
    pub cartridge: CartridgeState,
    pub ppu: PpuState,
    pub apu: Seq<u8>,
    pub timer: TimerState,
    pub joypad: JoypadState,
    pub serial: SerialState,
    pub wram: Seq<u8>,
    pub hram: Seq<u8>,
    pub iflags: u8,
    pub ie: u8,
}

/// The address that OAM DMA from page `val` copies into sprite entry `i`.
pub open spec fn dma_source(val: u8, i: int) -> u16 {
    (val as int * 256 + i) as u16
}

impl MmuState {
    /// The bus right after power-on around cartridge `cart`.
    pub open spec fn initial(cart: CartridgeState) -> MmuState {
        MmuState {
            cartridge: cart,
            ppu: PpuState::initial(),
            apu: Seq::new(APU_REGS as nat, |i: int| 0u8),
            timer: TimerState::initial(),
            joypad: JoypadState::initial(),
            serial: SerialState::initial(),
            wram: Seq::new(WRAM_LEN as nat, |i: int| 0u8),
            hram: Seq::new(HRAM_LEN as nat, |i: int| 0u8),
            iflags: 0xE1,
            ie: 0x00,
        }
    }

    pub open spec fn wf(self) -> bool {
        &&& self.cartridge.wf()
        &&& self.ppu.wf()
        &&& self.apu.len() == APU_REGS
        &&& self.joypad.wf()
        &&& self.serial.wf()
        &&& self.wram.len() == WRAM_LEN
        &&& self.hram.len() == HRAM_LEN
    }

    /// The bus after `n` T-cycles: the timer and the PPU are clocked and the
    /// interrupts they raise are added to IF.
    pub open spec fn ticked(self, n: nat) -> MmuState {
        MmuState {
            timer: self.timer.clocked(n),
            ppu: self.ppu.clocked(n),
            iflags: self.iflags | self.timer.overflow_irq(n) | self.ppu.clocked_irq(n),
            ..self
        }
    }

    /// Interrupts that are both requested and enabled.
    pub open spec fn pending(self) -> u8 {
        self.iflags & self.ie & interrupts::ALL
    }

    pub open spec fn read_byte(self, addr: u16) -> u8 {
        if addr <= 0x7FFF {
            self.cartridge.read(addr)
        } else if addr <= 0x9FFF {
            self.ppu.read_vram(addr)
        } else if addr <= 0xBFFF {
            self.cartridge.read(addr)
        } else if addr <= 0xDFFF {
            self.wram[addr - 0xC000]
        } else if addr <= 0xFDFF {
            self.wram[addr - 0xE000]  // echo RAM
        } else if addr <= 0xFE9F {
            self.ppu.read_oam(addr)
        } else if addr <= 0xFEFF {
            0xFF  // prohibited
        } else if addr == 0xFF00 {
            self.joypad.read()
        } else if addr <= 0xFF02 {
            self.serial.read_reg(addr)
        } else if 0xFF04 <= addr <= 0xFF07 {
            self.timer.read_reg(addr)
        } else if addr == 0xFF0F {
            self.iflags | 0xE0  // top 3 bits read as 1
        } else if 0xFF10 <= addr <= 0xFF3F {
            self.apu[addr - 0xFF10]
        } else if 0xFF40 <= addr <= 0xFF4B {
            self.ppu.read_reg(addr)
        } else if 0xFF80 <= addr <= 0xFFFE {
            self.hram[addr - 0xFF80]
        } else if addr == 0xFFFF {
            self.ie
        } else {
            0xFF  // unmapped I/O
        }
    }

    /// OAM DMA: the 0xA0 bytes at page `val` are copied into sprite memory, all
    /// read before any is written.
    pub open spec fn oam_dma(self, val: u8) -> MmuState {
        MmuState {
            ppu: PpuState {
                oam: Seq::new(OAM_LEN as nat, |i: int| self.read_byte(dma_source(val, i))),
                ..self.ppu
            },
            ..self
        }
    }

    pub open spec fn write_byte(self, addr: u16, val: u8) -> MmuState {
        if addr <= 0x7FFF {
            MmuState { cartridge: self.cartridge.write(addr, val), ..self }
        } else if addr <= 0x9FFF {
            MmuState { ppu: self.ppu.write_vram(addr, val), ..self }
        } else if addr <= 0xBFFF {
            MmuState { cartridge: self.cartridge.write(addr, val), ..self }
        } else if addr <= 0xDFFF {
            MmuState { wram: self.wram.update(addr - 0xC000, val), ..self }
        } else if addr <= 0xFDFF {
            MmuState { wram: self.wram.update(addr - 0xE000, val), ..self }
        } else if addr <= 0xFE9F {
            MmuState { ppu: self.ppu.write_oam(addr, val), ..self }
        } else if addr <= 0xFEFF {
            self  // prohibited
        } else if addr == 0xFF00 {
            MmuState { joypad: self.joypad.write(val), ..self }
        } else if addr <= 0xFF02 {
            MmuState { serial: self.serial.write_reg(addr, val), ..self }
        } else if 0xFF04 <= addr <= 0xFF07 {
            MmuState { timer: self.timer.write_reg(addr, val), ..self }
        } else if addr == 0xFF0F {
            MmuState { iflags: val & interrupts::ALL, ..self }
        } else if 0xFF10 <= addr <= 0xFF3F {
            MmuState { apu: self.apu.update(addr - 0xFF10, val), ..self }
        } else if addr == 0xFF46 {
            self.oam_dma(val)
        } else if 0xFF40 <= addr <= 0xFF4B {
            MmuState { ppu: self.ppu.write_reg(addr, val), ..self }
        } else if 0xFF80 <= addr <= 0xFFFE {
            MmuState { hram: self.hram.update(addr - 0xFF80, val), ..self }
        } else if addr == 0xFFFF {
            MmuState { ie: val, ..self }
        } else {
            self  // unmapped I/O
        }
    }
}

impl View for Mmu {
    type V = MmuState;

    closed spec fn view(&self) -> MmuState {
        MmuState {
            cartridge: self.cartridge@,
            ppu: self.ppu@,
            apu: self.apu@,
            timer: self.timer@,
            joypad: self.joypad@,
            serial: self.serial@,
            wram: self.wram@,
            hram: self.hram@,
            iflags: self.iflags,
            ie: self.ie,
        }
    }
}

impl Mmu {
    /// The bus state is made of the states of its parts.
    pub(crate) proof fn lemma_view(&self)
        ensures
            self@ == (MmuState {
                cartridge: self.cartridge@,
                ppu: self.ppu@,
                apu: self.apu@,
                timer: self.timer@,
                joypad: self.joypad@,
                serial: self.serial@,
                wram: self.wram@,
                hram: self.hram@,
                iflags: self.iflags,
                ie: self.ie,
            }),
    {
    }

    pub fn new(cartridge: Cartridge) -> (m: Self)
        requires
            cartridge@.wf(),
        ensures
            m@ == MmuState::initial(cartridge@),
            m@.wf(),
    {
        let wram = vec![0u8; WRAM_LEN];
        let hram = vec![0u8; HRAM_LEN];
        let m = Mmu {
            cartridge,
            ppu: Ppu::new(),
            apu: Apu::new(),
            timer: Timer::new(),
            joypad: Joypad::new(),
            serial: Serial::new(),
            wram,
            hram,
            iflags: 0xE1,  // post-boot value
            ie: 0x00,
        };
        proof {
            assert(m@ =~= MmuState::initial(cartridge@));
        }
        m
    }

    /// Set interrupt request bit(s) in IF.
    pub fn request_interrupt(&mut self, mask: u8)
        ensures
            final(self)@ == (MmuState { iflags: old(self)@.iflags | mask, ..old(self)@ }),
    {
        self.iflags |= mask;
    }

    /// Interrupts that are both requested and enabled (the set the CPU services).
    pub fn pending_interrupts(&self) -> (p: u8)
        ensures
            p == self@.pending(),
    {
        self.iflags & self.ie & interrupts::ALL
    }

    /// Acknowledge (clear) a serviced interrupt's request bit.
    pub fn clear_interrupt(&mut self, mask: u8)
        ensures
            final(self)@ == (MmuState { iflags: old(self)@.iflags & !mask, ..old(self)@ }),
    {
        self.iflags &= !mask;
    }

    /// Advance every peripheral by `cycles` T-cycles, folding any interrupts
    /// they raise into IF. Called once per CPU instruction.
    pub fn tick(&mut self, cycles: u32)
        requires
            old(self)@.wf(),
        ensures
            final(self)@ == old(self)@.ticked(cycles as nat),
            final(self)@.wf(),
    {
        let t = self.timer.step(cycles);
        self.iflags |= t;
        let p = self.ppu.step(cycles);
        self.iflags |= p;
        let s = self.serial.step(cycles);
        self.iflags |= s;
        self.apu.step(cycles);
        proof {
            lemma_mask_bounds();
        }
    }

    pub fn read_byte(&self, addr: u16) -> (r: u8)
        requires
            self@.wf(),
        ensures
            r == self@.read_byte(addr),
    {
        match addr {
            0x0000..=0x7FFF => self.cartridge.read(addr),
            0x8000..=0x9FFF => self.ppu.read_vram(addr),
            0xA000..=0xBFFF => self.cartridge.read(addr),
            0xC000..=0xDFFF => self.wram[(addr - 0xC000) as usize],
            0xE000..=0xFDFF => self.wram[(addr - 0xE000) as usize],  // echo RAM
            0xFE00..=0xFE9F => self.ppu.read_oam(addr),
            0xFEA0..=0xFEFF => 0xFF,  // prohibited
            0xFF00 => self.joypad.read(),
            0xFF01..=0xFF02 => self.serial.read_reg(addr),
            0xFF04..=0xFF07 => self.timer.read_reg(addr),
            0xFF0F => self.iflags | 0xE0,  // top 3 bits read as 1
            0xFF10..=0xFF3F => self.apu.read_reg(addr),
            0xFF40..=0xFF4B => self.ppu.read_reg(addr),
            0xFF80..=0xFFFE => self.hram[(addr - 0xFF80) as usize],
            0xFFFF => self.ie,
            _ => 0xFF,  // unmapped I/O
        }
    }

    pub fn write_byte(&mut self, addr: u16, val: u8)
        requires
            old(self)@.wf(),
        ensures
            final(self)@ == old(self)@.write_byte(addr, val),
            final(self)@.wf(),
    {
        match addr {
            0x0000..=0x7FFF => self.cartridge.write(addr, val),
            0x8000..=0x9FFF => self.ppu.write_vram(addr, val),
            0xA000..=0xBFFF => self.cartridge.write(addr, val),
            0xC000..=0xDFFF => self.wram.set((addr - 0xC000) as usize, val),
            0xE000..=0xFDFF => self.wram.set((addr - 0xE000) as usize, val),
            0xFE00..=0xFE9F => self.ppu.write_oam(addr, val),
            0xFEA0..=0xFEFF => {},  // prohibited
            0xFF00 => self.joypad.write(val),
            0xFF01..=0xFF02 => self.serial.write_reg(addr, val),
            0xFF04..=0xFF07 => self.timer.write_reg(addr, val),
            0xFF0F => self.iflags = val & interrupts::ALL,
            0xFF10..=0xFF3F => self.apu.write_reg(addr, val),
            0xFF46 => self.oam_dma(val),  // must precede the FF40..=FF4B arm
            0xFF40..=0xFF4B => self.ppu.write_reg(addr, val),
            0xFF80..=0xFFFE => self.hram.set((addr - 0xFF80) as usize, val),
            0xFFFF => self.ie = val,
            _ => {},  // unmapped I/O
        }
    }

    /// OAM DMA (FF46): copy 0xA0 bytes from `val << 8` into sprite memory.
    /// Done atomically here.
    fn oam_dma(&mut self, val: u8)
        requires
            old(self)@.wf(),
        ensures
            final(self)@ == old(self)@.oam_dma(val),
            final(self)@.wf(),
    {
        let src: u16 = (val as u16) << 8;
        proof {
            lemma_byte_pair();
        }
        let mut buf: Vec<u8> = Vec::new();
        let mut i: u16 = 0;
        while i < 0xA0
            invariant
                self@ == old(self)@,
                self@.wf(),
                src == val as int * 256,
                i <= 0xA0,
                buf@.len() == i,
                forall|j: int| 0 <= j < i ==> buf@[j] == #[trigger] self@.read_byte(dma_source(val, j)),
            decreases 0xA0 - i,
        {
            let b = self.read_byte(src + i);
            buf.push(b);
            i = i + 1;
        }
        let ghost before = self@;
        let mut k: u16 = 0;
        while k < 0xA0
            invariant
                self@.wf(),
                k <= 0xA0,
                buf@.len() == 0xA0,
                self@ == (MmuState { ppu: PpuState { oam: self@.ppu.oam, ..before.ppu }, ..before }),
                forall|j: int| 0 <= j < k ==> self@.ppu.oam[j] == buf@[j],
                forall|j: int| k <= j < 0xA0 ==> self@.ppu.oam[j] == before.ppu.oam[j],
            decreases 0xA0 - k,
        {
            proof {
                self.lemma_view();
            }
            self.ppu.write_oam(0xFE00 + k, buf[k as usize]);
            proof {
                self.lemma_view();
            }
            k = k + 1;
        }
        proof {
            assert(self@.ppu.oam =~= Seq::new(
                OAM_LEN as nat,
                |j: int| old(self)@.read_byte(dma_source(val, j)),
            ));
            assert(self@ =~= old(self)@.oam_dma(val));
        }
    }
}


// ---- laws of the bus ----

/// Whether `addr` is backed by plain RAM: work RAM, its echo, or high RAM.
pub open spec fn is_plain_ram(addr: u16) -> bool {
    (0xC000 <= addr <= 0xFDFF) || (0xFF80 <= addr <= 0xFFFE)
}

/// The RAM cell behind a plain-RAM address: work RAM cells 0..0x1FFF (shared
/// by C000.. and its echo E000..), then high RAM cells.
pub open spec fn ram_cell(addr: u16) -> int {
    if addr <= 0xDFFF {
        addr - 0xC000
    } else if addr <= 0xFDFF {
        addr - 0xE000
    } else {
        0x2000 + (addr - 0xFF80)
    }
}

/// Plain RAM reads back what was last written, and writing one cell leaves
/// every other cell as it was.
pub proof fn lemma_ram_write_read(m: MmuState, addr: u16, other: u16, val: u8)
    requires
        m.wf(),
        is_plain_ram(addr),
        is_plain_ram(other),
        ram_cell(addr) != ram_cell(other),
    ensures
        m.write_byte(addr, val).read_byte(addr) == val,
        m.write_byte(addr, val).read_byte(other) == m.read_byte(other),
        m.write_byte(addr, val).wf(),
{
}

/// Video RAM, sprite memory and the sound registers read back through the bus
/// what was written to them through the bus.
pub proof fn lemma_device_write_read(m: MmuState, addr: u16, val: u8)
    requires
        m.wf(),
        (0x8000 <= addr <= 0x9FFF) || (0xFE00 <= addr <= 0xFE9F) || (0xFF10 <= addr <= 0xFF3F),
    ensures
        m.write_byte(addr, val).read_byte(addr) == val,
        m.write_byte(addr, val).wf(),
{
    lemma_mask_bounds();
}

/// E000..FDFF echoes C000..DDFF, for reads and for writes.
pub proof fn lemma_echo_ram(m: MmuState, addr: u16, val: u8)
    requires
        m.wf(),
        0xC000 <= addr <= 0xDDFF,
    ensures
        m.read_byte((addr + 0x2000) as u16) == m.read_byte(addr),
        m.write_byte((addr + 0x2000) as u16, val).read_byte(addr) == val,
{
}

/// IF reads with its unused top three bits set; a write to IF keeps only the
/// five interrupt bits; IE reads back as written; the prohibited region reads
/// 0xFF and ignores writes.
pub proof fn lemma_interrupt_registers(m: MmuState, val: u8, addr: u16)
    requires
        m.wf(),
    ensures
        m.read_byte(0xFF0F) & 0xE0 == 0xE0,
        m.write_byte(0xFF0F, val).iflags == val & interrupts::ALL,
        m.write_byte(0xFF0F, val).pending() == val & m.ie & interrupts::ALL,
        m.write_byte(0xFFFF, val).read_byte(0xFFFF) == val,
        m.pending() & !interrupts::ALL == 0,
        0xFEA0 <= addr <= 0xFEFF ==> m.read_byte(addr) == 0xFF && m.write_byte(addr, val) == m,
{
    let f = m.iflags;
    let e = m.ie;
    assert((f | 0xE0u8) & 0xE0u8 == 0xE0u8 && (val & 0x1Fu8) & e & 0x1Fu8 == val & e & 0x1Fu8 && (f & e
        & 0x1Fu8) & !0x1Fu8 == 0) by (bit_vector);
}

/// OAM DMA from page `val` copies the 0xA0 bytes at `val << 8` into sprite
/// memory, as they were before the copy.
pub proof fn lemma_oam_dma_copies_page(m: MmuState, val: u8, i: int)
    requires
        m.wf(),
        0 <= i < OAM_LEN,
    ensures
        m.write_byte(0xFF46, val).ppu.oam[i] == m.read_byte(((val as int) * 256 + i) as u16),
        m.write_byte(0xFF46, val).wf(),
{
}

} // verus!
