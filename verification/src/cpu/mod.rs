//! Sharp LR35902 CPU (a Game Boy-specific 8080/Z80 relative).
//!
//! The step, the fetch/stack helpers and the interrupt and HALT control flow
//! live here; `alu` holds the flag-setting primitives, `exec` the two opcode
//! tables and `registers` the register file.
use vstd::prelude::*;

pub mod alu;
pub mod exec;
pub mod registers;

pub use registers::{Registers, FLAG_C, FLAG_H, FLAG_N, FLAG_Z};

use crate::interrupts;
use crate::mmu::{is_plain_ram, ram_cell, lemma_ram_write_read, Mmu, MmuState};
use registers::pair_value;
use exec::{outcome, step_spec};
use crate::bits::{lemma_byte_pair, lemma_mask_bounds, lemma_nibble_bits};

verus! {

pub struct Cpu {
    pub reg: Registers,
    pub pc: u16,
    pub sp: u16,
    /// Interrupt Master Enable.
    pub ime: bool,
    /// EI enables interrupts only after the following instruction.
    pub ime_pending: bool,
    /// HALT state: the CPU idles until an interrupt is pending.
    pub halted: bool,
    /// Set when HALT runs with IME=0 and an interrupt already pending: the next
    /// byte is fetched without advancing PC.
    pub halt_bug: bool,
}

/// The abstract state of the CPU.
pub struct CpuState {
    pub reg: Registers,
    pub pc: u16,
    pub sp: u16,
    pub ime: bool,
    pub ime_pending: bool,
    pub halted: bool,
    pub halt_bug: bool,
}

impl CpuState {
    pub open spec fn with_reg(self, reg: Registers) -> CpuState {
        CpuState { reg, ..self }
    }

    /// The state right after the boot ROM hands off to the cartridge.
    pub open spec fn post_boot() -> CpuState {
        CpuState {
            reg: Registers::spec_post_boot(),
            pc: 0x0100,
            sp: 0xFFFE,
            ime: false,
            ime_pending: false,
            halted: false,
            halt_bug: false,
        }
    }
}

/// `x - 1` modulo 2^16.
pub open spec fn dec16(x: u16) -> u16 {
    ((x + 0xFFFF) % 0x10000) as u16
}

/// `x + 1` modulo 2^16.
pub open spec fn inc16(x: u16) -> u16 {
    ((x + 1) % 0x10000) as u16
}

/// The high byte of `v`.
pub open spec fn high_byte(v: u16) -> u8 {
    (v / 256) as u8
}

/// The low byte of `v`.
pub open spec fn low_byte(v: u16) -> u8 {
    (v % 256) as u8
}

/// The index of the lowest set bit of a nonzero byte: the interrupt of
/// highest priority among those pending.
pub open spec fn lowest_bit(p: u8) -> int {
    if p & 0x01 != 0 {
        0
    } else if p & 0x02 != 0 {
        1
    } else if p & 0x04 != 0 {
        2
    } else if p & 0x08 != 0 {
        3
    } else if p & 0x10 != 0 {
        4
    } else if p & 0x20 != 0 {
        5
    } else if p & 0x40 != 0 {
        6
    } else {
        7
    }
}

/// The bus after pushing `value` on a stack whose pointer is `sp`: the high
/// byte goes to SP-1, then the low byte to SP-2.
pub open spec fn pushed(mmu: MmuState, sp: u16, value: u16) -> MmuState {
    mmu.write_byte(dec16(sp), high_byte(value)).write_byte(dec16(dec16(sp)), low_byte(value))
}

impl CpuState {
    /// The CPU after fetching one byte: PC advances, except for the one fetch
    /// that the HALT bug repeats.
    pub open spec fn after_fetch(self) -> CpuState {
        if self.halt_bug {
            CpuState { halt_bug: false, ..self }
        } else {
            CpuState { pc: inc16(self.pc), ..self }
        }
    }

    /// HALT: enter low-power state, except that with IME off and an interrupt
    /// already pending the CPU does not halt and the HALT bug is armed.
    pub open spec fn after_halt(self, pending: u8) -> CpuState {
        if self.ime {
            CpuState { halted: true, ..self }
        } else if pending != 0 {
            CpuState { halt_bug: true, ..self }
        } else {
            CpuState { halted: true, ..self }
        }
    }

    /// Whether `step` dispatches an interrupt: one is pending and IME is on.
    pub open spec fn takes_interrupt(self, mmu: MmuState) -> bool {
        mmu.pending() != 0 && self.ime
    }

    /// The CPU after dispatching the highest-priority pending interrupt: IME
    /// off, awake, PC pushed and replaced by the handler's vector.
    pub open spec fn after_interrupt(self, mmu: MmuState) -> CpuState {
        CpuState {
            pc: interrupts::vector_of(lowest_bit(mmu.pending())),
            sp: dec16(dec16(self.sp)),
            ime: false,
            ime_pending: false,
            halted: false,
            ..self
        }
    }

    /// The bus after dispatching the highest-priority pending interrupt: its
    /// request bit cleared and the old PC pushed.
    pub open spec fn bus_after_interrupt(self, mmu: MmuState) -> MmuState {
        let bit = lowest_bit(mmu.pending());
        pushed(
            MmuState { iflags: mmu.iflags & !((1u8 << (bit as u8))), ..mmu },
            self.sp,
            self.pc,
        )
    }
}

/// The lowest set bit really is set, and every lower bit is clear.
pub proof fn lemma_lowest_bit(p: u8)
    requires
        p != 0,
    ensures
        0 <= lowest_bit(p) < 8,
        p & (1u8 << (lowest_bit(p) as u8)) != 0,
        forall|j: u8| j < lowest_bit(p) ==> p & (1u8 << j) == 0,
        p & 0x1F == p ==> lowest_bit(p) < 5,
{
    assert((p != 0 ==> p & 0x01 != 0 || p & 0x02 != 0 || p & 0x04 != 0 || p & 0x08 != 0 || p & 0x10
        != 0 || p & 0x20 != 0 || p & 0x40 != 0 || p & 0x80 != 0) && (p & 0x1F == p ==> p & 0x20 == 0
        && p & 0x40 == 0 && p & 0x80 == 0)) by (bit_vector);
    lemma_nibble_bits();
}

impl View for Cpu {
    type V = CpuState;

    open spec fn view(&self) -> CpuState {
        CpuState {
            reg: self.reg,
            pc: self.pc,
            sp: self.sp,
            ime: self.ime,
            ime_pending: self.ime_pending,
            halted: self.halted,
            halt_bug: self.halt_bug,
        }
    }
}

impl Cpu {
    /// Construct with the canonical DMG post-boot register state (boot ROM skipped).
    pub fn new() -> (c: Self)
        ensures
            c@ == CpuState::post_boot(),
    {
        Cpu {
            reg: Registers::post_boot_dmg(),
            pc: 0x0100,
            sp: 0xFFFE,
            ime: false,
            ime_pending: false,
            halted: false,
            halt_bug: false,
        }
    }

    /// EI: schedule IME to turn on after the next instruction.
    pub fn schedule_ei(&mut self)
        ensures
            final(self)@ == (CpuState { ime_pending: true, ..old(self)@ }),
    {
        self.ime_pending = true;
    }

    /// DI: clear IME immediately.
    pub fn disable_interrupts(&mut self)
        ensures
            final(self)@ == (CpuState { ime: false, ime_pending: false, ..old(self)@ }),
    {
        self.ime = false;
        self.ime_pending = false;
    }

    /// Execute one step: service a pending interrupt, idle in HALT, or fetch
    /// and execute one instruction. Returns the elapsed T-cycles.
    pub fn step(&mut self, mmu: &mut Mmu) -> (cycles: u32)
        requires
            old(mmu)@.wf(),
        ensures
            outcome(final(self)@, final(mmu)@, cycles as nat) == step_spec(old(self)@, old(mmu)@),
            final(mmu)@.wf(),
    {
        // 1. Interrupt servicing / HALT wake-up.
        if let Some(cycles) = self.service_interrupt(mmu) {
            return cycles;
        }
        if self.halted {
            return 4;  // idle until an interrupt becomes pending
        }
        // 2. EI scheduled one instruction earlier takes effect after this one.
        let enabling_ime = self.ime_pending;
        // 3. Fetch + dispatch.
        let opcode = self.fetch_byte(mmu);
        let cycles = if opcode == 0xCB {
            let cb = self.fetch_byte(mmu);
            self.execute_cb(cb, mmu)
        } else {
            self.execute(opcode, mmu)
        };
        // A DI executed meanwhile has cancelled the scheduled EI.
        if enabling_ime && self.ime_pending {
            self.ime = true;
            self.ime_pending = false;
        }
        cycles
    }

    /// If an interrupt is pending and IME is set, dispatch it (20 T-cycles).
    /// Any pending interrupt also wakes the CPU from HALT regardless of IME.
    pub fn service_interrupt(&mut self, mmu: &mut Mmu) -> (r: Option<u32>)
        requires
            old(mmu)@.wf(),
        ensures
            final(mmu)@.wf(),
            old(self)@.takes_interrupt(old(mmu)@) ==> r == Some(20u32) && final(self)@ == old(
                self,
            )@.after_interrupt(old(mmu)@) && final(mmu)@ == old(self)@.bus_after_interrupt(
                old(mmu)@,
            ),
            old(mmu)@.pending() != 0 && !old(self)@.ime ==> r is None && final(self)@ == (
            CpuState { halted: false, ..old(self)@ }) && final(mmu)@ == old(mmu)@,
            old(mmu)@.pending() == 0 ==> r is None && final(self)@ == old(self)@ && final(mmu)@
                == old(mmu)@,
    {
        let pending = mmu.pending_interrupts();
        if pending == 0 {
            return None;
        }
        self.halted = false;
        if !self.ime {
            return None;
        }
        proof {
            lemma_lowest_bit(pending);
            lemma_mask_bounds();
            assert(pending & 0x1F == pending);
        }
        let bit = lowest_set_bit(pending);  // lowest set bit = highest priority
        self.ime = false;
        self.ime_pending = false;
        mmu.clear_interrupt(1u8 << bit);
        let pc = self.pc;
        self.push_word(mmu, pc);
        self.pc = interrupts::VECTORS[bit as usize];
        proof {
            assert(bit < 5);
            assert(interrupts::VECTORS@[bit as int] == interrupts::vector_of(bit as int));
        }
        Some(20)
    }

    // ---- helpers used pervasively by the opcode tables ----

    pub fn fetch_byte(&mut self, mmu: &mut Mmu) -> (byte: u8)
        requires
            old(mmu)@.wf(),
        ensures
            byte == old(mmu)@.read_byte(old(self)@.pc),
            final(self)@ == old(self)@.after_fetch(),
            final(mmu)@ == old(mmu)@,
    {
        let byte = mmu.read_byte(self.pc);
        if self.halt_bug {
            // HALT bug: PC fails to advance for exactly this one fetch.
            self.halt_bug = false;
        } else {
            self.pc = self.pc.wrapping_add(1);
        }
        byte
    }

    pub fn fetch_word(&mut self, mmu: &mut Mmu) -> (word: u16)
        requires
            old(mmu)@.wf(),
        ensures
            word == pair_value(
                old(mmu)@.read_byte(old(self)@.after_fetch().pc),
                old(mmu)@.read_byte(old(self)@.pc),
            ),
            final(self)@ == old(self)@.after_fetch().after_fetch(),
            final(mmu)@ == old(mmu)@,
    {
        let lo = self.fetch_byte(mmu) as u16;
        let hi = self.fetch_byte(mmu) as u16;
        proof {
            lemma_byte_pair();
        }
        (hi << 8) | lo
    }

    #[verifier::rlimit(40)]
    pub fn push_word(&mut self, mmu: &mut Mmu, value: u16)
        requires
            old(mmu)@.wf(),
        ensures
            final(mmu)@ == pushed(old(mmu)@, old(self)@.sp, value),
            final(mmu)@.wf(),
            final(self)@ == (CpuState { sp: dec16(dec16(old(self)@.sp)), ..old(self)@ }),
    {
        proof {
            lemma_byte_pair();
        }
        self.sp = self.sp.wrapping_sub(1);
        mmu.write_byte(self.sp, (value >> 8) as u8);
        self.sp = self.sp.wrapping_sub(1);
        mmu.write_byte(self.sp, value as u8);
    }

    pub fn pop_word(&mut self, mmu: &mut Mmu) -> (value: u16)
        requires
            old(mmu)@.wf(),
        ensures
            value == pair_value(
                old(mmu)@.read_byte(inc16(old(self)@.sp)),
                old(mmu)@.read_byte(old(self)@.sp),
            ),
            final(self)@ == (CpuState { sp: inc16(inc16(old(self)@.sp)), ..old(self)@ }),
            final(mmu)@ == old(mmu)@,
    {
        let lo = mmu.read_byte(self.sp) as u16;
        self.sp = self.sp.wrapping_add(1);
        let hi = mmu.read_byte(self.sp) as u16;
        self.sp = self.sp.wrapping_add(1);
        proof {
            lemma_byte_pair();
        }
        (hi << 8) | lo
    }

    /// HALT: enter low-power state, accounting for the HALT bug.
    pub fn halt(&mut self, mmu: &Mmu)
        ensures
            final(self)@ == old(self)@.after_halt(mmu@.pending()),
    {
        if self.ime {
            self.halted = true;
        } else if mmu.pending_interrupts() != 0 {
            // IME=0 with an interrupt already pending: HALT bug, no halt.
            self.halt_bug = true;
        } else {
            self.halted = true;
        }
    }
}

/// The index of the lowest set bit of a nonzero byte.
pub fn lowest_set_bit(p: u8) -> (b: u8)
    requires
        p != 0,
    ensures
        b == lowest_bit(p),
{
    if p & 0x01 != 0 {
        0
    } else if p & 0x02 != 0 {
        1
    } else if p & 0x04 != 0 {
        2
    } else if p & 0x08 != 0 {
        3
    } else if p & 0x10 != 0 {
        4
    } else if p & 0x20 != 0 {
        5
    } else if p & 0x40 != 0 {
        6
    } else {
        7
    }
}


// ---- laws of the CPU ----

/// What PUSH writes, POP reads back: with both stack bytes in plain RAM,
/// popping right after pushing `value` returns `value` and restores SP.
pub proof fn lemma_push_then_pop(mmu: MmuState, sp: u16, value: u16)
    requires
        mmu.wf(),
        is_plain_ram(dec16(sp)),
        is_plain_ram(dec16(dec16(sp))),
    ensures
        pair_value(
            pushed(mmu, sp, value).read_byte(inc16(dec16(dec16(sp)))),
            pushed(mmu, sp, value).read_byte(dec16(dec16(sp))),
        ) == value,
        inc16(inc16(dec16(dec16(sp)))) == sp,
        pushed(mmu, sp, value).wf(),
{
    let a1 = dec16(sp);
    let a2 = dec16(dec16(sp));
    assert(inc16(a2) == a1);
    assert(ram_cell(a1) != ram_cell(a2));
    let m1 = mmu.write_byte(a1, high_byte(value));
    lemma_ram_write_read(mmu, a1, a2, high_byte(value));
    lemma_ram_write_read(m1, a2, a1, low_byte(value));
    assert(high_byte(value) as int * 256 + low_byte(value) as int == value);
}

/// Interrupt dispatch: the lowest pending bit (highest priority) is serviced;
/// its request bit, and only it, is cleared; IME goes off; PC jumps to the
/// handler vector 0x40 + 8 * bit; and the old PC is pushed where a later POP
/// (or RET) reads it back.
pub proof fn lemma_interrupt_dispatch(cpu: CpuState, mmu: MmuState)
    requires
        mmu.wf(),
        cpu.takes_interrupt(mmu),
        is_plain_ram(dec16(cpu.sp)),
        is_plain_ram(dec16(dec16(cpu.sp))),
    ensures
        ({
            let bit = lowest_bit(mmu.pending());
            let after = cpu.bus_after_interrupt(mmu);
            &&& 0 <= bit < 5
            &&& mmu.pending() & (1u8 << (bit as u8)) != 0
            &&& forall|j: u8| j < bit ==> mmu.pending() & (1u8 << j) == 0
            &&& cpu.after_interrupt(mmu).pc == 0x40 + 8 * bit
            &&& !cpu.after_interrupt(mmu).ime
            &&& after.iflags == mmu.iflags & !(1u8 << (bit as u8))
            &&& pair_value(
                after.read_byte(inc16(cpu.after_interrupt(mmu).sp)),
                after.read_byte(cpu.after_interrupt(mmu).sp),
            ) == cpu.pc
        }),
{
    let p = mmu.pending();
    lemma_mask_bounds();
    assert(p & 0x1F == p);
    lemma_lowest_bit(p);
    let bit = lowest_bit(p);
    let cleared = MmuState { iflags: mmu.iflags & !((1u8 << (bit as u8))), ..mmu };
    lemma_push_then_pop(cleared, cpu.sp, cpu.pc);
}

/// The HALT bug: with IME off and an interrupt already pending, HALT does not
/// halt, and the next fetch reads the byte at PC without advancing PC; the
/// fetch after that advances normally.
pub proof fn lemma_halt_bug(cpu: CpuState, pending: u8)
    requires
        !cpu.ime,
        pending != 0,
        !cpu.halt_bug,
        !cpu.halted,
    ensures
        !cpu.after_halt(pending).halted,
        cpu.after_halt(pending).after_fetch().pc == cpu.pc,
        cpu.after_halt(pending).after_fetch().after_fetch().pc == inc16(cpu.pc),
{
}

} // verus!
