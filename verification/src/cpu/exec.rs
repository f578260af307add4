//! Instruction execution: the unprefixed and CB-prefixed opcode tables.
//!
//! Opcodes are decoded by their bit fields: `x` (bits 6-7), `y` (bits 3-5),
//! `z` (bits 0-2), and `p`/`q` (the high and low bit of `y`). Operands follow
//! the usual tables: `r8` = B, C, D, E, H, L, (HL), A; `rp` = BC, DE, HL, SP;
//! `rp2` = BC, DE, HL, AF; `cc` = NZ, Z, NC, C.
use vstd::prelude::*;

use super::alu::{
    adc8_spec, add16_hl_spec, add8_spec, add_sp_e8_regs, add_sp_e8_value, and8_spec, bit_regs,
    ccf_spec, cp8_spec, cpl_spec, daa_spec, dec8_regs, dec8_value, inc8_regs, inc8_value, or8_spec,
    rl_value, rla_spec, rlc_value, rlca_spec, rr_value, rra_spec, rrc_value, rrca_spec, sbc8_spec,
    scf_spec, shift_regs, signed8, sla_value, sra_value, srl_value, sub8_spec, swap_value,
    xor8_spec,
};
use super::registers::{flag_bit, pair_value, Registers, FLAG_C, FLAG_Z};
use super::{dec16, high_byte, inc16, low_byte, pushed, Cpu, CpuState};
use crate::bits::lemma_byte_pair;
use crate::mmu::{Mmu, MmuState};

verus! {

/// The machine after an instruction, and the T-cycles it took.
pub struct Outcome {
    pub cpu: CpuState,
    pub mmu: MmuState,
    pub cycles: nat,
}

pub open spec fn outcome(cpu: CpuState, mmu: MmuState, cycles: nat) -> Outcome {
    Outcome { cpu, mmu, cycles }
}

// ---- operands ----

/// The 8-bit operand `i`: B, C, D, E, H, L, (HL), A.
pub open spec fn r8(c: CpuState, m: MmuState, i: u8) -> u8 {
    if i == 0 {
        c.reg.b
    } else if i == 1 {
        c.reg.c
    } else if i == 2 {
        c.reg.d
    } else if i == 3 {
        c.reg.e
    } else if i == 4 {
        c.reg.h
    } else if i == 5 {
        c.reg.l
    } else if i == 6 {
        m.read_byte(c.reg.spec_hl())
    } else {
        c.reg.a
    }
}

/// Registers with register `i` (not 6) set to `v`.
pub open spec fn reg_with(r: Registers, i: u8, v: u8) -> Registers {
    if i == 0 {
        Registers { b: v, ..r }
    } else if i == 1 {
        Registers { c: v, ..r }
    } else if i == 2 {
        Registers { d: v, ..r }
    } else if i == 3 {
        Registers { e: v, ..r }
    } else if i == 4 {
        Registers { h: v, ..r }
    } else if i == 5 {
        Registers { l: v, ..r }
    } else {
        Registers { a: v, ..r }
    }
}

/// The CPU after writing `v` to operand `i` (a register).
pub open spec fn cpu_after_r8(c: CpuState, i: u8, v: u8) -> CpuState {
    if i == 6 {
        c
    } else {
        c.with_reg(reg_with(c.reg, i, v))
    }
}

/// The bus after writing `v` to operand `i` (memory at HL for 6).
pub open spec fn mmu_after_r8(c: CpuState, m: MmuState, i: u8, v: u8) -> MmuState {
    if i == 6 {
        m.write_byte(c.reg.spec_hl(), v)
    } else {
        m
    }
}

/// The extra T-cycles an (HL) operand costs.
pub open spec fn hl_cost(i: u8, extra: nat) -> nat {
    if i == 6 { extra } else { 0 }
}

/// The 16-bit register pair `p`: BC, DE, HL, SP.
pub open spec fn rp(c: CpuState, p: u8) -> u16 {
    if p == 0 {
        c.reg.spec_bc()
    } else if p == 1 {
        c.reg.spec_de()
    } else if p == 2 {
        c.reg.spec_hl()
    } else {
        c.sp
    }
}

pub open spec fn with_rp(c: CpuState, p: u8, v: u16) -> CpuState {
    if p == 0 {
        c.with_reg(c.reg.with_bc(v))
    } else if p == 1 {
        c.with_reg(c.reg.with_de(v))
    } else if p == 2 {
        c.with_reg(c.reg.with_hl(v))
    } else {
        CpuState { sp: v, ..c }
    }
}

/// The register pair `p` of PUSH and POP: BC, DE, HL, AF.
pub open spec fn rp2(c: CpuState, p: u8) -> u16 {
    if p == 3 {
        c.reg.spec_af()
    } else {
        rp(c, p)
    }
}

pub open spec fn with_rp2(c: CpuState, p: u8, v: u16) -> CpuState {
    if p == 3 {
        c.with_reg(c.reg.with_af(v))
    } else {
        with_rp(c, p, v)
    }
}

/// Condition `cc`: NZ, Z, NC, C.
pub open spec fn cond(f: u8, cc: u8) -> bool {
    if cc == 0 {
        !flag_bit(f, FLAG_Z)
    } else if cc == 1 {
        flag_bit(f, FLAG_Z)
    } else if cc == 2 {
        !flag_bit(f, FLAG_C)
    } else {
        flag_bit(f, FLAG_C)
    }
}

/// The byte at PC (an immediate operand).
pub open spec fn imm8(c: CpuState, m: MmuState) -> u8 {
    m.read_byte(c.pc)
}

/// The little-endian word at PC.
pub open spec fn imm16(c: CpuState, m: MmuState) -> u16 {
    pair_value(m.read_byte(c.after_fetch().pc), m.read_byte(c.pc))
}

/// `pc` moved by the signed offset `e`.
pub open spec fn jump_rel(pc: u16, e: u8) -> u16 {
    ((pc + signed8(e) + 0x10000) % 0x10000) as u16
}

/// The word popped from the stack at `sp`.
pub open spec fn popped(m: MmuState, sp: u16) -> u16 {
    pair_value(m.read_byte(inc16(sp)), m.read_byte(sp))
}

/// The ALU operation `y` on A: ADD, ADC, SUB, SBC, AND, XOR, OR, CP.
pub open spec fn alu_spec(y: u8, r: Registers, v: u8) -> Registers {
    if y == 0 {
        add8_spec(r, v)
    } else if y == 1 {
        adc8_spec(r, v)
    } else if y == 2 {
        sub8_spec(r, v)
    } else if y == 3 {
        sbc8_spec(r, v)
    } else if y == 4 {
        and8_spec(r, v)
    } else if y == 5 {
        xor8_spec(r, v)
    } else if y == 6 {
        or8_spec(r, v)
    } else {
        cp8_spec(r, v)
    }
}

/// The result of CB rotate/shift `y`: RLC, RRC, RL, RR, SLA, SRA, SWAP, SRL.
pub open spec fn rot_value(y: u8, r: Registers, v: u8) -> u8 {
    if y == 0 {
        rlc_value(v)
    } else if y == 1 {
        rrc_value(v)
    } else if y == 2 {
        rl_value(r, v)
    } else if y == 3 {
        rr_value(r, v)
    } else if y == 4 {
        sla_value(v)
    } else if y == 5 {
        sra_value(v)
    } else if y == 6 {
        swap_value(v)
    } else {
        srl_value(v)
    }
}

/// The bit CB rotate/shift `y` shifts out into C (SWAP: none).
pub open spec fn rot_carry(y: u8, v: u8) -> bool {
    if y == 0 || y == 2 || y == 4 {
        v >> 7u8 != 0
    } else if y == 6 {
        false
    } else {
        v & 1 != 0
    }
}

// ---- the opcode tables ----

/// x = 0, z = 0: NOP, LD (a16),SP, STOP, JR e8, JR cc,e8.
#[verifier::opaque]
pub open spec fn op_x0_z0(c: CpuState, m: MmuState, y: u8) -> Outcome {
    if y == 0 {
        outcome(c, m, 4)
    } else if y == 1 {
        let addr = imm16(c, m);
        outcome(
            c.after_fetch().after_fetch(),
            m.write_byte(addr, low_byte(c.sp)).write_byte(inc16(addr), high_byte(c.sp)),
            20,
        )
    } else if y == 2 {
        // STOP: its second byte is skipped.
        outcome(c.after_fetch(), m, 4)
    } else {
        let e = imm8(c, m);
        let c1 = c.after_fetch();
        if y == 3 || cond(c.reg.f, (y - 4) as u8) {
            outcome(CpuState { pc: jump_rel(c1.pc, e), ..c1 }, m, 12)
        } else {
            outcome(c1, m, 8)
        }
    }
}

/// x = 0, z = 1: LD rp,d16 (q = 0) and ADD HL,rp (q = 1).
#[verifier::opaque]
pub open spec fn op_x0_z1(c: CpuState, m: MmuState, y: u8) -> Outcome {
    let p = y / 2;
    if y % 2 == 0 {
        outcome(with_rp(c.after_fetch().after_fetch(), p, imm16(c, m)), m, 12)
    } else {
        outcome(c.with_reg(add16_hl_spec(c.reg, rp(c, p))), m, 8)
    }
}

/// The address of the indirect load `p`: (BC), (DE), (HL+), (HL-).
pub open spec fn ind_addr(c: CpuState, p: u8) -> u16 {
    if p == 0 {
        c.reg.spec_bc()
    } else if p == 1 {
        c.reg.spec_de()
    } else {
        c.reg.spec_hl()
    }
}

/// HL after the indirect load `p`: incremented for (HL+), decremented for (HL-).
pub open spec fn ind_post(c: CpuState, p: u8) -> CpuState {
    if p == 2 {
        c.with_reg(c.reg.with_hl(inc16(c.reg.spec_hl())))
    } else if p == 3 {
        c.with_reg(c.reg.with_hl(dec16(c.reg.spec_hl())))
    } else {
        c
    }
}

/// x = 0, z = 2: LD (rr),A (q = 0) and LD A,(rr) (q = 1).
#[verifier::opaque]
pub open spec fn op_x0_z2(c: CpuState, m: MmuState, y: u8) -> Outcome {
    let p = y / 2;
    let addr = ind_addr(c, p);
    if y % 2 == 0 {
        outcome(ind_post(c, p), m.write_byte(addr, c.reg.a), 8)
    } else {
        let c1 = c.with_reg(Registers { a: m.read_byte(addr), ..c.reg });
        outcome(ind_post(c1, p), m, 8)
    }
}

/// x = 0, z = 3: INC rp (q = 0) and DEC rp (q = 1); no flags change.
#[verifier::opaque]
pub open spec fn op_x0_z3(c: CpuState, m: MmuState, y: u8) -> Outcome {
    let p = y / 2;
    if y % 2 == 0 {
        outcome(with_rp(c, p, inc16(rp(c, p))), m, 8)
    } else {
        outcome(with_rp(c, p, dec16(rp(c, p))), m, 8)
    }
}

/// x = 0, z = 4 / 5: INC r8 / DEC r8.
#[verifier::opaque]
pub open spec fn op_inc_dec(c: CpuState, m: MmuState, y: u8, dec: bool) -> Outcome {
    let v = r8(c, m, y);
    let res = if dec { dec8_value(v) } else { inc8_value(v) };
    let c1 = c.with_reg(if dec { dec8_regs(c.reg, v) } else { inc8_regs(c.reg, v) });
    outcome(cpu_after_r8(c1, y, res), mmu_after_r8(c1, m, y, res), 4 + hl_cost(y, 8))
}

/// x = 0, z = 6: LD r8,d8.
#[verifier::opaque]
pub open spec fn op_ld_d8(c: CpuState, m: MmuState, y: u8) -> Outcome {
    let v = imm8(c, m);
    let c1 = c.after_fetch();
    outcome(cpu_after_r8(c1, y, v), mmu_after_r8(c1, m, y, v), 8 + hl_cost(y, 4))
}

/// x = 0, z = 7: RLCA, RRCA, RLA, RRA, DAA, CPL, SCF, CCF.
#[verifier::opaque]
pub open spec fn op_x0_z7(c: CpuState, m: MmuState, y: u8) -> Outcome {
    let r = if y == 0 {
        rlca_spec(c.reg)
    } else if y == 1 {
        rrca_spec(c.reg)
    } else if y == 2 {
        rla_spec(c.reg)
    } else if y == 3 {
        rra_spec(c.reg)
    } else if y == 4 {
        daa_spec(c.reg)
    } else if y == 5 {
        cpl_spec(c.reg)
    } else if y == 6 {
        scf_spec(c.reg)
    } else {
        ccf_spec(c.reg)
    };
    outcome(c.with_reg(r), m, 4)
}

/// x = 1: LD r8,r8, except 0x76, HALT.
#[verifier::opaque]
pub open spec fn op_x1(c: CpuState, m: MmuState, y: u8, z: u8) -> Outcome {
    if y == 6 && z == 6 {
        outcome(c.after_halt(m.pending()), m, 4)
    } else {
        let v = r8(c, m, z);
        outcome(cpu_after_r8(c, y, v), mmu_after_r8(c, m, y, v), 4 + hl_cost(y, 4) + hl_cost(z, 4))
    }
}

/// x = 2: the ALU operation `y` on A and r8.
#[verifier::opaque]
pub open spec fn op_x2(c: CpuState, m: MmuState, y: u8, z: u8) -> Outcome {
    outcome(c.with_reg(alu_spec(y, c.reg, r8(c, m, z))), m, 4 + hl_cost(z, 4))
}

/// x = 3, z = 0: RET cc, LDH (a8),A, ADD SP,e8, LDH A,(a8), LD HL,SP+e8.
#[verifier::opaque]
pub open spec fn op_x3_z0(c: CpuState, m: MmuState, y: u8) -> Outcome {
    if y < 4 {
        if cond(c.reg.f, y) {
            outcome(CpuState { pc: popped(m, c.sp), sp: inc16(inc16(c.sp)), ..c }, m, 20)
        } else {
            outcome(c, m, 8)
        }
    } else {
        let n = imm8(c, m);
        let c1 = c.after_fetch();
        if y == 4 {
            outcome(c1, m.write_byte((0xFF00 + n) as u16, c.reg.a), 12)
        } else if y == 5 {
            outcome(
                CpuState { sp: add_sp_e8_value(c.sp, n), ..c1.with_reg(add_sp_e8_regs(c.reg, c.sp, n)) },
                m,
                16,
            )
        } else if y == 6 {
            outcome(c1.with_reg(Registers { a: m.read_byte((0xFF00 + n) as u16), ..c.reg }), m, 12)
        } else {
            outcome(
                c1.with_reg(add_sp_e8_regs(c.reg, c.sp, n).with_hl(add_sp_e8_value(c.sp, n))),
                m,
                12,
            )
        }
    }
}

/// x = 3, z = 1: POP rp2 (q = 0); RET, RETI, JP HL, LD SP,HL (q = 1).
#[verifier::opaque]
pub open spec fn op_x3_z1(c: CpuState, m: MmuState, y: u8) -> Outcome {
    let p = y / 2;
    if y % 2 == 0 {
        outcome(with_rp2(CpuState { sp: inc16(inc16(c.sp)), ..c }, p, popped(m, c.sp)), m, 12)
    } else if p == 0 {
        outcome(CpuState { pc: popped(m, c.sp), sp: inc16(inc16(c.sp)), ..c }, m, 16)
    } else if p == 1 {
        outcome(CpuState { pc: popped(m, c.sp), sp: inc16(inc16(c.sp)), ime: true, ..c }, m, 16)
    } else if p == 2 {
        outcome(CpuState { pc: c.reg.spec_hl(), ..c }, m, 4)
    } else {
        outcome(CpuState { sp: c.reg.spec_hl(), ..c }, m, 8)
    }
}

/// x = 3, z = 2: JP cc,a16, LD (C),A, LD (a16),A, LD A,(C), LD A,(a16).
#[verifier::opaque]
pub open spec fn op_x3_z2(c: CpuState, m: MmuState, y: u8) -> Outcome {
    if y < 4 {
        let c2 = c.after_fetch().after_fetch();
        if cond(c.reg.f, y) {
            outcome(CpuState { pc: imm16(c, m), ..c2 }, m, 16)
        } else {
            outcome(c2, m, 12)
        }
    } else if y == 4 {
        outcome(c, m.write_byte((0xFF00 + c.reg.c) as u16, c.reg.a), 8)
    } else if y == 5 {
        outcome(c.after_fetch().after_fetch(), m.write_byte(imm16(c, m), c.reg.a), 16)
    } else if y == 6 {
        outcome(c.with_reg(Registers { a: m.read_byte((0xFF00 + c.reg.c) as u16), ..c.reg }), m, 8)
    } else {
        let c2 = c.after_fetch().after_fetch();
        outcome(c2.with_reg(Registers { a: m.read_byte(imm16(c, m)), ..c.reg }), m, 16)
    }
}

/// x = 3, z = 3: JP a16, DI, EI; the CB prefix and the illegal opcodes
/// execute as no-ops.
#[verifier::opaque]
pub open spec fn op_x3_z3(c: CpuState, m: MmuState, y: u8) -> Outcome {
    if y == 0 {
        outcome(CpuState { pc: imm16(c, m), ..c.after_fetch().after_fetch() }, m, 16)
    } else if y == 6 {
        outcome(CpuState { ime: false, ime_pending: false, ..c }, m, 4)
    } else if y == 7 {
        outcome(CpuState { ime_pending: true, ..c }, m, 4)
    } else {
        outcome(c, m, 4)
    }
}

/// A CALL to `target` returning to `ret`.
pub open spec fn call_to(c: CpuState, m: MmuState, ret: u16, target: u16) -> Outcome {
    outcome(CpuState { pc: target, sp: dec16(dec16(c.sp)), ..c }, pushed(m, c.sp, ret), 24)
}

/// x = 3, z = 4: CALL cc,a16; the others are illegal and execute as no-ops.
#[verifier::opaque]
pub open spec fn op_x3_z4(c: CpuState, m: MmuState, y: u8) -> Outcome {
    if y < 4 {
        let c2 = c.after_fetch().after_fetch();
        if cond(c.reg.f, y) {
            call_to(c2, m, c2.pc, imm16(c, m))
        } else {
            outcome(c2, m, 12)
        }
    } else {
        outcome(c, m, 4)
    }
}

/// x = 3, z = 5: PUSH rp2 (q = 0), CALL a16 (y = 1); the others are illegal
/// and execute as no-ops.
#[verifier::opaque]
pub open spec fn op_x3_z5(c: CpuState, m: MmuState, y: u8) -> Outcome {
    if y % 2 == 0 {
        outcome(CpuState { sp: dec16(dec16(c.sp)), ..c }, pushed(m, c.sp, rp2(c, y / 2)), 16)
    } else if y == 1 {
        let c2 = c.after_fetch().after_fetch();
        call_to(c2, m, c2.pc, imm16(c, m))
    } else {
        outcome(c, m, 4)
    }
}

/// x = 3, z = 6: the ALU operation `y` on A and d8.
#[verifier::opaque]
pub open spec fn op_x3_z6(c: CpuState, m: MmuState, y: u8) -> Outcome {
    outcome(c.after_fetch().with_reg(alu_spec(y, c.reg, imm8(c, m))), m, 8)
}

/// x = 3, z = 7: RST y*8.
#[verifier::opaque]
pub open spec fn op_x3_z7(c: CpuState, m: MmuState, y: u8) -> Outcome {
    outcome(CpuState { pc: (y * 8) as u16, sp: dec16(dec16(c.sp)), ..c }, pushed(m, c.sp, c.pc), 16)
}

/// The unprefixed instruction `op`, with PC already past the opcode.
#[verifier::opaque]
pub open spec fn execute_spec(c: CpuState, m: MmuState, op: u8) -> Outcome {
    let x = op / 64;
    let y = (op / 8) % 8;
    let z = op % 8;
    if x == 0 {
        if z == 0 {
            op_x0_z0(c, m, y)
        } else if z == 1 {
            op_x0_z1(c, m, y)
        } else if z == 2 {
            op_x0_z2(c, m, y)
        } else if z == 3 {
            op_x0_z3(c, m, y)
        } else if z == 4 {
            op_inc_dec(c, m, y, false)
        } else if z == 5 {
            op_inc_dec(c, m, y, true)
        } else if z == 6 {
            op_ld_d8(c, m, y)
        } else {
            op_x0_z7(c, m, y)
        }
    } else if x == 1 {
        op_x1(c, m, y, z)
    } else if x == 2 {
        op_x2(c, m, y, z)
    } else if z == 0 {
        op_x3_z0(c, m, y)
    } else if z == 1 {
        op_x3_z1(c, m, y)
    } else if z == 2 {
        op_x3_z2(c, m, y)
    } else if z == 3 {
        op_x3_z3(c, m, y)
    } else if z == 4 {
        op_x3_z4(c, m, y)
    } else if z == 5 {
        op_x3_z5(c, m, y)
    } else if z == 6 {
        op_x3_z6(c, m, y)
    } else {
        op_x3_z7(c, m, y)
    }
}

/// The CB-prefixed instruction `op`, with PC past both bytes: rotates and
/// shifts (x = 0), BIT (x = 1), RES (x = 2), SET (x = 3) on r8 `z`.
#[verifier::opaque]
pub open spec fn execute_cb_spec(c: CpuState, m: MmuState, op: u8) -> Outcome {
    let x = op / 64;
    let y = (op / 8) % 8;
    let z = op % 8;
    let v = r8(c, m, z);
    if x == 0 {
        let res = rot_value(y, c.reg, v);
        let c1 = c.with_reg(shift_regs(c.reg, res, rot_carry(y, v)));
        outcome(cpu_after_r8(c1, z, res), mmu_after_r8(c1, m, z, res), 8 + hl_cost(z, 8))
    } else if x == 1 {
        outcome(c.with_reg(bit_regs(c.reg, y, v)), m, 8 + hl_cost(z, 4))
    } else {
        let res = if x == 2 { v & !(1u8 << y) } else { v | (1u8 << y) };
        outcome(cpu_after_r8(c, z, res), mmu_after_r8(c, m, z, res), 8 + hl_cost(z, 8))
    }
}

/// One step of the CPU: dispatch a pending interrupt when IME is on;
/// otherwise any pending interrupt wakes a halted CPU, a CPU still halted
/// idles for 4 T-cycles, and a running one fetches and executes one
/// instruction. An EI made by the previous instruction takes effect after
/// this one, unless this one is a DI.
pub open spec fn step_spec(c: CpuState, m: MmuState) -> Outcome {
    if c.takes_interrupt(m) {
        outcome(c.after_interrupt(m), c.bus_after_interrupt(m), 20)
    } else {
        let c0 = if m.pending() != 0 { CpuState { halted: false, ..c } } else { c };
        if c0.halted {
            outcome(c0, m, 4)
        } else {
            let op = m.read_byte(c0.pc);
            let c1 = c0.after_fetch();
            let r = if op == 0xCB {
                execute_cb_spec(c1.after_fetch(), m, m.read_byte(c1.pc))
            } else {
                execute_spec(c1, m, op)
            };
            if c0.ime_pending && r.cpu.ime_pending {
                outcome(CpuState { ime: true, ime_pending: false, ..r.cpu }, r.mmu, r.cycles)
            } else {
                r
            }
        }
    }
}

// ---- execution ----

/// `pc` moved by the signed offset `e` (JR).
fn jump_relative(pc: u16, e: u8) -> (r: u16)
    ensures
        r == jump_rel(pc, e),
{
    if e < 0x80 {
        pc.wrapping_add(e as u16)
    } else {
        pc.wrapping_sub(256 - e as u16)
    }
}

impl Cpu {
    /// Read the 8-bit operand `i`.
    fn read_r8(&self, mmu: &Mmu, i: u8) -> (v: u8)
        requires
            mmu@.wf(),
            i < 8,
        ensures
            v == r8(self@, mmu@, i),
    {
        match i {
            0 => self.reg.b,
            1 => self.reg.c,
            2 => self.reg.d,
            3 => self.reg.e,
            4 => self.reg.h,
            5 => self.reg.l,
            6 => mmu.read_byte(self.reg.hl()),
            _ => self.reg.a,
        }
    }

    /// Write the 8-bit operand `i`.
    fn write_r8(&mut self, mmu: &mut Mmu, i: u8, v: u8)
        requires
            old(mmu)@.wf(),
            i < 8,
        ensures
            final(self)@ == cpu_after_r8(old(self)@, i, v),
            final(mmu)@ == mmu_after_r8(old(self)@, old(mmu)@, i, v),
            final(mmu)@.wf(),
    {
        match i {
            0 => self.reg.b = v,
            1 => self.reg.c = v,
            2 => self.reg.d = v,
            3 => self.reg.e = v,
            4 => self.reg.h = v,
            5 => self.reg.l = v,
            6 => {
                let hl = self.reg.hl();
                mmu.write_byte(hl, v);
            },
            _ => self.reg.a = v,
        }
    }

    /// Read the register pair `p` (BC, DE, HL, SP).
    fn read_rp(&self, p: u8) -> (v: u16)
        requires
            p < 4,
        ensures
            v == rp(self@, p),
    {
        match p {
            0 => self.reg.bc(),
            1 => self.reg.de(),
            2 => self.reg.hl(),
            _ => self.sp,
        }
    }

    /// Write the register pair `p` (BC, DE, HL, SP).
    fn write_rp(&mut self, p: u8, v: u16)
        requires
            p < 4,
        ensures
            final(self)@ == with_rp(old(self)@, p, v),
    {
        match p {
            0 => self.reg.set_bc(v),
            1 => self.reg.set_de(v),
            2 => self.reg.set_hl(v),
            _ => self.sp = v,
        }
    }

    /// Read the register pair `p` of PUSH (BC, DE, HL, AF).
    fn read_rp2(&self, p: u8) -> (v: u16)
        requires
            p < 4,
        ensures
            v == rp2(self@, p),
    {
        if p == 3 {
            self.reg.af()
        } else {
            self.read_rp(p)
        }
    }

    /// Write the register pair `p` of POP (BC, DE, HL, AF).
    fn write_rp2(&mut self, p: u8, v: u16)
        requires
            p < 4,
        ensures
            final(self)@ == with_rp2(old(self)@, p, v),
    {
        if p == 3 {
            self.reg.set_af(v);
        } else {
            self.write_rp(p, v);
        }
    }

    /// Whether condition `cc` (NZ, Z, NC, C) holds.
    fn condition(&self, cc: u8) -> (b: bool)
        requires
            cc < 4,
        ensures
            b == cond(self@.reg.f, cc),
    {
        match cc {
            0 => !self.reg.flag(FLAG_Z),
            1 => self.reg.flag(FLAG_Z),
            2 => !self.reg.flag(FLAG_C),
            _ => self.reg.flag(FLAG_C),
        }
    }

    /// The ALU operation `y` on A and `v`.
    fn alu(&mut self, y: u8, v: u8)
        requires
            y < 8,
        ensures
            final(self)@ == old(self)@.with_reg(alu_spec(y, old(self)@.reg, v)),
    {
        match y {
            0 => self.add8(v),
            1 => self.adc8(v),
            2 => self.sub8(v),
            3 => self.sbc8(v),
            4 => self.and8(v),
            5 => self.xor8(v),
            6 => self.or8(v),
            _ => self.cp8(v),
        }
    }

    /// The CB rotate or shift `y` of `v`.
    fn rotate(&mut self, y: u8, v: u8) -> (r: u8)
        requires
            y < 8,
        ensures
            r == rot_value(y, old(self)@.reg, v),
            final(self)@ == old(self)@.with_reg(shift_regs(old(self)@.reg, r, rot_carry(y, v))),
    {
        match y {
            0 => self.rlc(v),
            1 => self.rrc(v),
            2 => self.rl(v),
            3 => self.rr(v),
            4 => self.sla(v),
            5 => self.sra(v),
            6 => self.swap(v),
            _ => self.srl(v),
        }
    }
}

impl Cpu {
    fn exec_x0_z0(&mut self, mmu: &mut Mmu, y: u8) -> (cycles: u32)
        requires
            old(mmu)@.wf(),
            y < 8,
        ensures
            outcome(final(self)@, final(mmu)@, cycles as nat) == op_x0_z0(old(self)@, old(mmu)@, y),
            final(mmu)@.wf(),
    {
        reveal(op_x0_z0);
        if y == 0 {
            4
        } else if y == 1 {
            let addr = self.fetch_word(mmu);
            let sp = self.sp;
            proof {
                lemma_byte_pair();
            }
            mmu.write_byte(addr, sp as u8);
            mmu.write_byte(addr.wrapping_add(1), (sp >> 8) as u8);
            20
        } else if y == 2 {
            let _ = self.fetch_byte(mmu);
            4
        } else {
            let e = self.fetch_byte(mmu);
            if y == 3 || self.condition(y - 4) {
                self.pc = jump_relative(self.pc, e);
                12
            } else {
                8
            }
        }
    }

    fn exec_x0_z1(&mut self, mmu: &mut Mmu, y: u8) -> (cycles: u32)
        requires
            old(mmu)@.wf(),
            y < 8,
        ensures
            outcome(final(self)@, final(mmu)@, cycles as nat) == op_x0_z1(old(self)@, old(mmu)@, y),
            final(mmu)@.wf(),
    {
        reveal(op_x0_z1);
        let p = y / 2;
        if y % 2 == 0 {
            let v = self.fetch_word(mmu);
            self.write_rp(p, v);
            12
        } else {
            let v = self.read_rp(p);
            self.add16_hl(v);
            8
        }
    }

    fn exec_x0_z2(&mut self, mmu: &mut Mmu, y: u8) -> (cycles: u32)
        requires
            old(mmu)@.wf(),
            y < 8,
        ensures
            outcome(final(self)@, final(mmu)@, cycles as nat) == op_x0_z2(old(self)@, old(mmu)@, y),
            final(mmu)@.wf(),
    {
        reveal(op_x0_z2);
        let p = y / 2;
        let addr = if p == 0 {
            self.reg.bc()
        } else if p == 1 {
            self.reg.de()
        } else {
            self.reg.hl()
        };
        if y % 2 == 0 {
            mmu.write_byte(addr, self.reg.a);
        } else {
            self.reg.a = mmu.read_byte(addr);
        }
        if p == 2 {
            let hl = self.reg.hl();
            self.reg.set_hl(hl.wrapping_add(1));
        } else if p == 3 {
            let hl = self.reg.hl();
            self.reg.set_hl(hl.wrapping_sub(1));
        }
        8
    }

    fn exec_x0_z3(&mut self, mmu: &mut Mmu, y: u8) -> (cycles: u32)
        requires
            old(mmu)@.wf(),
            y < 8,
        ensures
            outcome(final(self)@, final(mmu)@, cycles as nat) == op_x0_z3(old(self)@, old(mmu)@, y),
            final(mmu)@.wf(),
    {
        reveal(op_x0_z3);
        let p = y / 2;
        let v = self.read_rp(p);
        if y % 2 == 0 {
            self.write_rp(p, v.wrapping_add(1));
        } else {
            self.write_rp(p, v.wrapping_sub(1));
        }
        8
    }

    fn exec_inc_dec(&mut self, mmu: &mut Mmu, y: u8, dec: bool) -> (cycles: u32)
        requires
            old(mmu)@.wf(),
            y < 8,
        ensures
            outcome(final(self)@, final(mmu)@, cycles as nat) == op_inc_dec(old(self)@, old(mmu)@, y, dec),
            final(mmu)@.wf(),
    {
        reveal(op_inc_dec);
        let v = self.read_r8(mmu, y);
        let res = if dec {
            self.dec8(v)
        } else {
            self.inc8(v)
        };
        self.write_r8(mmu, y, res);
        if y == 6 {
            12
        } else {
            4
        }
    }

    fn exec_ld_d8(&mut self, mmu: &mut Mmu, y: u8) -> (cycles: u32)
        requires
            old(mmu)@.wf(),
            y < 8,
        ensures
            outcome(final(self)@, final(mmu)@, cycles as nat) == op_ld_d8(old(self)@, old(mmu)@, y),
            final(mmu)@.wf(),
    {
        reveal(op_ld_d8);
        let v = self.fetch_byte(mmu);
        self.write_r8(mmu, y, v);
        if y == 6 {
            12
        } else {
            8
        }
    }

    fn exec_x0_z7(&mut self, mmu: &mut Mmu, y: u8) -> (cycles: u32)
        requires
            old(mmu)@.wf(),
            y < 8,
        ensures
            outcome(final(self)@, final(mmu)@, cycles as nat) == op_x0_z7(old(self)@, old(mmu)@, y),
            final(mmu)@.wf(),
    {
        reveal(op_x0_z7);
        match y {
            0 => self.rlca(),
            1 => self.rrca(),
            2 => self.rla(),
            3 => self.rra(),
            4 => self.daa(),
            5 => self.cpl(),
            6 => self.scf(),
            _ => self.ccf(),
        }
        4
    }

    fn exec_x1(&mut self, mmu: &mut Mmu, y: u8, z: u8) -> (cycles: u32)
        requires
            old(mmu)@.wf(),
            y < 8,
            z < 8,
        ensures
            outcome(final(self)@, final(mmu)@, cycles as nat) == op_x1(old(self)@, old(mmu)@, y, z),
            final(mmu)@.wf(),
    {
        reveal(op_x1);
        if y == 6 && z == 6 {
            self.halt(mmu);
            4
        } else {
            let v = self.read_r8(mmu, z);
            self.write_r8(mmu, y, v);
            let extra: u32 = if y == 6 || z == 6 {
                4
            } else {
                0
            };
            4 + extra
        }
    }

    fn exec_x2(&mut self, mmu: &mut Mmu, y: u8, z: u8) -> (cycles: u32)
        requires
            old(mmu)@.wf(),
            y < 8,
            z < 8,
        ensures
            outcome(final(self)@, final(mmu)@, cycles as nat) == op_x2(old(self)@, old(mmu)@, y, z),
            final(mmu)@.wf(),
    {
        reveal(op_x2);
        let v = self.read_r8(mmu, z);
        self.alu(y, v);
        if z == 6 {
            8
        } else {
            4
        }
    }
}

impl Cpu {
    fn exec_x3_z0(&mut self, mmu: &mut Mmu, y: u8) -> (cycles: u32)
        requires
            old(mmu)@.wf(),
            y < 8,
        ensures
            outcome(final(self)@, final(mmu)@, cycles as nat) == op_x3_z0(old(self)@, old(mmu)@, y),
            final(mmu)@.wf(),
    {
        reveal(op_x3_z0);
        if y < 4 {
            if self.condition(y) {
                let pc = self.pop_word(mmu);
                self.pc = pc;
                20
            } else {
                8
            }
        } else {
            let n = self.fetch_byte(mmu);
            if y == 4 {
                mmu.write_byte(0xFF00u16 + n as u16, self.reg.a);
                12
            } else if y == 5 {
                let sp = self.add_sp_e8(n);
                self.sp = sp;
                16
            } else if y == 6 {
                self.reg.a = mmu.read_byte(0xFF00u16 + n as u16);
                12
            } else {
                let v = self.add_sp_e8(n);
                self.reg.set_hl(v);
                12
            }
        }
    }

    fn exec_x3_z1(&mut self, mmu: &mut Mmu, y: u8) -> (cycles: u32)
        requires
            old(mmu)@.wf(),
            y < 8,
        ensures
            outcome(final(self)@, final(mmu)@, cycles as nat) == op_x3_z1(old(self)@, old(mmu)@, y),
            final(mmu)@.wf(),
    {
        reveal(op_x3_z1);
        let p = y / 2;
        if y % 2 == 0 {
            let v = self.pop_word(mmu);
            self.write_rp2(p, v);
            12
        } else if p == 0 {
            let pc = self.pop_word(mmu);
            self.pc = pc;
            16
        } else if p == 1 {
            let pc = self.pop_word(mmu);
            self.pc = pc;
            self.ime = true;
            16
        } else if p == 2 {
            self.pc = self.reg.hl();
            4
        } else {
            self.sp = self.reg.hl();
            8
        }
    }

    fn exec_x3_z2(&mut self, mmu: &mut Mmu, y: u8) -> (cycles: u32)
        requires
            old(mmu)@.wf(),
            y < 8,
        ensures
            outcome(final(self)@, final(mmu)@, cycles as nat) == op_x3_z2(old(self)@, old(mmu)@, y),
            final(mmu)@.wf(),
    {
        reveal(op_x3_z2);
        if y < 4 {
            let addr = self.fetch_word(mmu);
            if self.condition(y) {
                self.pc = addr;
                16
            } else {
                12
            }
        } else if y == 4 {
            mmu.write_byte(0xFF00u16 + self.reg.c as u16, self.reg.a);
            8
        } else if y == 5 {
            let addr = self.fetch_word(mmu);
            mmu.write_byte(addr, self.reg.a);
            16
        } else if y == 6 {
            self.reg.a = mmu.read_byte(0xFF00u16 + self.reg.c as u16);
            8
        } else {
            let addr = self.fetch_word(mmu);
            self.reg.a = mmu.read_byte(addr);
            16
        }
    }

    fn exec_x3_z3(&mut self, mmu: &mut Mmu, y: u8) -> (cycles: u32)
        requires
            old(mmu)@.wf(),
            y < 8,
        ensures
            outcome(final(self)@, final(mmu)@, cycles as nat) == op_x3_z3(old(self)@, old(mmu)@, y),
            final(mmu)@.wf(),
    {
        reveal(op_x3_z3);
        if y == 0 {
            let addr = self.fetch_word(mmu);
            self.pc = addr;
            16
        } else if y == 6 {
            self.disable_interrupts();
            4
        } else if y == 7 {
            self.schedule_ei();
            4
        } else {
            4
        }
    }

    /// Push the current PC and jump to `target`.
    fn call(&mut self, mmu: &mut Mmu, target: u16) -> (cycles: u32)
        requires
            old(mmu)@.wf(),
        ensures
            outcome(final(self)@, final(mmu)@, cycles as nat) == call_to(old(self)@, old(mmu)@, old(self)@.pc, target),
            final(mmu)@.wf(),
    {
        let pc = self.pc;
        self.push_word(mmu, pc);
        self.pc = target;
        24
    }

    fn exec_x3_z4(&mut self, mmu: &mut Mmu, y: u8) -> (cycles: u32)
        requires
            old(mmu)@.wf(),
            y < 8,
        ensures
            outcome(final(self)@, final(mmu)@, cycles as nat) == op_x3_z4(old(self)@, old(mmu)@, y),
            final(mmu)@.wf(),
    {
        reveal(op_x3_z4);
        if y < 4 {
            let addr = self.fetch_word(mmu);
            if self.condition(y) {
                self.call(mmu, addr)
            } else {
                12
            }
        } else {
            4
        }
    }

    fn exec_x3_z5(&mut self, mmu: &mut Mmu, y: u8) -> (cycles: u32)
        requires
            old(mmu)@.wf(),
            y < 8,
        ensures
            outcome(final(self)@, final(mmu)@, cycles as nat) == op_x3_z5(old(self)@, old(mmu)@, y),
            final(mmu)@.wf(),
    {
        reveal(op_x3_z5);
        if y % 2 == 0 {
            let v = self.read_rp2(y / 2);
            self.push_word(mmu, v);
            16
        } else if y == 1 {
            let addr = self.fetch_word(mmu);
            self.call(mmu, addr)
        } else {
            4
        }
    }

    fn exec_x3_z6(&mut self, mmu: &mut Mmu, y: u8) -> (cycles: u32)
        requires
            old(mmu)@.wf(),
            y < 8,
        ensures
            outcome(final(self)@, final(mmu)@, cycles as nat) == op_x3_z6(old(self)@, old(mmu)@, y),
            final(mmu)@.wf(),
    {
        reveal(op_x3_z6);
        let v = self.fetch_byte(mmu);
        self.alu(y, v);
        8
    }

    fn exec_x3_z7(&mut self, mmu: &mut Mmu, y: u8) -> (cycles: u32)
        requires
            old(mmu)@.wf(),
            y < 8,
        ensures
            outcome(final(self)@, final(mmu)@, cycles as nat) == op_x3_z7(old(self)@, old(mmu)@, y),
            final(mmu)@.wf(),
    {
        reveal(op_x3_z7);
        let pc = self.pc;
        self.push_word(mmu, pc);
        self.pc = (y as u16) * 8;
        16
    }

    /// Execute the unprefixed instruction `opcode` (PC already past it).
    /// Returns the T-cycles it took.
    pub fn execute(&mut self, opcode: u8, mmu: &mut Mmu) -> (cycles: u32)
        requires
            old(mmu)@.wf(),
        ensures
            outcome(final(self)@, final(mmu)@, cycles as nat) == execute_spec(old(self)@, old(mmu)@, opcode),
            final(mmu)@.wf(),
    {
        reveal(execute_spec);
        let x = opcode / 64;
        let y = (opcode / 8) % 8;
        let z = opcode % 8;
        if x == 0 {
            match z {
                0 => self.exec_x0_z0(mmu, y),
                1 => self.exec_x0_z1(mmu, y),
                2 => self.exec_x0_z2(mmu, y),
                3 => self.exec_x0_z3(mmu, y),
                4 => self.exec_inc_dec(mmu, y, false),
                5 => self.exec_inc_dec(mmu, y, true),
                6 => self.exec_ld_d8(mmu, y),
                _ => self.exec_x0_z7(mmu, y),
            }
        } else if x == 1 {
            self.exec_x1(mmu, y, z)
        } else if x == 2 {
            self.exec_x2(mmu, y, z)
        } else {
            match z {
                0 => self.exec_x3_z0(mmu, y),
                1 => self.exec_x3_z1(mmu, y),
                2 => self.exec_x3_z2(mmu, y),
                3 => self.exec_x3_z3(mmu, y),
                4 => self.exec_x3_z4(mmu, y),
                5 => self.exec_x3_z5(mmu, y),
                6 => self.exec_x3_z6(mmu, y),
                _ => self.exec_x3_z7(mmu, y),
            }
        }
    }

    /// Execute the CB-prefixed instruction `opcode` (PC already past both
    /// bytes). Returns the T-cycles it took.
    pub fn execute_cb(&mut self, opcode: u8, mmu: &mut Mmu) -> (cycles: u32)
        requires
            old(mmu)@.wf(),
        ensures
            outcome(final(self)@, final(mmu)@, cycles as nat) == execute_cb_spec(old(self)@, old(mmu)@, opcode),
            final(mmu)@.wf(),
    {
        reveal(execute_cb_spec);
        let x = opcode / 64;
        let y = (opcode / 8) % 8;
        let z = opcode % 8;
        let v = self.read_r8(mmu, z);
        let extra: u32 = if z == 6 {
            8
        } else {
            0
        };
        if x == 0 {
            let res = self.rotate(y, v);
            self.write_r8(mmu, z, res);
            8 + extra
        } else if x == 1 {
            self.bit(y, v);
            if z == 6 {
                12
            } else {
                8
            }
        } else {
            let res = if x == 2 {
                self.res(y, v)
            } else {
                self.set(y, v)
            };
            self.write_r8(mmu, z, res);
            8 + extra
        }
    }
}

// ---- laws of instruction execution ----

/// The instruction groups other than x = 3, z = 1 / 3 leave the interrupt
/// enable alone.
proof fn lemma_groups_keep_interrupt_enable(c: CpuState, m: MmuState, y: u8, z: u8)
    ensures
        op_x0_z0(c, m, y).cpu.ime == c.ime && op_x0_z0(c, m, y).cpu.ime_pending == c.ime_pending,
        op_x0_z1(c, m, y).cpu.ime == c.ime && op_x0_z1(c, m, y).cpu.ime_pending == c.ime_pending,
        op_x0_z2(c, m, y).cpu.ime == c.ime && op_x0_z2(c, m, y).cpu.ime_pending == c.ime_pending,
        op_x0_z3(c, m, y).cpu.ime == c.ime && op_x0_z3(c, m, y).cpu.ime_pending == c.ime_pending,
        op_ld_d8(c, m, y).cpu.ime == c.ime && op_ld_d8(c, m, y).cpu.ime_pending == c.ime_pending,
        op_x0_z7(c, m, y).cpu.ime == c.ime && op_x0_z7(c, m, y).cpu.ime_pending == c.ime_pending,
        op_x3_z0(c, m, y).cpu.ime == c.ime && op_x3_z0(c, m, y).cpu.ime_pending == c.ime_pending,
        op_x3_z2(c, m, y).cpu.ime == c.ime && op_x3_z2(c, m, y).cpu.ime_pending == c.ime_pending,
        op_x3_z4(c, m, y).cpu.ime == c.ime && op_x3_z4(c, m, y).cpu.ime_pending == c.ime_pending,
        op_x3_z5(c, m, y).cpu.ime == c.ime && op_x3_z5(c, m, y).cpu.ime_pending == c.ime_pending,
        op_x3_z6(c, m, y).cpu.ime == c.ime && op_x3_z6(c, m, y).cpu.ime_pending == c.ime_pending,
        op_x3_z7(c, m, y).cpu.ime == c.ime && op_x3_z7(c, m, y).cpu.ime_pending == c.ime_pending,
        op_inc_dec(c, m, y, true).cpu.ime == c.ime && op_inc_dec(c, m, y, true).cpu.ime_pending
            == c.ime_pending,
        op_inc_dec(c, m, y, false).cpu.ime == c.ime && op_inc_dec(c, m, y, false).cpu.ime_pending
            == c.ime_pending,
        op_x1(c, m, y, z).cpu.ime == c.ime && op_x1(c, m, y, z).cpu.ime_pending == c.ime_pending,
        op_x2(c, m, y, z).cpu.ime == c.ime && op_x2(c, m, y, z).cpu.ime_pending == c.ime_pending,
        op_x3_z1(c, m, y).cpu.ime == (c.ime || y == 3),
        op_x3_z1(c, m, y).cpu.ime_pending == c.ime_pending,
        op_x3_z3(c, m, y).cpu.ime == (c.ime && y != 6),
        op_x3_z3(c, m, y).cpu.ime_pending == (if y == 6 {
            false
        } else if y == 7 {
            true
        } else {
            c.ime_pending
        }),
{
    reveal(op_x0_z0);
    reveal(op_x0_z1);
    reveal(op_x0_z2);
    reveal(op_x0_z3);
    reveal(op_inc_dec);
    reveal(op_ld_d8);
    reveal(op_x0_z7);
    reveal(op_x1);
    reveal(op_x2);
    reveal(op_x3_z0);
    reveal(op_x3_z1);
    reveal(op_x3_z2);
    reveal(op_x3_z3);
    reveal(op_x3_z4);
    reveal(op_x3_z5);
    reveal(op_x3_z6);
    reveal(op_x3_z7);
}

/// Only DI, EI and RETI touch the interrupt enable: DI clears IME and any
/// scheduled EI, EI schedules one, RETI sets IME; every other instruction,
/// CB-prefixed ones included, leaves both as they were.
pub proof fn lemma_execute_interrupt_enable(c: CpuState, m: MmuState, op: u8)
    ensures
        execute_spec(c, m, op).cpu.ime == (if op == 0xF3 {
            false
        } else if op == 0xD9 {
            true
        } else {
            c.ime
        }),
        execute_spec(c, m, op).cpu.ime_pending == (if op == 0xF3 {
            false
        } else if op == 0xFB {
            true
        } else {
            c.ime_pending
        }),
        execute_cb_spec(c, m, op).cpu.ime == c.ime,
        execute_cb_spec(c, m, op).cpu.ime_pending == c.ime_pending,
{
    let x = op / 64;
    let y = (op / 8) % 8;
    let z = op % 8;
    lemma_groups_keep_interrupt_enable(c, m, y, z);
    assert(x == 3 && z == 3 && y == 6 <==> op == 0xF3);
    assert(x == 3 && z == 3 && y == 7 <==> op == 0xFB);
    assert(x == 3 && z == 1 && y == 3 <==> op == 0xD9);
    assert(execute_spec(c, m, op).cpu.ime_pending == (if op == 0xF3 {
        false
    } else if op == 0xFB {
        true
    } else {
        c.ime_pending
    }) && execute_spec(c, m, op).cpu.ime == (if op == 0xF3 {
        false
    } else if op == 0xD9 {
        true
    } else {
        c.ime
    })) by {
        reveal(execute_spec);
    }
    assert(execute_cb_spec(c, m, op).cpu.ime == c.ime && execute_cb_spec(c, m, op).cpu.ime_pending
        == c.ime_pending) by {
        reveal(execute_cb_spec);
    }
}

/// The one-instruction EI delay: with IME off and an EI scheduled, a running
/// CPU dispatches nothing and executes the next instruction; IME is on after
/// it, unless that instruction is DI, which cancels the scheduled EI.
pub proof fn lemma_ei_delay(c: CpuState, m: MmuState)
    requires
        !c.ime,
        c.ime_pending,
        !c.halted,
    ensures
        step_spec(c, m).cpu.ime == (m.read_byte(c.pc) != 0xF3),
        !step_spec(c, m).cpu.ime_pending,
{
    let c0 = if m.pending() != 0 { CpuState { halted: false, ..c } } else { c };
    let c1 = c0.after_fetch();
    lemma_execute_interrupt_enable(c1, m, m.read_byte(c0.pc));
    lemma_execute_interrupt_enable(c1.after_fetch(), m, m.read_byte(c1.pc));
}

/// A pending interrupt wakes a halted CPU whether or not IME is on: with IME
/// off the step runs exactly as on a CPU that was not halted, executing the
/// next instruction. With nothing pending a halted CPU idles for 4 T-cycles.
pub proof fn lemma_halt_wake(c: CpuState, m: MmuState)
    requires
        c.halted,
    ensures
        !c.ime && m.pending() != 0 ==> step_spec(c, m) == step_spec(
            CpuState { halted: false, ..c },
            m,
        ),
        m.pending() == 0 ==> step_spec(c, m) == outcome(c, m, 4),
{
}

/// CALL cc,a16 (C4 NZ, CC Z, D4 NC, DC C) in one step of a running CPU:
/// exactly when its condition holds on F (Z is bit 7, C bit 4) it pushes the
/// address after its three bytes (high byte at SP-1, low byte at SP-2) and
/// jumps to the little-endian address in its second and third bytes, taking
/// 24 T-cycles; otherwise it only moves PC past the three bytes, leaving SP
/// and memory alone, in 12 T-cycles.
#[verifier::rlimit(50)]
pub proof fn lemma_conditional_call(c: CpuState, m: MmuState)
    requires
        !c.halted,
        !c.halt_bug,
        !c.takes_interrupt(m),
        m.read_byte(c.pc) == 0xC4 || m.read_byte(c.pc) == 0xCC || m.read_byte(c.pc) == 0xD4
            || m.read_byte(c.pc) == 0xDC,
    ensures
        ({
            let op = m.read_byte(c.pc);
            let f = c.reg.f;
            let taken = if op == 0xC4 {
                f & 0x80 == 0
            } else if op == 0xCC {
                f & 0x80 != 0
            } else if op == 0xD4 {
                f & 0x10 == 0
            } else {
                f & 0x10 != 0
            };
            let lo = m.read_byte(((c.pc + 1) % 0x10000) as u16);
            let hi = m.read_byte(((c.pc + 2) % 0x10000) as u16);
            let ret = ((c.pc + 3) % 0x10000) as u16;
            let r = step_spec(c, m);
            &&& taken ==> r.cycles == 24 && r.cpu.pc == (hi as int * 256 + lo as int) as u16
                && r.cpu.sp == ((c.sp + 0x10000 - 2) % 0x10000) as u16 && r.mmu == m.write_byte(
                ((c.sp + 0x10000 - 1) % 0x10000) as u16,
                (ret / 256) as u8,
            ).write_byte(((c.sp + 0x10000 - 2) % 0x10000) as u16, (ret % 256) as u8)
            &&& !taken ==> r.cycles == 12 && r.cpu.pc == ret && r.cpu.sp == c.sp && r.mmu == m
            &&& r.cpu.reg == c.reg
        }),
{
    let op = m.read_byte(c.pc);
    let y = (op / 8) % 8;
    let c1 = c.after_fetch();
    assert(op / 64 == 3 && op % 8 == 4 && y < 4);
    lemma_step_runs_instruction(c, m);
    lemma_dispatch_x3_z4(c1, m, op);
    assert(op == 0xC4 ==> y == 0);
    assert(op == 0xCC ==> y == 1);
    assert(op == 0xD4 ==> y == 2);
    assert(op == 0xDC ==> y == 3);
    lemma_call_group(c1, m, y);
    let r = step_spec(c, m);
    let g = op_x3_z4(c1, m, y);
    assert(r.mmu == g.mmu && r.cycles == g.cycles && r.cpu.pc == g.cpu.pc && r.cpu.sp == g.cpu.sp
        && r.cpu.reg == g.cpu.reg);
    let f = c.reg.f;
    assert(cond(f, y) == (if op == 0xC4 {
        f & 0x80 == 0
    } else if op == 0xCC {
        f & 0x80 != 0
    } else if op == 0xD4 {
        f & 0x10 == 0
    } else {
        f & 0x10 != 0
    }));
    assert(c1.pc == ((c.pc + 1) % 0x10000) as u16);
    assert(inc16(c1.pc) == ((c.pc + 2) % 0x10000) as u16);
    assert(inc16(inc16(c1.pc)) == ((c.pc + 3) % 0x10000) as u16);
    assert(dec16(c.sp) == ((c.sp + 0x10000 - 1) % 0x10000) as u16);
    assert(dec16(dec16(c.sp)) == ((c.sp + 0x10000 - 2) % 0x10000) as u16);
}

/// A running CPU with no interrupt to take executes the instruction at PC;
/// the EI bookkeeping after it touches only IME.
proof fn lemma_step_runs_instruction(c: CpuState, m: MmuState)
    requires
        !c.halted,
        !c.takes_interrupt(m),
        m.read_byte(c.pc) != 0xCB,
    ensures
        ({
            let e = execute_spec(c.after_fetch(), m, m.read_byte(c.pc));
            let r = step_spec(c, m);
            &&& r.mmu == e.mmu
            &&& r.cycles == e.cycles
            &&& r.cpu.pc == e.cpu.pc
            &&& r.cpu.sp == e.cpu.sp
            &&& r.cpu.reg == e.cpu.reg
        }),
{
    let c0 = if m.pending() != 0 { CpuState { halted: false, ..c } } else { c };
    assert(c0 == c);
}

/// CALL cc,a16 with PC past the opcode: taken exactly when `cond` holds.
proof fn lemma_call_group(c: CpuState, m: MmuState, y: u8)
    requires
        y < 4,
        !c.halt_bug,
    ensures
        cond(c.reg.f, y) ==> op_x3_z4(c, m, y).cycles == 24 && op_x3_z4(c, m, y).cpu.pc == pair_value(
            m.read_byte(inc16(c.pc)),
            m.read_byte(c.pc),
        ) && op_x3_z4(c, m, y).cpu.sp == dec16(dec16(c.sp)) && op_x3_z4(c, m, y).mmu == pushed(
            m,
            c.sp,
            inc16(inc16(c.pc)),
        ),
        !cond(c.reg.f, y) ==> op_x3_z4(c, m, y).cycles == 12 && op_x3_z4(c, m, y).cpu.pc == inc16(
            inc16(c.pc),
        ) && op_x3_z4(c, m, y).cpu.sp == c.sp && op_x3_z4(c, m, y).mmu == m,
        op_x3_z4(c, m, y).cpu.reg == c.reg,
{
    reveal(op_x3_z4);
}

/// The opcodes with x = 3, z = 4 run the group `op_x3_z4`.
proof fn lemma_dispatch_x3_z4(c: CpuState, m: MmuState, op: u8)
    requires
        op / 64 == 3,
        op % 8 == 4,
    ensures
        execute_spec(c, m, op) == op_x3_z4(c, m, (op / 8) % 8),
{
    reveal(execute_spec);
}

/// Whether the condition that conditional opcode `op` names holds on flags
/// `f` (Z is bit 7, C bit 4): NZ for 20 C0 C2 C4, Z for 28 C8 CA CC, NC for
/// 30 D0 D2 D4, C for 38 D8 DA DC.
pub open spec fn opcode_condition(op: u8, f: u8) -> bool {
    if op == 0x20 || op == 0xC0 || op == 0xC2 || op == 0xC4 {
        f & 0x80 == 0
    } else if op == 0x28 || op == 0xC8 || op == 0xCA || op == 0xCC {
        f & 0x80 != 0
    } else if op == 0x30 || op == 0xD0 || op == 0xD2 || op == 0xD4 {
        f & 0x10 == 0
    } else {
        f & 0x10 != 0
    }
}

/// The opcode groups the conditional jumps, calls and returns live in.
proof fn lemma_dispatch_control(c: CpuState, m: MmuState, op: u8)
    ensures
        op / 64 == 0 && op % 8 == 0 ==> execute_spec(c, m, op) == op_x0_z0(c, m, (op / 8) % 8),
        op / 64 == 3 && op % 8 == 0 ==> execute_spec(c, m, op) == op_x3_z0(c, m, (op / 8) % 8),
        op / 64 == 3 && op % 8 == 2 ==> execute_spec(c, m, op) == op_x3_z2(c, m, (op / 8) % 8),
{
    reveal(execute_spec);
}

/// The condition code of each conditional opcode, and its `y` field.
proof fn lemma_condition_codes(op: u8, f: u8)
    requires
        op == 0x20 || op == 0x28 || op == 0x30 || op == 0x38 || op == 0xC0 || op == 0xC8 || op
            == 0xD0 || op == 0xD8 || op == 0xC2 || op == 0xCA || op == 0xD2 || op == 0xDA,
    ensures
        op / 64 == 0 ==> op % 8 == 0 && 4 <= (op / 8) % 8 && cond(f, ((op / 8) % 8 - 4) as u8)
            == opcode_condition(op, f),
        op / 64 == 3 ==> (op % 8 == 0 || op % 8 == 2) && (op / 8) % 8 < 4 && cond(f, (op / 8) % 8)
            == opcode_condition(op, f),
{
}

/// JR cc,e8 (20 NZ, 28 Z, 30 NC, 38 C) in one step of a running CPU: exactly
/// when its condition holds it adds the signed offset in its second byte to
/// the address after it, in 12 T-cycles; otherwise it only moves PC past its
/// two bytes, in 8. SP and memory are left alone.
#[verifier::rlimit(50)]
pub proof fn lemma_conditional_jr(c: CpuState, m: MmuState)
    requires
        !c.halted,
        !c.halt_bug,
        !c.takes_interrupt(m),
        m.read_byte(c.pc) == 0x20 || m.read_byte(c.pc) == 0x28 || m.read_byte(c.pc) == 0x30
            || m.read_byte(c.pc) == 0x38,
    ensures
        ({
            let op = m.read_byte(c.pc);
            let e = m.read_byte(((c.pc + 1) % 0x10000) as u16);
            let offset: int = if e < 128 { e as int } else { e - 256 };
            let next = c.pc + 2;
            let r = step_spec(c, m);
            &&& opcode_condition(op, c.reg.f) ==> r.cycles == 12 && r.cpu.pc == ((next + offset
                + 0x10000) % 0x10000) as u16
            &&& !opcode_condition(op, c.reg.f) ==> r.cycles == 8 && r.cpu.pc == (next % 0x10000) as u16
            &&& r.cpu.sp == c.sp && r.mmu == m && r.cpu.reg == c.reg
        }),
{
    let op = m.read_byte(c.pc);
    let c1 = c.after_fetch();
    lemma_step_runs_instruction(c, m);
    lemma_dispatch_control(c1, m, op);
    lemma_condition_codes(op, c.reg.f);
    let y = (op / 8) % 8;
    let e = m.read_byte(c1.pc);
    let offset: int = if e < 128 { e as int } else { e - 256 };
    assert(c1.pc == ((c.pc + 1) % 0x10000) as u16);
    let c2pc = inc16(c1.pc);
    assert(c2pc == ((c.pc + 2) % 0x10000) as u16);
    assert(signed8(e) == offset);
    assert(jump_rel(c2pc, e) == ((c.pc + 2 + offset + 0x10000) % 0x10000) as u16);
    let g = op_x0_z0(c1, m, y);
    assert(g.cpu.sp == c.sp && g.mmu == m && g.cpu.reg == c.reg && (cond(c.reg.f, (y - 4) as u8)
        ==> g.cycles == 12 && g.cpu.pc == jump_rel(c2pc, e)) && (!cond(c.reg.f, (y - 4) as u8)
        ==> g.cycles == 8 && g.cpu.pc == c2pc)) by {
        reveal(op_x0_z0);
    }
}

/// JP cc,a16 (C2 NZ, CA Z, D2 NC, DA C) in one step of a running CPU:
/// exactly when its condition holds it jumps to the little-endian address in
/// its second and third bytes, in 16 T-cycles; otherwise it only moves PC
/// past its three bytes, in 12. SP and memory are left alone.
pub proof fn lemma_conditional_jp(c: CpuState, m: MmuState)
    requires
        !c.halted,
        !c.halt_bug,
        !c.takes_interrupt(m),
        m.read_byte(c.pc) == 0xC2 || m.read_byte(c.pc) == 0xCA || m.read_byte(c.pc) == 0xD2
            || m.read_byte(c.pc) == 0xDA,
    ensures
        ({
            let op = m.read_byte(c.pc);
            let lo = m.read_byte(((c.pc + 1) % 0x10000) as u16);
            let hi = m.read_byte(((c.pc + 2) % 0x10000) as u16);
            let r = step_spec(c, m);
            &&& opcode_condition(op, c.reg.f) ==> r.cycles == 16 && r.cpu.pc == (hi as int * 256
                + lo as int) as u16
            &&& !opcode_condition(op, c.reg.f) ==> r.cycles == 12 && r.cpu.pc == ((c.pc + 3)
                % 0x10000) as u16
            &&& r.cpu.sp == c.sp && r.mmu == m && r.cpu.reg == c.reg
        }),
{
    let op = m.read_byte(c.pc);
    let c1 = c.after_fetch();
    lemma_step_runs_instruction(c, m);
    lemma_dispatch_control(c1, m, op);
    lemma_condition_codes(op, c.reg.f);
    reveal(op_x3_z2);
    assert(c1.pc == ((c.pc + 1) % 0x10000) as u16);
    assert(inc16(c1.pc) == ((c.pc + 2) % 0x10000) as u16);
    assert(inc16(inc16(c1.pc)) == ((c.pc + 3) % 0x10000) as u16);
}

/// RET cc (C0 NZ, C8 Z, D0 NC, D8 C) in one step of a running CPU: exactly
/// when its condition holds it pops PC (low byte at SP, high byte at SP+1)
/// and raises SP by two, in 20 T-cycles; otherwise it only moves PC past the
/// opcode, in 8. Memory is left alone.
pub proof fn lemma_conditional_ret(c: CpuState, m: MmuState)
    requires
        !c.halted,
        !c.halt_bug,
        !c.takes_interrupt(m),
        m.read_byte(c.pc) == 0xC0 || m.read_byte(c.pc) == 0xC8 || m.read_byte(c.pc) == 0xD0
            || m.read_byte(c.pc) == 0xD8,
    ensures
        ({
            let op = m.read_byte(c.pc);
            let lo = m.read_byte(c.sp);
            let hi = m.read_byte(((c.sp + 1) % 0x10000) as u16);
            let r = step_spec(c, m);
            &&& opcode_condition(op, c.reg.f) ==> r.cycles == 20 && r.cpu.pc == (hi as int * 256
                + lo as int) as u16 && r.cpu.sp == ((c.sp + 2) % 0x10000) as u16
            &&& !opcode_condition(op, c.reg.f) ==> r.cycles == 8 && r.cpu.pc == ((c.pc + 1)
                % 0x10000) as u16 && r.cpu.sp == c.sp
            &&& r.mmu == m && r.cpu.reg == c.reg
        }),
{
    let op = m.read_byte(c.pc);
    let c1 = c.after_fetch();
    lemma_step_runs_instruction(c, m);
    lemma_dispatch_control(c1, m, op);
    lemma_condition_codes(op, c.reg.f);
    reveal(op_x3_z0);
    assert(inc16(c.sp) == ((c.sp + 1) % 0x10000) as u16);
    assert(inc16(inc16(c.sp)) == ((c.sp + 2) % 0x10000) as u16);
}

} // verus!
