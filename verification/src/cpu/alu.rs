//! ALU primitives of the LR35902: the flag-setting arithmetic, logic, rotate
//! and shift operations shared by the opcode tables, so that the carry and
//! half-carry bookkeeping lives in exactly one place per operation.
use vstd::prelude::*;

use super::registers::{flag_bit, flag_update, Registers, FLAG_C, FLAG_H, FLAG_N, FLAG_Z};
use super::{Cpu, CpuState};
use crate::bits::lemma_mask_bounds;

verus! {

/// The F register holding the four flags Z, N, H, C (low nibble zero).
pub open spec fn flags_byte(z: bool, n: bool, h: bool, c: bool) -> u8 {
    (if z { 0x80u8 } else { 0u8 }) | (if n { 0x40u8 } else { 0u8 }) | (if h { 0x20u8 } else { 0u8 })
        | (if c { 0x10u8 } else { 0u8 })
}

/// The carry flag of `f` as the number 0 or 1.
pub open spec fn carry_in(f: u8) -> int {
    if flag_bit(f, FLAG_C) { 1 } else { 0 }
}

/// Registers `r` with A replaced and F set to the given flags.
pub open spec fn with_a_flags(r: Registers, a: u8, z: bool, n: bool, h: bool, c: bool) -> Registers {
    Registers { a, f: flags_byte(z, n, h, c), ..r }
}

/// Registers `r` with only F set to the given flags.
pub open spec fn with_flags(r: Registers, z: bool, n: bool, h: bool, c: bool) -> Registers {
    Registers { f: flags_byte(z, n, h, c), ..r }
}

// ---- 8-bit arithmetic ----

pub open spec fn add8_spec(r: Registers, v: u8) -> Registers {
    let res = ((r.a + v) % 256) as u8;
    with_a_flags(r, res, res == 0, false, (r.a & 0x0F) + (v & 0x0F) > 0x0F, r.a + v > 0xFF)
}

pub open spec fn adc8_spec(r: Registers, v: u8) -> Registers {
    let c = carry_in(r.f);
    let res = ((r.a + v + c) % 256) as u8;
    with_a_flags(r, res, res == 0, false, (r.a & 0x0F) + (v & 0x0F) + c > 0x0F, r.a + v + c > 0xFF)
}

pub open spec fn sub8_spec(r: Registers, v: u8) -> Registers {
    let res = ((r.a - v + 256) % 256) as u8;
    with_a_flags(r, res, res == 0, true, (r.a & 0x0F) < (v & 0x0F), r.a < v)
}

pub open spec fn sbc8_spec(r: Registers, v: u8) -> Registers {
    let c = carry_in(r.f);
    let res = ((r.a - v - c + 512) % 256) as u8;
    with_a_flags(r, res, res == 0, true, (r.a & 0x0F) < (v & 0x0F) + c, r.a < v + c)
}

/// CP: the flags of SUB, with A unchanged.
pub open spec fn cp8_spec(r: Registers, v: u8) -> Registers {
    let res = ((r.a - v + 256) % 256) as u8;
    with_flags(r, res == 0, true, (r.a & 0x0F) < (v & 0x0F), r.a < v)
}

// ---- 8-bit logic ----

pub open spec fn and8_spec(r: Registers, v: u8) -> Registers {
    with_a_flags(r, r.a & v, r.a & v == 0, false, true, false)
}

pub open spec fn or8_spec(r: Registers, v: u8) -> Registers {
    with_a_flags(r, r.a | v, r.a | v == 0, false, false, false)
}

pub open spec fn xor8_spec(r: Registers, v: u8) -> Registers {
    with_a_flags(r, r.a ^ v, r.a ^ v == 0, false, false, false)
}

// ---- INC / DEC (C unchanged) ----

pub open spec fn inc8_value(v: u8) -> u8 {
    ((v + 1) % 256) as u8
}

pub open spec fn inc8_regs(r: Registers, v: u8) -> Registers {
    with_flags(r, inc8_value(v) == 0, false, (v & 0x0F) == 0x0F, flag_bit(r.f, FLAG_C))
}

pub open spec fn dec8_value(v: u8) -> u8 {
    ((v - 1 + 256) % 256) as u8
}

pub open spec fn dec8_regs(r: Registers, v: u8) -> Registers {
    with_flags(r, dec8_value(v) == 0, true, (v & 0x0F) == 0x00, flag_bit(r.f, FLAG_C))
}

// ---- 16-bit arithmetic ----

/// ADD HL,rr: Z unchanged, N=0, H from bit 11, C from bit 15.
pub open spec fn add16_hl_spec(r: Registers, v: u16) -> Registers {
    let hl = r.spec_hl();
    with_flags(
        r,
        flag_bit(r.f, FLAG_Z),
        false,
        (hl & 0x0FFF) + (v & 0x0FFF) > 0x0FFF,
        hl + v > 0xFFFF,
    ).with_hl(((hl + v) % 0x10000) as u16)
}

/// The signed value of the byte `e8` read as two's complement.
pub open spec fn signed8(e8: u8) -> int {
    if e8 < 0x80 { e8 as int } else { e8 - 256 }
}

/// SP + signed e8, modulo 2^16.
pub open spec fn add_sp_e8_value(sp: u16, e8: u8) -> u16 {
    ((sp + signed8(e8) + 0x10000) % 0x10000) as u16
}

/// The flags of ADD SP,e8: Z=0, N=0, H and C from the unsigned low-byte add.
pub open spec fn add_sp_e8_regs(r: Registers, sp: u16, e8: u8) -> Registers {
    with_flags(r, false, false, (sp & 0x0F) + (e8 & 0x0F) > 0x0F, (sp & 0xFF) + e8 > 0xFF)
}

// ---- rotates of A (Z always 0) ----

pub open spec fn rlca_spec(r: Registers) -> Registers {
    with_a_flags(r, (r.a << 1u8) | (r.a >> 7u8), false, false, false, r.a >> 7u8 != 0)
}

pub open spec fn rrca_spec(r: Registers) -> Registers {
    with_a_flags(r, (r.a >> 1u8) | ((r.a & 1) << 7u8), false, false, false, r.a & 1 != 0)
}

pub open spec fn rla_spec(r: Registers) -> Registers {
    let old_c: u8 = if flag_bit(r.f, FLAG_C) { 1 } else { 0 };
    with_a_flags(r, (r.a << 1u8) | old_c, false, false, false, r.a >> 7u8 != 0)
}

pub open spec fn rra_spec(r: Registers) -> Registers {
    let old_c: u8 = if flag_bit(r.f, FLAG_C) { 1 } else { 0 };
    with_a_flags(r, (r.a >> 1u8) | (old_c << 7u8), false, false, false, r.a & 1 != 0)
}

// ---- CB rotates / shifts: Z from result, N=0, H=0, C = bit shifted out ----

/// Registers after a CB rotate or shift with the given result and carry-out.
pub open spec fn shift_regs(r: Registers, result: u8, carry: bool) -> Registers {
    with_flags(r, result == 0, false, false, carry)
}

pub open spec fn rlc_value(v: u8) -> u8 {
    (v << 1u8) | (v >> 7u8)
}

pub open spec fn rrc_value(v: u8) -> u8 {
    (v >> 1u8) | ((v & 1) << 7u8)
}

pub open spec fn rl_value(r: Registers, v: u8) -> u8 {
    (v << 1u8) | (if flag_bit(r.f, FLAG_C) { 1u8 } else { 0u8 })
}

pub open spec fn rr_value(r: Registers, v: u8) -> u8 {
    (v >> 1u8) | (if flag_bit(r.f, FLAG_C) { 0x80u8 } else { 0u8 })
}

pub open spec fn sla_value(v: u8) -> u8 {
    v << 1u8
}

pub open spec fn sra_value(v: u8) -> u8 {
    (v >> 1u8) | (v & 0x80)
}

pub open spec fn srl_value(v: u8) -> u8 {
    v >> 1u8
}

pub open spec fn swap_value(v: u8) -> u8 {
    (v >> 4u8) | (v << 4u8)
}

// ---- bit ops ----

/// BIT b,v: Z = NOT(bit b of v); N=0; H=1; C unchanged.
pub open spec fn bit_regs(r: Registers, b: u8, v: u8) -> Registers {
    with_flags(r, v & (1u8 << b) == 0, false, true, flag_bit(r.f, FLAG_C))
}

// ---- DAA / CPL / SCF / CCF ----

/// The correction DAA adds (after an addition) or subtracts (after a subtraction).
pub open spec fn daa_adjust(r: Registers) -> u8 {
    if flag_bit(r.f, FLAG_N) {
        (if flag_bit(r.f, FLAG_H) { 0x06u8 } else { 0u8 }) | (if flag_bit(r.f, FLAG_C) {
            0x60u8
        } else {
            0u8
        })
    } else {
        (if flag_bit(r.f, FLAG_H) || (r.a & 0x0F) > 0x09 { 0x06u8 } else { 0u8 }) | (if flag_bit(
            r.f,
            FLAG_C,
        ) || r.a > 0x99 {
            0x60u8
        } else {
            0u8
        })
    }
}

/// Decimal-adjust A after a BCD add or subtract, using the N, H and C flags.
pub open spec fn daa_spec(r: Registers) -> Registers {
    let adj = daa_adjust(r);
    let a = if flag_bit(r.f, FLAG_N) {
        ((r.a - adj + 256) % 256) as u8
    } else {
        ((r.a + adj) % 256) as u8
    };
    let carry = if flag_bit(r.f, FLAG_N) {
        flag_bit(r.f, FLAG_C)
    } else {
        flag_bit(r.f, FLAG_C) || r.a > 0x99
    };
    with_a_flags(r, a, a == 0, flag_bit(r.f, FLAG_N), false, carry)
}

pub open spec fn cpl_spec(r: Registers) -> Registers {
    with_a_flags(r, !r.a, flag_bit(r.f, FLAG_Z), true, true, flag_bit(r.f, FLAG_C))
}

pub open spec fn scf_spec(r: Registers) -> Registers {
    with_flags(r, flag_bit(r.f, FLAG_Z), false, false, true)
}

pub open spec fn ccf_spec(r: Registers) -> Registers {
    with_flags(r, flag_bit(r.f, FLAG_Z), false, false, !flag_bit(r.f, FLAG_C))
}

// ---- how sequences of `set_flag` compose ----

/// Each sequence of `set_flag` calls the ALU makes leaves F holding exactly
/// the flags set, with the untouched flags carried over.
proof fn lemma_flag_sequences()
    by (bit_vector)
    ensures
        forall|f: u8, z: bool, n: bool, h: bool, c: bool|
            #[trigger] flag_update(flag_update(flag_update(flag_update(f, 0x80u8, z), 0x40u8, n), 0x20u8, h), 0x10u8, c)
                == flags_byte(z, n, h, c),
        forall|f: u8, z: bool, n: bool, h: bool|
            #[trigger] flag_update(flag_update(flag_update(f, 0x80u8, z), 0x40u8, n), 0x20u8, h)
                == flags_byte(z, n, h, f & 0x10u8 != 0),
        forall|f: u8, n: bool, h: bool, c: bool|
            #[trigger] flag_update(flag_update(flag_update(f, 0x40u8, n), 0x20u8, h), 0x10u8, c)
                == flags_byte(f & 0x80u8 != 0, n, h, c),
        forall|f: u8, n: bool, h: bool|
            #[trigger] flag_update(flag_update(f, 0x40u8, n), 0x20u8, h) == flags_byte(
                f & 0x80u8 != 0,
                n,
                h,
                f & 0x10u8 != 0,
            ),
        forall|f: u8, z: bool, h: bool, c: bool|
            #[trigger] flag_update(flag_update(flag_update(f, 0x80u8, z), 0x20u8, h), 0x10u8, c)
                == flags_byte(z, f & 0x40u8 != 0, h, c),
{
}

/// Each flag of `flags_byte` reads back as given.
proof fn lemma_flags_byte_bits()
    by (bit_vector)
    ensures
        forall|z: bool, n: bool, h: bool, c: bool|
            (#[trigger] flags_byte(z, n, h, c) & 0x80u8 != 0) == z && (flags_byte(z, n, h, c) & 0x40u8
                != 0) == n && (flags_byte(z, n, h, c) & 0x20u8 != 0) == h && (flags_byte(z, n, h, c)
                & 0x10u8 != 0) == c,
{
}

proof fn lemma_set_znhc(f: u8, z: bool, n: bool, h: bool, c: bool)
    ensures
        flag_update(flag_update(flag_update(flag_update(f, FLAG_Z, z), FLAG_N, n), FLAG_H, h), FLAG_C, c)
            == flags_byte(z, n, h, c),
{
    lemma_flag_sequences();
}

proof fn lemma_set_znh(f: u8, z: bool, n: bool, h: bool)
    ensures
        flag_update(flag_update(flag_update(f, FLAG_Z, z), FLAG_N, n), FLAG_H, h) == flags_byte(
            z,
            n,
            h,
            flag_bit(f, FLAG_C),
        ),
{
    lemma_flag_sequences();
}

proof fn lemma_set_nhc(f: u8, n: bool, h: bool, c: bool)
    ensures
        flag_update(flag_update(flag_update(f, FLAG_N, n), FLAG_H, h), FLAG_C, c) == flags_byte(
            flag_bit(f, FLAG_Z),
            n,
            h,
            c,
        ),
{
    lemma_flag_sequences();
}

proof fn lemma_set_nh(f: u8, n: bool, h: bool)
    ensures
        flag_update(flag_update(f, FLAG_N, n), FLAG_H, h) == flags_byte(
            flag_bit(f, FLAG_Z),
            n,
            h,
            flag_bit(f, FLAG_C),
        ),
{
    lemma_flag_sequences();
}

proof fn lemma_set_zhc(f: u8, z: bool, h: bool, c: bool)
    ensures
        flag_update(flag_update(flag_update(f, FLAG_Z, z), FLAG_H, h), FLAG_C, c) == flags_byte(
            z,
            flag_bit(f, FLAG_N),
            h,
            c,
        ),
{
    lemma_flag_sequences();
}

impl Cpu {
    // ---- 8-bit arithmetic ----

    /// A = A + value. H from bit 3, C from bit 7. N=0.
    pub fn add8(&mut self, value: u8)
        ensures
            final(self)@ == old(self)@.with_reg(add8_spec(old(self)@.reg, value)),
    {
        let a = self.reg.a;
        let result = a.wrapping_add(value);
        proof {
            lemma_mask_bounds();
        }
        self.reg.set_flag(FLAG_Z, result == 0);
        self.reg.set_flag(FLAG_N, false);
        self.reg.set_flag(FLAG_H, (a & 0x0F) + (value & 0x0F) > 0x0F);
        self.reg.set_flag(FLAG_C, (a as u16) + (value as u16) > 0xFF);
        self.reg.a = result;
        proof {
            lemma_set_znhc(old(self).reg.f, result == 0, false, (a & 0x0F) + (value & 0x0F) > 0x0F,
                a + value > 0xFF);
        }
    }

    /// A = A + value + carry-in.
    pub fn adc8(&mut self, value: u8)
        ensures
            final(self)@ == old(self)@.with_reg(adc8_spec(old(self)@.reg, value)),
    {
        let a = self.reg.a;
        let carry: u8 = if self.reg.flag(FLAG_C) { 1 } else { 0 };
        let result = a.wrapping_add(value).wrapping_add(carry);
        proof {
            lemma_mask_bounds();
        }
        self.reg.set_flag(FLAG_Z, result == 0);
        self.reg.set_flag(FLAG_N, false);
        self.reg.set_flag(FLAG_H, (a & 0x0F) + (value & 0x0F) + carry > 0x0F);
        self.reg.set_flag(FLAG_C, (a as u16) + (value as u16) + (carry as u16) > 0xFF);
        self.reg.a = result;
        proof {
            lemma_set_znhc(old(self).reg.f, result == 0, false,
                (a & 0x0F) + (value & 0x0F) + carry > 0x0F, a + value + carry > 0xFF);
        }
    }

    /// A = A - value. H = borrow from bit 4; C = borrow. N=1.
    pub fn sub8(&mut self, value: u8)
        ensures
            final(self)@ == old(self)@.with_reg(sub8_spec(old(self)@.reg, value)),
    {
        let a = self.reg.a;
        let result = a.wrapping_sub(value);
        self.reg.set_flag(FLAG_Z, result == 0);
        self.reg.set_flag(FLAG_N, true);
        self.reg.set_flag(FLAG_H, (a & 0x0F) < (value & 0x0F));
        self.reg.set_flag(FLAG_C, (a as u16) < (value as u16));
        self.reg.a = result;
        proof {
            lemma_set_znhc(old(self).reg.f, result == 0, true, (a & 0x0F) < (value & 0x0F), a < value);
        }
    }

    /// A = A - value - carry-in.
    pub fn sbc8(&mut self, value: u8)
        ensures
            final(self)@ == old(self)@.with_reg(sbc8_spec(old(self)@.reg, value)),
    {
        let a = self.reg.a;
        let carry: u8 = if self.reg.flag(FLAG_C) { 1 } else { 0 };
        let result = a.wrapping_sub(value).wrapping_sub(carry);
        proof {
            lemma_mask_bounds();
        }
        self.reg.set_flag(FLAG_Z, result == 0);
        self.reg.set_flag(FLAG_N, true);
        self.reg.set_flag(FLAG_H, (a & 0x0F) < (value & 0x0F) + carry);
        self.reg.set_flag(FLAG_C, (a as u16) < (value as u16) + (carry as u16));
        self.reg.a = result;
        proof {
            lemma_set_znhc(old(self).reg.f, result == 0, true, (a & 0x0F) < (value & 0x0F) + carry,
                a < value + carry);
        }
    }

    /// Compare: like SUB but discards the result, keeping only flags.
    pub fn cp8(&mut self, value: u8)
        ensures
            final(self)@ == old(self)@.with_reg(cp8_spec(old(self)@.reg, value)),
    {
        let a = self.reg.a;
        let result = a.wrapping_sub(value);
        self.reg.set_flag(FLAG_Z, result == 0);
        self.reg.set_flag(FLAG_N, true);
        self.reg.set_flag(FLAG_H, (a & 0x0F) < (value & 0x0F));
        self.reg.set_flag(FLAG_C, (a as u16) < (value as u16));
        proof {
            lemma_set_znhc(old(self).reg.f, result == 0, true, (a & 0x0F) < (value & 0x0F), a < value);
        }
    }

    // ---- 8-bit logic ----

    pub fn and8(&mut self, value: u8)
        ensures
            final(self)@ == old(self)@.with_reg(and8_spec(old(self)@.reg, value)),
    {
        self.reg.a &= value;
        let z = self.reg.a == 0;
        let ghost f0 = self.reg.f;
        self.reg.set_flag(FLAG_Z, z);
        self.reg.set_flag(FLAG_N, false);
        self.reg.set_flag(FLAG_H, true);
        self.reg.set_flag(FLAG_C, false);
        proof {
            lemma_set_znhc(f0, z, false, true, false);
        }
    }

    pub fn or8(&mut self, value: u8)
        ensures
            final(self)@ == old(self)@.with_reg(or8_spec(old(self)@.reg, value)),
    {
        self.reg.a |= value;
        let z = self.reg.a == 0;
        let ghost f0 = self.reg.f;
        self.reg.set_flag(FLAG_Z, z);
        self.reg.set_flag(FLAG_N, false);
        self.reg.set_flag(FLAG_H, false);
        self.reg.set_flag(FLAG_C, false);
        proof {
            lemma_set_znhc(f0, z, false, false, false);
        }
    }

    pub fn xor8(&mut self, value: u8)
        ensures
            final(self)@ == old(self)@.with_reg(xor8_spec(old(self)@.reg, value)),
    {
        self.reg.a ^= value;
        let z = self.reg.a == 0;
        let ghost f0 = self.reg.f;
        self.reg.set_flag(FLAG_Z, z);
        self.reg.set_flag(FLAG_N, false);
        self.reg.set_flag(FLAG_H, false);
        self.reg.set_flag(FLAG_C, false);
        proof {
            lemma_set_znhc(f0, z, false, false, false);
        }
    }

    // ---- INC / DEC (8-bit; do NOT touch C) ----

    pub fn inc8(&mut self, value: u8) -> (r: u8)
        ensures
            r == inc8_value(value),
            final(self)@ == old(self)@.with_reg(inc8_regs(old(self)@.reg, value)),
    {
        let result = value.wrapping_add(1);
        self.reg.set_flag(FLAG_Z, result == 0);
        self.reg.set_flag(FLAG_N, false);
        self.reg.set_flag(FLAG_H, (value & 0x0F) == 0x0F);
        proof {
            lemma_set_znh(old(self).reg.f, result == 0, false, (value & 0x0F) == 0x0F);
        }
        result
    }

    pub fn dec8(&mut self, value: u8) -> (r: u8)
        ensures
            r == dec8_value(value),
            final(self)@ == old(self)@.with_reg(dec8_regs(old(self)@.reg, value)),
    {
        let result = value.wrapping_sub(1);
        self.reg.set_flag(FLAG_Z, result == 0);
        self.reg.set_flag(FLAG_N, true);
        self.reg.set_flag(FLAG_H, (value & 0x0F) == 0x00);
        proof {
            lemma_set_znh(old(self).reg.f, result == 0, true, (value & 0x0F) == 0x00);
        }
        result
    }

    // ---- 16-bit arithmetic ----

    /// HL = HL + value. N=0; H from bit 11; C from bit 15; Z unchanged.
    pub fn add16_hl(&mut self, value: u16)
        ensures
            final(self)@ == old(self)@.with_reg(add16_hl_spec(old(self)@.reg, value)),
    {
        let hl = self.reg.hl();
        let result = hl.wrapping_add(value);
        proof {
            lemma_mask_bounds();
        }
        self.reg.set_flag(FLAG_N, false);
        self.reg.set_flag(FLAG_H, (hl & 0x0FFF) + (value & 0x0FFF) > 0x0FFF);
        self.reg.set_flag(FLAG_C, (hl as u32) + (value as u32) > 0xFFFF);
        self.reg.set_hl(result);
        proof {
            lemma_set_nhc(old(self).reg.f, false, (hl & 0x0FFF) + (value & 0x0FFF) > 0x0FFF,
                hl + value > 0xFFFF);
        }
    }

    /// SP + signed e8 (used by ADD SP,e8 and LD HL,SP+e8).
    /// Z=0, N=0; H from bit 3, C from bit 7 of the unsigned low-byte add.
    pub fn add_sp_e8(&mut self, e8: u8) -> (r: u16)
        ensures
            r == add_sp_e8_value(old(self)@.sp, e8),
            final(self)@ == old(self)@.with_reg(add_sp_e8_regs(old(self)@.reg, old(self)@.sp, e8)),
    {
        let sp = self.sp;
        // Sign-extend e8 to 16 bits.
        let offset: u16 = if e8 < 0x80 { e8 as u16 } else { 0xFF00u16 | e8 as u16 };
        let result = sp.wrapping_add(offset);
        assert((e8 >= 0x80 ==> (0xFF00u16 | e8 as u16) == e8 as u16 + 0xFF00u16) && (e8 as u16 & 0xFF
            == e8 as u16) && ((e8 as u16 & 0x0F) == e8 & 0x0F) && (sp & 0x0F) <= 0x0F && (sp & 0xFF)
            <= 0xFF && (e8 as u16 & 0x0F) <= 0x0F) by (bit_vector);
        self.reg.set_flag(FLAG_Z, false);
        self.reg.set_flag(FLAG_N, false);
        self.reg.set_flag(FLAG_H, (sp & 0x0F) + (e8 as u16 & 0x0F) > 0x0F);
        self.reg.set_flag(FLAG_C, (sp & 0xFF) + (e8 as u16 & 0xFF) > 0xFF);
        proof {
            lemma_set_znhc(old(self).reg.f, false, false, (sp & 0x0F) + (e8 & 0x0F) > 0x0F,
                (sp & 0xFF) + e8 > 0xFF);
        }
        result
    }

    // ---- rotates: "A" variants (Z always 0) ----

    pub fn rlca(&mut self)
        ensures
            final(self)@ == old(self)@.with_reg(rlca_spec(old(self)@.reg)),
    {
        let a = self.reg.a;
        let carry = a >> 7;
        self.reg.a = (a << 1) | carry;
        let ghost f0 = self.reg.f;
        self.reg.set_flag(FLAG_Z, false);
        self.reg.set_flag(FLAG_N, false);
        self.reg.set_flag(FLAG_H, false);
        self.reg.set_flag(FLAG_C, carry != 0);
        proof {
            lemma_set_znhc(f0, false, false, false, carry != 0);
        }
    }

    pub fn rrca(&mut self)
        ensures
            final(self)@ == old(self)@.with_reg(rrca_spec(old(self)@.reg)),
    {
        let a = self.reg.a;
        let carry = a & 1;
        self.reg.a = (a >> 1) | (carry << 7);
        let ghost f0 = self.reg.f;
        self.reg.set_flag(FLAG_Z, false);
        self.reg.set_flag(FLAG_N, false);
        self.reg.set_flag(FLAG_H, false);
        self.reg.set_flag(FLAG_C, carry != 0);
        proof {
            lemma_set_znhc(f0, false, false, false, carry != 0);
        }
    }

    pub fn rla(&mut self)
        ensures
            final(self)@ == old(self)@.with_reg(rla_spec(old(self)@.reg)),
    {
        let a = self.reg.a;
        let old_carry: u8 = if self.reg.flag(FLAG_C) { 1 } else { 0 };
        let carry = a >> 7;
        self.reg.a = (a << 1) | old_carry;
        let ghost f0 = self.reg.f;
        self.reg.set_flag(FLAG_Z, false);
        self.reg.set_flag(FLAG_N, false);
        self.reg.set_flag(FLAG_H, false);
        self.reg.set_flag(FLAG_C, carry != 0);
        proof {
            lemma_set_znhc(f0, false, false, false, carry != 0);
        }
    }

    pub fn rra(&mut self)
        ensures
            final(self)@ == old(self)@.with_reg(rra_spec(old(self)@.reg)),
    {
        let a = self.reg.a;
        let old_carry: u8 = if self.reg.flag(FLAG_C) { 1 } else { 0 };
        let carry = a & 1;
        self.reg.a = (a >> 1) | (old_carry << 7);
        let ghost f0 = self.reg.f;
        self.reg.set_flag(FLAG_Z, false);
        self.reg.set_flag(FLAG_N, false);
        self.reg.set_flag(FLAG_H, false);
        self.reg.set_flag(FLAG_C, carry != 0);
        proof {
            lemma_set_znhc(f0, false, false, false, carry != 0);
        }
    }

    // ---- CB rotates/shifts (Z from result, N=0, H=0, C = shifted-out bit) ----

    pub fn rlc(&mut self, value: u8) -> (r: u8)
        ensures
            r == rlc_value(value),
            final(self)@ == old(self)@.with_reg(shift_regs(old(self)@.reg, r, value >> 7u8 != 0)),
    {
        let carry = value >> 7;
        let result = (value << 1) | carry;
        self.set_shift_flags(result, carry);
        result
    }

    pub fn rrc(&mut self, value: u8) -> (r: u8)
        ensures
            r == rrc_value(value),
            final(self)@ == old(self)@.with_reg(shift_regs(old(self)@.reg, r, value & 1 != 0)),
    {
        let carry = value & 1;
        let result = (value >> 1) | (carry << 7);
        self.set_shift_flags(result, carry);
        result
    }

    pub fn rl(&mut self, value: u8) -> (r: u8)
        ensures
            r == rl_value(old(self)@.reg, value),
            final(self)@ == old(self)@.with_reg(shift_regs(old(self)@.reg, r, value >> 7u8 != 0)),
    {
        let old_carry: u8 = if self.reg.flag(FLAG_C) { 1 } else { 0 };
        let carry = value >> 7;
        let result = (value << 1) | old_carry;
        self.set_shift_flags(result, carry);
        result
    }

    pub fn rr(&mut self, value: u8) -> (r: u8)
        ensures
            r == rr_value(old(self)@.reg, value),
            final(self)@ == old(self)@.with_reg(shift_regs(old(self)@.reg, r, value & 1 != 0)),
    {
        let old_carry: u8 = if self.reg.flag(FLAG_C) { 1 } else { 0 };
        let carry = value & 1;
        assert((old_carry == 1u8 ==> (old_carry << 7u8) == 0x80u8) && (old_carry == 0u8 ==> (old_carry
            << 7u8) == 0u8)) by (bit_vector);
        let result = (value >> 1) | (old_carry << 7);
        self.set_shift_flags(result, carry);
        result
    }

    pub fn sla(&mut self, value: u8) -> (r: u8)
        ensures
            r == sla_value(value),
            final(self)@ == old(self)@.with_reg(shift_regs(old(self)@.reg, r, value >> 7u8 != 0)),
    {
        let carry = value >> 7;
        let result = value << 1;
        self.set_shift_flags(result, carry);
        result
    }

    pub fn sra(&mut self, value: u8) -> (r: u8)
        ensures
            r == sra_value(value),
            final(self)@ == old(self)@.with_reg(shift_regs(old(self)@.reg, r, value & 1 != 0)),
    {
        let carry = value & 1;
        // arithmetic shift: preserve the sign bit (bit 7).
        let result = (value >> 1) | (value & 0x80);
        self.set_shift_flags(result, carry);
        result
    }

    pub fn srl(&mut self, value: u8) -> (r: u8)
        ensures
            r == srl_value(value),
            final(self)@ == old(self)@.with_reg(shift_regs(old(self)@.reg, r, value & 1 != 0)),
    {
        let carry = value & 1;
        let result = value >> 1;
        self.set_shift_flags(result, carry);
        result
    }

    pub fn swap(&mut self, value: u8) -> (r: u8)
        ensures
            r == swap_value(value),
            final(self)@ == old(self)@.with_reg(shift_regs(old(self)@.reg, r, false)),
    {
        let result = (value >> 4) | (value << 4);
        self.reg.set_flag(FLAG_Z, result == 0);
        self.reg.set_flag(FLAG_N, false);
        self.reg.set_flag(FLAG_H, false);
        self.reg.set_flag(FLAG_C, false);
        proof {
            lemma_set_znhc(old(self).reg.f, result == 0, false, false, false);
        }
        result
    }

    /// Common flag update for CB rotate/shift ops.
    pub fn set_shift_flags(&mut self, result: u8, carry: u8)
        ensures
            final(self)@ == old(self)@.with_reg(shift_regs(old(self)@.reg, result, carry != 0)),
    {
        self.reg.set_flag(FLAG_Z, result == 0);
        self.reg.set_flag(FLAG_N, false);
        self.reg.set_flag(FLAG_H, false);
        self.reg.set_flag(FLAG_C, carry != 0);
        proof {
            lemma_set_znhc(old(self).reg.f, result == 0, false, false, carry != 0);
        }
    }

    // ---- bit ops ----

    /// BIT b,r: Z = NOT(bit b); N=0; H=1; C unchanged.
    pub fn bit(&mut self, bit: u8, value: u8)
        requires
            bit < 8,
        ensures
            final(self)@ == old(self)@.with_reg(bit_regs(old(self)@.reg, bit, value)),
    {
        let set = value & (1 << bit) != 0;
        self.reg.set_flag(FLAG_Z, !set);
        self.reg.set_flag(FLAG_N, false);
        self.reg.set_flag(FLAG_H, true);
        proof {
            lemma_set_znh(old(self).reg.f, !set, false, true);
        }
    }

    pub fn res(&self, bit: u8, value: u8) -> (r: u8)
        requires
            bit < 8,
        ensures
            r == value & !(1u8 << bit),
    {
        value & !(1 << bit)
    }

    pub fn set(&self, bit: u8, value: u8) -> (r: u8)
        requires
            bit < 8,
        ensures
            r == value | (1u8 << bit),
    {
        value | (1 << bit)
    }

    // ---- DAA / CPL / SCF / CCF ----

    /// Decimal-adjust A after a BCD add/sub using the N/H/C flags.
    pub fn daa(&mut self)
        ensures
            final(self)@ == old(self)@.with_reg(daa_spec(old(self)@.reg)),
    {
        let mut a = self.reg.a;
        let mut adjust = 0u8;
        let mut carry = false;
        assert((0u8 | 0x06u8) == 0x06u8 && (0x06u8 | 0x60u8) == 0x66u8 && (0u8 | 0x60u8) == 0x60u8
            && (0u8 | 0u8) == 0u8 && (0x06u8 | 0u8) == 0x06u8) by (bit_vector);
        if self.reg.flag(FLAG_N) {
            // After a subtraction.
            if self.reg.flag(FLAG_H) {
                adjust |= 0x06;
            }
            if self.reg.flag(FLAG_C) {
                adjust |= 0x60;
                carry = true;
            }
            a = a.wrapping_sub(adjust);
        } else {
            // After an addition.
            if self.reg.flag(FLAG_H) || (a & 0x0F) > 0x09 {
                adjust |= 0x06;
            }
            if self.reg.flag(FLAG_C) || a > 0x99 {
                adjust |= 0x60;
                carry = true;
            }
            a = a.wrapping_add(adjust);
        }
        self.reg.a = a;
        let ghost f0 = self.reg.f;
        self.reg.set_flag(FLAG_Z, a == 0);
        self.reg.set_flag(FLAG_H, false);
        self.reg.set_flag(FLAG_C, carry);
        proof {
            lemma_set_zhc(f0, a == 0, false, carry);
        }
    }

    pub fn cpl(&mut self)
        ensures
            final(self)@ == old(self)@.with_reg(cpl_spec(old(self)@.reg)),
    {
        self.reg.a = !self.reg.a;
        let ghost f0 = self.reg.f;
        self.reg.set_flag(FLAG_N, true);
        self.reg.set_flag(FLAG_H, true);
        proof {
            lemma_set_nh(f0, true, true);
        }
    }

    pub fn scf(&mut self)
        ensures
            final(self)@ == old(self)@.with_reg(scf_spec(old(self)@.reg)),
    {
        self.reg.set_flag(FLAG_N, false);
        self.reg.set_flag(FLAG_H, false);
        self.reg.set_flag(FLAG_C, true);
        proof {
            lemma_set_nhc(old(self).reg.f, false, false, true);
        }
    }

    pub fn ccf(&mut self)
        ensures
            final(self)@ == old(self)@.with_reg(ccf_spec(old(self)@.reg)),
    {
        let c = self.reg.flag(FLAG_C);
        self.reg.set_flag(FLAG_N, false);
        self.reg.set_flag(FLAG_H, false);
        self.reg.set_flag(FLAG_C, !c);
        proof {
            lemma_set_nhc(old(self).reg.f, false, false, !c);
        }
    }
}


// ---- laws of the ALU ----

/// A byte holding two decimal digits (binary-coded decimal).
pub open spec fn is_bcd(x: u8) -> bool {
    x % 16 <= 9 && x / 16 <= 9
}

/// The number 0..99 that a BCD byte encodes.
pub open spec fn bcd_value(x: u8) -> int {
    (x / 16) * 10 + x % 16
}

/// The BCD byte encoding a number 0..99.
pub open spec fn bcd_encode(n: int) -> u8 {
    ((n / 10) * 16 + n % 10) as u8
}

/// CP computes exactly the flags of SUB and leaves A unchanged.
pub proof fn lemma_cp_is_sub_without_result(r: Registers, v: u8)
    ensures
        cp8_spec(r, v).f == sub8_spec(r, v).f,
        cp8_spec(r, v).a == r.a,
        cp8_spec(r, v) == (Registers { f: sub8_spec(r, v).f, ..r }),
{
}

/// With the carry flag clear, ADC and SBC behave as ADD and SUB.
pub proof fn lemma_carry_clear_adc_is_add(r: Registers, v: u8)
    requires
        !flag_bit(r.f, FLAG_C),
    ensures
        adc8_spec(r, v) == add8_spec(r, v),
        sbc8_spec(r, v) == sub8_spec(r, v),
{
}

/// INC and DEC never touch the carry flag.
pub proof fn lemma_inc_dec_keep_carry(r: Registers, v: u8)
    ensures
        flag_bit(inc8_regs(r, v).f, FLAG_C) == flag_bit(r.f, FLAG_C),
        flag_bit(dec8_regs(r, v).f, FLAG_C) == flag_bit(r.f, FLAG_C),
        inc8_regs(r, v).a == r.a,
        dec8_regs(r, v).a == r.a,
{
    let f = r.f;
    let z1 = inc8_value(v) == 0;
    let z2 = dec8_value(v) == 0;
    let h1 = (v & 0x0F) == 0x0F;
    let h2 = (v & 0x0F) == 0x00;
    lemma_flags_byte_bits();
    assert(flags_byte(z1, false, h1, f & 0x10u8 != 0) & 0x10u8 != 0 <==> f & 0x10u8 != 0);
    assert(flags_byte(z2, true, h2, f & 0x10u8 != 0) & 0x10u8 != 0 <==> f & 0x10u8 != 0);
}

/// SWAP is its own inverse; RRC undoes RLC and RLC undoes RRC.
pub proof fn lemma_swap_and_rotations_invert(v: u8)
    ensures
        swap_value(swap_value(v)) == v,
        rrc_value(rlc_value(v)) == v,
        rlc_value(rrc_value(v)) == v,
{
    assert(((((v >> 4u8) | (v << 4u8)) >> 4u8) | (((v >> 4u8) | (v << 4u8)) << 4u8)) == v && ((((v
        << 1u8) | (v >> 7u8)) >> 1u8) | ((((v << 1u8) | (v >> 7u8)) & 1u8) << 7u8)) == v && ((((v
        >> 1u8) | ((v & 1u8) << 7u8)) << 1u8) | (((v >> 1u8) | ((v & 1u8) << 7u8)) >> 7u8)) == v)
        by (bit_vector);
}

/// DAA after ADD of two BCD bytes leaves their decimal sum (mod 100) in A, as
/// BCD, and sets the carry flag exactly when the decimal sum reaches 100.
pub proof fn lemma_daa_after_add_is_decimal_sum(r: Registers, b: u8)
    requires
        is_bcd(r.a),
        is_bcd(b),
    ensures
        daa_spec(add8_spec(r, b)).a == bcd_encode((bcd_value(r.a) + bcd_value(b)) % 100),
        flag_bit(daa_spec(add8_spec(r, b)).f, FLAG_C) == (bcd_value(r.a) + bcd_value(b) >= 100),
{
    let a = r.a;
    let s = ((a + b) % 256) as u8;
    let h = (a & 0x0F) + (b & 0x0F) > 0x0F;
    let c = a + b > 0xFF;
    let f1 = flags_byte(s == 0, false, h, c);
    lemma_flags_byte_bits();
    assert(f1 & 0x40u8 == 0 && (f1 & 0x20u8 != 0) == h && (f1 & 0x10u8 != 0) == c);
    let adj: u8 = (if h || (s & 0x0F) > 0x09 { 0x06u8 } else { 0u8 }) | (if c || s > 0x99 {
        0x60u8
    } else {
        0u8
    });
    let a2 = ((s + adj) % 256) as u8;
    let c2 = c || s > 0x99;
    assert(a2 == ((((a / 16) * 10 + a % 16 + (b / 16) * 10 + b % 16) % 100 / 10) * 16 + ((a / 16) * 10
        + a % 16 + (b / 16) * 10 + b % 16) % 100 % 10) as u8 && c2 == ((a / 16) * 10 + a % 16 + (b
        / 16) * 10 + b % 16 >= 100)) by (bit_vector)
        requires
            a % 16 <= 9,
            a / 16 <= 9,
            b % 16 <= 9,
            b / 16 <= 9,
            s == ((a + b) % 256) as u8,
            h == ((a & 0x0F) + (b & 0x0F) > 0x0F),
            c == (a + b > 0xFF),
            adj == (if h || (s & 0x0F) > 0x09 { 0x06u8 } else { 0u8 }) | (if c || s > 0x99 {
                0x60u8
            } else {
                0u8
            }),
            a2 == ((s + adj) % 256) as u8,
            c2 == (c || s > 0x99),
    ;
    let z2 = a2 == 0;
    assert(flags_byte(z2, false, false, c2) & 0x10u8 != 0 <==> c2);
}

/// DAA after SUB of two BCD bytes leaves their decimal difference (mod 100)
/// in A, as BCD, and keeps the carry flag set exactly when a borrow occurred,
/// that is when the subtrahend is the larger number.
pub proof fn lemma_daa_after_sub_is_decimal_difference(r: Registers, b: u8)
    requires
        is_bcd(r.a),
        is_bcd(b),
    ensures
        daa_spec(sub8_spec(r, b)).a == bcd_encode((bcd_value(r.a) - bcd_value(b) + 100) % 100),
        flag_bit(daa_spec(sub8_spec(r, b)).f, FLAG_C) == (bcd_value(r.a) < bcd_value(b)),
{
    let a = r.a;
    let s = ((a - b + 256) % 256) as u8;
    let h = (a & 0x0F) < (b & 0x0F);
    let c = a < b;
    let f1 = flags_byte(s == 0, true, h, c);
    lemma_flags_byte_bits();
    assert(f1 & 0x40u8 != 0 && (f1 & 0x20u8 != 0) == h && (f1 & 0x10u8 != 0) == c);
    let adj: u8 = (if h { 0x06u8 } else { 0u8 }) | (if c { 0x60u8 } else { 0u8 });
    let a2 = ((s - adj + 256) % 256) as u8;
    assert(a2 == ((((a / 16) * 10 + a % 16 + 100 - (b / 16) * 10 - b % 16) % 100 / 10) * 16 + ((a
        / 16) * 10 + a % 16 + 100 - (b / 16) * 10 - b % 16) % 100 % 10) as u8 && c == ((a / 16) * 10
        + a % 16 < (b / 16) * 10 + b % 16)) by (bit_vector)
        requires
            a % 16 <= 9,
            a / 16 <= 9,
            b % 16 <= 9,
            b / 16 <= 9,
            s == ((a - b + 256) % 256) as u8,
            h == ((a & 0x0F) < (b & 0x0F)),
            c == (a < b),
            adj == (if h { 0x06u8 } else { 0u8 }) | (if c { 0x60u8 } else { 0u8 }),
            a2 == ((s - adj + 256) % 256) as u8,
    ;
    let z2 = a2 == 0;
    assert(flags_byte(z2, true, false, c) & 0x10u8 != 0 <==> c);
}

} // verus!
