//! CPU register file and flag helpers.
//!
//! Eight 8-bit registers (A,B,C,D,E,F,H,L) that pair into four 16-bit views
//! (AF,BC,DE,HL). F holds the flags in its upper nibble; its lower nibble is
//! always zero on this CPU, which the setters enforce.
use vstd::prelude::*;

use crate::bits::lemma_byte_pair;

verus! {

/// Zero flag.
pub const FLAG_Z: u8 = 0x80;
/// Subtract flag (BCD).
pub const FLAG_N: u8 = 0x40;
/// Half-carry flag (BCD).
pub const FLAG_H: u8 = 0x20;
/// Carry flag.
pub const FLAG_C: u8 = 0x10;

#[derive(Default, Clone, Copy)]
pub struct Registers {
    pub a: u8,
    pub b: u8,
    pub c: u8,
    pub d: u8,
    pub e: u8,
    pub f: u8,
    pub h: u8,
    pub l: u8,
}

/// The 16-bit value of a register pair whose high byte is `hi` and low byte `lo`.
pub open spec fn pair_value(hi: u8, lo: u8) -> u16 {
    (hi as int * 256 + lo as int) as u16
}

/// The F register after `set_flag(mask, on)`: the bit is set or cleared, and
/// the low nibble is forced to zero.
pub open spec fn flag_update(f: u8, mask: u8, on: bool) -> u8 {
    (if on { f | mask } else { f & !mask }) & 0xF0
}

/// Whether the flag `mask` is set in `f`.
pub open spec fn flag_bit(f: u8, mask: u8) -> bool {
    f & mask != 0
}

impl Registers {
    /// The register state after the boot ROM hands off to the cartridge.
    pub open spec fn spec_post_boot() -> Registers {
        Registers { a: 0x01, f: 0xB0, b: 0x00, c: 0x13, d: 0x00, e: 0xD8, h: 0x01, l: 0x4D }
    }

    pub open spec fn spec_af(self) -> u16 {
        pair_value(self.a, self.f)
    }

    pub open spec fn spec_bc(self) -> u16 {
        pair_value(self.b, self.c)
    }

    pub open spec fn spec_de(self) -> u16 {
        pair_value(self.d, self.e)
    }

    pub open spec fn spec_hl(self) -> u16 {
        pair_value(self.h, self.l)
    }

    /// AF after `set_af(v)`: A takes the high byte, F the high nibble of the low byte.
    pub open spec fn with_af(self, v: u16) -> Registers {
        Registers { a: (v / 256) as u8, f: ((v % 256) as u8) & 0xF0, ..self }
    }

    pub open spec fn with_bc(self, v: u16) -> Registers {
        Registers { b: (v / 256) as u8, c: (v % 256) as u8, ..self }
    }

    pub open spec fn with_de(self, v: u16) -> Registers {
        Registers { d: (v / 256) as u8, e: (v % 256) as u8, ..self }
    }

    pub open spec fn with_hl(self, v: u16) -> Registers {
        Registers { h: (v / 256) as u8, l: (v % 256) as u8, ..self }
    }

    pub open spec fn with_flag(self, mask: u8, on: bool) -> Registers {
        Registers { f: flag_update(self.f, mask, on), ..self }
    }

    /// Canonical DMG register state immediately after the boot ROM hands off.
    pub fn post_boot_dmg() -> (r: Self)
        ensures
            r == Registers::spec_post_boot(),
    {
        Registers { a: 0x01, f: 0xB0, b: 0x00, c: 0x13, d: 0x00, e: 0xD8, h: 0x01, l: 0x4D }
    }

    pub fn af(&self) -> (r: u16)
        ensures
            r == self.spec_af(),
    {
        proof {
            lemma_byte_pair();
        }
        (self.a as u16) << 8 | self.f as u16
    }

    pub fn bc(&self) -> (r: u16)
        ensures
            r == self.spec_bc(),
    {
        proof {
            lemma_byte_pair();
        }
        (self.b as u16) << 8 | self.c as u16
    }

    pub fn de(&self) -> (r: u16)
        ensures
            r == self.spec_de(),
    {
        proof {
            lemma_byte_pair();
        }
        (self.d as u16) << 8 | self.e as u16
    }

    pub fn hl(&self) -> (r: u16)
        ensures
            r == self.spec_hl(),
    {
        proof {
            lemma_byte_pair();
        }
        (self.h as u16) << 8 | self.l as u16
    }

    pub fn set_af(&mut self, v: u16)
        ensures
            *final(self) == old(self).with_af(v),
    {
        proof {
            lemma_byte_pair();
        }
        self.a = (v >> 8) as u8;
        self.f = (v as u8) & 0xF0;
    }

    pub fn set_bc(&mut self, v: u16)
        ensures
            *final(self) == old(self).with_bc(v),
    {
        proof {
            lemma_byte_pair();
        }
        self.b = (v >> 8) as u8;
        self.c = v as u8;
    }

    pub fn set_de(&mut self, v: u16)
        ensures
            *final(self) == old(self).with_de(v),
    {
        proof {
            lemma_byte_pair();
        }
        self.d = (v >> 8) as u8;
        self.e = v as u8;
    }

    pub fn set_hl(&mut self, v: u16)
        ensures
            *final(self) == old(self).with_hl(v),
    {
        proof {
            lemma_byte_pair();
        }
        self.h = (v >> 8) as u8;
        self.l = v as u8;
    }

    /// Read a single flag.
    pub fn flag(&self, mask: u8) -> (r: bool)
        ensures
            r == flag_bit(self.f, mask),
    {
        self.f & mask != 0
    }

    /// Set or clear a single flag, keeping F's low nibble zero.
    pub fn set_flag(&mut self, mask: u8, on: bool)
        ensures
            *final(self) == old(self).with_flag(mask, on),
    {
        if on {
            self.f |= mask;
        } else {
            self.f &= !mask;
        }
        self.f &= 0xF0;
    }
}

/// Reading a register pair gives back exactly what was written to it; for AF
/// the low nibble of F reads as zero.
pub proof fn lemma_pair_roundtrip(r: Registers, v: u16)
    ensures
        r.with_bc(v).spec_bc() == v,
        r.with_de(v).spec_de() == v,
        r.with_hl(v).spec_hl() == v,
        r.with_af(v).spec_af() == v & 0xFFF0,
{
    assert(((v / 256) as u8) as int * 256 + ((v % 256) as u8) as int == v);
    assert((((v / 256) as u8) as int * 256 + ((((v % 256) as u8) & 0xF0) as int)) as u16 == v & 0xFFF0)
        by (bit_vector);
}

/// After any write through `set_af` or `set_flag`, the low nibble of F is zero.
pub proof fn lemma_f_low_nibble_zero(r: Registers, v: u16, mask: u8, on: bool)
    ensures
        r.with_af(v).f & 0x0F == 0,
        r.with_flag(mask, on).f & 0x0F == 0,
{
    let f = r.f;
    let g = (v % 256) as u8;
    assert((g & 0xF0) & 0x0F == 0 && ((if on { f | mask } else { f & !mask }) & 0xF0) & 0x0F == 0)
        by (bit_vector);
}

/// Setting a flag bit of the upper nibble makes it read back as the value set.
pub proof fn lemma_flag_roundtrip(r: Registers, mask: u8, on: bool)
    requires
        mask == FLAG_Z || mask == FLAG_N || mask == FLAG_H || mask == FLAG_C,
    ensures
        flag_bit(r.with_flag(mask, on).f, mask) == on,
{
    let f = r.f;
    assert(mask == 0x80u8 || mask == 0x40u8 || mask == 0x20u8 || mask == 0x10u8 ==> (((if on {
        f | mask
    } else {
        f & !mask
    }) & 0xF0) & mask != 0) == on) by (bit_vector);
}

} // verus!
