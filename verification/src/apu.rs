//! Audio Processing Unit register file (FF10..FF3F).
use vstd::prelude::*;

verus! {

/// Number of sound registers, FF10..FF3F.
pub const APU_REGS: usize = 0x30;

pub struct Apu {
    /// Raw register file for FF10..FF3F.
    regs: Vec<u8>,
}

impl View for Apu {
    type V = Seq<u8>;

    closed spec fn view(&self) -> Seq<u8> {
        self.regs@
    }
}

/// Whether `addr` is a sound register.
pub open spec fn is_apu_addr(addr: u16) -> bool {
    0xFF10 <= addr <= 0xFF3F
}

impl Apu {
    pub fn new() -> (a: Self)
        ensures
            a@ == Seq::new(APU_REGS as nat, |i: int| 0u8),
    {
        let regs = vec![0u8; APU_REGS];
        proof {
            assert(regs@ =~= Seq::new(APU_REGS as nat, |i: int| 0u8));
        }
        Apu { regs }
    }

    pub fn read_reg(&self, addr: u16) -> (r: u8)
        requires
            is_apu_addr(addr),
            self@.len() == APU_REGS,
        ensures
            r == self@[addr - 0xFF10],
    {
        self.regs[(addr - 0xFF10) as usize]
    }

    pub fn write_reg(&mut self, addr: u16, val: u8)
        requires
            is_apu_addr(addr),
            old(self)@.len() == APU_REGS,
        ensures
            final(self)@ == old(self)@.update(addr - 0xFF10, val),
    {
        self.regs.set((addr - 0xFF10) as usize, val);
    }

    /// Advance sound generation by `cycles` T-cycles: the register file is
    /// left as it is.
    pub fn step(&mut self, cycles: u32)
        ensures
            final(self)@ == old(self)@,
    {
    }
}

} // verus!
