//! Serial link port (FF01 SB / FF02 SC).
//!
//! With no link cable connected, a transfer started against the internal clock
//! shifts in 0xFF and completes immediately. The byte written to SB is
//! captured: test ROMs stream their pass/fail text out of the serial port.
use vstd::prelude::*;

verus! {

/// Cap on the captured-output buffer (64 KiB). A ROM that endlessly triggers
/// serial transfers can't grow this without bound; the oldest half is dropped
/// when the cap is hit.
pub const MAX_OUTPUT: usize = 0x10000;

pub struct Serial {
    sb: u8,
    sc: u8,
    output: Vec<u8>,
}

/// The abstract state of the serial port.
pub struct SerialState {
    pub sb: u8,
    pub sc: u8,
    /// Bytes captured from completed transfers, oldest first.
    pub output: Seq<u8>,
}

impl SerialState {
    pub open spec fn initial() -> SerialState {
        SerialState { sb: 0x00, sc: 0x7E, output: Seq::empty() }
    }

    /// The captured output never exceeds its cap.
    pub open spec fn wf(self) -> bool {
        self.output.len() <= MAX_OUTPUT
    }

    pub open spec fn read_reg(self, addr: u16) -> u8 {
        if addr == 0xFF01 {
            self.sb
        } else if addr == 0xFF02 {
            self.sc | 0x7E
        } else {
            0xFF
        }
    }

    /// Whether writing `val` to SC starts a transfer on the internal clock.
    pub open spec fn starts_transfer(val: u8) -> bool {
        val & 0x81 == 0x81
    }

    /// The captured output after one more byte: when the cap is reached the
    /// oldest half is dropped first.
    pub open spec fn output_after_capture(output: Seq<u8>, byte: u8) -> Seq<u8> {
        if output.len() >= MAX_OUTPUT {
            output.subrange((MAX_OUTPUT / 2) as int, output.len() as int).push(byte)
        } else {
            output.push(byte)
        }
    }

    pub open spec fn write_reg(self, addr: u16, val: u8) -> SerialState {
        if addr == 0xFF01 {
            SerialState { sb: val, ..self }
        } else if addr == 0xFF02 {
            if Self::starts_transfer(val) {
                SerialState {
                    sb: 0xFF,
                    sc: val & 0x7F,
                    output: Self::output_after_capture(self.output, self.sb),
                }
            } else {
                SerialState { sc: val, ..self }
            }
        } else {
            self
        }
    }
}

impl View for Serial {
    type V = SerialState;

    closed spec fn view(&self) -> SerialState {
        SerialState { sb: self.sb, sc: self.sc, output: self.output@ }
    }
}

impl Serial {
    pub fn new() -> (s: Self)
        ensures
            s@ == SerialState::initial(),
            s@.wf(),
    {
        Serial { sb: 0x00, sc: 0x7E, output: Vec::new() }
    }

    pub fn read_reg(&self, addr: u16) -> (r: u8)
        ensures
            r == self@.read_reg(addr),
    {
        match addr {
            0xFF01 => self.sb,
            0xFF02 => self.sc | 0x7E,  // bits 1-6 unused, read as 1
            _ => 0xFF,
        }
    }

    pub fn write_reg(&mut self, addr: u16, val: u8)
        requires
            old(self)@.wf(),
        ensures
            final(self)@ == old(self)@.write_reg(addr, val),
            final(self)@.wf(),
    {
        match addr {
            0xFF01 => self.sb = val,
            0xFF02 => {
                self.sc = val;
                // Bit 7 = start, bit 0 = use internal clock. With no peer, the
                // transfer completes at once; capture the byte for test output.
                if val & 0x81 == 0x81 {
                    if self.output.len() >= MAX_OUTPUT {
                        let recent = self.output.split_off(MAX_OUTPUT / 2);
                        self.output = recent;
                    }
                    self.output.push(self.sb);
                    self.sb = 0xFF;
                    self.sc &= 0x7F;  // clear the start bit
                }
            },
            _ => {},
        }
        proof {
            assert(final(self)@.output =~= old(self)@.write_reg(addr, val).output);
        }
    }

    /// Advance the serial clock. The instant-complete model raises no interrupt.
    pub fn step(&mut self, cycles: u32) -> (irq: u8)
        ensures
            irq == 0,
            final(self)@ == old(self)@,
    {
        0
    }

    /// Drain captured serial bytes.
    pub fn take_output(&mut self) -> (out: Vec<u8>)
        ensures
            out@ == old(self)@.output,
            final(self)@ == (SerialState { output: Seq::empty(), ..old(self)@ }),
    {
        let mut out = Vec::new();
        std::mem::swap(&mut out, &mut self.output);
        out
    }
}

/// A transfer started on the internal clock appends the byte in SB to the
/// captured output, and draining then hands back everything captured so far.
pub proof fn lemma_transfer_captures_sb(s: SerialState, val: u8)
    requires
        s.wf(),
        s.output.len() < MAX_OUTPUT,
        SerialState::starts_transfer(val),
    ensures
        s.write_reg(0xFF02, val).output == s.output.push(s.sb),
        s.write_reg(0xFF02, val).sb == 0xFF,
        s.write_reg(0xFF02, val).wf(),
{
}

/// The captured output stays within its cap whatever is written.
pub proof fn lemma_output_bounded(s: SerialState, addr: u16, val: u8)
    requires
        s.wf(),
    ensures
        s.write_reg(addr, val).wf(),
{
}

} // verus!
