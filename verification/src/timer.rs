//! Divider and timer (DIV, TIMA, TMA, TAC): registers FF04..FF07.
use vstd::prelude::*;

use crate::bits::lemma_byte_pair;

verus! {

pub struct Timer {
    /// Internal 16-bit divider; DIV (FF04) is its upper 8 bits.
    div_counter: u16,
    tima: u8,
    tma: u8,
    tac: u8,
}

/// The abstract state of the timer.
pub struct TimerState {
    pub div_counter: u16,
    pub tima: u8,
    pub tma: u8,
    pub tac: u8,
}

impl TimerState {
    /// Post-boot state.
    pub open spec fn initial() -> TimerState {
        TimerState { div_counter: 0xAB00, tima: 0x00, tma: 0x00, tac: 0xF8 }
    }

    pub open spec fn read_reg(self, addr: u16) -> u8 {
        if addr == 0xFF04 {
            (self.div_counter / 256) as u8
        } else if addr == 0xFF05 {
            self.tima
        } else if addr == 0xFF06 {
            self.tma
        } else if addr == 0xFF07 {
            self.tac | 0xF8
        } else {
            0xFF
        }
    }

    /// The divider bit whose falling edge clocks TIMA, as TAC's low two bits
    /// select it: 4096 Hz (bit 9), 262144 Hz (bit 3), 65536 Hz (bit 5),
    /// 16384 Hz (bit 7).
    pub open spec fn tac_bit(tac: u8) -> u16 {
        let sel = tac & 0x03;
        if sel == 0 { 9 } else if sel == 1 { 3 } else if sel == 2 { 5 } else { 7 }
    }

    /// Whether one T-cycle from this state clocks TIMA: the timer is enabled
    /// (TAC bit 2) and the selected divider bit falls from 1 to 0.
    pub open spec fn clocks_tima(self) -> bool {
        let b = Self::tac_bit(self.tac);
        let next = ((self.div_counter as int + 1) % 0x10000) as u16;
        &&& self.tac & 0x04 != 0
        &&& (self.div_counter >> b) & 1 == 1
        &&& (next >> b) & 1 == 0
    }

    /// Whether one T-cycle from this state overflows TIMA.
    pub open spec fn overflows(self) -> bool {
        self.clocks_tima() && self.tima == 0xFF
    }

    /// The timer one T-cycle later: the divider advances, and on a falling
    /// edge TIMA counts up, reloading from TMA when it overflows.
    pub open spec fn tick(self) -> TimerState {
        let next = ((self.div_counter as int + 1) % 0x10000) as u16;
        if self.clocks_tima() {
            if self.tima == 0xFF {
                TimerState { div_counter: next, tima: self.tma, ..self }
            } else {
                TimerState { div_counter: next, tima: (self.tima + 1) as u8, ..self }
            }
        } else {
            TimerState { div_counter: next, ..self }
        }
    }

    /// The timer after `n` T-cycles.
    pub open spec fn clocked(self, n: nat) -> TimerState
        decreases n,
    {
        if n == 0 {
            self
        } else {
            self.clocked((n - 1) as nat).tick()
        }
    }

    /// Whether TIMA overflows at least once during `n` T-cycles.
    pub open spec fn overflowed(self, n: nat) -> bool
        decreases n,
    {
        n > 0 && (self.overflowed((n - 1) as nat) || self.clocked((n - 1) as nat).overflows())
    }

    /// The interrupt bits `n` T-cycles raise: TIMER if TIMA overflowed.
    pub open spec fn overflow_irq(self, n: nat) -> u8 {
        if self.overflowed(n) {
            crate::interrupts::TIMER
        } else {
            0
        }
    }

    /// Any write to DIV resets the whole divider; TAC keeps only its low 3 bits.
    pub open spec fn write_reg(self, addr: u16, val: u8) -> TimerState {
        if addr == 0xFF04 {
            TimerState { div_counter: 0, ..self }
        } else if addr == 0xFF05 {
            TimerState { tima: val, ..self }
        } else if addr == 0xFF06 {
            TimerState { tma: val, ..self }
        } else if addr == 0xFF07 {
            TimerState { tac: val & 0x07, ..self }
        } else {
            self
        }
    }
}

impl View for Timer {
    type V = TimerState;

    closed spec fn view(&self) -> TimerState {
        TimerState { div_counter: self.div_counter, tima: self.tima, tma: self.tma, tac: self.tac }
    }
}

impl Timer {
    pub fn new() -> (t: Self)
        ensures
            t@ == TimerState::initial(),
    {
        // Post-boot state.
        Timer { div_counter: 0xAB00, tima: 0x00, tma: 0x00, tac: 0xF8 }
    }

    pub fn read_reg(&self, addr: u16) -> (r: u8)
        ensures
            r == self@.read_reg(addr),
    {
        proof {
            lemma_byte_pair();
        }
        match addr {
            0xFF04 => (self.div_counter >> 8) as u8,
            0xFF05 => self.tima,
            0xFF06 => self.tma,
            0xFF07 => self.tac | 0xF8,
            _ => 0xFF,
        }
    }

    pub fn write_reg(&mut self, addr: u16, val: u8)
        ensures
            final(self)@ == old(self)@.write_reg(addr, val),
    {
        match addr {
            0xFF04 => self.div_counter = 0,  // any write resets DIV
            0xFF05 => self.tima = val,
            0xFF06 => self.tma = val,
            0xFF07 => self.tac = val & 0x07,
            _ => {},
        }
    }

    /// Advance by `cycles` T-cycles: the divider counts every cycle and TIMA
    /// counts the falling edges of the divider bit TAC selects, reloading from
    /// TMA on overflow. Returns `interrupts::TIMER` when TIMA overflowed.
    pub fn step(&mut self, cycles: u32) -> (irq: u8)
        ensures
            final(self)@ == old(self)@.clocked(cycles as nat),
            irq == old(self)@.overflow_irq(cycles as nat),
    {
        let mut irq: u8 = 0;
        let mut i: u32 = 0;
        while i < cycles
            invariant
                i <= cycles,
                self@ == old(self)@.clocked(i as nat),
                irq == old(self)@.overflow_irq(i as nat),
            decreases cycles - i,
        {
            let sel = self.tac & 0x03;
            let bit: u16 = if sel == 0 { 9 } else if sel == 1 { 3 } else if sel == 2 { 5 } else { 7 };
            let next = self.div_counter.wrapping_add(1);
            let falls = self.tac & 0x04 != 0 && (self.div_counter >> bit) & 1 == 1 && (next >> bit) & 1
                == 0;
            if falls {
                if self.tima == 0xFF {
                    self.tima = self.tma;
                    irq = crate::interrupts::TIMER;
                } else {
                    self.tima = self.tima + 1;
                }
            }
            self.div_counter = next;
            i = i + 1;
        }
        irq
    }
}

/// DIV counts T-cycles: after n cycles the divider has advanced by n
/// (modulo 2^16), whatever TIMA does.
pub proof fn lemma_divider_counts(t: TimerState, n: nat)
    ensures
        t.clocked(n).div_counter == (t.div_counter + n) % 0x10000,
        t.clocked(n).tac == t.tac,
        t.clocked(n).tma == t.tma,
    decreases n,
{
    if n > 0 {
        lemma_divider_counts(t, (n - 1) as nat);
    }
}

/// DIV reads as zero right after any write to it, whatever was written.
pub proof fn lemma_div_write_resets(t: TimerState, val: u8)
    ensures
        t.write_reg(0xFF04, val).read_reg(0xFF04) == 0,
        t.write_reg(0xFF07, val).read_reg(0xFF07) == (val & 0x07) | 0xF8,
{
}

/// With the timer disabled (TAC bit 2 clear) TIMA holds still and no timer
/// interrupt is raised, however long the divider runs.
pub proof fn lemma_disabled_timer_holds(t: TimerState, n: nat)
    requires
        t.tac & 0x04 == 0,
    ensures
        t.clocked(n).tima == t.tima,
        t.clocked(n).tac == t.tac,
        !t.overflowed(n),
        t.overflow_irq(n) == 0,
    decreases n,
{
    if n > 0 {
        lemma_disabled_timer_holds(t, (n - 1) as nat);
    }
}

/// An overflow of TIMA reloads it from TMA and raises the timer interrupt;
/// any other clock edge counts TIMA up by one.
pub proof fn lemma_tima_overflow_reloads(t: TimerState)
    requires
        t.clocks_tima(),
    ensures
        t.tima == 0xFF ==> t.tick().tima == t.tma && t.overflow_irq(1) == crate::interrupts::TIMER,
        t.tima != 0xFF ==> t.tick().tima == t.tima + 1 && t.overflow_irq(1) == 0,
{
    assert(t.clocked(0) == t);
    assert(!t.overflowed(0));
    assert(t.overflowed(1) == t.overflows());
}

} // verus!
