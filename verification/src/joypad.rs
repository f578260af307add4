//! Joypad (FF00): an 8-button matrix read through two selectable nibbles.
use vstd::prelude::*;

use crate::bits::{lemma_mask_bounds, lemma_nibble_bits};

verus! {

/// A Game Boy button. `set_button` maps these onto the FF00 matrix.
#[derive(Clone, Copy, Debug, PartialEq, Eq, Structural)]
pub enum Button {
    Right,
    Left,
    Up,
    Down,
    A,
    B,
    Select,
    Start,
}

impl Button {
    /// Whether the button sits on the d-pad line (else on the action-button line).
    pub open spec fn on_dpad(self) -> bool {
        match self {
            Button::Right | Button::Left | Button::Up | Button::Down => true,
            _ => false,
        }
    }

    /// The button's bit within its nibble: Right/A 0, Left/B 1, Up/Select 2, Down/Start 3.
    pub open spec fn bit(self) -> u8 {
        match self {
            Button::Right | Button::A => 0,
            Button::Left | Button::B => 1,
            Button::Up | Button::Select => 2,
            Button::Down | Button::Start => 3,
        }
    }

    /// The button's mask within its nibble.
    pub open spec fn mask(self) -> u8 {
        (1u8 << self.bit())
    }

    /// The button's index in the order Right, Left, Up, Down, A, B, Select,
    /// Start.
    pub open spec fn index(self) -> u8 {
        match self {
            Button::Right => 0,
            Button::Left => 1,
            Button::Up => 2,
            Button::Down => 3,
            Button::A => 4,
            Button::B => 5,
            Button::Select => 6,
            Button::Start => 7,
        }
    }
}

/// The button with index `index` (0 Right, 1 Left, 2 Up, 3 Down, 4 A, 5 B,
/// 6 Select, 7 Start), as frontends number them; `None` past 7.
pub fn button_from_index(index: u8) -> (b: Option<Button>)
    ensures
        b is Some <==> index < 8,
        b matches Some(button) ==> button.index() == index,
{
    match index {
        0 => Some(Button::Right),
        1 => Some(Button::Left),
        2 => Some(Button::Up),
        3 => Some(Button::Down),
        4 => Some(Button::A),
        5 => Some(Button::B),
        6 => Some(Button::Select),
        7 => Some(Button::Start),
        _ => None,
    }
}

pub struct Joypad {
    /// Which line is selected (bits 4-5 of FF00, active-low).
    select: u8,
    /// Current d-pad states; bit set = released (hardware is active-low).
    dpad: u8,
    /// Current action-button states; bit set = released.
    buttons: u8,
}

/// The abstract state of the joypad: the select bits and the two nibbles of
/// button states, where a 0 bit means pressed.
pub struct JoypadState {
    pub select: u8,
    pub dpad: u8,
    pub buttons: u8,
}

impl JoypadState {
    /// The state after power-on: nothing selected, nothing pressed.
    pub open spec fn initial() -> JoypadState {
        JoypadState { select: 0x30, dpad: 0x0F, buttons: 0x0F }
    }

    /// Only bits 4-5 of the select register and the low nibbles of the button
    /// states are ever set.
    pub open spec fn wf(self) -> bool {
        &&& self.select & 0xCF == 0
        &&& self.dpad & 0xF0 == 0
        &&& self.buttons & 0xF0 == 0
    }

    /// Whether the d-pad line is selected (bit 4 low).
    pub open spec fn dpad_selected(self) -> bool {
        self.select & 0x10 == 0
    }

    /// Whether the action-button line is selected (bit 5 low).
    pub open spec fn buttons_selected(self) -> bool {
        self.select & 0x20 == 0
    }

    /// The value read at FF00: the unused top bits read 1, bits 4-5 echo the
    /// selection, and the low nibble is the AND of the selected lines (0 = pressed).
    pub open spec fn read(self) -> u8 {
        let low: u8 = 0x0F & (if self.dpad_selected() { self.dpad } else { 0x0F }) & (
        if self.buttons_selected() {
            self.buttons
        } else {
            0x0F
        });
        0xC0 | self.select | low
    }

    /// The state after writing `val` to FF00: only the select bits are writable.
    pub open spec fn write(self, val: u8) -> JoypadState {
        JoypadState { select: val & 0x30, ..self }
    }

    /// Whether `b` is currently held down.
    pub open spec fn is_pressed(self, b: Button) -> bool {
        if b.on_dpad() {
            self.dpad & b.mask() == 0
        } else {
            self.buttons & b.mask() == 0
        }
    }

    /// The state after pressing (or releasing) `b`.
    pub open spec fn set_button(self, b: Button, pressed: bool) -> JoypadState {
        let nibble = if b.on_dpad() { self.dpad } else { self.buttons };
        let updated = if pressed { nibble & !b.mask() } else { nibble | b.mask() };
        if b.on_dpad() {
            JoypadState { dpad: updated, ..self }
        } else {
            JoypadState { buttons: updated, ..self }
        }
    }

    /// Whether pressing/releasing `b` raises the joypad interrupt: a fresh press
    /// of a button whose line is currently selected.
    pub open spec fn raises_interrupt(self, b: Button, pressed: bool) -> bool {
        &&& pressed
        &&& !self.is_pressed(b)
        &&& if b.on_dpad() { self.dpad_selected() } else { self.buttons_selected() }
    }
}

impl View for Joypad {
    type V = JoypadState;

    closed spec fn view(&self) -> JoypadState {
        JoypadState { select: self.select, dpad: self.dpad, buttons: self.buttons }
    }
}

impl Joypad {
    pub fn new() -> (j: Self)
        ensures
            j@ == JoypadState::initial(),
            j@.wf(),
    {
        proof {
            lemma_mask_bounds();
        }
        Joypad { select: 0x30, dpad: 0x0F, buttons: 0x0F }
    }

    /// Read FF00. Bits 4-5 select which nibble is exposed (active-low); the low
    /// nibble reports the selected buttons (0 = pressed). Unused top bits read 1.
    pub fn read(&self) -> (r: u8)
        ensures
            r == self@.read(),
    {
        let mut low: u8 = 0x0F;
        if self.select & 0x10 == 0 {
            low &= self.dpad;
        }
        if self.select & 0x20 == 0 {
            low &= self.buttons;
        }
        let (d, b, sel) = (self.dpad, self.buttons, self.select);
        assert(low == 0x0Fu8 & (if sel & 0x10u8 == 0 { d } else { 0x0Fu8 }) & (if sel & 0x20u8 == 0 {
            b
        } else {
            0x0Fu8
        })) by (bit_vector)
            requires
                low == (if sel & 0x20u8 == 0 {
                    (if sel & 0x10u8 == 0 { 0x0Fu8 & d } else { 0x0Fu8 }) & b
                } else {
                    (if sel & 0x10u8 == 0 { 0x0Fu8 & d } else { 0x0Fu8 })
                }),
        ;
        0xC0 | self.select | low
    }

    /// Write FF00 (only the line-select bits 4-5 are writable).
    pub fn write(&mut self, val: u8)
        requires
            old(self)@.wf(),
        ensures
            final(self)@ == old(self)@.write(val),
            final(self)@.wf(),
    {
        proof {
            lemma_mask_bounds();
        }
        self.select = val & 0x30;
    }

    /// Update a button's state (active-low internally). Returns true if this is
    /// a fresh press on a currently-selected line, which raises a joypad interrupt.
    pub fn set_button(&mut self, button: Button, pressed: bool) -> (fresh: bool)
        requires
            old(self)@.wf(),
        ensures
            final(self)@ == old(self)@.set_button(button, pressed),
            fresh == old(self)@.raises_interrupt(button, pressed),
            final(self)@.wf(),
    {
        let (nibble_is_dpad, bit): (bool, u8) = match button {
            Button::Right => (true, 0),
            Button::Left => (true, 1),
            Button::Up => (true, 2),
            Button::Down => (true, 3),
            Button::A => (false, 0),
            Button::B => (false, 1),
            Button::Select => (false, 2),
            Button::Start => (false, 3),
        };
        let mask = 1u8 << bit;
        let nibble: u8 = if nibble_is_dpad { self.dpad } else { self.buttons };
        let was_pressed = nibble & mask == 0;
        let updated = if pressed {
            nibble & !mask  // 0 = pressed
        } else {
            nibble | mask  // 1 = released
        };
        proof {
            lemma_nibble_bits();
            assert((nibble & !(1u8 << bit)) & 0xF0 == 0 && (nibble | (1u8 << bit)) & 0xF0 == 0);
        }
        if nibble_is_dpad {
            self.dpad = updated;
        } else {
            self.buttons = updated;
        }
        // Interrupt on a fresh press while this button's line is selected.
        let line_selected = if nibble_is_dpad {
            self.select & 0x10 == 0
        } else {
            self.select & 0x20 == 0
        };
        pressed && !was_pressed && line_selected
    }
}

/// Pressing a button and then releasing it restores the joypad state, and the
/// top two bits of FF00 always read 1.
pub proof fn lemma_press_release_restores(j: JoypadState, b: Button)
    requires
        j.wf(),
        !j.is_pressed(b),
    ensures
        j.set_button(b, true).set_button(b, false) == j,
        j.set_button(b, true).is_pressed(b),
        j.read() & 0xC0 == 0xC0,
{
    let m = b.mask();
    let d = j.dpad;
    let bs = j.buttons;
    let sel = j.select;
    assert(b.bit() < 4);
    lemma_nibble_bits();
    lemma_mask_bounds();
    assert(d & m != 0 ==> ((d & !m) | m) == d && (d & !m) & m == 0);
    assert(bs & m != 0 ==> ((bs & !m) | m) == bs && (bs & !m) & m == 0);
    let low: u8 = 0x0F & (if j.dpad_selected() { d } else { 0x0F }) & (if j.buttons_selected() {
        bs
    } else {
        0x0F
    });
    assert((0xC0u8 | sel | low) & 0xC0u8 == 0xC0u8);
}

/// Reading FF00 with a pressed button's line selected shows its bit low.
proof fn lemma_pressed_bit_low(s: u8, a: u8, b: u8, k: u8)
    by (bit_vector)
    requires
        k < 4,
        s & 0x0F == 0,
        a & (1u8 << k) == 0 || b & (1u8 << k) == 0,
    ensures
        ((0xC0u8 | s | (0x0Fu8 & a & b)) >> k) & 1 == 0,
{
}

/// Reading FF00 shows a bit high when neither selected line holds it low.
proof fn lemma_released_bit_high(s: u8, a: u8, b: u8, k: u8)
    by (bit_vector)
    requires
        k < 4,
        a & (1u8 << k) != 0,
        b & (1u8 << k) != 0,
    ensures
        ((0xC0u8 | s | (0x0Fu8 & a & b)) >> k) & 1 == 1,
{
}

/// Changing bit `k` of one line changes no other bit read at FF00.
proof fn lemma_other_bits_kept(s: u8, n: u8, o: u8, k: u8, j: u8)
    by (bit_vector)
    requires
        k < 4,
        j < 8,
        j != k,
    ensures
        ((0xC0u8 | s | (0x0Fu8 & (n & !(1u8 << k)) & o)) >> j) & 1 == ((0xC0u8 | s | (0x0Fu8 & n
            & o)) >> j) & 1,
        ((0xC0u8 | s | (0x0Fu8 & (n | (1u8 << k)) & o)) >> j) & 1 == ((0xC0u8 | s | (0x0Fu8 & n
            & o)) >> j) & 1,
        ((0xC0u8 | s | (0x0Fu8 & o & (n & !(1u8 << k)))) >> j) & 1 == ((0xC0u8 | s | (0x0Fu8 & o
            & n)) >> j) & 1,
        ((0xC0u8 | s | (0x0Fu8 & o & (n | (1u8 << k)))) >> j) & 1 == ((0xC0u8 | s | (0x0Fu8 & o
            & n)) >> j) & 1,
{
}

/// What a game reads at FF00 after a press or release. Each button has its
/// line (bit 4 low selects the d-pad, bit 5 low the action buttons) and its
/// bit: Right and A bit 0, Left and B bit 1, Up and Select bit 2, Down and
/// Start bit 3. With its line selected, a pressed button reads 0 at its bit,
/// and a released one reads 1 there unless the other line is selected too;
/// no other bit of FF00 changes.
pub proof fn lemma_button_read(j: JoypadState, button: Button, pressed: bool, bit: u8)
    requires
        j.wf(),
        bit < 8,
    ensures
        ({
            let k: u8 = match button {
                Button::Right | Button::A => 0,
                Button::Left | Button::B => 1,
                Button::Up | Button::Select => 2,
                Button::Down | Button::Start => 3,
            };
            let dpad = match button {
                Button::Right | Button::Left | Button::Up | Button::Down => true,
                _ => false,
            };
            let line = if dpad { j.select & 0x10 == 0 } else { j.select & 0x20 == 0 };
            let other = if dpad { j.select & 0x20 == 0 } else { j.select & 0x10 == 0 };
            let after = j.set_button(button, pressed).read();
            &&& line ==> (((after >> k) & 1 == 0) <==> pressed || (other && (if dpad {
                j.buttons
            } else {
                j.dpad
            }) & (1u8 << k) == 0))
            &&& bit != k ==> (after >> bit) & 1 == (j.read() >> bit) & 1
        }),
{
    let k: u8 = match button {
        Button::Right | Button::A => 0,
        Button::Left | Button::B => 1,
        Button::Up | Button::Select => 2,
        Button::Down | Button::Start => 3,
    };
    assert(button.bit() == k);
    let m = button.mask();
    let s = j.select;
    let d = if j.dpad_selected() { j.dpad } else { 0x0Fu8 };
    let b = if j.buttons_selected() { j.buttons } else { 0x0Fu8 };
    let j2 = j.set_button(button, pressed);
    let d2 = if j2.dpad_selected() { j2.dpad } else { 0x0Fu8 };
    let b2 = if j2.buttons_selected() { j2.buttons } else { 0x0Fu8 };
    assert(j.read() == (0xC0u8 | s | (0x0Fu8 & d & b)));
    assert(j2.read() == (0xC0u8 | s | (0x0Fu8 & d2 & b2)));
    let jd = j.dpad;
    let jb = j.buttons;
    assert((0x0Fu8 & (1u8 << k)) != 0 && (jd & !(1u8 << k)) & (1u8 << k) == 0 && (jb & !(1u8
        << k)) & (1u8 << k) == 0 && (jd | (1u8 << k)) & (1u8 << k) != 0 && (jb | (1u8 << k)) & (1u8
        << k) != 0 && s & 0x0F == 0) by (bit_vector)
        requires
            k < 4,
            s & 0xCF == 0,
    ;
    if bit != k {
        lemma_other_bits_kept(s, j.dpad, b, k, bit);
        lemma_other_bits_kept(s, j.buttons, d, k, bit);
    }
    if d2 & (1u8 << k) == 0 || b2 & (1u8 << k) == 0 {
        lemma_pressed_bit_low(s, d2, b2, k);
    } else {
        lemma_released_bit_high(s, d2, b2, k);
    }
}

} // verus!
