//! Cartridge: ROM, banked external RAM, and the memory-bank controller (MBC).
//!
//! Supports no-MBC, MBC1, MBC2, MBC3 (RTC registers accepted but not ticked),
//! and MBC5.
use vstd::prelude::*;

use crate::bits::lemma_mask_bounds;
use crate::text::{
    char_is_control, char_is_whitespace, decode_utf8_lossy, is_control, is_whitespace, push_char,
    utf8_lossy,
};

verus! {

#[derive(Debug, PartialEq, Eq, Structural)]
pub enum CartridgeError {
    /// ROM is smaller than the 0x150-byte header.
    TooSmall,
    /// Cartridge type byte (0x147) names a mapper that is not implemented.
    UnsupportedMapper(u8),
}

/// The memory-bank controller a cartridge carries.
#[derive(Clone, Copy, PartialEq, Eq, Debug, Structural)]
pub enum Kind {
    NoMbc,
    Mbc1,
    Mbc2,
    Mbc3,
    Mbc5,
}

/// Bytes in the cartridge header; a ROM must hold at least this many.
pub const HEADER_END: usize = 0x150;
/// Bytes in one switchable ROM bank.
pub const ROM_BANK_SIZE: usize = 0x4000;
/// Bytes in one external RAM bank.
pub const RAM_BANK_SIZE: usize = 0x2000;
/// Bytes of MBC2's built-in RAM (512 four-bit cells).
pub const MBC2_RAM_LEN: usize = 512;

// ---- header decoding ----

/// The mapper and battery flag named by the cartridge type byte (0x147), or
/// `None` for a type that is not supported.
pub open spec fn classify_spec(type_byte: u8) -> Option<(Kind, bool)> {
    if type_byte == 0x00 || type_byte == 0x08 {
        Some((Kind::NoMbc, false))
    } else if type_byte == 0x09 {
        Some((Kind::NoMbc, true))
    } else if type_byte == 0x01 || type_byte == 0x02 {
        Some((Kind::Mbc1, false))
    } else if type_byte == 0x03 {
        Some((Kind::Mbc1, true))
    } else if type_byte == 0x05 {
        Some((Kind::Mbc2, false))
    } else if type_byte == 0x06 {
        Some((Kind::Mbc2, true))
    } else if type_byte == 0x0F || type_byte == 0x10 || type_byte == 0x13 {
        Some((Kind::Mbc3, true))
    } else if type_byte == 0x11 || type_byte == 0x12 {
        Some((Kind::Mbc3, false))
    } else if type_byte == 0x19 || type_byte == 0x1A || type_byte == 0x1C || type_byte == 0x1D {
        Some((Kind::Mbc5, false))
    } else if type_byte == 0x1B || type_byte == 0x1E {
        Some((Kind::Mbc5, true))
    } else {
        None
    }
}

/// External RAM size in bytes from the header's RAM-size byte (0x149); MBC2
/// always has its built-in 512 cells.
pub open spec fn ram_size_spec(code: u8, kind: Kind) -> nat {
    if kind == Kind::Mbc2 {
        MBC2_RAM_LEN as nat
    } else if code == 0x01 {
        2 * 1024
    } else if code == 0x02 {
        8 * 1024
    } else if code == 0x03 {
        32 * 1024
    } else if code == 0x04 {
        128 * 1024
    } else if code == 0x05 {
        64 * 1024
    } else {
        0
    }
}

/// The number of 16 KiB banks that `len` bytes occupy, rounding up.
pub open spec fn banks_spanned(len: nat) -> nat {
    (len + 0x3FFF) / 0x4000
}

/// The ROM bank count: the header's size byte (0x148) encodes 32 KiB << n
/// (n capped at 8), but the actual length is trusted too, and there are at
/// least two banks.
pub open spec fn rom_banks_spec(rom: Seq<u8>) -> nat {
    let code = rom[0x148];
    let header: nat = (2usize << (if code < 8 { code } else { 8u8 })) as nat;
    let spanned = banks_spanned(rom.len());
    let m = if header < spanned { spanned } else { header };
    if m < 2 { 2 } else { m }
}

/// The number of RAM banks for `ram_len` bytes of external RAM.
pub open spec fn ram_banks_spec(ram_len: nat) -> nat {
    if ram_len == 0 { 0 } else if ram_len / 0x2000 < 1 { 1 } else { ram_len / 0x2000 }
}

// ---- title decoding ----

/// The bytes of `b` before its first NUL.
pub open spec fn before_nul(b: Seq<u8>) -> Seq<u8>
    decreases b.len(),
{
    if b.len() == 0 || b[0] == 0 {
        Seq::empty()
    } else {
        seq![b[0]] + before_nul(b.drop_first())
    }
}

/// `s` without its leading whitespace.
pub open spec fn trim_start(s: Seq<char>) -> Seq<char>
    decreases s.len(),
{
    if s.len() > 0 && char_is_whitespace(s[0]) {
        trim_start(s.drop_first())
    } else {
        s
    }
}

/// `s` without its trailing whitespace.
pub open spec fn trim_end(s: Seq<char>) -> Seq<char>
    decreases s.len(),
{
    if s.len() > 0 && char_is_whitespace(s.last()) {
        trim_end(s.drop_last())
    } else {
        s
    }
}

/// `s` with every control character removed.
pub open spec fn drop_controls(s: Seq<char>) -> Seq<char>
    decreases s.len(),
{
    if s.len() == 0 {
        Seq::empty()
    } else if char_is_control(s.last()) {
        drop_controls(s.drop_last())
    } else {
        drop_controls(s.drop_last()).push(s.last())
    }
}

/// The cartridge title: header bytes 0x134..0x143 up to the first NUL,
/// decoded as (lossy) UTF-8, trimmed of surrounding whitespace, with control
/// characters removed.
pub open spec fn title_spec(rom: Seq<u8>) -> Seq<char> {
    drop_controls(trim_end(trim_start(utf8_lossy(before_nul(rom.subrange(0x134, 0x144))))))
}

// ---- the cartridge ----

pub struct Cartridge {
    rom: Vec<u8>,
    ram: Vec<u8>,
    kind: Kind,
    title: String,
    has_battery: bool,
    rom_banks: usize,
    ram_banks: usize,
    ram_enabled: bool,
    /// Lower bank-number register (MBC1: 5 bits, MBC5: low 9 bits).
    bank_lo: u16,
    /// Upper bank bits / RAM-bank select (MBC1: 2 bits, MBC3: RAM bank or RTC register).
    bank_hi: u16,
    /// MBC1 banking mode (0 = ROM banking, 1 = RAM/advanced).
    mode: u8,
    save_dirty: bool,
}

/// The abstract state of a cartridge.
#[verifier::ext_equal]
pub struct CartridgeState {
    pub rom: Seq<u8>,
    pub ram: Seq<u8>,
    pub kind: Kind,
    pub title: Seq<char>,
    pub has_battery: bool,
    pub rom_banks: nat,
    pub ram_banks: nat,
    pub ram_enabled: bool,
    pub bank_lo: u16,
    pub bank_hi: u16,
    pub mode: u8,
    pub save_dirty: bool,
}

/// The contents of an optional buffer.
pub open spec fn opt_bytes(o: Option<Vec<u8>>) -> Option<Seq<u8>> {
    match o {
        Some(v) => Some(v@),
        None => None,
    }
}

impl CartridgeState {
    /// A freshly inserted cartridge built from `rom` (whose type byte is
    /// supported) and an optional save: the save is restored only when its
    /// length matches the cartridge's RAM exactly and the RAM is not empty.
    pub open spec fn loaded(rom: Seq<u8>, save: Option<Seq<u8>>) -> CartridgeState {
        let (kind, has_battery) = classify_spec(rom[0x147]).unwrap();
        let ram_len = ram_size_spec(rom[0x149], kind);
        let ram = match save {
            Some(s) => if s.len() == ram_len && ram_len > 0 {
                s
            } else {
                Seq::new(ram_len, |i: int| 0u8)
            },
            None => Seq::new(ram_len, |i: int| 0u8),
        };
        CartridgeState {
            rom,
            ram,
            kind,
            title: title_spec(rom),
            has_battery,
            rom_banks: rom_banks_spec(rom),
            ram_banks: ram_banks_spec(ram_len),
            ram_enabled: false,
            bank_lo: 1,
            bank_hi: 0,
            mode: 0,
            save_dirty: false,
        }
    }

    pub open spec fn wf(self) -> bool {
        &&& 2 <= self.rom_banks
        &&& self.rom_banks * 0x4000 <= usize::MAX
        &&& self.ram_banks <= 16
        &&& self.ram.len() <= usize::MAX
        &&& self.kind == Kind::Mbc2 ==> self.ram.len() == MBC2_RAM_LEN
    }

    /// The byte at `offset` of ROM bank `bank`, or 0xFF past the end of the ROM.
    pub open spec fn rom_at(self, bank: int, offset: int) -> u8 {
        let idx = bank * 0x4000 + offset;
        if 0 <= idx < self.rom.len() {
            self.rom[idx]
        } else {
            0xFF
        }
    }

    /// The ROM bank mapped at 4000..7FFF.
    pub open spec fn current_rom_bank(self) -> int {
        let bank: int = match self.kind {
            Kind::Mbc1 => {
                let lo: u16 = if self.bank_lo == 0 { 1 } else { self.bank_lo };
                let hi: u16 = if self.mode == 0 { self.bank_hi } else { 0 };
                ((hi << 5u16) | (lo & 0x1F)) as int
            },
            Kind::Mbc2 => if self.bank_lo & 0x0F == 0 { 1 } else { (self.bank_lo & 0x0F) as int },
            Kind::Mbc3 => if self.bank_lo & 0x7F == 0 { 1 } else { (self.bank_lo & 0x7F) as int },
            Kind::Mbc5 => ((self.bank_hi << 8u16) | self.bank_lo) as int,
            Kind::NoMbc => 1,
        };
        bank % (if self.rom_banks == 0 { 1 } else { self.rom_banks as int })
    }

    /// The ROM bank mapped at 0000..3FFF: bank 0, except in MBC1's advanced mode.
    pub open spec fn bank0_rom_bank(self) -> int {
        if self.kind == Kind::Mbc1 && self.mode == 1 {
            (self.bank_hi << 5u16) as int % self.rom_banks as int
        } else {
            0
        }
    }

    /// The selected external RAM bank, before wrapping to the RAM size.
    pub open spec fn current_ram_bank(self) -> int {
        match self.kind {
            Kind::Mbc1 => if self.mode == 1 { self.bank_hi as int } else { 0 },
            Kind::Mbc3 | Kind::Mbc5 => self.bank_hi as int,
            _ => 0,
        }
    }

    /// The index into RAM that A000..BFFF address `addr` selects (non-MBC2).
    pub open spec fn ram_index(self, addr: u16) -> int {
        let bank = self.current_ram_bank() % (if self.ram_banks == 0 {
            1
        } else {
            self.ram_banks as int
        });
        bank * 0x2000 + (addr - 0xA000)
    }

    /// The index into MBC2's 512-cell RAM that `addr` selects.
    pub open spec fn mbc2_index(addr: u16) -> int {
        ((addr - 0xA000) as u16 & 0x1FF) as int
    }

    pub open spec fn read_ram(self, addr: u16) -> u8 {
        if !self.ram_enabled || self.ram.len() == 0 {
            0xFF
        } else if self.kind == Kind::Mbc2 {
            0xF0 | (self.ram[Self::mbc2_index(addr)] & 0x0F)
        } else {
            let idx = self.ram_index(addr);
            if idx < self.ram.len() {
                self.ram[idx]
            } else {
                0xFF
            }
        }
    }

    /// The byte read at `addr` (ROM 0000..7FFF, RAM A000..BFFF; else 0xFF).
    pub open spec fn read(self, addr: u16) -> u8 {
        if addr <= 0x3FFF {
            self.rom_at(self.bank0_rom_bank(), addr as int)
        } else if addr <= 0x7FFF {
            self.rom_at(self.current_rom_bank(), addr - 0x4000)
        } else if 0xA000 <= addr <= 0xBFFF {
            self.read_ram(addr)
        } else {
            0xFF
        }
    }

    pub open spec fn write_ram(self, addr: u16, val: u8) -> CartridgeState {
        if !self.ram_enabled || self.ram.len() == 0 {
            self
        } else if self.kind == Kind::Mbc2 {
            CartridgeState {
                ram: self.ram.update(Self::mbc2_index(addr), val & 0x0F),
                save_dirty: true,
                ..self
            }
        } else {
            let idx = self.ram_index(addr);
            if idx < self.ram.len() {
                CartridgeState { ram: self.ram.update(idx, val), save_dirty: true, ..self }
            } else {
                self
            }
        }
    }

    /// Whether `val` written to a RAM-enable register enables external RAM.
    pub open spec fn enables_ram(val: u8) -> bool {
        val & 0x0F == 0x0A
    }

    pub open spec fn write_mbc1(self, addr: u16, val: u8) -> CartridgeState {
        if addr <= 0x1FFF {
            CartridgeState { ram_enabled: Self::enables_ram(val), ..self }
        } else if addr <= 0x3FFF {
            CartridgeState { bank_lo: (val & 0x1F) as u16, ..self }
        } else if addr <= 0x5FFF {
            CartridgeState { bank_hi: (val & 0x03) as u16, ..self }
        } else if addr <= 0x7FFF {
            CartridgeState { mode: val & 0x01, ..self }
        } else if 0xA000 <= addr <= 0xBFFF {
            self.write_ram(addr, val)
        } else {
            self
        }
    }

    /// MBC2: bit 8 of the address selects RAM-enable (clear) or ROM bank (set).
    pub open spec fn write_mbc2(self, addr: u16, val: u8) -> CartridgeState {
        if addr <= 0x3FFF {
            if addr & 0x0100 == 0 {
                CartridgeState { ram_enabled: Self::enables_ram(val), ..self }
            } else {
                CartridgeState { bank_lo: (val & 0x0F) as u16, ..self }
            }
        } else if 0xA000 <= addr <= 0xBFFF {
            self.write_ram(addr, val)
        } else {
            self
        }
    }

    /// MBC3: RAM is written only while a RAM bank (0-3), not an RTC register, is selected.
    pub open spec fn write_mbc3(self, addr: u16, val: u8) -> CartridgeState {
        if addr <= 0x1FFF {
            CartridgeState { ram_enabled: Self::enables_ram(val), ..self }
        } else if addr <= 0x3FFF {
            CartridgeState { bank_lo: (val & 0x7F) as u16, ..self }
        } else if addr <= 0x5FFF {
            CartridgeState { bank_hi: val as u16, ..self }
        } else if addr <= 0x7FFF {
            self
        } else if 0xA000 <= addr <= 0xBFFF {
            if self.bank_hi <= 0x03 {
                self.write_ram(addr, val)
            } else {
                self
            }
        } else {
            self
        }
    }

    /// MBC5: a 9-bit ROM bank split over two registers, a 4-bit RAM bank.
    pub open spec fn write_mbc5(self, addr: u16, val: u8) -> CartridgeState {
        if addr <= 0x1FFF {
            CartridgeState { ram_enabled: Self::enables_ram(val), ..self }
        } else if addr <= 0x2FFF {
            CartridgeState { bank_lo: (self.bank_lo & 0x100) | (val as u16), ..self }
        } else if addr <= 0x3FFF {
            CartridgeState { bank_lo: (self.bank_lo & 0x0FF) | (((val as u16) & 1) << 8u16), ..self }
        } else if addr <= 0x5FFF {
            CartridgeState { bank_hi: (val & 0x0F) as u16, ..self }
        } else if 0xA000 <= addr <= 0xBFFF {
            self.write_ram(addr, val)
        } else {
            self
        }
    }

    pub open spec fn write(self, addr: u16, val: u8) -> CartridgeState {
        match self.kind {
            Kind::NoMbc => if 0xA000 <= addr <= 0xBFFF {
                self.write_ram(addr, val)
            } else {
                self
            },
            Kind::Mbc1 => self.write_mbc1(addr, val),
            Kind::Mbc2 => self.write_mbc2(addr, val),
            Kind::Mbc3 => self.write_mbc3(addr, val),
            Kind::Mbc5 => self.write_mbc5(addr, val),
        }
    }

    /// The battery RAM to persist: present only for a battery cartridge with RAM.
    pub open spec fn save_data(self) -> Option<Seq<u8>> {
        if self.has_battery && self.ram.len() > 0 {
            Some(self.ram)
        } else {
            None
        }
    }
}

impl View for Cartridge {
    type V = CartridgeState;

    closed spec fn view(&self) -> CartridgeState {
        CartridgeState {
            rom: self.rom@,
            ram: self.ram@,
            kind: self.kind,
            title: self.title@,
            has_battery: self.has_battery,
            rom_banks: self.rom_banks as nat,
            ram_banks: self.ram_banks as nat,
            ram_enabled: self.ram_enabled,
            bank_lo: self.bank_lo,
            bank_hi: self.bank_hi,
            mode: self.mode,
            save_dirty: self.save_dirty,
        }
    }
}


/// The mapper and battery flag for a cartridge type byte (0x147).
pub fn classify(type_byte: u8) -> (r: Result<(Kind, bool), CartridgeError>)
    ensures
        match classify_spec(type_byte) {
            Some(p) => r == Ok::<(Kind, bool), CartridgeError>(p),
            None => r == Err::<(Kind, bool), CartridgeError>(CartridgeError::UnsupportedMapper(type_byte)),
        },
{
    Ok(
        match type_byte {
            0x00 => (Kind::NoMbc, false),
            0x01 => (Kind::Mbc1, false),
            0x02 => (Kind::Mbc1, false),
            0x03 => (Kind::Mbc1, true),
            0x05 => (Kind::Mbc2, false),
            0x06 => (Kind::Mbc2, true),
            0x08 => (Kind::NoMbc, false),
            0x09 => (Kind::NoMbc, true),
            0x0F | 0x10 | 0x13 => (Kind::Mbc3, true),
            0x11 | 0x12 => (Kind::Mbc3, false),
            0x19 | 0x1A | 0x1C | 0x1D => (Kind::Mbc5, false),
            0x1B | 0x1E => (Kind::Mbc5, true),
            other => return Err(CartridgeError::UnsupportedMapper(other)),
        },
    )
}

/// External RAM size in bytes for the header's RAM-size byte (0x149).
pub fn ram_size_bytes(code: u8, kind: Kind) -> (n: usize)
    ensures
        n == ram_size_spec(code, kind),
{
    if kind == Kind::Mbc2 {
        return 512;  // built-in 512 x 4-bit
    }
    match code {
        0x00 => 0,
        0x01 => 2 * 1024,
        0x02 => 8 * 1024,
        0x03 => 32 * 1024,
        0x04 => 128 * 1024,
        0x05 => 64 * 1024,
        _ => 0,
    }
}

/// Taking the bytes before the first NUL never lengthens a byte string.
proof fn lemma_before_nul_len(b: Seq<u8>)
    ensures
        before_nul(b).len() <= b.len(),
    decreases b.len(),
{
    if b.len() > 0 && b[0] != 0 {
        lemma_before_nul_len(b.drop_first());
    }
}

/// Trimming and dropping control characters never lengthen a string.
proof fn lemma_title_steps_len(s: Seq<char>)
    ensures
        trim_start(s).len() <= s.len(),
        trim_end(trim_start(s)).len() <= trim_start(s).len(),
        drop_controls(trim_end(trim_start(s))).len() <= trim_end(trim_start(s)).len(),
{
    lemma_trim_start_len(s);
    lemma_trim_end_len(trim_start(s));
    lemma_drop_controls_len(trim_end(trim_start(s)));
}

proof fn lemma_trim_start_len(s: Seq<char>)
    ensures
        trim_start(s).len() <= s.len(),
    decreases s.len(),
{
    if s.len() > 0 && char_is_whitespace(s[0]) {
        lemma_trim_start_len(s.drop_first());
    }
}

proof fn lemma_trim_end_len(s: Seq<char>)
    ensures
        trim_end(s).len() <= s.len(),
    decreases s.len(),
{
    if s.len() > 0 && char_is_whitespace(s.last()) {
        lemma_trim_end_len(s.drop_last());
    }
}

proof fn lemma_drop_controls_len(s: Seq<char>)
    ensures
        drop_controls(s).len() <= s.len(),
    decreases s.len(),
{
    if s.len() > 0 {
        lemma_drop_controls_len(s.drop_last());
    }
}

/// The cartridge title from header bytes 0x134..0x143.
pub fn parse_title(rom: &[u8]) -> (title: String)
    requires
        rom@.len() >= 0x144,
    ensures
        title@ == title_spec(rom@),
        title@.len() <= 16,
{
    let bytes = vstd::slice::slice_subrange(rom, 0x134, 0x144);
    let blen = bytes.len();
    // Up to the first NUL.
    let mut end: usize = 0;
    assert(bytes@.subrange(0, 0) + bytes@.subrange(0, blen as int) =~= bytes@);
    while end < blen && bytes[end] != 0
        invariant
            blen == bytes@.len(),
            end <= blen,
            before_nul(bytes@) == bytes@.subrange(0, end as int) + before_nul(
                bytes@.subrange(end as int, blen as int),
            ),
        decreases blen - end,
    {
        let ghost rest = bytes@.subrange(end as int, blen as int);
        assert(rest.drop_first() =~= bytes@.subrange(end + 1, blen as int));
        assert(bytes@.subrange(0, end as int) + seq![bytes@[end as int]] =~= bytes@.subrange(
            0,
            end + 1,
        ));
        assert(bytes@.subrange(0, end as int) + (seq![rest[0]] + before_nul(rest.drop_first()))
            =~= bytes@.subrange(0, end + 1) + before_nul(rest.drop_first()));
        end = end + 1;
    }
    assert(before_nul(bytes@.subrange(end as int, blen as int)) =~= Seq::<u8>::empty());
    assert(before_nul(bytes@) =~= bytes@.subrange(0, end as int));
    let head = vstd::slice::slice_subrange(bytes, 0, end);
    let chars = decode_utf8_lossy(head);
    proof {
        lemma_before_nul_len(bytes@);
    }
    title_from_chars(chars.as_slice())
}

/// The title from its decoded characters: surrounding whitespace trimmed,
/// control characters removed.
pub fn title_from_chars(chars: &[char]) -> (title: String)
    ensures
        title@ == drop_controls(trim_end(trim_start(chars@))),
        title@.len() <= chars@.len(),
{
    let n = chars.len();
    // Trim leading whitespace.
    let mut start: usize = 0;
    assert(chars@.subrange(0, n as int) =~= chars@);
    while start < n && is_whitespace(chars[start])
        invariant
            n == chars@.len(),
            start <= n,
            trim_start(chars@) == trim_start(chars@.subrange(start as int, n as int)),
        decreases n - start,
    {
        assert(chars@.subrange(start as int, n as int).drop_first() =~= chars@.subrange(
            start + 1,
            n as int,
        ));
        start = start + 1;
    }
    // Trim trailing whitespace.
    let mut stop: usize = n;
    while stop > start && is_whitespace(chars[stop - 1])
        invariant
            n == chars@.len(),
            start <= stop <= n,
            trim_end(chars@.subrange(start as int, n as int)) == trim_end(
                chars@.subrange(start as int, stop as int),
            ),
        decreases stop - start,
    {
        assert(chars@.subrange(start as int, stop as int).drop_last() =~= chars@.subrange(
            start as int,
            stop - 1,
        ));
        stop = stop - 1;
    }
    assert(trim_end(trim_start(chars@)) == chars@.subrange(start as int, stop as int));
    // Drop control characters.
    let mut title = String::new();
    let mut i: usize = start;
    assert(chars@.subrange(start as int, start as int) =~= Seq::<char>::empty());
    while i < stop
        invariant
            n == chars@.len(),
            start <= i <= stop <= n,
            title@ == drop_controls(chars@.subrange(start as int, i as int)),
        decreases stop - i,
    {
        let c = chars[i];
        if !is_control(c) {
            push_char(&mut title, c);
        }
        assert(chars@.subrange(start as int, i + 1).drop_last() =~= chars@.subrange(
            start as int,
            i as int,
        ));
        i = i + 1;
    }
    proof {
        lemma_title_steps_len(chars@);
    }
    title
}

impl Cartridge {
    pub fn new(rom: Vec<u8>, save: Option<Vec<u8>>) -> (r: Result<Self, CartridgeError>)
        requires
            rom@.len() <= isize::MAX,
        ensures
            rom@.len() < HEADER_END ==> r == Err::<Cartridge, CartridgeError>(
                CartridgeError::TooSmall,
            ),
            rom@.len() >= HEADER_END && classify_spec(rom@[0x147]) is None ==> r == Err::<
                Cartridge,
                CartridgeError,
            >(CartridgeError::UnsupportedMapper(rom@[0x147])),
            rom@.len() >= HEADER_END && classify_spec(rom@[0x147]) is Some ==> (r matches Ok(c) && c@
                == CartridgeState::loaded(rom@, opt_bytes(save)) && c@.wf()),
    {
        if rom.len() < 0x150 {
            return Err(CartridgeError::TooSmall);
        }
        let title = parse_title(rom.as_slice());
        let type_byte = rom[0x147];
        let (kind, has_battery) = match classify(type_byte) {
            Ok(p) => p,
            Err(e) => return Err(e),
        };

        // ROM size: header 0x148 encodes 32 KiB << n; trust the actual length too.
        let code = rom[0x148];
        let shift: u8 = if code < 8 { code } else { 8 };
        assert(shift <= 8 ==> (2usize << shift) <= 512) by (bit_vector);
        let header_rom_banks: usize = 2usize << shift;
        let spanned: usize = rom.len() / 0x4000 + if rom.len() % 0x4000 != 0 { 1 } else { 0 };
        assert(spanned == banks_spanned(rom@.len()));
        let banks = if header_rom_banks < spanned { spanned } else { header_rom_banks };
        let rom_banks = if banks < 2 { 2 } else { banks };

        let ram_len = ram_size_bytes(rom[0x149], kind);
        let ram_banks = if ram_len == 0 {
            0
        } else if ram_len / 0x2000 < 1 {
            1
        } else {
            ram_len / 0x2000
        };
        let mut ram = vec![0u8; ram_len];
        assert(ram@ =~= Seq::new(ram_len as nat, |i: int| 0u8));
        if let Some(saved) = save {
            if saved.len() == ram.len() && ram.len() != 0 {
                ram = saved;
            }
        }
        let c = Cartridge {
            rom,
            ram,
            kind,
            title,
            has_battery,
            rom_banks,
            ram_banks,
            ram_enabled: false,
            bank_lo: 1,
            bank_hi: 0,
            mode: 0,
            save_dirty: false,
        };
        assert(c@ =~= CartridgeState::loaded(c@.rom, opt_bytes(save)));
        Ok(c)
    }

    pub fn title(&self) -> (t: &str)
        ensures
            t@ == self@.title,
    {
        self.title.as_str()
    }

    pub fn save_data(&self) -> (d: Option<Vec<u8>>)
        ensures
            opt_bytes(d) == self@.save_data(),
    {
        if self.has_battery && self.ram.len() != 0 {
            let copy = self.ram.clone();
            assert(copy@ =~= self.ram@);
            Some(copy)
        } else {
            None
        }
    }

    pub fn save_is_dirty(&self) -> (d: bool)
        ensures
            d == self@.save_dirty,
    {
        self.save_dirty
    }

    pub fn mark_saved(&mut self)
        ensures
            final(self)@ == (CartridgeState { save_dirty: false, ..old(self)@ }),
    {
        self.save_dirty = false;
    }

    pub fn read(&self, addr: u16) -> (r: u8)
        requires
            self@.wf(),
        ensures
            r == self@.read(addr),
    {
        match addr {
            0x0000..=0x3FFF => {
                // MBC1 advanced mode can remap this region; the common case is bank 0.
                let bank = if self.kind == Kind::Mbc1 && self.mode == 1 {
                    (self.bank_hi << 5) as usize % self.rom_banks
                } else {
                    0
                };
                self.rom_at(bank, addr as usize)
            },
            0x4000..=0x7FFF => {
                let bank = self.current_rom_bank();
                self.rom_at(bank, addr as usize - 0x4000)
            },
            0xA000..=0xBFFF => self.read_ram(addr),
            _ => 0xFF,
        }
    }

    pub fn write(&mut self, addr: u16, val: u8)
        requires
            old(self)@.wf(),
        ensures
            final(self)@ == old(self)@.write(addr, val),
            final(self)@.wf(),
    {
        match self.kind {
            Kind::NoMbc => {
                if 0xA000 <= addr && addr <= 0xBFFF {
                    self.write_ram(addr, val);
                }
            },
            Kind::Mbc1 => self.write_mbc1(addr, val),
            Kind::Mbc2 => self.write_mbc2(addr, val),
            Kind::Mbc3 => self.write_mbc3(addr, val),
            Kind::Mbc5 => self.write_mbc5(addr, val),
        }
    }

    // ---- ROM/RAM access ----

    pub fn rom_at(&self, bank: usize, offset: usize) -> (r: u8)
        requires
            bank * 0x4000 + offset <= usize::MAX,
        ensures
            r == self@.rom_at(bank as int, offset as int),
    {
        let idx = bank * 0x4000 + offset;
        if idx < self.rom.len() {
            self.rom[idx]
        } else {
            0xFF
        }
    }

    pub fn current_rom_bank(&self) -> (bank: usize)
        requires
            self@.wf(),
        ensures
            bank == self@.current_rom_bank(),
            bank < self@.rom_banks,
    {
        let bank: usize = match self.kind {
            Kind::Mbc1 => {
                let lo = if self.bank_lo == 0 { 1 } else { self.bank_lo };
                let hi = if self.mode == 0 { self.bank_hi } else { 0 };
                ((hi << 5) | (lo & 0x1F)) as usize
            },
            Kind::Mbc2 => {
                let b = (self.bank_lo & 0x0F) as usize;
                if b < 1 { 1 } else { b }
            },
            Kind::Mbc3 => {
                let b = (self.bank_lo & 0x7F) as usize;
                if b < 1 { 1 } else { b }
            },
            Kind::Mbc5 => ((self.bank_hi << 8) | self.bank_lo) as usize,
            Kind::NoMbc => 1,
        };
        bank % (if self.rom_banks < 1 { 1 } else { self.rom_banks })
    }

    pub fn current_ram_bank(&self) -> (bank: usize)
        ensures
            bank == self@.current_ram_bank(),
    {
        match self.kind {
            Kind::Mbc1 => if self.mode == 1 { self.bank_hi as usize } else { 0 },
            Kind::Mbc3 | Kind::Mbc5 => self.bank_hi as usize,
            _ => 0,
        }
    }

    pub fn read_ram(&self, addr: u16) -> (r: u8)
        requires
            self@.wf(),
            0xA000 <= addr <= 0xBFFF,
        ensures
            r == self@.read_ram(addr),
    {
        if !self.ram_enabled || self.ram.len() == 0 {
            return 0xFF;
        }
        if self.kind == Kind::Mbc2 {
            // 512 x 4-bit; upper nibble reads as 1.
            let off = addr - 0xA000;
            let i = off & 0x1FF;
            proof {
                lemma_mask_bounds();
            }
            return 0xF0 | (self.ram[i as usize] & 0x0F);
        }
        let idx = self.ram_index(addr);
        if idx < self.ram.len() {
            self.ram[idx]
        } else {
            0xFF
        }
    }

    /// The index into RAM that A000..BFFF address `addr` selects (non-MBC2).
    fn ram_index(&self, addr: u16) -> (idx: usize)
        requires
            self@.wf(),
            0xA000 <= addr <= 0xBFFF,
        ensures
            idx == self@.ram_index(addr),
    {
        let bank = self.current_ram_bank() % (if self.ram_banks < 1 { 1 } else { self.ram_banks });
        assert(bank < 16);
        bank * 0x2000 + (addr - 0xA000) as usize
    }

    pub fn write_ram(&mut self, addr: u16, val: u8)
        requires
            old(self)@.wf(),
            0xA000 <= addr <= 0xBFFF,
        ensures
            final(self)@ == old(self)@.write_ram(addr, val),
            final(self)@.wf(),
    {
        if !self.ram_enabled || self.ram.len() == 0 {
            return;
        }
        if self.kind == Kind::Mbc2 {
            let off = addr - 0xA000;
            let i = off & 0x1FF;
            proof {
                lemma_mask_bounds();
            }
            self.ram.set(i as usize, val & 0x0F);
            self.save_dirty = true;
            return;
        }
        let idx = self.ram_index(addr);
        if idx < self.ram.len() {
            self.ram.set(idx, val);
            self.save_dirty = true;
        }
    }

    // ---- per-mapper register writes ----

    pub fn write_mbc1(&mut self, addr: u16, val: u8)
        requires
            old(self)@.wf(),
        ensures
            final(self)@ == old(self)@.write_mbc1(addr, val),
            final(self)@.wf(),
    {
        match addr {
            0x0000..=0x1FFF => self.ram_enabled = val & 0x0F == 0x0A,
            0x2000..=0x3FFF => self.bank_lo = (val & 0x1F) as u16,
            0x4000..=0x5FFF => self.bank_hi = (val & 0x03) as u16,
            0x6000..=0x7FFF => self.mode = val & 0x01,
            0xA000..=0xBFFF => self.write_ram(addr, val),
            _ => {},
        }
    }

    pub fn write_mbc2(&mut self, addr: u16, val: u8)
        requires
            old(self)@.wf(),
        ensures
            final(self)@ == old(self)@.write_mbc2(addr, val),
            final(self)@.wf(),
    {
        match addr {
            0x0000..=0x3FFF => {
                // Bit 8 of the address selects RAM-enable vs ROM-bank.
                if addr & 0x0100 == 0 {
                    self.ram_enabled = val & 0x0F == 0x0A;
                } else {
                    self.bank_lo = (val & 0x0F) as u16;
                }
            },
            0xA000..=0xBFFF => self.write_ram(addr, val),
            _ => {},
        }
    }

    pub fn write_mbc3(&mut self, addr: u16, val: u8)
        requires
            old(self)@.wf(),
        ensures
            final(self)@ == old(self)@.write_mbc3(addr, val),
            final(self)@.wf(),
    {
        match addr {
            0x0000..=0x1FFF => self.ram_enabled = val & 0x0F == 0x0A,
            0x2000..=0x3FFF => self.bank_lo = (val & 0x7F) as u16,
            0x4000..=0x5FFF => self.bank_hi = val as u16,  // 0-3 RAM bank, 8-C RTC register
            0x6000..=0x7FFF => {},  // RTC latch: the RTC is not ticked
            0xA000..=0xBFFF => {
                if self.bank_hi <= 0x03 {
                    self.write_ram(addr, val);
                }
            },
            _ => {},
        }
    }

    pub fn write_mbc5(&mut self, addr: u16, val: u8)
        requires
            old(self)@.wf(),
        ensures
            final(self)@ == old(self)@.write_mbc5(addr, val),
            final(self)@.wf(),
    {
        match addr {
            0x0000..=0x1FFF => self.ram_enabled = val & 0x0F == 0x0A,
            0x2000..=0x2FFF => self.bank_lo = (self.bank_lo & 0x100) | val as u16,
            0x3000..=0x3FFF => self.bank_lo = (self.bank_lo & 0x0FF) | ((val as u16 & 1) << 8),
            0x4000..=0x5FFF => self.bank_hi = (val & 0x0F) as u16,
            0xA000..=0xBFFF => self.write_ram(addr, val),
            _ => {},
        }
    }
}


// ---- laws of the cartridge ----

/// Whether a write to A000..BFFF reaches external RAM on this mapper (on MBC3
/// only while a RAM bank rather than an RTC register is selected).
pub open spec fn ram_write_reaches_ram(c: CartridgeState) -> bool {
    c.kind != Kind::Mbc3 || c.bank_hi <= 0x03
}

/// With RAM enabled, a byte written to external RAM reads back unchanged (on
/// MBC2, whose cells are 4 bits wide, the upper nibble reads as 1s), and the
/// save is marked dirty.
pub proof fn lemma_ram_write_then_read(c: CartridgeState, addr: u16, val: u8)
    requires
        c.wf(),
        0xA000 <= addr <= 0xBFFF,
        c.ram_enabled,
        c.ram.len() > 0,
        ram_write_reaches_ram(c),
        c.kind != Kind::Mbc2 ==> c.ram_index(addr) < c.ram.len(),
    ensures
        c.kind != Kind::Mbc2 ==> c.write(addr, val).read(addr) == val,
        c.kind == Kind::Mbc2 ==> c.write(addr, val).read(addr) == 0xF0 | (val & 0x0F),
        c.write(addr, val).save_dirty,
{
    lemma_mask_bounds();
}

/// With RAM disabled, external RAM reads as 0xFF and ignores writes.
pub proof fn lemma_disabled_ram(c: CartridgeState, addr: u16, val: u8)
    requires
        c.wf(),
        0xA000 <= addr <= 0xBFFF,
        !c.ram_enabled,
    ensures
        c.read(addr) == 0xFF,
        c.write(addr, val) == c,
{
}

/// No write changes the ROM, the title, the mapper, the battery flag or the
/// bank counts; every write keeps the cartridge well formed and never clears
/// the dirty flag.
pub proof fn lemma_write_keeps_rom(c: CartridgeState, addr: u16, val: u8)
    requires
        c.wf(),
    ensures
        c.write(addr, val).rom == c.rom,
        c.write(addr, val).title == c.title,
        c.write(addr, val).kind == c.kind,
        c.write(addr, val).has_battery == c.has_battery,
        c.write(addr, val).rom_banks == c.rom_banks,
        c.write(addr, val).ram_banks == c.ram_banks,
        c.write(addr, val).ram.len() == c.ram.len(),
        c.write(addr, val).wf(),
        c.save_dirty ==> c.write(addr, val).save_dirty,
{
    lemma_mask_bounds();
}

/// Battery saves round-trip: a cartridge loaded with a save of the right
/// length holds exactly that save in RAM, and (with a battery) hands it back
/// as its save data. A save of the wrong length is ignored.
pub proof fn lemma_save_round_trip(rom: Seq<u8>, save: Seq<u8>)
    requires
        rom.len() >= HEADER_END,
        classify_spec(rom[0x147]) is Some,
    ensures
        save.len() == ram_size_spec(rom[0x149], classify_spec(rom[0x147]).unwrap().0) && save.len()
            > 0 ==> CartridgeState::loaded(rom, Some(save)).ram == save,
        save.len() == ram_size_spec(rom[0x149], classify_spec(rom[0x147]).unwrap().0) && save.len()
            > 0 && classify_spec(rom[0x147]).unwrap().1 ==> CartridgeState::loaded(
            rom,
            Some(save),
        ).save_data() == Some(save),
        save.len() != ram_size_spec(rom[0x149], classify_spec(rom[0x147]).unwrap().0)
            ==> CartridgeState::loaded(rom, Some(save)) == CartridgeState::loaded(rom, None),
{
}

/// On MBC1 in ROM-banking mode with the upper bits clear, selecting bank `n`
/// maps that bank at 4000..7FFF, except that bank 0 selects bank 1.
pub proof fn lemma_mbc1_bank_select(c: CartridgeState, n: u8, offset: u16)
    requires
        c.wf(),
        c.kind == Kind::Mbc1,
        c.mode == 0,
        c.bank_hi == 0,
        n <= 0x1F,
        (n as nat) < c.rom_banks,
        offset < 0x4000,
    ensures
        c.write(0x2000, n).read((0x4000 + offset) as u16) == c.rom_at(
            if n == 0 { 1 } else { n as int },
            offset as int,
        ),
{
    let lo = (n & 0x1F) as u16;
    let lo1: u16 = if lo == 0 { 1 } else { lo };
    assert((n <= 0x1F ==> (n & 0x1F) == n) && (lo1 <= 0x1F ==> ((0u16 << 5u16) | (lo1 & 0x1F)) == lo1))
        by (bit_vector);
    let c2 = c.write(0x2000, n);
    assert(c2.bank_lo == lo);
    assert(lo == n as u16);
    assert(c2.current_rom_bank() == lo1 as int % c.rom_banks as int);
    assert(0 <= lo1 < c.rom_banks);
    vstd::arithmetic::div_mod::lemma_small_mod(lo1 as nat, c.rom_banks);
    let addr = (0x4000 + offset) as u16;
    assert(addr - 0x4000 == offset as int);
}

/// Whether writing to `addr` stores a byte into external RAM: the address
/// lies in A000..BFFF, the mapper routes it to RAM, RAM is enabled and
/// present, and the selected cell exists. Storing an equal byte counts.
pub open spec fn stores_to_ram(c: CartridgeState, addr: u16) -> bool {
    &&& 0xA000 <= addr <= 0xBFFF
    &&& ram_write_reaches_ram(c)
    &&& c.ram_enabled
    &&& c.ram.len() > 0
    &&& (c.kind == Kind::Mbc2 || c.ram_index(addr) < c.ram.len())
}

/// The cartridge after the writes `ws` (address, value), in order.
pub open spec fn after_writes(c: CartridgeState, ws: Seq<(u16, u8)>) -> CartridgeState
    decreases ws.len(),
{
    if ws.len() == 0 {
        c
    } else {
        after_writes(c.write(ws[0].0, ws[0].1), ws.drop_first())
    }
}

/// Whether one of the writes `ws`, made in order, stores into external RAM.
pub open spec fn some_write_stores(c: CartridgeState, ws: Seq<(u16, u8)>) -> bool
    decreases ws.len(),
{
    ws.len() > 0 && (stores_to_ram(c, ws[0].0) || some_write_stores(
        c.write(ws[0].0, ws[0].1),
        ws.drop_first(),
    ))
}

/// One write sets the dirty flag exactly when it stores into external RAM;
/// writes to the mapper registers (0000..7FFF) never do.
pub proof fn lemma_write_dirty(c: CartridgeState, addr: u16, val: u8)
    requires
        c.wf(),
    ensures
        c.write(addr, val).save_dirty == (c.save_dirty || stores_to_ram(c, addr)),
{
}

/// The dirty flag over any sequence of writes: after the writes `ws` the save
/// is dirty exactly when it was dirty before or one of the writes stored a
/// byte into external RAM. From a fresh or just-saved cartridge (not dirty),
/// dirty therefore means that RAM was written since.
pub proof fn lemma_dirty_after_writes(c: CartridgeState, ws: Seq<(u16, u8)>)
    requires
        c.wf(),
    ensures
        after_writes(c, ws).save_dirty == (c.save_dirty || some_write_stores(c, ws)),
        after_writes(c, ws).wf(),
    decreases ws.len(),
{
    if ws.len() > 0 {
        lemma_write_dirty(c, ws[0].0, ws[0].1);
        lemma_write_keeps_rom(c, ws[0].0, ws[0].1);
        lemma_dirty_after_writes(c.write(ws[0].0, ws[0].1), ws.drop_first());
    }
}

/// RAM banking on MBC3 and MBC5: with RAM enabled, writing a bank number `n`
/// (below the number of RAM banks; on MBC3 one of the four RAM banks) to
/// 4000..5FFF makes A000+k reach RAM cell n * 0x2000 + k, for reads and for
/// writes, and leaves every other cell alone.
pub proof fn lemma_ram_bank_select(c: CartridgeState, n: u8, addr: u16, val: u8)
    requires
        c.wf(),
        c.kind == Kind::Mbc5 || c.kind == Kind::Mbc3,
        c.ram_enabled,
        0xA000 <= addr <= 0xBFFF,
        n < c.ram_banks,
        (n + 1) * 0x2000 <= c.ram.len(),
        c.kind == Kind::Mbc3 ==> n <= 3,
    ensures
        ({
            let s = c.write(0x4000, n);
            let cell = n * 0x2000 + (addr - 0xA000);
            &&& s.ram == c.ram
            &&& s.read(addr) == c.ram[cell]
            &&& s.write(addr, val).ram == c.ram.update(cell, val)
            &&& s.write(addr, val).read(addr) == val
        }),
{
    assert(n < 16 ==> n & 0x0F == n) by (bit_vector);
    vstd::arithmetic::div_mod::lemma_small_mod(n as nat, c.ram_banks as nat);
    let s = c.write(0x4000, n);
    assert(s.current_ram_bank() == n);
    assert(s.ram_index(addr) == n * 0x2000 + (addr - 0xA000));
}

/// The cartridge types by family, over every type byte: the MBC3 family is
/// 0x0F..0x13, battery-backed except for 0x11 and 0x12 (MBC3, MBC3+RAM);
/// MBC5 is 0x19..0x1E, battery-backed at 0x1B and 0x1E; MBC1 is 0x01..0x03,
/// with a battery at 0x03; MBC2 is 0x05 and 0x06, with a battery at 0x06;
/// no mapper is 0x00, 0x08 and 0x09, with a battery at 0x09. Nothing else
/// is supported.
pub proof fn lemma_cartridge_families(t: u8)
    ensures
        classify_spec(t) matches Some((Kind::Mbc3, b)) <==> 0x0F <= t <= 0x13,
        classify_spec(t) matches Some((Kind::Mbc5, b)) <==> 0x19 <= t <= 0x1E,
        classify_spec(t) matches Some((Kind::Mbc1, b)) <==> 0x01 <= t <= 0x03,
        classify_spec(t) matches Some((Kind::Mbc2, b)) <==> t == 0x05 || t == 0x06,
        classify_spec(t) matches Some((Kind::NoMbc, b)) <==> t == 0x00 || t == 0x08 || t == 0x09,
        classify_spec(t) matches Some((k, b)) ==> (b <==> (t == 0x03 || t == 0x06 || t == 0x09
            || (0x0F <= t <= 0x13 && t != 0x11 && t != 0x12) || t == 0x1B || t == 0x1E)),
{
}

/// A battery-backed cartridge with external RAM hands its whole RAM out as
/// save data from power-on, and one without a battery has none.
pub proof fn lemma_battery_saves(rom: Seq<u8>)
    requires
        rom.len() >= 0x150,
        classify_spec(rom[0x147]) is Some,
    ensures
        ({
            let (kind, battery) = classify_spec(rom[0x147])->0;
            let c = CartridgeState::loaded(rom, None);
            &&& battery && ram_size_spec(rom[0x149], kind) > 0 ==> (c.save_data() matches Some(d)
                && d.len() == ram_size_spec(rom[0x149], kind))
            &&& !battery ==> c.save_data() is None
        }),
{
}

/// RAM banking on MBC1: with RAM enabled, in RAM banking mode (1 written to
/// 6000..7FFF) a bank number `n` below four and below the number of RAM
/// banks written to 4000..5FFF makes A000+k reach RAM cell n * 0x2000 + k;
/// in ROM banking mode (0 written there) A000+k always reaches cell k.
pub proof fn lemma_mbc1_ram_bank_select(c: CartridgeState, n: u8, addr: u16, val: u8)
    requires
        c.wf(),
        c.kind == Kind::Mbc1,
        c.ram_enabled,
        0xA000 <= addr <= 0xBFFF,
        n < c.ram_banks,
        n <= 3,
        (n + 1) * 0x2000 <= c.ram.len(),
    ensures
        ({
            let s = c.write(0x6000, 1).write(0x4000, n);
            let cell = n * 0x2000 + (addr - 0xA000);
            &&& s.ram == c.ram
            &&& s.read(addr) == c.ram[cell]
            &&& s.write(addr, val).ram == c.ram.update(cell, val)
        }),
        ({
            let s = c.write(0x6000, 0).write(0x4000, n);
            &&& s.read(addr) == c.ram[addr - 0xA000]
            &&& s.write(addr, val).ram == c.ram.update(addr - 0xA000, val)
        }),
{
    assert(n <= 3 ==> n & 0x03 == n) by (bit_vector);
    assert(1u8 & 0x01 == 1 && 0u8 & 0x01 == 0) by (bit_vector);
    vstd::arithmetic::div_mod::lemma_small_mod(n as nat, c.ram_banks as nat);
    vstd::arithmetic::div_mod::lemma_small_mod(0, c.ram_banks as nat);
    let s = c.write(0x6000, 1).write(0x4000, n);
    assert(s.current_ram_bank() == n);
    assert(s.ram_index(addr) == n * 0x2000 + (addr - 0xA000));
    let s0 = c.write(0x6000, 0).write(0x4000, n);
    assert(s0.current_ram_bank() == 0);
    assert(s0.ram_index(addr) == addr - 0xA000);
}

} // verus!
