//! Picture Processing Unit (LCD controller): video RAM, sprite attribute
//! memory, the LCD registers FF40..FF4B, the mode state machine that times
//! each scanline and frame, and the framebuffer that `render` draws into.
use vstd::prelude::*;

use crate::bits::lemma_mask_bounds;
use crate::render::{
    lemma_rendered_shades, pixel_shade, render_line, rendered, window_on, window_on_line, LineRegs,
};

verus! {

pub const SCREEN_WIDTH: usize = 160;
pub const SCREEN_HEIGHT: usize = 144;
/// Pixels in one frame.
pub const FB_LEN: usize = SCREEN_WIDTH * SCREEN_HEIGHT;
/// Bytes of video RAM (8000..9FFF).
pub const VRAM_LEN: usize = 0x2000;
/// T-cycles per scanline.
pub const LINE_CYCLES: u32 = 456;
/// T-cycles per frame: 154 scanlines.
pub const FRAME_CYCLES: u32 = 70224;
/// Bytes of sprite attribute memory (FE00..FE9F).
pub const OAM_LEN: usize = 0xA0;

pub struct Ppu {
    vram: Vec<u8>,
    oam: Vec<u8>,
    /// 2-bit shade index per pixel (0 = lightest .. 3 = darkest).
    framebuffer: Vec<u8>,
    frame_ready: bool,
    // LCD registers (FF40..FF4B).
    lcdc: u8,
    stat: u8,
    scy: u8,
    scx: u8,
    ly: u8,
    lyc: u8,
    bgp: u8,
    obp0: u8,
    obp1: u8,
    wy: u8,
    wx: u8,
    dma: u8,
    // Mode timing accumulator (T-cycles within the current scanline).
    mode_clock: u32,
    /// The STAT interrupt line; a STAT interrupt fires on its rising edge.
    stat_line: bool,
    /// The window's own line counter: the next window line to draw.
    window_line: u8,
}

/// The abstract state of the PPU.
#[verifier::ext_equal]
pub struct PpuState {
    pub vram: Seq<u8>,
    pub oam: Seq<u8>,
    pub framebuffer: Seq<u8>,
    pub frame_ready: bool,
    pub lcdc: u8,
    pub stat: u8,
    pub scy: u8,
    pub scx: u8,
    pub ly: u8,
    pub lyc: u8,
    pub bgp: u8,
    pub obp0: u8,
    pub obp1: u8,
    pub wy: u8,
    pub wx: u8,
    pub dma: u8,
    pub mode_clock: u32,
    pub stat_line: bool,
    pub window_line: u8,
}

/// Whether `addr` lies in sprite attribute memory.
pub open spec fn is_oam_addr(addr: u16) -> bool {
    0xFE00 <= addr < 0xFEA0
}

impl PpuState {
    /// Post-boot state (the boot ROM is skipped): memories zeroed, blank frame.
    pub open spec fn initial() -> PpuState {
        PpuState {
            vram: Seq::new(VRAM_LEN as nat, |i: int| 0u8),
            oam: Seq::new(OAM_LEN as nat, |i: int| 0u8),
            framebuffer: Seq::new(FB_LEN as nat, |i: int| 0u8),
            frame_ready: false,
            lcdc: 0x91,
            stat: 0x85,
            scy: 0,
            scx: 0,
            ly: 0,
            lyc: 0,
            bgp: 0xFC,
            obp0: 0xFF,
            obp1: 0xFF,
            wy: 0,
            wx: 0,
            dma: 0xFF,
            mode_clock: 0,
            stat_line: false,
            window_line: 0,
        }
    }

    /// The memories have their sizes, every pixel is a 2-bit shade, the line
    /// clock stays within one 456-cycle scanline and LY within 0..153.
    pub open spec fn wf(self) -> bool {
        &&& self.vram.len() == VRAM_LEN
        &&& self.oam.len() == OAM_LEN
        &&& self.framebuffer.len() == FB_LEN
        &&& forall|i: int| 0 <= i < FB_LEN ==> self.framebuffer[i] <= 3
        &&& self.mode_clock < LINE_CYCLES
        &&& self.ly <= 153
    }

    /// Whether the LCD is switched on (LCDC bit 7).
    pub open spec fn lcd_on(self) -> bool {
        self.lcdc & 0x80 != 0
    }

    /// The PPU mode at cycle `clock` of line `ly`: 1 in VBlank (lines
    /// 144..153), else 2 (OAM scan, 80 cycles), 3 (drawing, 172 cycles),
    /// then 0 (HBlank).
    pub open spec fn mode_at(ly: u8, clock: u32) -> u8 {
        if ly >= 144 {
            1
        } else if clock < 80 {
            2
        } else if clock < 252 {
            3
        } else {
            0
        }
    }

    /// STAT with its mode bits and LY=LYC coincidence bit refreshed.
    pub open spec fn stat_with(stat: u8, mode: u8, coincide: bool) -> u8 {
        (stat & 0x78) | (if coincide { 0x04u8 } else { 0u8 }) | mode
    }

    /// The STAT interrupt line: an enabled source (bits 3-6) is active.
    pub open spec fn stat_line_of(stat: u8, mode: u8, coincide: bool) -> bool {
        ||| (coincide && stat & 0x40 != 0)
        ||| (mode == 0 && stat & 0x08 != 0)
        ||| (mode == 1 && stat & 0x10 != 0)
        ||| (mode == 2 && stat & 0x20 != 0)
    }

    /// Whether the next T-cycle ends a scanline.
    pub open spec fn line_ends(self) -> bool {
        self.mode_clock + 1 == LINE_CYCLES
    }

    /// LY after the next T-cycle: it advances at the end of each line and
    /// wraps after line 153.
    pub open spec fn next_ly(self) -> u8 {
        if self.line_ends() {
            if self.ly >= 153 { 0 } else { (self.ly + 1) as u8 }
        } else {
            self.ly
        }
    }

    /// The line clock after the next T-cycle.
    pub open spec fn next_clock(self) -> u32 {
        if self.line_ends() { 0 } else { (self.mode_clock + 1) as u32 }
    }

    /// Whether the next T-cycle enters VBlank (LY reaches 144).
    pub open spec fn enters_vblank(self) -> bool {
        self.line_ends() && self.next_ly() == 144
    }

    /// Whether the next T-cycle ends the drawing of a visible line (enters
    /// HBlank), when the line is rendered into the framebuffer.
    pub open spec fn renders_line(self) -> bool {
        self.ly < 144 && self.mode_clock + 1 == 252
    }

    /// The registers the current line is rendered with.
    pub open spec fn line_regs(self) -> LineRegs {
        LineRegs {
            lcdc: self.lcdc,
            scy: self.scy,
            scx: self.scx,
            ly: self.ly,
            bgp: self.bgp,
            obp0: self.obp0,
            obp1: self.obp1,
            wy: self.wy,
            wx: self.wx,
            window_line: self.window_line,
        }
    }

    /// The PPU one T-cycle later. With the LCD off nothing moves. Each
    /// visible line is rendered once, as drawing ends; the window's line
    /// counter advances on each line that shows the window and restarts at
    /// VBlank.
    pub open spec fn tick(self) -> PpuState {
        if !self.lcd_on() {
            self
        } else {
            let ly = self.next_ly();
            let clock = self.next_clock();
            let mode = Self::mode_at(ly, clock);
            let coincide = ly == self.lyc;
            PpuState {
                mode_clock: clock,
                ly,
                stat: Self::stat_with(self.stat, mode, coincide),
                stat_line: Self::stat_line_of(self.stat, mode, coincide),
                frame_ready: self.frame_ready || self.enters_vblank(),
                framebuffer: if self.renders_line() {
                    rendered(self.framebuffer, self.vram, self.oam, self.line_regs())
                } else {
                    self.framebuffer
                },
                window_line: if self.enters_vblank() {
                    0
                } else if self.renders_line() && window_on_line(self.line_regs()) {
                    ((self.window_line + 1) % 256) as u8
                } else {
                    self.window_line
                },
                ..self
            }
        }
    }

    /// The interrupts one T-cycle raises: VBLANK on entering VBlank, LCD_STAT
    /// on a rising edge of the STAT line.
    pub open spec fn tick_irq(self) -> u8 {
        if !self.lcd_on() {
            0
        } else {
            (if self.enters_vblank() { crate::interrupts::VBLANK } else { 0u8 }) | (if self.tick().stat_line
                && !self.stat_line {
                crate::interrupts::LCD_STAT
            } else {
                0u8
            })
        }
    }

    /// The PPU after `n` T-cycles.
    pub open spec fn clocked(self, n: nat) -> PpuState
        decreases n,
    {
        if n == 0 {
            self
        } else {
            self.clocked((n - 1) as nat).tick()
        }
    }

    /// The interrupts raised during `n` T-cycles.
    pub open spec fn clocked_irq(self, n: nat) -> u8
        decreases n,
    {
        if n == 0 {
            0
        } else {
            self.clocked_irq((n - 1) as nat) | self.clocked((n - 1) as nat).tick_irq()
        }
    }

    pub open spec fn read_vram(self, addr: u16) -> u8 {
        self.vram[(addr & 0x1FFF) as int]
    }

    pub open spec fn write_vram(self, addr: u16, val: u8) -> PpuState {
        PpuState { vram: self.vram.update((addr & 0x1FFF) as int, val), ..self }
    }

    pub open spec fn read_oam(self, addr: u16) -> u8 {
        self.oam[addr - 0xFE00]
    }

    pub open spec fn write_oam(self, addr: u16, val: u8) -> PpuState {
        PpuState { oam: self.oam.update(addr - 0xFE00, val), ..self }
    }

    pub open spec fn read_reg(self, addr: u16) -> u8 {
        if addr == 0xFF40 {
            self.lcdc
        } else if addr == 0xFF41 {
            self.stat | 0x80
        } else if addr == 0xFF42 {
            self.scy
        } else if addr == 0xFF43 {
            self.scx
        } else if addr == 0xFF44 {
            self.ly
        } else if addr == 0xFF45 {
            self.lyc
        } else if addr == 0xFF46 {
            self.dma
        } else if addr == 0xFF47 {
            self.bgp
        } else if addr == 0xFF48 {
            self.obp0
        } else if addr == 0xFF49 {
            self.obp1
        } else if addr == 0xFF4A {
            self.wy
        } else if addr == 0xFF4B {
            self.wx
        } else {
            0xFF
        }
    }

    /// LY is read-only; STAT keeps its read-only low 3 bits and takes bits 3-6.
    pub open spec fn write_reg(self, addr: u16, val: u8) -> PpuState {
        if addr == 0xFF40 {
            PpuState { lcdc: val, ..self }
        } else if addr == 0xFF41 {
            PpuState { stat: (self.stat & 0x07) | (val & 0x78), ..self }
        } else if addr == 0xFF42 {
            PpuState { scy: val, ..self }
        } else if addr == 0xFF43 {
            PpuState { scx: val, ..self }
        } else if addr == 0xFF45 {
            PpuState { lyc: val, ..self }
        } else if addr == 0xFF46 {
            PpuState { dma: val, ..self }
        } else if addr == 0xFF47 {
            PpuState { bgp: val, ..self }
        } else if addr == 0xFF48 {
            PpuState { obp0: val, ..self }
        } else if addr == 0xFF49 {
            PpuState { obp1: val, ..self }
        } else if addr == 0xFF4A {
            PpuState { wy: val, ..self }
        } else if addr == 0xFF4B {
            PpuState { wx: val, ..self }
        } else {
            self
        }
    }
}

impl View for Ppu {
    type V = PpuState;

    closed spec fn view(&self) -> PpuState {
        PpuState {
            vram: self.vram@,
            oam: self.oam@,
            framebuffer: self.framebuffer@,
            frame_ready: self.frame_ready,
            lcdc: self.lcdc,
            stat: self.stat,
            scy: self.scy,
            scx: self.scx,
            ly: self.ly,
            lyc: self.lyc,
            bgp: self.bgp,
            obp0: self.obp0,
            obp1: self.obp1,
            wy: self.wy,
            wx: self.wx,
            dma: self.dma,
            mode_clock: self.mode_clock,
            stat_line: self.stat_line,
            window_line: self.window_line,
        }
    }
}

impl Ppu {
    pub fn new() -> (p: Self)
        ensures
            p@ == PpuState::initial(),
            p@.wf(),
    {
        let vram = vec![0u8; VRAM_LEN];
        let oam = vec![0u8; OAM_LEN];
        let framebuffer = vec![0u8; FB_LEN];
        let p = Ppu {
            vram,
            oam,
            framebuffer,
            frame_ready: false,
            // Post-boot register state (we skip the boot ROM).
            lcdc: 0x91,
            stat: 0x85,
            scy: 0,
            scx: 0,
            ly: 0,
            lyc: 0,
            bgp: 0xFC,
            obp0: 0xFF,
            obp1: 0xFF,
            wy: 0,
            wx: 0,
            dma: 0xFF,
            mode_clock: 0,
            stat_line: false,
            window_line: 0,
        };
        proof {
            assert(p@ =~= PpuState::initial());
        }
        p
    }

    pub fn read_vram(&self, addr: u16) -> (r: u8)
        requires
            self@.wf(),
        ensures
            r == self@.read_vram(addr),
    {
        proof {
            lemma_mask_bounds();
        }
        self.vram[(addr & 0x1FFF) as usize]
    }

    pub fn write_vram(&mut self, addr: u16, val: u8)
        requires
            old(self)@.wf(),
        ensures
            final(self)@ == old(self)@.write_vram(addr, val),
            final(self)@.wf(),
    {
        proof {
            lemma_mask_bounds();
        }
        self.vram.set((addr & 0x1FFF) as usize, val);
    }

    pub fn read_oam(&self, addr: u16) -> (r: u8)
        requires
            self@.wf(),
            is_oam_addr(addr),
        ensures
            r == self@.read_oam(addr),
    {
        self.oam[(addr - 0xFE00) as usize]
    }

    pub fn write_oam(&mut self, addr: u16, val: u8)
        requires
            old(self)@.wf(),
            is_oam_addr(addr),
        ensures
            final(self)@ == old(self)@.write_oam(addr, val),
            final(self)@.wf(),
    {
        self.oam.set((addr - 0xFE00) as usize, val);
    }

    pub fn read_reg(&self, addr: u16) -> (r: u8)
        ensures
            r == self@.read_reg(addr),
    {
        match addr {
            0xFF40 => self.lcdc,
            0xFF41 => self.stat | 0x80,
            0xFF42 => self.scy,
            0xFF43 => self.scx,
            0xFF44 => self.ly,
            0xFF45 => self.lyc,
            0xFF46 => self.dma,
            0xFF47 => self.bgp,
            0xFF48 => self.obp0,
            0xFF49 => self.obp1,
            0xFF4A => self.wy,
            0xFF4B => self.wx,
            _ => 0xFF,
        }
    }

    pub fn write_reg(&mut self, addr: u16, val: u8)
        ensures
            final(self)@ == old(self)@.write_reg(addr, val),
    {
        match addr {
            0xFF40 => self.lcdc = val,
            0xFF41 => self.stat = (self.stat & 0x07) | (val & 0x78),
            0xFF42 => self.scy = val,
            0xFF43 => self.scx = val,
            0xFF44 => {},  // LY is read-only
            0xFF45 => self.lyc = val,
            0xFF46 => self.dma = val,  // the transfer itself is done by the bus
            0xFF47 => self.bgp = val,
            0xFF48 => self.obp0 = val,
            0xFF49 => self.obp1 = val,
            0xFF4A => self.wy = val,
            0xFF4B => self.wx = val,
            _ => {},
        }
    }

    /// Advance the PPU by `cycles` T-cycles through its mode state machine
    /// (OAM scan, drawing, HBlank on lines 0..143, then VBlank on 144..153, 456
    /// cycles a line). Returns interrupt request bits: `interrupts::VBLANK` on
    /// entering VBlank (when a finished frame is also flagged) and
    /// `interrupts::LCD_STAT` on a rising edge of the STAT line.
    pub fn step(&mut self, cycles: u32) -> (irq: u8)
        requires
            old(self)@.wf(),
        ensures
            final(self)@ == old(self)@.clocked(cycles as nat),
            irq == old(self)@.clocked_irq(cycles as nat),
            irq & !0x03u8 == 0,
            final(self)@.wf(),
    {
        proof {
            lemma_clocked_irq_bits(old(self)@, cycles as nat);
        }
        let mut irq: u8 = 0;
        let mut i: u32 = 0;
        while i < cycles
            invariant
                i <= cycles,
                self@ == old(self)@.clocked(i as nat),
                irq == old(self)@.clocked_irq(i as nat),
                self@.wf(),
            decreases cycles - i,
        {
            let ghost before = self@;
            let t = self.tick();
            irq = irq | t;
            proof {
                assert(self@ == before.tick());
            }
            i = i + 1;
        }
        irq
    }

    /// One T-cycle of the mode state machine.
    fn tick(&mut self) -> (irq: u8)
        requires
            old(self)@.wf(),
        ensures
            final(self)@ == old(self)@.tick(),
            irq == old(self)@.tick_irq(),
            final(self)@.wf(),
    {
        if self.lcdc & 0x80 == 0 {
            return 0;
        }
        let line_ends = self.mode_clock + 1 == LINE_CYCLES;
        let ly: u8 = if line_ends {
            if self.ly >= 153 { 0 } else { self.ly + 1 }
        } else {
            self.ly
        };
        let clock: u32 = if line_ends { 0 } else { self.mode_clock + 1 };
        let mode: u8 = if ly >= 144 {
            1
        } else if clock < 80 {
            2
        } else if clock < 252 {
            3
        } else {
            0
        };
        let coincide = ly == self.lyc;
        let line = (coincide && self.stat & 0x40 != 0) || (mode == 0 && self.stat & 0x08 != 0) || (mode
            == 1 && self.stat & 0x10 != 0) || (mode == 2 && self.stat & 0x20 != 0);
        let enters_vblank = line_ends && ly == 144;
        let irq: u8 = (if enters_vblank { crate::interrupts::VBLANK } else { 0u8 }) | (if line
            && !self.stat_line {
            crate::interrupts::LCD_STAT
        } else {
            0u8
        });
        if self.ly < 144 && self.mode_clock + 1 == 252 {
            let regs = LineRegs {
                lcdc: self.lcdc,
                scy: self.scy,
                scx: self.scx,
                ly: self.ly,
                bgp: self.bgp,
                obp0: self.obp0,
                obp1: self.obp1,
                wy: self.wy,
                wx: self.wx,
                window_line: self.window_line,
            };
            proof {
                lemma_rendered_shades(self.framebuffer@, self.vram@, self.oam@, regs);
            }
            render_line(&mut self.framebuffer, &self.vram, &self.oam, regs);
            if window_on(regs) {
                self.window_line = self.window_line.wrapping_add(1);
            }
        }
        if enters_vblank {
            self.frame_ready = true;
            self.window_line = 0;
        }
        self.stat = (self.stat & 0x78) | (if coincide { 0x04u8 } else { 0u8 }) | mode;
        self.stat_line = line;
        self.ly = ly;
        self.mode_clock = clock;
        irq
    }

    /// Returns true once per completed frame, clearing the flag.
    pub fn take_frame_ready(&mut self) -> (ready: bool)
        ensures
            ready == old(self)@.frame_ready,
            final(self)@ == (PpuState { frame_ready: false, ..old(self)@ }),
    {
        let ready = self.frame_ready;
        self.frame_ready = false;
        ready
    }

    /// Whether a completed frame is waiting (without clearing the flag).
    pub fn is_frame_ready(&self) -> (ready: bool)
        ensures
            ready == self@.frame_ready,
    {
        self.frame_ready
    }

    /// 160x144 buffer of 2-bit shade indices.
    pub fn framebuffer(&self) -> (fb: &[u8])
        ensures
            fb@ == self@.framebuffer,
    {
        self.framebuffer.as_slice()
    }
}

/// Channel `channel` (0 = R, 1 = G, 2 = B, 3 = A) of the classic DMG green
/// palette entry for `shade` (only its low two bits count).
pub open spec fn dmg_palette(shade: u8, channel: int) -> u8 {
    let s = shade & 3;
    if channel == 3 {
        0xFF
    } else if s == 0 {
        if channel == 0 { 0x9B } else if channel == 1 { 0xBC } else { 0x0F }
    } else if s == 1 {
        if channel == 0 { 0x8B } else if channel == 1 { 0xAC } else { 0x0F }
    } else if s == 2 {
        if channel == 0 { 0x30 } else if channel == 1 { 0x62 } else { 0x30 }
    } else {
        if channel == 0 { 0x0F } else if channel == 1 { 0x38 } else { 0x0F }
    }
}

/// The number of whole pixels converted: as many as both buffers hold.
pub open spec fn rgba_pixel_count(shades_len: nat, out_len: nat) -> nat {
    if out_len / 4 < shades_len { out_len / 4 } else { shades_len }
}

/// `out` after converting `shades`: the first pixels become RGBA palette
/// entries, the rest of `out` is left as it was.
pub open spec fn shades_to_rgba_spec(shades: Seq<u8>, out: Seq<u8>) -> Seq<u8> {
    let n = rgba_pixel_count(shades.len(), out.len());
    Seq::new(
        out.len(),
        |i: int|
            if i < 4 * n {
                dmg_palette(shades[i / 4], i % 4)
            } else {
                out[i]
            },
    )
}

/// Map 2-bit shade indices to RGBA8888 using the classic DMG green palette.
pub fn shades_to_rgba(shades: &[u8], out: &mut [u8])
    ensures
        final(out)@ == shades_to_rgba_spec(shades@, old(out)@),
{
    let pixels: usize = if out.len() / 4 < shades.len() { out.len() / 4 } else { shades.len() };
    let ghost n = rgba_pixel_count(shades@.len(), old(out)@.len());
    assert(pixels == n);
    let len = out.len();
    let mut p: usize = 0;
    while p < pixels
        invariant
            len == out@.len(),
            pixels == n,
            p <= pixels,
            4 * n <= out@.len(),
            n <= shades@.len(),
            out@.len() == old(out)@.len(),
            forall|i: int| 0 <= i < 4 * p ==> out@[i] == #[trigger] dmg_palette(shades@[i / 4], i % 4),
            forall|i: int| 4 * p <= i < out@.len() ==> out@[i] == old(out)@[i],
        decreases pixels - p,
    {
        let shade = shades[p] & 3;
        let (r, g, b): (u8, u8, u8) = match shade {
            0 => (0x9B, 0xBC, 0x0F),  // lightest
            1 => (0x8B, 0xAC, 0x0F),
            2 => (0x30, 0x62, 0x30),
            _ => (0x0F, 0x38, 0x0F),  // darkest
        };
        let base = 4 * p;
        out[base] = r;
        out[base + 1] = g;
        out[base + 2] = b;
        out[base + 3] = 0xFF;
        proof {
            assert forall|i: int| 0 <= i < 4 * (p + 1) implies out@[i] == #[trigger] dmg_palette(
                shades@[i / 4],
                i % 4,
            ) by {
                if i >= 4 * p {
                    assert(i / 4 == p as int);
                    assert(shade == shades@[p as int] & 3);
                }
            }
        }
        p = p + 1;
    }
    proof {
        assert(out@ =~= shades_to_rgba_spec(shades@, old(out)@));
    }
}

/// The DMG green palette entry for `shade` packed as a 0x00RRGGBB pixel.
pub open spec fn dmg_xrgb(shade: u8) -> u32 {
    (dmg_palette(shade, 0) * 0x10000 + dmg_palette(shade, 1) * 0x100 + dmg_palette(shade, 2)) as u32
}

/// `out` after converting `shades` to packed pixels: as many pixels as both
/// buffers hold become palette entries, the rest of `out` is left as it was.
pub open spec fn shades_to_xrgb_spec(shades: Seq<u8>, out: Seq<u32>) -> Seq<u32> {
    Seq::new(
        out.len(),
        |i: int|
            if i < shades.len() {
                dmg_xrgb(shades[i])
            } else {
                out[i]
            },
    )
}

/// Map 2-bit shade indices to packed 0x00RRGGBB pixels of the classic DMG
/// green palette.
pub fn shades_to_xrgb(shades: &[u8], out: &mut [u32])
    ensures
        final(out)@ == shades_to_xrgb_spec(shades@, old(out)@),
{
    let n: usize = if out.len() < shades.len() { out.len() } else { shades.len() };
    let mut i: usize = 0;
    while i < n
        invariant
            n <= shades@.len(),
            n <= out@.len(),
            n == out@.len() || n == shades@.len(),
            i <= n,
            out@.len() == old(out)@.len(),
            forall|k: int| 0 <= k < i ==> out@[k] == #[trigger] dmg_xrgb(shades@[k]),
            forall|k: int| i <= k < out@.len() ==> out@[k] == old(out)@[k],
        decreases n - i,
    {
        let px: u32 = match shades[i] & 3 {
            0 => 0x9B_BC_0F,
            1 => 0x8B_AC_0F,
            2 => 0x30_62_30,
            _ => 0x0F_38_0F,
        };
        proof {
            assert(shades@[i as int] & 3 == shades[i as int] & 3);
        }
        out[i] = px;
        i = i + 1;
    }
    proof {
        assert(out@ =~= shades_to_xrgb_spec(shades@, old(out)@));
    }
}

/// Writing video RAM and reading it back at the same address gives the value
/// written; LY ignores writes; STAT keeps its low three bits.
pub proof fn lemma_ppu_write_read(p: PpuState, addr: u16, val: u8)
    requires
        p.wf(),
    ensures
        p.write_vram(addr, val).read_vram(addr) == val,
        p.write_reg(0xFF44, val) == p,
        p.write_reg(0xFF41, val).stat & 0x07 == p.stat & 0x07,
        is_oam_addr(addr) ==> p.write_oam(addr, val).read_oam(addr) == val,
{
    lemma_mask_bounds();
    let s = p.stat;
    assert(((s & 0x07) | (val & 0x78)) & 0x07 == s & 0x07) by (bit_vector);
}

/// The position of the PPU within a frame, in T-cycles: 456 per line.
pub open spec fn frame_pos(p: PpuState) -> int {
    p.ly * 456 + p.mode_clock
}

/// The position at which the PPU enters VBlank: the last cycle of line 143.
pub open spec fn vblank_pos() -> int {
    65663int
}

/// One T-cycle with the LCD on moves one position on, wrapping after a
/// whole frame, and enters VBlank exactly at [`vblank_pos`].
proof fn lemma_tick_pos(p: PpuState)
    requires
        p.wf(),
        p.lcd_on(),
    ensures
        p.tick().wf(),
        p.tick().lcd_on(),
        frame_pos(p.tick()) == (frame_pos(p) + 1) % (FRAME_CYCLES as int),
        p.enters_vblank() <==> frame_pos(p) == vblank_pos(),
        p.tick().frame_ready == (p.frame_ready || frame_pos(p) == vblank_pos()),
        p.enters_vblank() ==> p.tick_irq() & crate::interrupts::VBLANK != 0,
{
    lemma_rendered_shades(p.framebuffer, p.vram, p.oam, p.line_regs());
    let a: u8 = if p.tick().stat_line && !p.stat_line { crate::interrupts::LCD_STAT } else { 0u8 };
    assert((1u8 | a) & 1u8 != 0) by (bit_vector);
    if p.enters_vblank() {
        assert(p.tick_irq() == (1u8 | a));
    }
}

/// With the LCD on, the PPU after `n` T-cycles stands `n` positions on, and
/// has flagged a finished frame, and raised VBLANK, if it passed
/// [`vblank_pos`] on the way.
proof fn lemma_clocked_pos(p: PpuState, n: nat)
    requires
        p.wf(),
        p.lcd_on(),
    ensures
        p.clocked(n).wf(),
        p.clocked(n).lcd_on(),
        frame_pos(p.clocked(n)) == (frame_pos(p) + n) % (FRAME_CYCLES as int),
        p.frame_ready ==> p.clocked(n).frame_ready,
        forall|j: nat|
            j < n && #[trigger] ((frame_pos(p) + j) % (FRAME_CYCLES as int)) == vblank_pos()
                ==> p.clocked(n).frame_ready && p.clocked_irq(n) & crate::interrupts::VBLANK != 0,
    decreases n,
{
    if n > 0 {
        let q = p.clocked((n - 1) as nat);
        lemma_clocked_pos(p, (n - 1) as nat);
        lemma_tick_pos(q);
        vstd::arithmetic::div_mod::lemma_add_mod_noop(frame_pos(p) + n - 1, 1, FRAME_CYCLES as int);
        let prev = p.clocked_irq((n - 1) as nat);
        let now = q.tick_irq();
        assert(p.clocked(n) == q.tick());
        assert(p.clocked_irq(n) == (prev | now));
        assert((prev & 1u8 != 0 ==> (prev | now) & 1u8 != 0) && (now & 1u8 != 0 ==> (prev | now)
            & 1u8 != 0)) by (bit_vector);
        assert forall|j: nat|
            j < n && #[trigger] ((frame_pos(p) + j) % (FRAME_CYCLES as int)) == vblank_pos()
                implies p.clocked(n).frame_ready && p.clocked_irq(n) & crate::interrupts::VBLANK
            != 0 by {
            if j == n - 1 {
                assert(frame_pos(q) == vblank_pos());
            }
        }
    }
}

/// A frame every 70224 T-cycles: with the LCD on, the PPU flags a finished
/// frame and raises VBLANK within any 70224 consecutive T-cycles, and after
/// exactly 70224 it is back at the same line and line clock.
pub proof fn lemma_frame_period(p: PpuState)
    requires
        p.wf(),
        p.lcd_on(),
    ensures
        p.clocked(FRAME_CYCLES as nat).frame_ready,
        p.clocked_irq(FRAME_CYCLES as nat) & crate::interrupts::VBLANK != 0,
        p.clocked(FRAME_CYCLES as nat).ly == p.ly,
        p.clocked(FRAME_CYCLES as nat).mode_clock == p.mode_clock,
{
    let n = FRAME_CYCLES as nat;
    lemma_clocked_pos(p, n);
    let pos = frame_pos(p);
    let j: nat = if pos <= vblank_pos() {
        (vblank_pos() - pos) as nat
    } else {
        (vblank_pos() + FRAME_CYCLES - pos) as nat
    };
    assert((pos + j) % (FRAME_CYCLES as int) == vblank_pos());
    let q = p.clocked(n);
    assert(frame_pos(q) == pos);
    let (l1, c1, l2, c2) = (q.ly as int, q.mode_clock as int, p.ly as int, p.mode_clock as int);
    assert(l1 == l2) by (nonlinear_arith)
        requires
            l1 * 456 + c1 == l2 * 456 + c2,
            0 <= c1 < 456,
            0 <= c2 < 456,
    ;
}

/// The PPU after the sprite-memory writes `ws` (address, value), in order.
pub open spec fn after_oam_writes(p: PpuState, ws: Seq<(u16, u8)>) -> PpuState
    decreases ws.len(),
{
    if ws.len() == 0 {
        p
    } else {
        after_oam_writes(p, ws.drop_last()).write_oam(ws.last().0, ws.last().1)
    }
}

/// The value of the last write to `addr` among `ws`, or `before` if none.
pub open spec fn last_written(ws: Seq<(u16, u8)>, addr: u16, before: u8) -> u8
    decreases ws.len(),
{
    if ws.len() == 0 {
        before
    } else if ws.last().0 == addr {
        ws.last().1
    } else {
        last_written(ws.drop_last(), addr, before)
    }
}

/// Sprite memory is plain memory: after any sequence of writes into it, a
/// read returns the value of the last write to that address, or what it held
/// before if none wrote there (0 on a fresh PPU).
pub proof fn lemma_oam_history(p: PpuState, ws: Seq<(u16, u8)>, addr: u16)
    requires
        p.wf(),
        is_oam_addr(addr),
        forall|i: int| 0 <= i < ws.len() ==> is_oam_addr(#[trigger] ws[i].0),
    ensures
        after_oam_writes(p, ws).wf(),
        after_oam_writes(p, ws).read_oam(addr) == last_written(ws, addr, p.read_oam(addr)),
    decreases ws.len(),
{
    if ws.len() > 0 {
        let rest = ws.drop_last();
        assert(forall|i: int| 0 <= i < rest.len() ==> rest[i] == ws[i]);
        lemma_oam_history(p, rest, addr);
        assert(is_oam_addr(ws[ws.len() - 1].0));
    }
}

/// With the LCD off the PPU is frozen: any number of T-cycles changes
/// nothing and raises no interrupt.
pub proof fn lemma_lcd_off_frozen(p: PpuState, n: nat)
    requires
        !p.lcd_on(),
    ensures
        p.clocked(n) == p,
        p.clocked_irq(n) == 0,
    decreases n,
{
    if n > 0 {
        lemma_lcd_off_frozen(p, (n - 1) as nat);
        assert((0u8 | 0u8) == 0u8) by (bit_vector);
    }
}

/// A visible line is drawn once, as its drawing ends: that T-cycle writes
/// the 160 pixels of line LY, each from the background, window and sprites
/// under the registers of the moment, and leaves every other pixel as it
/// was; no other T-cycle touches the frame.
pub proof fn lemma_tick_renders_one_line(p: PpuState, i: int)
    requires
        p.wf(),
        0 <= i < FB_LEN,
    ensures
        !(p.lcd_on() && p.renders_line()) ==> p.tick().framebuffer == p.framebuffer,
        p.lcd_on() && p.renders_line() && p.ly * 160 <= i < p.ly * 160 + 160 ==> p.tick().framebuffer[i]
            == pixel_shade(p.vram, p.oam, p.line_regs(), i - p.ly * 160),
        p.lcd_on() && p.renders_line() && !(p.ly * 160 <= i < p.ly * 160 + 160)
            ==> p.tick().framebuffer[i] == p.framebuffer[i],
{
}

/// Clocking for `a` T-cycles and then for `b` is clocking for `a + b`.
pub proof fn lemma_clocked_add(p: PpuState, a: nat, b: nat)
    ensures
        p.clocked(a).clocked(b) == p.clocked(a + b),
    decreases b,
{
    if b > 0 {
        lemma_clocked_add(p, a, (b - 1) as nat);
    }
}

/// Clocking keeps the PPU well formed, with the LCD as it was.
pub proof fn lemma_clocked_wf(p: PpuState, n: nat)
    requires
        p.wf(),
    ensures
        p.clocked(n).wf(),
        p.clocked(n).lcdc == p.lcdc,
    decreases n,
{
    if n > 0 {
        lemma_clocked_wf(p, (n - 1) as nat);
        let q = p.clocked((n - 1) as nat);
        if q.lcd_on() {
            lemma_tick_pos(q);
        }
    }
}

/// A call a display driver makes on the PPU: [`Ppu::step`] by some T-cycles,
/// or [`Ppu::take_frame_ready`].
pub enum PpuCall {
    Step(u32),
    TakeFrameReady,
}

/// The PPU after the calls `calls`, in order.
pub open spec fn after_calls(p: PpuState, calls: Seq<PpuCall>) -> PpuState
    decreases calls.len(),
{
    if calls.len() == 0 {
        p
    } else {
        let q = after_calls(p, calls.drop_last());
        match calls.last() {
            PpuCall::Step(n) => q.clocked(n as nat),
            PpuCall::TakeFrameReady => PpuState { frame_ready: false, ..q },
        }
    }
}

/// Whether one of the `take_frame_ready` calls among `calls` returns true.
pub open spec fn took_frame(p: PpuState, calls: Seq<PpuCall>) -> bool
    decreases calls.len(),
{
    calls.len() > 0 && (took_frame(p, calls.drop_last()) || (calls.last() is TakeFrameReady
        && after_calls(p, calls.drop_last()).frame_ready))
}

/// The T-cycles the steps among `calls` add up to.
pub open spec fn stepped_cycles(calls: Seq<PpuCall>) -> nat
    decreases calls.len(),
{
    if calls.len() == 0 {
        0
    } else {
        stepped_cycles(calls.drop_last()) + match calls.last() {
            PpuCall::Step(n) => n as nat,
            PpuCall::TakeFrameReady => 0nat,
        }
    }
}

/// The PPU raises only the VBLANK and LCD_STAT interrupt bits.
pub proof fn lemma_clocked_irq_bits(p: PpuState, n: nat)
    ensures
        p.clocked_irq(n) & !0x03u8 == 0,
    decreases n,
{
    if n == 0 {
        assert(0u8 & !0x03u8 == 0) by (bit_vector);
    } else {
        lemma_clocked_irq_bits(p, (n - 1) as nat);
        let a = p.clocked_irq((n - 1) as nat);
        let q = p.clocked((n - 1) as nat);
        let st: u8 = if q.tick().stat_line && !q.stat_line { crate::interrupts::LCD_STAT } else { 0u8 };
        let vb: u8 = if q.enters_vblank() { crate::interrupts::VBLANK } else { 0u8 };
        assert(a & !0x03u8 == 0 && (vb == 0 || vb == 1) && (st == 0 || st == 2) ==> (a | (vb | st))
            & !0x03u8 == 0 && (a | 0u8) & !0x03u8 == 0) by (bit_vector);
        assert(p.clocked_irq(n) == (a | q.tick_irq()));
        if q.lcd_on() {
            assert(q.tick_irq() == (vb | st));
        } else {
            assert(q.tick_irq() == 0);
        }
    }
}

/// Along any sequence of calls with the LCD on: the position within the
/// frame advances by the T-cycles stepped, and once the steps have passed
/// the start of VBlank, a frame has been taken or is waiting.
proof fn lemma_calls_pos(p: PpuState, calls: Seq<PpuCall>)
    requires
        p.wf(),
        p.lcd_on(),
    ensures
        after_calls(p, calls).wf(),
        after_calls(p, calls).lcd_on(),
        frame_pos(after_calls(p, calls)) == (frame_pos(p) + stepped_cycles(calls)) % (
        FRAME_CYCLES as int),
        p.frame_ready ==> took_frame(p, calls) || after_calls(p, calls).frame_ready,
        forall|j: nat|
            j < stepped_cycles(calls) && #[trigger] ((frame_pos(p) + j) % (FRAME_CYCLES as int))
                == vblank_pos() ==> took_frame(p, calls) || after_calls(p, calls).frame_ready,
    decreases calls.len(),
{
    if calls.len() > 0 {
        let rest = calls.drop_last();
        lemma_calls_pos(p, rest);
        let q = after_calls(p, rest);
        let c = stepped_cycles(rest);
        match calls.last() {
            PpuCall::Step(n) => {
                lemma_clocked_pos(q, n as nat);
                assert forall|j: nat|
                    j < stepped_cycles(calls) && #[trigger] ((frame_pos(p) + j) % (
                    FRAME_CYCLES as int)) == vblank_pos() implies took_frame(p, calls)
                    || after_calls(p, calls).frame_ready by {
                    if j >= c {
                        let k = (j - c) as nat;
                        vstd::arithmetic::div_mod::lemma_add_mod_noop_right(
                            k as int,
                            frame_pos(p) + c,
                            FRAME_CYCLES as int,
                        );
                        assert((frame_pos(q) + k) % (FRAME_CYCLES as int) == vblank_pos());
                    }
                }
                vstd::arithmetic::div_mod::lemma_add_mod_noop_right(
                    n as int,
                    frame_pos(p) + c,
                    FRAME_CYCLES as int,
                );
            },
            PpuCall::TakeFrameReady => {},
        }
    }
}

/// A frame every 70224 T-cycles, across calls: with the LCD on, however the
/// steps of a display driver are split and interleaved with
/// `take_frame_ready` calls, once they add up to 70224 T-cycles one of
/// those calls has returned true or a frame is waiting for the next one.
pub proof fn lemma_frame_across_calls(p: PpuState, calls: Seq<PpuCall>)
    requires
        p.wf(),
        p.lcd_on(),
        stepped_cycles(calls) >= FRAME_CYCLES,
    ensures
        took_frame(p, calls) || after_calls(p, calls).frame_ready,
{
    lemma_calls_pos(p, calls);
    let pos = frame_pos(p);
    let j: nat = if pos <= vblank_pos() {
        (vblank_pos() - pos) as nat
    } else {
        (vblank_pos() + FRAME_CYCLES - pos) as nat
    };
    assert((pos + j) % (FRAME_CYCLES as int) == vblank_pos());
}

} // verus!
