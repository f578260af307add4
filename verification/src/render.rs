//! The scanline renderer: the background, the window and up to ten sprites
//! of one line, mixed by the DMG's priority rules into 2-bit shades.
//!
//! Video RAM offsets are relative to 0x8000: tile data at 0x0000..0x17FF,
//! the two tile maps at 0x1800 and 0x1C00.
use vstd::prelude::*;

verus! {

/// The registers one line is rendered with, and the window's own line
/// counter.
#[derive(Clone, Copy)]
pub struct LineRegs {
    pub lcdc: u8,
    pub scy: u8,
    pub scx: u8,
    pub ly: u8,
    pub bgp: u8,
    pub obp0: u8,
    pub obp1: u8,
    pub wy: u8,
    pub wx: u8,
    pub window_line: u8,
}

/// The 2-bit colour index of column `col` (0 = leftmost) of the tile row
/// whose two bit planes start at `addr`.
pub open spec fn tile_pixel(vram: Seq<u8>, addr: int, col: int) -> u8 {
    let bit = (7 - col) as u8;
    (((vram[addr + 1] >> bit) & 1) << 1u8) | ((vram[addr] >> bit) & 1)
}

/// The offset of row `row` of background / window tile `t`: tiles 0..255
/// from 0x8000 with LCDC bit 4 set, else tiles -128..127 around 0x9000.
pub open spec fn tile_row_addr(lcdc: u8, t: u8, row: int) -> int {
    if lcdc & 0x10 != 0 || t >= 128 {
        t * 16 + row * 2
    } else {
        0x1000 + t * 16 + row * 2
    }
}

/// The shade palette `pal` gives colour index `c`.
pub open spec fn shade(pal: u8, c: u8) -> u8 {
    (pal >> (c * 2) as u8) & 3
}

/// The background colour index at screen column `x`, scrolled by SCX/SCY
/// and wrapping around the 256x256 map that LCDC bit 3 selects.
pub open spec fn bg_color(vram: Seq<u8>, r: LineRegs, x: int) -> u8 {
    let y = (r.ly + r.scy) % 256;
    let xx = (x + r.scx) % 256;
    let map = if r.lcdc & 0x08 != 0 { 0x1C00int } else { 0x1800int };
    let t = vram[map + (y / 8) * 32 + xx / 8];
    tile_pixel(vram, tile_row_addr(r.lcdc, t, y % 8), xx % 8)
}

/// Whether the window shows on this line: enabled (LCDC bit 5), begun (WY
/// reached) and not pushed off the right edge.
pub open spec fn window_on_line(r: LineRegs) -> bool {
    r.lcdc & 0x20 != 0 && r.wy <= r.ly && r.wx <= 166
}

/// Whether screen column `x` shows the window: it starts at column WX - 7.
pub open spec fn in_window(r: LineRegs, x: int) -> bool {
    window_on_line(r) && x + 7 >= r.wx
}

/// The window colour index at screen column `x`, from the map that LCDC
/// bit 6 selects, on the window's own line `window_line`.
pub open spec fn window_color(vram: Seq<u8>, r: LineRegs, x: int) -> u8 {
    let wx = x + 7 - r.wx;
    let wl = r.window_line as int;
    let map = if r.lcdc & 0x40 != 0 { 0x1C00int } else { 0x1800int };
    let t = vram[map + (wl / 8) * 32 + wx / 8];
    tile_pixel(vram, tile_row_addr(r.lcdc, t, wl % 8), wx % 8)
}

/// The background-or-window colour index at `x`; 0 with LCDC bit 0 clear.
pub open spec fn bgwin_color(vram: Seq<u8>, r: LineRegs, x: int) -> u8 {
    if r.lcdc & 0x01 == 0 {
        0
    } else if in_window(r, x) {
        window_color(vram, r, x)
    } else {
        bg_color(vram, r, x)
    }
}

/// Sprite height: 16 with LCDC bit 2 set, else 8.
pub open spec fn sprite_height(lcdc: u8) -> int {
    if lcdc & 0x04 != 0 { 16 } else { 8 }
}

/// Whether sprite `i` covers line `ly`.
pub open spec fn sprite_on_line(oam: Seq<u8>, i: int, r: LineRegs) -> bool {
    oam[4 * i] - 16 <= r.ly < oam[4 * i] - 16 + sprite_height(r.lcdc)
}

/// The sprites of the line among the first `n` of OAM: at most ten, the
/// first ones in OAM order.
pub open spec fn line_sprites(oam: Seq<u8>, r: LineRegs, n: nat) -> Seq<int>
    decreases n,
{
    if n == 0 {
        Seq::empty()
    } else {
        let s = line_sprites(oam, r, (n - 1) as nat);
        if s.len() < 10 && sprite_on_line(oam, n - 1, r) {
            s.push(n - 1)
        } else {
            s
        }
    }
}

/// The colour index sprite `i` (on the line) shows at screen column `x`,
/// with its flips applied; 0 (transparent) where it does not cover `x`.
pub open spec fn sprite_color(vram: Seq<u8>, oam: Seq<u8>, r: LineRegs, i: int, x: int) -> u8 {
    let sx = oam[4 * i + 1] - 8;
    if !(sx <= x < sx + 8) {
        0
    } else {
        let h = sprite_height(r.lcdc);
        let attr = oam[4 * i + 3];
        let line = r.ly - (oam[4 * i] - 16);
        let row = if attr & 0x40 != 0 { h - 1 - line } else { line };
        let col = if attr & 0x20 != 0 { 7 - (x - sx) } else { x - sx };
        let tile = if h == 16 { oam[4 * i + 2] & 0xFE } else { oam[4 * i + 2] };
        tile_pixel(vram, tile * 16 + row * 2, col)
    }
}

/// The sprite among `s` that wins column `x`: of those with an opaque pixel
/// there, the one with the smallest X, the earliest in OAM on a tie.
pub open spec fn best_sprite(vram: Seq<u8>, oam: Seq<u8>, r: LineRegs, s: Seq<int>, x: int) -> Option<
    int,
>
    decreases s.len(),
{
    if s.len() == 0 {
        None
    } else {
        let rest = best_sprite(vram, oam, r, s.drop_last(), x);
        let i = s.last();
        if sprite_color(vram, oam, r, i, x) == 0 {
            rest
        } else {
            match rest {
                None => Some(i),
                Some(j) => if oam[4 * i + 1] < oam[4 * j + 1] {
                    Some(i)
                } else {
                    Some(j)
                },
            }
        }
    }
}

/// The shade of screen column `x`: the winning sprite's pixel through its
/// palette, unless sprites are off (LCDC bit 1), none is opaque there, or
/// the sprite sits behind a non-zero background colour (attribute bit 7);
/// otherwise the background or window pixel through BGP.
pub open spec fn pixel_shade(vram: Seq<u8>, oam: Seq<u8>, r: LineRegs, x: int) -> u8 {
    let c = bgwin_color(vram, r, x);
    if r.lcdc & 0x02 == 0 {
        shade(r.bgp, c)
    } else {
        match best_sprite(vram, oam, r, line_sprites(oam, r, 40), x) {
            None => shade(r.bgp, c),
            Some(i) => {
                let attr = oam[4 * i + 3];
                if attr & 0x80 != 0 && c != 0 {
                    shade(r.bgp, c)
                } else {
                    shade(
                        if attr & 0x10 != 0 { r.obp1 } else { r.obp0 },
                        sprite_color(vram, oam, r, i, x),
                    )
                }
            },
        }
    }
}

/// The framebuffer with line `ly` rendered.
pub open spec fn rendered(fb: Seq<u8>, vram: Seq<u8>, oam: Seq<u8>, r: LineRegs) -> Seq<u8> {
    Seq::new(
        fb.len(),
        |i: int|
            if r.ly * 160 <= i < r.ly * 160 + 160 {
                pixel_shade(vram, oam, r, i - r.ly * 160)
            } else {
                fb[i]
            },
    )
}

// ---- facts ----

/// Colour indices and shades are two bits wide.
pub proof fn lemma_two_bits()
    by (bit_vector)
    ensures
        forall|hi: u8, lo: u8, b: u8| #[trigger] ((((hi >> b) & 1) << 1u8) | ((lo >> b) & 1)) < 4,
        forall|pal: u8, s: u8| #[trigger] ((pal >> s) & 3) < 4,
{
}

/// The sprites of a line are at most ten, in increasing OAM order, each one
/// covering the line.
pub proof fn lemma_line_sprites(oam: Seq<u8>, r: LineRegs, n: nat)
    ensures
        line_sprites(oam, r, n).len() <= 10,
        forall|k: int|
            0 <= k < line_sprites(oam, r, n).len() ==> 0 <= #[trigger] line_sprites(oam, r, n)[k]
                < n && sprite_on_line(oam, line_sprites(oam, r, n)[k], r),
    decreases n,
{
    if n > 0 {
        lemma_line_sprites(oam, r, (n - 1) as nat);
    }
}

/// Every rendered pixel is a 2-bit shade, and only line `ly` changes.
pub proof fn lemma_rendered_shades(fb: Seq<u8>, vram: Seq<u8>, oam: Seq<u8>, r: LineRegs)
    requires
        forall|i: int| 0 <= i < fb.len() ==> fb[i] <= 3,
    ensures
        rendered(fb, vram, oam, r).len() == fb.len(),
        forall|i: int| 0 <= i < fb.len() ==> #[trigger] rendered(fb, vram, oam, r)[i] <= 3,
{
    lemma_two_bits();
    assert forall|i: int| 0 <= i < fb.len() implies #[trigger] rendered(fb, vram, oam, r)[i] <= 3 by {
        if r.ly * 160 <= i < r.ly * 160 + 160 {
            let x = i - r.ly * 160;
            let c = bgwin_color(vram, r, x);
            assert(shade(r.bgp, c) < 4);
            match best_sprite(vram, oam, r, line_sprites(oam, r, 40), x) {
                None => {},
                Some(j) => {
                    let sc = sprite_color(vram, oam, r, j, x);
                    assert(shade(r.obp1, sc) < 4);
                    assert(shade(r.obp0, sc) < 4);
                },
            }
        }
    }
}

// ---- execution ----

fn tile_pixel_at(vram: &Vec<u8>, addr: usize, col: u8) -> (c: u8)
    requires
        vram@.len() == 0x2000,
        addr + 1 < 0x2000,
        col < 8,
    ensures
        c == tile_pixel(vram@, addr as int, col as int),
        c < 4,
{
    proof {
        lemma_two_bits();
    }
    let bit = 7 - col;
    (((vram[addr + 1] >> bit) & 1) << 1u8) | ((vram[addr] >> bit) & 1)
}

fn tile_row_offset(lcdc: u8, t: u8, row: u8) -> (a: usize)
    requires
        row < 8,
    ensures
        a == tile_row_addr(lcdc, t, row as int),
        a + 1 < 0x2000,
{
    if lcdc & 0x10 != 0 || t >= 128 {
        t as usize * 16 + row as usize * 2
    } else {
        0x1000 + t as usize * 16 + row as usize * 2
    }
}

fn shade_of(pal: u8, c: u8) -> (s: u8)
    requires
        c < 4,
    ensures
        s == shade(pal, c),
        s < 4,
{
    proof {
        lemma_two_bits();
    }
    (pal >> (c * 2)) & 3
}

fn bg_color_at(vram: &Vec<u8>, r: LineRegs, x: u8) -> (c: u8)
    requires
        vram@.len() == 0x2000,
    ensures
        c == bg_color(vram@, r, x as int),
        c < 4,
{
    let y = r.ly.wrapping_add(r.scy);
    let xx = x.wrapping_add(r.scx);
    assert(y == (r.ly + r.scy) % 256);
    assert(xx == (x + r.scx) % 256);
    let map: usize = if r.lcdc & 0x08 != 0 {
        0x1C00
    } else {
        0x1800
    };
    let row = (y / 8) as usize;
    let col = (xx / 8) as usize;
    assert(row < 32 && col < 32);
    let idx = map + row * 32 + col;
    assert(idx < 0x2000) by (nonlinear_arith)
        requires
            map <= 0x1C00,
            row < 32,
            col < 32,
            idx == map + row * 32 + col,
    ;
    let t = vram[idx];
    let a = tile_row_offset(r.lcdc, t, y % 8);
    tile_pixel_at(vram, a, xx % 8)
}

pub(crate) fn window_on(r: LineRegs) -> (b: bool)
    ensures
        b == window_on_line(r),
{
    r.lcdc & 0x20 != 0 && r.wy <= r.ly && r.wx <= 166
}

fn bgwin_color_at(vram: &Vec<u8>, r: LineRegs, x: u8) -> (c: u8)
    requires
        vram@.len() == 0x2000,
        x < 160,
    ensures
        c == bgwin_color(vram@, r, x as int),
        c < 4,
{
    if r.lcdc & 0x01 == 0 {
        0
    } else if window_on(r) && x + 7 >= r.wx {
        let wx = x + 7 - r.wx;
        let wl = r.window_line;
        let map: usize = if r.lcdc & 0x40 != 0 {
            0x1C00
        } else {
            0x1800
        };
        let row = (wl / 8) as usize;
        let col = (wx / 8) as usize;
        let idx = map + row * 32 + col;
        assert(idx < 0x2000) by (nonlinear_arith)
            requires
                map <= 0x1C00,
                row < 32,
                col < 32,
                idx == map + row * 32 + col,
        ;
        let t = vram[idx];
        let a = tile_row_offset(r.lcdc, t, wl % 8);
        tile_pixel_at(vram, a, wx % 8)
    } else {
        bg_color_at(vram, r, x)
    }
}

fn on_line(oam: &Vec<u8>, r: LineRegs, i: usize) -> (b: bool)
    requires
        oam@.len() == 0xA0,
        i < 40,
    ensures
        b == sprite_on_line(oam@, i as int, r),
{
    let top = oam[4 * i] as i32 - 16;
    let h: i32 = if r.lcdc & 0x04 != 0 {
        16
    } else {
        8
    };
    top <= r.ly as i32 && (r.ly as i32) < top + h
}

/// The sprites of line `ly`, as OAM indices.
fn select_sprites(oam: &Vec<u8>, r: LineRegs) -> (v: Vec<u8>)
    requires
        oam@.len() == 0xA0,
    ensures
        v@.len() == line_sprites(oam@, r, 40).len(),
        forall|k: int| 0 <= k < v@.len() ==> v@[k] as int == line_sprites(oam@, r, 40)[k],
{
    let mut v: Vec<u8> = Vec::new();
    let mut i: usize = 0;
    while i < 40
        invariant
            oam@.len() == 0xA0,
            i <= 40,
            v@.len() == line_sprites(oam@, r, i as nat).len(),
            forall|k: int| 0 <= k < v@.len() ==> v@[k] as int == line_sprites(oam@, r, i as nat)[k],
        decreases 40 - i,
    {
        if v.len() < 10 && on_line(oam, r, i) {
            v.push(i as u8);
        }
        i = i + 1;
    }
    v
}

fn sprite_color_at(vram: &Vec<u8>, oam: &Vec<u8>, r: LineRegs, i: usize, x: u8) -> (c: u8)
    requires
        vram@.len() == 0x2000,
        oam@.len() == 0xA0,
        i < 40,
        sprite_on_line(oam@, i as int, r),
    ensures
        c == sprite_color(vram@, oam@, r, i as int, x as int),
        c < 4,
{
    let sx = oam[4 * i + 1] as i32 - 8;
    let xi = x as i32;
    if !(sx <= xi && xi < sx + 8) {
        return 0;
    }
    let h: i32 = if r.lcdc & 0x04 != 0 {
        16
    } else {
        8
    };
    let attr = oam[4 * i + 3];
    let line = r.ly as i32 - (oam[4 * i] as i32 - 16);
    let row = if attr & 0x40 != 0 {
        h - 1 - line
    } else {
        line
    };
    let col = if attr & 0x20 != 0 {
        7 - (xi - sx)
    } else {
        xi - sx
    };
    let tile: u8 = if h == 16 {
        oam[4 * i + 2] & 0xFE
    } else {
        oam[4 * i + 2]
    };
    tile_pixel_at(vram, tile as usize * 16 + row as usize * 2, col as u8)
}

/// The sprite among `sel` (the line's sprites) that wins column `x`.
fn best_sprite_at(vram: &Vec<u8>, oam: &Vec<u8>, r: LineRegs, sel: &Vec<u8>, x: u8) -> (b: Option<
    usize,
>)
    requires
        vram@.len() == 0x2000,
        oam@.len() == 0xA0,
        sel@.len() == line_sprites(oam@, r, 40).len(),
        forall|k: int| 0 <= k < sel@.len() ==> sel@[k] as int == line_sprites(oam@, r, 40)[k],
    ensures
        b matches Some(i) ==> best_sprite(vram@, oam@, r, line_sprites(oam@, r, 40), x as int)
            == Some(i as int) && i < 40 && sprite_on_line(oam@, i as int, r),
        b is None ==> best_sprite(vram@, oam@, r, line_sprites(oam@, r, 40), x as int) is None,
{
    let ghost s = line_sprites(oam@, r, 40);
    proof {
        lemma_line_sprites(oam@, r, 40);
    }
    let mut best: Option<usize> = None;
    let mut k: usize = 0;
    while k < sel.len()
        invariant
            vram@.len() == 0x2000,
            oam@.len() == 0xA0,
            k <= sel@.len(),
            sel@.len() == s.len(),
            s == line_sprites(oam@, r, 40),
            forall|j: int| 0 <= j < sel@.len() ==> sel@[j] as int == s[j],
            forall|j: int| 0 <= j < s.len() ==> 0 <= #[trigger] s[j] < 40 && sprite_on_line(oam@, s[j], r),
            best matches Some(i) ==> best_sprite(vram@, oam@, r, s.take(k as int), x as int) == Some(
                i as int,
            ) && i < 40 && sprite_on_line(oam@, i as int, r),
            best is None ==> best_sprite(vram@, oam@, r, s.take(k as int), x as int) is None,
        decreases sel@.len() - k,
    {
        let i = sel[k] as usize;
        proof {
            assert(s.take(k + 1).drop_last() =~= s.take(k as int));
            assert(s.take(k + 1).last() == s[k as int]);
            assert(s[k as int] == i as int);
        }
        let c = sprite_color_at(vram, oam, r, i, x);
        if c != 0 {
            match best {
                None => {
                    best = Some(i);
                },
                Some(j) => {
                    if oam[4 * i + 1] < oam[4 * j + 1] {
                        best = Some(i);
                    }
                },
            }
        }
        k = k + 1;
    }
    proof {
        assert(s.take(s.len() as int) =~= s);
    }
    best
}

/// The shade of screen column `x` of line `ly`.
fn pixel_at(vram: &Vec<u8>, oam: &Vec<u8>, r: LineRegs, sel: &Vec<u8>, x: u8) -> (p: u8)
    requires
        vram@.len() == 0x2000,
        oam@.len() == 0xA0,
        x < 160,
        sel@.len() == line_sprites(oam@, r, 40).len(),
        forall|k: int| 0 <= k < sel@.len() ==> sel@[k] as int == line_sprites(oam@, r, 40)[k],
    ensures
        p == pixel_shade(vram@, oam@, r, x as int),
        p < 4,
{
    let c = bgwin_color_at(vram, r, x);
    if r.lcdc & 0x02 == 0 {
        return shade_of(r.bgp, c);
    }
    match best_sprite_at(vram, oam, r, sel, x) {
        None => shade_of(r.bgp, c),
        Some(i) => {
            let attr = oam[4 * i + 3];
            if attr & 0x80 != 0 && c != 0 {
                shade_of(r.bgp, c)
            } else {
                let pal = if attr & 0x10 != 0 {
                    r.obp1
                } else {
                    r.obp0
                };
                let sc = sprite_color_at(vram, oam, r, i, x);
                shade_of(pal, sc)
            }
        },
    }
}

/// Render line `ly` (0..143) of the background, window and sprites into the
/// framebuffer.
pub fn render_line(fb: &mut Vec<u8>, vram: &Vec<u8>, oam: &Vec<u8>, r: LineRegs)
    requires
        old(fb)@.len() == 160 * 144,
        vram@.len() == 0x2000,
        oam@.len() == 0xA0,
        r.ly < 144,
    ensures
        final(fb)@ == rendered(old(fb)@, vram@, oam@, r),
{
    let sel = select_sprites(oam, r);
    let base: usize = r.ly as usize * 160;
    let mut x: u8 = 0;
    while x < 160
        invariant
            fb@.len() == 160 * 144,
            old(fb)@.len() == 160 * 144,
            vram@.len() == 0x2000,
            oam@.len() == 0xA0,
            x <= 160,
            base == r.ly * 160,
            r.ly < 144,
            sel@.len() == line_sprites(oam@, r, 40).len(),
            forall|k: int| 0 <= k < sel@.len() ==> sel@[k] as int == line_sprites(oam@, r, 40)[k],
            forall|i: int|
                0 <= i < fb@.len() ==> #[trigger] fb@[i] == if base <= i < base + x {
                    pixel_shade(vram@, oam@, r, i - base)
                } else {
                    old(fb)@[i]
                },
        decreases 160 - x,
    {
        let p = pixel_at(vram, oam, r, &sel, x);
        fb.set(base + x as usize, p);
        x = x + 1;
    }
    proof {
        assert(fb@ =~= rendered(old(fb)@, vram@, oam@, r));
    }
}

/// The palette of a winning sprite pixel: with sprites on, where a sprite
/// wins column `x` and is not hidden behind a non-zero background colour,
/// the pixel is its colour index `c` shaded through OBP1 if the sprite's
/// attribute bit 4 is set and through OBP0 if it is clear, that is bits
/// 2c..2c+1 of that register. The other sprite palette has no effect on it.
pub proof fn lemma_sprite_palette(vram: Seq<u8>, oam: Seq<u8>, r: LineRegs, x: int, obp: u8)
    requires
        r.lcdc & 0x02 != 0,
        best_sprite(vram, oam, r, line_sprites(oam, r, 40), x) is Some,
    ensures
        ({
            let i = best_sprite(vram, oam, r, line_sprites(oam, r, 40), x)->0;
            let attr = oam[4 * i + 3];
            let c = sprite_color(vram, oam, r, i, x);
            let shown = attr & 0x80 == 0 || bgwin_color(vram, r, x) == 0;
            &&& shown && attr & 0x10 != 0 ==> pixel_shade(vram, oam, r, x) == (r.obp1 >> (2 * c) as u8)
                & 3
            &&& shown && attr & 0x10 == 0 ==> pixel_shade(vram, oam, r, x) == (r.obp0 >> (2 * c) as u8)
                & 3
            &&& shown && attr & 0x10 != 0 ==> pixel_shade(vram, oam, LineRegs { obp0: obp, ..r }, x)
                == pixel_shade(vram, oam, r, x)
            &&& shown && attr & 0x10 == 0 ==> pixel_shade(vram, oam, LineRegs { obp1: obp, ..r }, x)
                == pixel_shade(vram, oam, r, x)
        }),
{
    let r0 = LineRegs { obp0: obp, ..r };
    let r1 = LineRegs { obp1: obp, ..r };
    lemma_palettes_do_not_select(vram, oam, r, r0, x);
    lemma_palettes_do_not_select(vram, oam, r, r1, x);
}

/// Which sprites and colours show does not depend on the palettes.
proof fn lemma_palettes_do_not_select(vram: Seq<u8>, oam: Seq<u8>, r: LineRegs, r2: LineRegs, x: int)
    requires
        r2.lcdc == r.lcdc && r2.ly == r.ly && r2.scx == r.scx && r2.scy == r.scy && r2.wx == r.wx
            && r2.wy == r.wy && r2.window_line == r.window_line && r2.bgp == r.bgp,
    ensures
        line_sprites(oam, r2, 40) == line_sprites(oam, r, 40),
        forall|s: Seq<int>| best_sprite(vram, oam, r2, s, x) == best_sprite(vram, oam, r, s, x),
        forall|i: int| sprite_color(vram, oam, r2, i, x) == sprite_color(vram, oam, r, i, x),
        bgwin_color(vram, r2, x) == bgwin_color(vram, r, x),
{
    lemma_line_sprites_regs(oam, r, r2, 40);
    assert forall|s: Seq<int>| best_sprite(vram, oam, r2, s, x) == best_sprite(vram, oam, r, s, x) by {
        lemma_best_sprite_regs(vram, oam, r, r2, s, x);
    }
}

proof fn lemma_line_sprites_regs(oam: Seq<u8>, r: LineRegs, r2: LineRegs, n: nat)
    requires
        r2.lcdc == r.lcdc && r2.ly == r.ly,
    ensures
        line_sprites(oam, r2, n) == line_sprites(oam, r, n),
    decreases n,
{
    if n > 0 {
        lemma_line_sprites_regs(oam, r, r2, (n - 1) as nat);
    }
}

proof fn lemma_best_sprite_regs(vram: Seq<u8>, oam: Seq<u8>, r: LineRegs, r2: LineRegs, s: Seq<int>, x: int)
    requires
        r2.lcdc == r.lcdc && r2.ly == r.ly,
    ensures
        best_sprite(vram, oam, r2, s, x) == best_sprite(vram, oam, r, s, x),
    decreases s.len(),
{
    if s.len() > 0 {
        lemma_best_sprite_regs(vram, oam, r, r2, s.drop_last(), x);
    }
}

/// Where no sprite shows (sprites off, or none opaque at `x`, or the winner
/// behind a non-zero background colour) the pixel is the background or
/// window colour index `c` shaded through BGP, bits 2c..2c+1; with LCDC bit
/// 0 clear that colour index is 0.
pub proof fn lemma_background_palette(vram: Seq<u8>, oam: Seq<u8>, r: LineRegs, x: int)
    ensures
        ({
            let c = bgwin_color(vram, r, x);
            let best = best_sprite(vram, oam, r, line_sprites(oam, r, 40), x);
            let hidden = best matches Some(i) && oam[4 * i + 3] & 0x80 != 0 && c != 0;
            &&& (r.lcdc & 0x02 == 0 || best is None || hidden) ==> pixel_shade(vram, oam, r, x)
                == (r.bgp >> (2 * c) as u8) & 3
            &&& r.lcdc & 0x01 == 0 ==> c == 0
        }),
{
}

/// Sprite priority among sprites listed in OAM order: the winner at `x` is
/// one of them with an opaque pixel there, and no other with an opaque pixel
/// there has a smaller X, nor the same X and an earlier OAM slot; there is no
/// winner exactly when none of them is opaque at `x`.
pub proof fn lemma_sprite_priority(vram: Seq<u8>, oam: Seq<u8>, r: LineRegs, s: Seq<int>, x: int)
    requires
        forall|a: int, b: int| 0 <= a < b < s.len() ==> s[a] < s[b],
    ensures
        best_sprite(vram, oam, r, s, x) is None <==> forall|k: int|
            0 <= k < s.len() ==> sprite_color(vram, oam, r, #[trigger] s[k], x) == 0,
        best_sprite(vram, oam, r, s, x) matches Some(i) ==> s.contains(i) && sprite_color(
            vram,
            oam,
            r,
            i,
            x,
        ) != 0 && forall|k: int|
            0 <= k < s.len() && sprite_color(vram, oam, r, #[trigger] s[k], x) != 0 ==> oam[4 * i
                + 1] < oam[4 * s[k] + 1] || (oam[4 * i + 1] == oam[4 * s[k] + 1] && i <= s[k]),
    decreases s.len(),
{
    if s.len() > 0 {
        let rest = s.drop_last();
        assert forall|a: int, b: int| 0 <= a < b < rest.len() implies rest[a] < rest[b] by {
            assert(rest[a] == s[a] && rest[b] == s[b]);
        }
        lemma_sprite_priority(vram, oam, r, rest, x);
        assert forall|k: int| 0 <= k < rest.len() implies rest[k] == s[k] && s[k] < s.last() by {}
        let last = s.len() - 1;
        if best_sprite(vram, oam, r, s, x) is None {
            assert forall|k: int| 0 <= k < s.len() implies sprite_color(
                vram,
                oam,
                r,
                #[trigger] s[k],
                x,
            ) == 0 by {
                if k < last {
                    assert(rest[k] == s[k]);
                }
            }
        }
        match best_sprite(vram, oam, r, s, x) {
            None => {},
            Some(i) => {
                match best_sprite(vram, oam, r, rest, x) {
                    None => {},
                    Some(j) => {
                        assert(rest.contains(j));
                        let kj = choose|kj: int| 0 <= kj < rest.len() && rest[kj] == j;
                        assert(j < s.last());
                    },
                }
                assert forall|k: int|
                    0 <= k < s.len() && sprite_color(vram, oam, r, #[trigger] s[k], x) != 0 implies oam[4
                    * i + 1] < oam[4 * s[k] + 1] || (oam[4 * i + 1] == oam[4 * s[k] + 1] && i <= s[k]) by {
                    if k < last {
                        assert(rest[k] == s[k]);
                    }
                }
                if i == s.last() {
                    assert(s[last] == i);
                } else {
                    let kj = choose|kj: int| 0 <= kj < rest.len() && rest[kj] == i;
                    assert(s[kj] == i);
                }
            },
        }
    }
}

/// The sprites of a line are listed in increasing OAM order.
pub proof fn lemma_line_sprites_ordered(oam: Seq<u8>, r: LineRegs, n: nat)
    ensures
        forall|a: int, b: int|
            0 <= a < b < line_sprites(oam, r, n).len() ==> line_sprites(oam, r, n)[a]
                < line_sprites(oam, r, n)[b],
    decreases n,
{
    if n > 0 {
        lemma_line_sprites_ordered(oam, r, (n - 1) as nat);
        lemma_line_sprites(oam, r, (n - 1) as nat);
    }
}

} // verus!
