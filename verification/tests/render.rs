use ferrisboy_core::ppu::{shades_to_xrgb, Ppu};

/// Write one row (two bit planes) of tile `tile` in the 0x8000 tile area.
fn tile_row(p: &mut Ppu, tile: u16, row: u16, lo: u8, hi: u8) {
    p.write_vram(0x8000 + tile * 16 + row * 2, lo);
    p.write_vram(0x8000 + tile * 16 + row * 2 + 1, hi);
}

#[test]
fn background_line_is_rendered_when_drawing_ends() {
    let mut p = Ppu::new();
    tile_row(&mut p, 1, 0, 0xFF, 0x00);
    p.write_vram(0x9800, 1);
    assert_eq!(p.step(251), 0);
    assert!(p.framebuffer().iter().all(|&s| s == 0));
    p.step(1);
    // BGP 0xFC maps colour 1 to shade 3.
    assert!(p.framebuffer()[0..8].iter().all(|&s| s == 3));
    assert!(p.framebuffer()[8..160].iter().all(|&s| s == 0));
    assert!(p.framebuffer()[160..].iter().all(|&s| s == 0));
}

#[test]
fn scrolling_moves_the_background() {
    let mut p = Ppu::new();
    tile_row(&mut p, 1, 0, 0xFF, 0x00);
    p.write_vram(0x9800, 1);
    p.write_reg(0xFF43, 4); // SCX = 4
    p.step(252);
    assert!(p.framebuffer()[0..4].iter().all(|&s| s == 3));
    assert!(p.framebuffer()[4..160].iter().all(|&s| s == 0));
}

#[test]
fn sprites_mix_by_priority_and_transparency() {
    let mut p = Ppu::new();
    p.write_reg(0xFF40, 0x93); // sprites on
    p.write_reg(0xFF48, 0xE4); // OBP0: identity
    tile_row(&mut p, 2, 0, 0x80, 0x80); // colour 3 in column 0 only
    tile_row(&mut p, 3, 0, 0xC0, 0x00); // colour 1 in columns 0 and 1
    for (i, b) in [16u8, 8, 2, 0, 16, 8, 3, 0].iter().enumerate() {
        p.write_oam(0xFE00 + i as u16, *b);
    }
    p.step(252);
    let fb = p.framebuffer();
    // Same X: the earlier sprite wins column 0; its transparent column 1
    // lets the later sprite show.
    assert_eq!(fb[0], 3);
    assert_eq!(fb[1], 1);
    assert_eq!(fb[2], 0);
}

#[test]
fn sprite_behind_background() {
    let mut p = Ppu::new();
    p.write_reg(0xFF40, 0x93);
    p.write_reg(0xFF47, 0xE4); // BGP: identity
    p.write_reg(0xFF48, 0xE4);
    tile_row(&mut p, 1, 0, 0x80, 0x00); // background colour 1 in column 0
    p.write_vram(0x9800, 1);
    tile_row(&mut p, 2, 0, 0xC0, 0xC0); // sprite colour 3 in columns 0 and 1
    for (i, b) in [16u8, 8, 2, 0x80].iter().enumerate() {
        p.write_oam(0xFE00 + i as u16, *b);
    }
    p.step(252);
    let fb = p.framebuffer();
    assert_eq!(fb[0], 1); // behind a non-zero background pixel
    assert_eq!(fb[1], 3); // in front of background colour 0
}

#[test]
fn window_keeps_its_own_line_counter() {
    let mut p = Ppu::new();
    // Window on, its map at 0x9C00; it starts on line 1 at column 80.
    p.write_reg(0xFF40, 0xF1);
    p.write_reg(0xFF47, 0xE4);
    p.write_reg(0xFF4A, 1);
    p.write_reg(0xFF4B, 87);
    tile_row(&mut p, 1, 0, 0xFF, 0x00); // row 0: colour 1
    tile_row(&mut p, 1, 1, 0x00, 0xFF); // row 1: colour 2
    p.write_vram(0x9C00, 1);
    p.step(456 + 252);
    let fb = p.framebuffer();
    // Line 1 shows window row 0, not row 1.
    assert!(fb[160..240].iter().all(|&s| s == 0));
    assert!(fb[240..248].iter().all(|&s| s == 1));
    p.step(456);
    let fb = p.framebuffer();
    assert!(fb[320 + 80..320 + 88].iter().all(|&s| s == 2));
}

#[test]
fn lcd_off_freezes_the_ppu() {
    let mut p = Ppu::new();
    p.write_reg(0xFF40, 0x11);
    assert_eq!(p.step(70224), 0);
    assert_eq!(p.read_reg(0xFF44), 0);
    assert!(!p.take_frame_ready());
    p.write_reg(0xFF40, 0x91);
    assert_eq!(p.step(70224), 0x01);
    assert!(p.take_frame_ready());
}

#[test]
fn oam_reads_return_the_last_write() {
    let mut p = Ppu::new();
    assert_eq!(p.read_oam(0xFE10), 0);
    p.write_oam(0xFE10, 1);
    p.write_oam(0xFE11, 2);
    p.write_oam(0xFE10, 3);
    assert_eq!(p.read_oam(0xFE10), 3);
    assert_eq!(p.read_oam(0xFE11), 2);
    assert_eq!(p.read_oam(0xFE12), 0);
}

#[test]
fn frames_are_reported_across_split_steps() {
    // Steps of uneven sizes adding up to one frame, with a take after each:
    // exactly one take reports the frame, and every step raises only the
    // VBlank / STAT bits.
    let mut p = Ppu::new();
    p.write_reg(0xFF41, 0x78);
    let mut left: u32 = 70224;
    let mut reported = 0;
    let mut size: u32 = 1;
    while left > 0 {
        let n = size.min(left);
        let r = p.step(n);
        assert_eq!(r & !0x03, 0);
        if p.take_frame_ready() {
            reported += 1;
        }
        left -= n;
        size = size * 3 % 1000 + 1;
    }
    assert_eq!(reported, 1);
}

#[test]
fn packed_pixels_use_the_dmg_palette() {
    let shades = [0u8, 1, 2, 3, 6];
    let mut out = [7u32; 7];
    shades_to_xrgb(&shades, &mut out);
    assert_eq!(out, [0x9BBC0F, 0x8BAC0F, 0x306230, 0x0F380F, 0x306230, 7, 7]);
    let mut short = [0u32; 2];
    shades_to_xrgb(&shades, &mut short);
    assert_eq!(short, [0x9BBC0F, 0x8BAC0F]);
}
