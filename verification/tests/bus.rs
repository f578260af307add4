use ferrisboy_core::apu::Apu;
use ferrisboy_core::cartridge::Cartridge;
use ferrisboy_core::cpu::Cpu;
use ferrisboy_core::interrupts::{JOYPAD, LCD_STAT, SERIAL, TIMER, VBLANK, VECTORS};
use ferrisboy_core::joypad::Joypad;
use ferrisboy_core::mmu::Mmu;
use ferrisboy_core::ppu::{shades_to_rgba, Ppu};
use ferrisboy_core::serial::{Serial, MAX_OUTPUT};
use ferrisboy_core::timer::Timer;
use ferrisboy_core::Button;

fn mmu() -> Mmu {
    let mut rom = vec![0u8; 0x8000];
    rom[0x147] = 0x00;
    Mmu::new(Cartridge::new(rom, None).unwrap())
}

#[test]
fn work_ram_echo_and_high_ram() {
    let mut m = mmu();
    m.write_byte(0xC123, 0x42);
    assert_eq!(m.read_byte(0xC123), 0x42);
    assert_eq!(m.read_byte(0xE123), 0x42);
    m.write_byte(0xFDFF, 0x17);
    assert_eq!(m.read_byte(0xDDFF), 0x17);
    m.write_byte(0xFF80, 0x01);
    m.write_byte(0xFFFE, 0x02);
    assert_eq!(m.read_byte(0xFF80), 0x01);
    assert_eq!(m.read_byte(0xFFFE), 0x02);
    assert_eq!(m.read_byte(0xC124), 0x00);
}

#[test]
fn prohibited_and_unmapped_read_ff() {
    let mut m = mmu();
    m.write_byte(0xFEA0, 0x12);
    assert_eq!(m.read_byte(0xFEA0), 0xFF);
    assert_eq!(m.read_byte(0xFEFF), 0xFF);
    assert_eq!(m.read_byte(0xFF03), 0xFF);
    assert_eq!(m.read_byte(0xFF4C), 0xFF);
    assert_eq!(m.read_byte(0xFF7F), 0xFF);
}

#[test]
fn interrupt_flags() {
    let mut m = mmu();
    // Post-boot IF = 0xE1 (VBlank requested), IE = 0.
    assert_eq!(m.read_byte(0xFF0F), 0xE1);
    assert_eq!(m.pending_interrupts(), 0);
    m.write_byte(0xFFFF, VBLANK | TIMER);
    assert_eq!(m.read_byte(0xFFFF), VBLANK | TIMER);
    assert_eq!(m.pending_interrupts(), VBLANK);
    m.write_byte(0xFF0F, 0xFF);
    assert_eq!(m.read_byte(0xFF0F), 0xFF);
    assert_eq!(m.pending_interrupts(), VBLANK | TIMER);
    m.write_byte(0xFF0F, 0x00);
    assert_eq!(m.read_byte(0xFF0F), 0xE0);
    m.request_interrupt(TIMER | SERIAL);
    assert_eq!(m.pending_interrupts(), TIMER);
    m.clear_interrupt(TIMER);
    assert_eq!(m.pending_interrupts(), 0);
    assert_eq!(m.read_byte(0xFF0F), 0xE0 | SERIAL);
    assert_eq!((VBLANK, LCD_STAT, TIMER, SERIAL, JOYPAD), (1, 2, 4, 8, 16));
    assert_eq!(VECTORS, [0x40, 0x48, 0x50, 0x58, 0x60]);
}

#[test]
fn oam_dma_copies_a_page() {
    let mut m = mmu();
    for i in 0..0xA0u16 {
        m.write_byte(0xC000 + i, i as u8 ^ 0x5A);
    }
    m.write_byte(0xFF46, 0xC0);
    for i in 0..0xA0u16 {
        assert_eq!(m.read_byte(0xFE00 + i), i as u8 ^ 0x5A);
    }
    // The DMA register itself is not updated through the bus.
    assert_eq!(m.read_byte(0xFF46), 0xFF);
}

#[test]
fn vram_and_ppu_registers() {
    let mut m = mmu();
    m.write_byte(0x8000, 0x11);
    m.write_byte(0x9FFF, 0x22);
    assert_eq!(m.read_byte(0x8000), 0x11);
    assert_eq!(m.read_byte(0x9FFF), 0x22);
    assert_eq!(m.read_byte(0xFF40), 0x91);
    assert_eq!(m.read_byte(0xFF41), 0x85);
    assert_eq!(m.read_byte(0xFF47), 0xFC);
    m.write_byte(0xFF41, 0xFF);
    assert_eq!(m.read_byte(0xFF41), 0xFD);
    m.write_byte(0xFF44, 0x33);
    assert_eq!(m.read_byte(0xFF44), 0x00);
    m.write_byte(0xFF42, 0x07);
    assert_eq!(m.read_byte(0xFF42), 0x07);
}

#[test]
fn ppu_direct_access() {
    let mut p = Ppu::new();
    p.write_vram(0x2001, 0x77);
    assert_eq!(p.read_vram(0x8001), 0x77);
    p.write_oam(0xFE9F, 0x12);
    assert_eq!(p.read_oam(0xFE9F), 0x12);
    assert_eq!(p.read_reg(0xFF4C), 0xFF);
    p.write_reg(0xFF46, 0xC1);
    assert_eq!(p.read_reg(0xFF46), 0xC1);
    assert_eq!(p.step(456), 0);
    assert_eq!(p.read_reg(0xFF44), 1);
    assert!(!p.take_frame_ready());
    assert_eq!(p.framebuffer().len(), 160 * 144);
    // Line 0 was rendered from tile 0, whose first row now has a high bit
    // plane of 0x77; the other lines are still blank.
    assert_eq!(p.framebuffer()[0], 0);
    assert_eq!(p.framebuffer()[1], 3);
    assert!(p.framebuffer()[160..].iter().all(|&s| s == 0));
}

#[test]
fn shades_map_to_dmg_palette() {
    let shades = [0u8, 1, 2, 3, 7];
    let mut out = [0u8; 22];
    shades_to_rgba(&shades, &mut out);
    assert_eq!(&out[0..4], &[0x9B, 0xBC, 0x0F, 0xFF]);
    assert_eq!(&out[4..8], &[0x8B, 0xAC, 0x0F, 0xFF]);
    assert_eq!(&out[8..12], &[0x30, 0x62, 0x30, 0xFF]);
    assert_eq!(&out[12..16], &[0x0F, 0x38, 0x0F, 0xFF]);
    // Only the low two bits of a shade count.
    assert_eq!(&out[16..20], &[0x0F, 0x38, 0x0F, 0xFF]);
    // A partial pixel at the end is left alone.
    assert_eq!(&out[20..22], &[0, 0]);
    let mut short = [9u8; 6];
    shades_to_rgba(&shades, &mut short);
    assert_eq!(short, [0x9B, 0xBC, 0x0F, 0xFF, 9, 9]);
}

#[test]
fn timer_registers() {
    let mut t = Timer::new();
    assert_eq!(t.read_reg(0xFF04), 0xAB);
    assert_eq!(t.read_reg(0xFF07), 0xF8);
    t.write_reg(0xFF04, 0x55);
    assert_eq!(t.read_reg(0xFF04), 0x00);
    t.write_reg(0xFF05, 0x12);
    t.write_reg(0xFF06, 0x34);
    t.write_reg(0xFF07, 0xFD);
    assert_eq!(t.read_reg(0xFF05), 0x12);
    assert_eq!(t.read_reg(0xFF06), 0x34);
    assert_eq!(t.read_reg(0xFF07), 0xFD);
    assert_eq!(t.read_reg(0xFF08), 0xFF);
    // TAC 0xFD: enabled, one increment every 16 T-cycles.
    assert_eq!(t.step(1024), 0);
    assert_eq!(t.read_reg(0xFF05), 0x12 + 64);
}

#[test]
fn apu_register_file() {
    let mut a = Apu::new();
    assert_eq!(a.read_reg(0xFF10), 0);
    a.write_reg(0xFF26, 0x80);
    a.write_reg(0xFF3F, 0x12);
    assert_eq!(a.read_reg(0xFF26), 0x80);
    assert_eq!(a.read_reg(0xFF3F), 0x12);
    a.step(100);
    assert_eq!(a.read_reg(0xFF26), 0x80);
    let mut m = mmu();
    m.write_byte(0xFF24, 0x77);
    assert_eq!(m.read_byte(0xFF24), 0x77);
}

#[test]
fn joypad_matrix() {
    let mut j = Joypad::new();
    assert_eq!(j.read(), 0xFF);
    // Select the d-pad line (bit 4 low).
    j.write(0x20);
    assert_eq!(j.read(), 0xEF);
    assert!(j.set_button(Button::Down, true));
    assert_eq!(j.read(), 0xE7);
    // A second press is not fresh.
    assert!(!j.set_button(Button::Down, true));
    // A press on the unselected line raises nothing and is not visible.
    assert!(!j.set_button(Button::A, true));
    assert_eq!(j.read(), 0xE7);
    j.write(0x10);
    assert_eq!(j.read(), 0xDE);
    j.set_button(Button::A, false);
    j.set_button(Button::Down, false);
    assert_eq!(j.read(), 0xDF);
    // Only bits 4-5 are writable.
    j.write(0xFF);
    assert_eq!(j.read(), 0xFF);
}

#[test]
fn joypad_press_release_restores() {
    for b in [Button::Right, Button::Left, Button::Up, Button::Down, Button::A, Button::B, Button::Select, Button::Start] {
        let mut j = Joypad::new();
        j.write(0x00);
        let before = j.read();
        assert!(j.set_button(b, true));
        assert_ne!(j.read(), before);
        assert!(!j.set_button(b, false));
        assert_eq!(j.read(), before);
        assert_eq!(j.read() & 0xC0, 0xC0);
    }
}

#[test]
fn serial_captures_transfers() {
    let mut s = Serial::new();
    assert_eq!(s.read_reg(0xFF02), 0x7E);
    s.write_reg(0xFF01, b'O');
    s.write_reg(0xFF02, 0x81);
    assert_eq!(s.read_reg(0xFF01), 0xFF);
    // The start bit clears; the clock-select bit stays.
    assert_eq!(s.read_reg(0xFF02), 0x7F);
    s.write_reg(0xFF01, b'K');
    // External clock: no transfer.
    s.write_reg(0xFF02, 0x80);
    assert_eq!(s.read_reg(0xFF01), b'K');
    assert_eq!(s.read_reg(0xFF02), 0xFE);
    s.write_reg(0xFF02, 0x81);
    assert_eq!(s.step(8), 0);
    assert_eq!(s.take_output(), b"OK".to_vec());
    assert!(s.take_output().is_empty());
}

#[test]
fn serial_output_is_capped() {
    let mut s = Serial::new();
    for i in 0..(MAX_OUTPUT + 1) {
        s.write_reg(0xFF01, (i % 251) as u8);
        s.write_reg(0xFF02, 0x81);
    }
    let out = s.take_output();
    assert_eq!(out.len(), MAX_OUTPUT / 2 + 1);
    assert_eq!(out[0], ((MAX_OUTPUT / 2) % 251) as u8);
    assert_eq!(*out.last().unwrap(), (MAX_OUTPUT % 251) as u8);
}

#[test]
fn serial_through_the_bus() {
    let mut m = mmu();
    m.write_byte(0xFF01, b'P');
    m.write_byte(0xFF02, 0x81);
    assert_eq!(m.read_byte(0xFF01), 0xFF);
}

#[test]
fn interrupt_dispatch_pushes_pc_and_jumps() {
    let mut m = mmu();
    let mut cpu = Cpu::new();
    cpu.ime = true;
    m.write_byte(0xFFFF, 0x1F);
    m.write_byte(0xFF0F, TIMER | SERIAL);
    assert_eq!(cpu.step(&mut m), 20);
    assert_eq!(cpu.pc, 0x0050);
    assert_eq!(cpu.sp, 0xFFFC);
    assert!(!cpu.ime);
    assert_eq!(m.read_byte(0xFFFC), 0x00);
    assert_eq!(m.read_byte(0xFFFD), 0x01);
    assert_eq!(m.read_byte(0xFF0F), 0xE0 | SERIAL);
    assert_eq!(cpu.pop_word(&mut m), 0x0100);
    assert_eq!(cpu.sp, 0xFFFE);
}

#[test]
fn halted_cpu_idles() {
    let mut m = mmu();
    let mut cpu = Cpu::new();
    cpu.halt(&m);
    assert!(cpu.halted);
    assert_eq!(cpu.step(&mut m), 4);
    assert_eq!(cpu.pc, 0x0100);
    assert!(cpu.halted);
}

#[test]
fn pending_interrupt_wakes_halt_without_ime() {
    let mut m = mmu();
    let mut cpu = Cpu::new();
    cpu.halted = true;
    m.write_byte(0xFFFF, VBLANK);
    assert_eq!(cpu.service_interrupt(&mut m), None);
    assert!(!cpu.halted);
    assert_eq!(cpu.pc, 0x0100);
}

#[test]
fn halt_bug_repeats_one_fetch() {
    let mut rom = vec![0u8; 0x8000];
    rom[0x100] = 0xAA;
    rom[0x101] = 0xBB;
    let mut m = Mmu::new(Cartridge::new(rom, None).unwrap());
    let mut cpu = Cpu::new();
    m.write_byte(0xFFFF, VBLANK);
    cpu.halt(&m);
    assert!(!cpu.halted);
    assert!(cpu.halt_bug);
    assert_eq!(cpu.fetch_byte(&mut m), 0xAA);
    assert_eq!(cpu.pc, 0x0100);
    assert_eq!(cpu.fetch_byte(&mut m), 0xAA);
    assert_eq!(cpu.pc, 0x0101);
    assert_eq!(cpu.fetch_byte(&mut m), 0xBB);
}

#[test]
fn fetch_word_and_stack() {
    let mut rom = vec![0u8; 0x8000];
    rom[0x100] = 0x34;
    rom[0x101] = 0x12;
    let mut m = Mmu::new(Cartridge::new(rom, None).unwrap());
    let mut cpu = Cpu::new();
    assert_eq!(cpu.fetch_word(&mut m), 0x1234);
    assert_eq!(cpu.pc, 0x0102);
    cpu.sp = 0xD000;
    cpu.push_word(&mut m, 0xBEEF);
    assert_eq!(cpu.sp, 0xCFFE);
    assert_eq!(m.read_byte(0xCFFF), 0xBE);
    assert_eq!(m.read_byte(0xCFFE), 0xEF);
    assert_eq!(cpu.pop_word(&mut m), 0xBEEF);
    assert_eq!(cpu.sp, 0xD000);
    cpu.schedule_ei();
    cpu.disable_interrupts();
    assert!(!cpu.ime);
}

#[test]
fn tick_clocks_timer_and_ppu() {
    let mut m = mmu();
    m.write_byte(0xFF0F, 0x00);
    m.tick(70224);
    // One whole frame: LY is back at 0 and VBlank was requested once.
    assert_eq!(m.read_byte(0xFF44), 0);
    assert_eq!(m.read_byte(0xFF0F), 0xE0 | VBLANK);
    // DIV is the upper byte of a counter that started at 0xAB00.
    assert_eq!(m.read_byte(0xFF04), 0xBD);
}

#[test]
fn device_memory_write_read_through_bus() {
    let mut m = mmu();
    for (addr, val) in [(0x8000u16, 0x01u8), (0x9ABC, 0x02), (0xFE00, 0x03), (0xFE9F, 0x04), (0xFF10, 0x05), (0xFF3F, 0x06)] {
        m.write_byte(addr, val);
        assert_eq!(m.read_byte(addr), val);
    }
}
