use ferrisboy_core::cartridge::Cartridge;
use ferrisboy_core::cpu::{Cpu, FLAG_C, FLAG_H, FLAG_N, FLAG_Z};
use ferrisboy_core::interrupts::{TIMER, VBLANK};
use ferrisboy_core::mmu::Mmu;
use ferrisboy_core::ppu::Ppu;
use ferrisboy_core::timer::Timer;

/// A CPU about to run `program` from work RAM at 0xC000.
fn machine(program: &[u8]) -> (Cpu, Mmu) {
    let mut rom = vec![0u8; 0x8000];
    rom[0x147] = 0x00;
    let mut m = Mmu::new(Cartridge::new(rom, None).unwrap());
    for (i, b) in program.iter().enumerate() {
        m.write_byte(0xC000 + i as u16, *b);
    }
    let mut cpu = Cpu::new();
    cpu.pc = 0xC000;
    (cpu, m)
}

#[test]
fn loads_and_alu() {
    // LD A,0x12; LD B,0x34; ADD A,B; SUB 0x46
    let (mut cpu, mut m) = machine(&[0x3E, 0x12, 0x06, 0x34, 0x80, 0xD6, 0x46]);
    assert_eq!(cpu.step(&mut m), 8);
    assert_eq!(cpu.step(&mut m), 8);
    assert_eq!(cpu.step(&mut m), 4);
    assert_eq!(cpu.reg.a, 0x46);
    assert_eq!(cpu.reg.f, 0);
    assert_eq!(cpu.step(&mut m), 8);
    assert_eq!(cpu.reg.a, 0);
    assert_eq!(cpu.reg.f, FLAG_Z | FLAG_N);
    assert_eq!(cpu.pc, 0xC007);
}

#[test]
fn jump_call_and_return() {
    let (mut cpu, mut m) = machine(&[0xC3, 0x00, 0xC1]); // JP 0xC100
    m.write_byte(0xC100, 0xCD); // CALL 0xC200
    m.write_byte(0xC101, 0x00);
    m.write_byte(0xC102, 0xC2);
    m.write_byte(0xC200, 0xC9); // RET
    assert_eq!(cpu.step(&mut m), 16);
    assert_eq!(cpu.pc, 0xC100);
    assert_eq!(cpu.step(&mut m), 24);
    assert_eq!(cpu.pc, 0xC200);
    assert_eq!(cpu.sp, 0xFFFC);
    assert_eq!(m.read_byte(0xFFFC), 0x03);
    assert_eq!(m.read_byte(0xFFFD), 0xC1);
    assert_eq!(cpu.step(&mut m), 16);
    assert_eq!(cpu.pc, 0xC103);
    assert_eq!(cpu.sp, 0xFFFE);
}

#[test]
fn relative_jumps() {
    // JR -2 loops on itself; JR NZ is not taken when Z is set.
    let (mut cpu, mut m) = machine(&[0x18, 0xFE]);
    assert_eq!(cpu.step(&mut m), 12);
    assert_eq!(cpu.pc, 0xC000);
    let (mut cpu, mut m) = machine(&[0xAF, 0x20, 0x10, 0x28, 0x02]); // XOR A; JR NZ,+16; JR Z,+2
    assert_eq!(cpu.step(&mut m), 4);
    assert_eq!(cpu.step(&mut m), 8);
    assert_eq!(cpu.pc, 0xC003);
    assert_eq!(cpu.step(&mut m), 12);
    assert_eq!(cpu.pc, 0xC007);
}

#[test]
fn indirect_loads_move_hl() {
    // LD HL,0xD000; LD (HL),0x77; LD A,(HL+); LD (HL-),A
    let (mut cpu, mut m) = machine(&[0x21, 0x00, 0xD0, 0x36, 0x77, 0x2A, 0x32]);
    assert_eq!(cpu.step(&mut m), 12);
    assert_eq!(cpu.step(&mut m), 12);
    assert_eq!(m.read_byte(0xD000), 0x77);
    assert_eq!(cpu.step(&mut m), 8);
    assert_eq!(cpu.reg.a, 0x77);
    assert_eq!(cpu.reg.hl(), 0xD001);
    assert_eq!(cpu.step(&mut m), 8);
    assert_eq!(m.read_byte(0xD001), 0x77);
    assert_eq!(cpu.reg.hl(), 0xD000);
}

#[test]
fn pop_af_clears_low_flag_nibble() {
    // LD BC,0x1234; PUSH BC; POP AF
    let (mut cpu, mut m) = machine(&[0x01, 0x34, 0x12, 0xC5, 0xF1]);
    assert_eq!(cpu.step(&mut m), 12);
    assert_eq!(cpu.step(&mut m), 16);
    assert_eq!(cpu.step(&mut m), 12);
    assert_eq!(cpu.reg.a, 0x12);
    assert_eq!(cpu.reg.f, 0x30);
}

#[test]
fn cb_prefixed_operations() {
    // LD A,0x12; SWAP A; BIT 7,A; SET 7,A; RES 0,A; SRL A; LD HL,0xC800; RLC (HL)
    let (mut cpu, mut m) = machine(&[
        0x3E, 0x12, 0xCB, 0x37, 0xCB, 0x7F, 0xCB, 0xFF, 0xCB, 0x87, 0xCB, 0x3F, 0x21, 0x00, 0xC8,
        0xCB, 0x06,
    ]);
    m.write_byte(0xC800, 0x81);
    cpu.step(&mut m);
    assert_eq!(cpu.step(&mut m), 8);
    assert_eq!(cpu.reg.a, 0x21);
    assert_eq!(cpu.step(&mut m), 8);
    assert_eq!(cpu.reg.f, FLAG_Z | FLAG_H);
    assert_eq!(cpu.step(&mut m), 8);
    assert_eq!(cpu.reg.a, 0xA1);
    assert_eq!(cpu.step(&mut m), 8);
    assert_eq!(cpu.reg.a, 0xA0);
    assert_eq!(cpu.step(&mut m), 8);
    assert_eq!(cpu.reg.a, 0x50);
    cpu.step(&mut m);
    assert_eq!(cpu.step(&mut m), 16);
    assert_eq!(m.read_byte(0xC800), 0x03);
    assert_eq!(cpu.reg.f, FLAG_C);
}

#[test]
fn daa_after_add_is_decimal() {
    // LD A,0x45; ADD A,0x38; DAA
    let (mut cpu, mut m) = machine(&[0x3E, 0x45, 0xC6, 0x38, 0x27]);
    cpu.step(&mut m);
    cpu.step(&mut m);
    assert_eq!(cpu.step(&mut m), 4);
    assert_eq!(cpu.reg.a, 0x83);
}

#[test]
fn daa_after_sub_is_decimal() {
    // LD A,0x42; SUB 0x17; DAA
    let (mut cpu, mut m) = machine(&[0x3E, 0x42, 0xD6, 0x17, 0x27]);
    cpu.step(&mut m);
    cpu.step(&mut m);
    cpu.step(&mut m);
    assert_eq!(cpu.reg.a, 0x25);
    assert!(!cpu.reg.flag(FLAG_C));
}

#[test]
fn rst_and_illegal_opcodes() {
    let (mut cpu, mut m) = machine(&[0xD3, 0xFF]);
    assert_eq!(cpu.step(&mut m), 4);
    assert_eq!(cpu.pc, 0xC001);
    assert_eq!(cpu.step(&mut m), 16);
    assert_eq!(cpu.pc, 0x0038);
    assert_eq!(cpu.pop_word(&mut m), 0xC002);
}

#[test]
fn ei_takes_effect_after_the_next_instruction() {
    // EI; NOP; NOP with VBlank requested and enabled.
    let (mut cpu, mut m) = machine(&[0xFB, 0x00, 0x00]);
    m.write_byte(0xFFFF, VBLANK);
    m.write_byte(0xFF0F, VBLANK);
    assert_eq!(cpu.step(&mut m), 4);
    assert!(!cpu.ime);
    assert_eq!(cpu.step(&mut m), 4);
    assert_eq!(cpu.pc, 0xC002);
    assert!(cpu.ime);
    assert_eq!(cpu.step(&mut m), 20);
    assert_eq!(cpu.pc, 0x0040);
}

#[test]
fn di_cancels_a_pending_ei() {
    // EI; DI; NOP with VBlank requested and enabled.
    let (mut cpu, mut m) = machine(&[0xFB, 0xF3, 0x00]);
    m.write_byte(0xFFFF, VBLANK);
    m.write_byte(0xFF0F, VBLANK);
    cpu.step(&mut m);
    assert_eq!(cpu.step(&mut m), 4);
    assert!(!cpu.ime);
    assert!(!cpu.ime_pending);
    assert_eq!(cpu.step(&mut m), 4);
    assert_eq!(cpu.pc, 0xC003);
    assert!(!cpu.ime);
}

#[test]
fn halt_wakes_without_ime_and_runs_on() {
    // HALT; INC A
    let (mut cpu, mut m) = machine(&[0x76, 0x3C]);
    assert_eq!(cpu.step(&mut m), 4);
    assert!(cpu.halted);
    assert_eq!(cpu.step(&mut m), 4);
    assert_eq!(cpu.pc, 0xC001);
    m.write_byte(0xFFFF, VBLANK);
    m.write_byte(0xFF0F, VBLANK);
    let a = cpu.reg.a;
    assert_eq!(cpu.step(&mut m), 4);
    assert!(!cpu.halted);
    assert_eq!(cpu.reg.a, a.wrapping_add(1));
    assert_eq!(cpu.pc, 0xC002);
}

#[test]
fn timer_overflow_reloads_tma() {
    let mut t = Timer::new();
    t.write_reg(0xFF07, 0x05);
    t.write_reg(0xFF06, 0x42);
    t.write_reg(0xFF05, 0xFF);
    assert_eq!(t.step(20), TIMER);
    assert_eq!(t.read_reg(0xFF05), 0x42);
}

#[test]
fn divider_advances_every_256_cycles() {
    let mut t = Timer::new();
    assert_eq!(t.step(256), 0);
    assert_eq!(t.read_reg(0xFF04), 0xAC);
}

#[test]
fn ppu_reports_a_frame_every_70224_cycles() {
    let mut p = Ppu::new();
    assert_eq!(p.step(144 * 456 - 1), 0);
    assert!(!p.take_frame_ready());
    assert_eq!(p.step(1), VBLANK);
    assert!(p.take_frame_ready());
    assert_eq!(p.read_reg(0xFF44), 144);
    assert_eq!(p.read_reg(0xFF41) & 0x03, 1);
    assert_eq!(p.step(70224), VBLANK);
    assert!(p.take_frame_ready());
    assert_eq!(p.read_reg(0xFF44), 144);
}

#[test]
fn stat_interrupt_on_rising_edge() {
    // Enable the HBlank STAT source: it rises once per visible line.
    let mut p = Ppu::new();
    p.write_reg(0xFF41, 0x08);
    assert_eq!(p.step(251), 0);
    assert_eq!(p.step(1) & 0x02, 0x02);
    assert_eq!(p.step(100), 0);
}
