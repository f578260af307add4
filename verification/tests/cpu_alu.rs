use ferrisboy_core::cpu::{Cpu, Registers, FLAG_C, FLAG_H, FLAG_N, FLAG_Z};

fn cpu_with(a: u8, f: u8) -> Cpu {
    let mut cpu = Cpu::new();
    cpu.reg.a = a;
    cpu.reg.f = f;
    cpu
}

#[test]
fn post_boot_registers() {
    let r = Registers::post_boot_dmg();
    assert_eq!(r.af(), 0x01B0);
    assert_eq!(r.bc(), 0x0013);
    assert_eq!(r.de(), 0x00D8);
    assert_eq!(r.hl(), 0x014D);
    let cpu = Cpu::new();
    assert_eq!(cpu.pc, 0x0100);
    assert_eq!(cpu.sp, 0xFFFE);
    assert!(!cpu.ime);
    assert!(!cpu.halted);
    assert!(!cpu.halt_bug);
}

#[test]
fn register_pairs_round_trip() {
    let mut r = Registers::default();
    r.set_bc(0x1234);
    r.set_de(0xBEEF);
    r.set_hl(0x00FF);
    assert_eq!((r.b, r.c), (0x12, 0x34));
    assert_eq!(r.bc(), 0x1234);
    assert_eq!(r.de(), 0xBEEF);
    assert_eq!(r.hl(), 0x00FF);
    // The low nibble of F always reads as zero.
    r.set_af(0x12FF);
    assert_eq!(r.a, 0x12);
    assert_eq!(r.f, 0xF0);
    assert_eq!(r.af(), 0x12F0);
}

#[test]
fn set_flag_keeps_low_nibble_zero() {
    let mut r = Registers::default();
    r.f = 0x0F;
    r.set_flag(FLAG_Z, true);
    assert_eq!(r.f, 0x80);
    assert!(r.flag(FLAG_Z));
    assert!(!r.flag(FLAG_C));
    r.set_flag(FLAG_C, true);
    r.set_flag(FLAG_Z, false);
    assert_eq!(r.f, 0x10);
    assert!(r.flag(FLAG_C));
}

#[test]
fn add8_sets_all_flags() {
    let mut cpu = cpu_with(0x3A, 0x00);
    cpu.add8(0xC6);
    assert_eq!(cpu.reg.a, 0x00);
    assert_eq!(cpu.reg.f, FLAG_Z | FLAG_H | FLAG_C);
    let mut cpu = cpu_with(0x12, 0xF0);
    cpu.add8(0x34);
    assert_eq!(cpu.reg.a, 0x46);
    assert_eq!(cpu.reg.f, 0x00);
}

#[test]
fn adc8_adds_carry_in() {
    let mut cpu = cpu_with(0xE1, FLAG_C);
    cpu.adc8(0x0F);
    assert_eq!(cpu.reg.a, 0xF1);
    assert_eq!(cpu.reg.f, FLAG_H);
    let mut cpu = cpu_with(0xE1, FLAG_C);
    cpu.adc8(0x1E);
    assert_eq!(cpu.reg.a, 0x00);
    assert_eq!(cpu.reg.f, FLAG_Z | FLAG_H | FLAG_C);
}

#[test]
fn sub8_and_sbc8_borrow() {
    let mut cpu = cpu_with(0x3E, 0x00);
    cpu.sub8(0x3E);
    assert_eq!(cpu.reg.a, 0x00);
    assert_eq!(cpu.reg.f, FLAG_Z | FLAG_N);
    let mut cpu = cpu_with(0x3E, 0x00);
    cpu.sub8(0x0F);
    assert_eq!(cpu.reg.a, 0x2F);
    assert_eq!(cpu.reg.f, FLAG_N | FLAG_H);
    let mut cpu = cpu_with(0x3B, FLAG_C);
    cpu.sbc8(0x2A);
    assert_eq!(cpu.reg.a, 0x10);
    assert_eq!(cpu.reg.f, FLAG_N);
    let mut cpu = cpu_with(0x3B, FLAG_C);
    cpu.sbc8(0x4F);
    assert_eq!(cpu.reg.a, 0xEB);
    assert_eq!(cpu.reg.f, FLAG_N | FLAG_H | FLAG_C);
}

#[test]
fn cp8_keeps_a_and_matches_sub_flags() {
    for (a, v) in [(0x3Cu8, 0x2Fu8), (0x3C, 0x3C), (0x3C, 0x40), (0x00, 0xFF)] {
        let mut cp = cpu_with(a, 0x00);
        cp.cp8(v);
        let mut sub = cpu_with(a, 0x00);
        sub.sub8(v);
        assert_eq!(cp.reg.a, a);
        assert_eq!(cp.reg.f, sub.reg.f);
    }
}

#[test]
fn logic_ops() {
    let mut cpu = cpu_with(0x5A, FLAG_C);
    cpu.and8(0x3F);
    assert_eq!(cpu.reg.a, 0x1A);
    assert_eq!(cpu.reg.f, FLAG_H);
    let mut cpu = cpu_with(0x00, FLAG_C);
    cpu.or8(0x00);
    assert_eq!(cpu.reg.a, 0x00);
    assert_eq!(cpu.reg.f, FLAG_Z);
    let mut cpu = cpu_with(0xFF, FLAG_N | FLAG_H);
    cpu.xor8(0xFF);
    assert_eq!(cpu.reg.a, 0x00);
    assert_eq!(cpu.reg.f, FLAG_Z);
}

#[test]
fn inc8_dec8_keep_carry() {
    let mut cpu = cpu_with(0x00, FLAG_C);
    assert_eq!(cpu.inc8(0x0F), 0x10);
    assert_eq!(cpu.reg.f, FLAG_H | FLAG_C);
    assert_eq!(cpu.inc8(0xFF), 0x00);
    assert_eq!(cpu.reg.f, FLAG_Z | FLAG_H | FLAG_C);
    let mut cpu = cpu_with(0x00, 0x00);
    assert_eq!(cpu.dec8(0x01), 0x00);
    assert_eq!(cpu.reg.f, FLAG_Z | FLAG_N);
    assert_eq!(cpu.dec8(0x00), 0xFF);
    assert_eq!(cpu.reg.f, FLAG_N | FLAG_H);
}

#[test]
fn add16_hl_flags_leave_z() {
    let mut cpu = cpu_with(0x00, FLAG_Z);
    cpu.reg.set_hl(0x8A23);
    cpu.add16_hl(0x0605);
    assert_eq!(cpu.reg.hl(), 0x9028);
    assert_eq!(cpu.reg.f, FLAG_Z | FLAG_H);
    cpu.reg.set_hl(0x8A23);
    cpu.add16_hl(0x8A23);
    assert_eq!(cpu.reg.hl(), 0x1446);
    assert_eq!(cpu.reg.f, FLAG_Z | FLAG_H | FLAG_C);
}

#[test]
fn add_sp_e8_signed_offset() {
    let mut cpu = cpu_with(0x00, FLAG_Z | FLAG_N);
    cpu.sp = 0xFFF8;
    assert_eq!(cpu.add_sp_e8(0x02), 0xFFFA);
    assert_eq!(cpu.reg.f, 0x00);
    assert_eq!(cpu.sp, 0xFFF8);
    cpu.sp = 0x0005;
    // -1 as a signed byte.
    assert_eq!(cpu.add_sp_e8(0xFF), 0x0004);
    assert_eq!(cpu.reg.f, FLAG_H | FLAG_C);
}

#[test]
fn rotates_of_a() {
    let mut cpu = cpu_with(0x85, 0x00);
    cpu.rlca();
    assert_eq!(cpu.reg.a, 0x0B);
    assert_eq!(cpu.reg.f, FLAG_C);
    let mut cpu = cpu_with(0x01, 0x00);
    cpu.rrca();
    assert_eq!(cpu.reg.a, 0x80);
    assert_eq!(cpu.reg.f, FLAG_C);
    let mut cpu = cpu_with(0x95, FLAG_C);
    cpu.rla();
    assert_eq!(cpu.reg.a, 0x2B);
    assert_eq!(cpu.reg.f, FLAG_C);
    let mut cpu = cpu_with(0x81, 0x00);
    cpu.rra();
    assert_eq!(cpu.reg.a, 0x40);
    assert_eq!(cpu.reg.f, FLAG_C);
    // Z is always cleared by the A rotates, even for a zero result.
    let mut cpu = cpu_with(0x00, FLAG_Z);
    cpu.rlca();
    assert_eq!(cpu.reg.f, 0x00);
}

#[test]
fn cb_shifts() {
    let mut cpu = cpu_with(0x00, 0x00);
    assert_eq!(cpu.rlc(0x80), 0x01);
    assert_eq!(cpu.reg.f, FLAG_C);
    assert_eq!(cpu.rrc(0x01), 0x80);
    assert_eq!(cpu.reg.f, FLAG_C);
    cpu.reg.f = FLAG_C;
    assert_eq!(cpu.rl(0x80), 0x01);
    assert_eq!(cpu.reg.f, FLAG_C);
    cpu.reg.f = 0x00;
    assert_eq!(cpu.rr(0x01), 0x00);
    assert_eq!(cpu.reg.f, FLAG_Z | FLAG_C);
    assert_eq!(cpu.sla(0xFF), 0xFE);
    assert_eq!(cpu.reg.f, FLAG_C);
    assert_eq!(cpu.sra(0x8A), 0xC5);
    assert_eq!(cpu.reg.f, 0x00);
    assert_eq!(cpu.srl(0x01), 0x00);
    assert_eq!(cpu.reg.f, FLAG_Z | FLAG_C);
    assert_eq!(cpu.swap(0xF0), 0x0F);
    assert_eq!(cpu.reg.f, 0x00);
    assert_eq!(cpu.swap(0x00), 0x00);
    assert_eq!(cpu.reg.f, FLAG_Z);
}

#[test]
fn swap_and_rotations_invert() {
    let mut cpu = Cpu::new();
    for v in 0..=255u8 {
        let s = cpu.swap(v);
        assert_eq!(cpu.swap(s), v);
        let l = cpu.rlc(v);
        assert_eq!(cpu.rrc(l), v);
        let r = cpu.rrc(v);
        assert_eq!(cpu.rlc(r), v);
    }
}

#[test]
fn bit_res_set() {
    let mut cpu = cpu_with(0x00, FLAG_C | FLAG_N);
    cpu.bit(7, 0x80);
    assert_eq!(cpu.reg.f, FLAG_H | FLAG_C);
    cpu.bit(0, 0x80);
    assert_eq!(cpu.reg.f, FLAG_Z | FLAG_H | FLAG_C);
    assert_eq!(cpu.res(3, 0xFF), 0xF7);
    assert_eq!(cpu.set(3, 0x00), 0x08);
}

#[test]
fn daa_after_add_and_sub() {
    // 45 + 38 = 83 in BCD.
    let mut cpu = cpu_with(0x45, 0x00);
    cpu.add8(0x38);
    cpu.daa();
    assert_eq!(cpu.reg.a, 0x83);
    assert!(!cpu.reg.flag(FLAG_C));
    // 99 + 01 = 00 with carry.
    let mut cpu = cpu_with(0x99, 0x00);
    cpu.add8(0x01);
    cpu.daa();
    assert_eq!(cpu.reg.a, 0x00);
    assert_eq!(cpu.reg.f, FLAG_Z | FLAG_C);
    // 83 - 38 = 45.
    let mut cpu = cpu_with(0x83, 0x00);
    cpu.sub8(0x38);
    cpu.daa();
    assert_eq!(cpu.reg.a, 0x45);
    assert_eq!(cpu.reg.f, FLAG_N);
}

#[test]
fn daa_decimal_sum_for_all_bcd_pairs() {
    let bcd = |n: u32| (((n / 10) << 4) | (n % 10)) as u8;
    for x in 0..100u32 {
        for y in 0..100u32 {
            let mut cpu = cpu_with(bcd(x), 0x00);
            cpu.add8(bcd(y));
            cpu.daa();
            assert_eq!(cpu.reg.a, bcd((x + y) % 100));
            assert_eq!(cpu.reg.flag(FLAG_C), x + y >= 100);
        }
    }
}

#[test]
fn cpl_scf_ccf() {
    let mut cpu = cpu_with(0x35, FLAG_Z | FLAG_C);
    cpu.cpl();
    assert_eq!(cpu.reg.a, 0xCA);
    assert_eq!(cpu.reg.f, FLAG_Z | FLAG_N | FLAG_H | FLAG_C);
    cpu.scf();
    assert_eq!(cpu.reg.f, FLAG_Z | FLAG_C);
    cpu.ccf();
    assert_eq!(cpu.reg.f, FLAG_Z);
    cpu.ccf();
    assert_eq!(cpu.reg.f, FLAG_Z | FLAG_C);
}

#[test]
fn adc_with_carry_clear_is_add() {
    for (a, v) in [(0x0Fu8, 0x01u8), (0xFF, 0x01), (0x80, 0x80), (0x12, 0x34)] {
        let mut x = cpu_with(a, 0x00);
        x.adc8(v);
        let mut y = cpu_with(a, 0x00);
        y.add8(v);
        assert_eq!((x.reg.a, x.reg.f), (y.reg.a, y.reg.f));
        let mut x = cpu_with(a, 0x00);
        x.sbc8(v);
        let mut y = cpu_with(a, 0x00);
        y.sub8(v);
        assert_eq!((x.reg.a, x.reg.f), (y.reg.a, y.reg.f));
    }
}
