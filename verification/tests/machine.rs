use ferrisboy_core::joypad::button_from_index;
use ferrisboy_core::text::{is_control, is_whitespace};
use ferrisboy_core::{
    Button, CartridgeError, GameBoy, AUDIO_SAMPLE_RATE, CPU_CLOCK_HZ, FRAMEBUFFER_RGBA_LEN,
    SCREEN_HEIGHT, SCREEN_WIDTH,
};

fn rom(type_byte: u8, ram_code: u8, title: &[u8]) -> Vec<u8> {
    let mut rom = vec![0u8; 0x8000];
    rom[0x134..0x134 + title.len()].copy_from_slice(title);
    rom[0x147] = type_byte;
    rom[0x149] = ram_code;
    rom
}

#[test]
fn constants() {
    assert_eq!(CPU_CLOCK_HZ, 4_194_304);
    assert_eq!(AUDIO_SAMPLE_RATE, 44_100);
    assert_eq!((SCREEN_WIDTH, SCREEN_HEIGHT), (160, 144));
    assert_eq!(FRAMEBUFFER_RGBA_LEN, 92_160);
}

#[test]
fn new_reports_cartridge_errors() {
    assert!(matches!(GameBoy::new(vec![0u8; 16]), Err(CartridgeError::TooSmall)));
    assert!(matches!(
        GameBoy::new(rom(0xFC, 0, b"CAMERA")),
        Err(CartridgeError::UnsupportedMapper(0xFC))
    ));
}

#[test]
fn title_and_framebuffer() {
    let gb = GameBoy::new(rom(0x00, 0, b"HELLO WORLD")).unwrap();
    assert_eq!(gb.title(), "HELLO WORLD");
    let fb = gb.framebuffer();
    assert_eq!(fb.len(), SCREEN_WIDTH * SCREEN_HEIGHT);
    assert!(fb.iter().all(|&s| s == 0));
    let mut rgba = vec![0u8; FRAMEBUFFER_RGBA_LEN];
    gb.framebuffer_rgba(&mut rgba);
    for px in rgba.chunks_exact(4) {
        assert_eq!(px, &[0x9B, 0xBC, 0x0F, 0xFF]);
    }
}

#[test]
fn saves_persist_across_power_cycles() {
    let cart = rom(0x03, 0x02, b"SAVER");
    let gb = GameBoy::new(cart.clone()).unwrap();
    let save = gb.save_data().unwrap();
    assert_eq!(save.len(), 8192);
    assert!(!gb.save_is_dirty());
    let mut data = save.clone();
    data[0] = 0x42;
    let mut gb = GameBoy::with_save(cart, Some(data.clone())).unwrap();
    assert_eq!(gb.save_data(), Some(data));
    gb.mark_saved();
    assert!(!gb.save_is_dirty());
    let gb = GameBoy::new(rom(0x01, 0x02, b"NOBATTERY")).unwrap();
    assert_eq!(gb.save_data(), None);
}

#[test]
fn buttons_and_serial() {
    let mut gb = GameBoy::new(rom(0x00, 0, b"PAD")).unwrap();
    gb.set_button(Button::Start, true);
    gb.set_button(Button::Start, false);
    gb.set_button(Button::Left, true);
    assert!(gb.take_serial().is_empty());
}

#[test]
fn fresh_machine_executes_from_0x100() {
    // An all-zero ROM holds NOPs: each step takes 4 T-cycles.
    let mut gb = GameBoy::new(rom(0x00, 0, b"IDLE")).unwrap();
    assert_eq!(gb.step(), 4);
    assert_eq!(gb.step(), 4);
}

#[test]
fn run_frame_returns_once_per_frame() {
    // JR -2 at 0x100: a tight loop of 12-cycle steps with the LCD on.
    let mut cart = rom(0x00, 0, b"LOOP");
    cart[0x100] = 0x18;
    cart[0x101] = 0xFE;
    let mut gb = GameBoy::new(cart).unwrap();
    assert_eq!(gb.step(), 12);
    gb.run_frame();
    gb.run_frame();
    assert_eq!(gb.step(), 12);
}

#[test]
fn button_indices_follow_the_enum_order() {
    assert!(matches!(button_from_index(0), Some(Button::Right)));
    assert!(matches!(button_from_index(3), Some(Button::Down)));
    assert!(matches!(button_from_index(4), Some(Button::A)));
    assert!(matches!(button_from_index(7), Some(Button::Start)));
    assert!(button_from_index(8).is_none());
    assert!(button_from_index(255).is_none());
}

#[test]
fn character_classes() {
    for c in [' ', '\t', '\n', '\r', '\u{0B}', '\u{0C}', '\u{85}', '\u{A0}', '\u{1680}', '\u{2000}', '\u{200A}', '\u{2028}', '\u{2029}', '\u{202F}', '\u{205F}', '\u{3000}'] {
        assert!(is_whitespace(c));
        assert_eq!(is_whitespace(c), c.is_whitespace());
    }
    for c in ['a', '\u{0}', '\u{180E}', '\u{200B}', '\u{FEFF}'] {
        assert!(!is_whitespace(c));
        assert_eq!(is_whitespace(c), c.is_whitespace());
    }
    for c in ['\u{0}', '\u{1F}', '\u{7F}', '\u{9C}', '\u{9F}'] {
        assert!(is_control(c));
    }
    for c in ['q', ' ', '\u{A0}', '\u{20}', '\u{7E}'] {
        assert!(!is_control(c));
    }
    for v in 0u32..0x3100 {
        if let Some(c) = char::from_u32(v) {
            assert_eq!(is_whitespace(c), c.is_whitespace());
            assert_eq!(is_control(c), c.is_control());
        }
    }
}

/// A cartridge whose program enables RAM, stores 0x42 at 0xA000 and loops.
fn ram_writer(type_byte: u8) -> Vec<u8> {
    let mut cart = rom(type_byte, 0x02, b"WRITER");
    let program = [0x3E, 0x0A, 0xEA, 0x00, 0x00, 0x3E, 0x42, 0xEA, 0x00, 0xA0, 0x18, 0xFE];
    cart[0x100..0x100 + program.len()].copy_from_slice(&program);
    cart
}

#[test]
fn program_writes_make_the_save_dirty() {
    let mut gb = GameBoy::new(ram_writer(0x03)).unwrap();
    assert!(gb.save_to_persist().is_none());
    for _ in 0..4 {
        gb.step();
    }
    assert!(gb.save_is_dirty());
    let data = gb.save_to_persist().unwrap();
    assert_eq!(data[0], 0x42);
    assert!(gb.save_is_dirty());
    gb.mark_saved();
    assert!(!gb.save_is_dirty());
    assert!(gb.save_to_persist().is_none());
    // Without a battery there is nothing to persist; the flag is cleared.
    let mut gb = GameBoy::new(ram_writer(0x02)).unwrap();
    for _ in 0..4 {
        gb.step();
    }
    assert!(gb.save_is_dirty());
    assert!(gb.save_to_persist().is_none());
    assert!(!gb.save_is_dirty());
}

#[test]
fn halted_machine_still_finishes_frames() {
    // DI; HALT with nothing enabled in IE: the CPU idles, the LCD runs.
    let mut cart = rom(0x00, 0, b"SLEEPER");
    cart[0x100] = 0xF3;
    cart[0x101] = 0x76;
    let mut gb = GameBoy::new(cart).unwrap();
    assert_eq!(gb.step(), 4);
    assert_eq!(gb.step(), 4);
    assert_eq!(gb.step(), 4);
    gb.run_frame();
    gb.run_frame();
}
