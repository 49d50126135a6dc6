use hachi_emu::emulator::{Emulator, STANDARD_FONT};
use hachi_emu::machine::Fault;
use hachi_emu::screen::Screen;

fn machine_with(program: &[u8]) -> Emulator {
    let mut emu = Emulator::new();
    emu.load_font(&STANDARD_FONT);
    emu.load_program(program);
    emu
}

fn run_steps(emu: &mut Emulator, n: usize) {
    for _ in 0..n {
        emu.step_with(0).expect("step should not fault");
    }
}

fn lit_count(emu: &Emulator) -> usize {
    emu.screen().cells().iter().filter(|c| **c).count()
}

#[test]
fn clear_screen_turns_everything_off() {
    // draw glyph 0, then 00E0
    let mut emu = machine_with(&[0xA0, 0x00, 0xD0, 0x05, 0x00, 0xE0]);
    run_steps(&mut emu, 2);
    assert!(lit_count(&emu) > 0);
    run_steps(&mut emu, 1);
    assert_eq!(lit_count(&emu), 0);
}

#[test]
fn draw_glyph_zero_at_origin() {
    let mut emu = machine_with(&[0xA0, 0x00, 0xD0, 0x05]);
    run_steps(&mut emu, 2);
    let s = emu.screen();
    for x in 0..4 {
        assert!(s.pixel(x, 0));
        assert!(s.pixel(x, 4));
    }
    assert!(!s.pixel(4, 0));
    assert!(s.pixel(0, 1) && s.pixel(3, 1) && !s.pixel(1, 1));
    assert_eq!(lit_count(&emu), 14);
    assert_eq!(emu.register(0xF), 0);
}

#[test]
fn drawing_twice_restores_and_flags_collision() {
    let mut emu = machine_with(&[0x60, 0x0A, 0x61, 0x03, 0xA0, 0x00, 0xD0, 0x15, 0xD0, 0x15]);
    run_steps(&mut emu, 4);
    assert_eq!(emu.register(0xF), 0);
    assert_eq!(lit_count(&emu), 14);
    run_steps(&mut emu, 1);
    assert_eq!(emu.register(0xF), 1);
    assert_eq!(lit_count(&emu), 0);
}

#[test]
fn sprite_clips_at_bottom_edge() {
    // glyph 8 (all rows non-empty) at y = 30: only rows 30 and 31 drawn
    let mut emu = machine_with(&[0x60, 0x00, 0x61, 0x1E, 0xA0, 0x28, 0xD0, 0x15]);
    run_steps(&mut emu, 4);
    let s = emu.screen();
    assert!(s.pixel(0, 30) && s.pixel(3, 30));
    assert!(s.pixel(0, 31) && !s.pixel(1, 31) && s.pixel(3, 31));
    assert!(!s.pixel(0, 0) && !s.pixel(0, 1) && !s.pixel(0, 2));
    assert_eq!(lit_count(&emu), 6);
}

#[test]
fn sprite_clips_at_right_edge() {
    // 0xFF row at x = 60: pixels 60..63 drawn, nothing wraps to column 0
    let program = vec![0x60, 0x3C, 0x61, 0x02, 0xA2, 0x08, 0xD0, 0x11, 0xFF];
    let mut emu = machine_with(&program);
    run_steps(&mut emu, 4);
    let s = emu.screen();
    for x in 60..64 {
        assert!(s.pixel(x, 2));
    }
    for x in 0..4 {
        assert!(!s.pixel(x, 2));
        assert!(!s.pixel(x, 3));
    }
    assert_eq!(lit_count(&emu), 4);
}

#[test]
fn origin_wraps_but_pixels_do_not() {
    // VX = 64 + 62 = 126 wraps to column 62; VY = 32 + 1 wraps to row 1
    let program = vec![0x60, 0x7E, 0x61, 0x21, 0xA2, 0x08, 0xD0, 0x11, 0xC0];
    let mut emu = machine_with(&program);
    run_steps(&mut emu, 4);
    let s = emu.screen();
    assert!(s.pixel(62, 1) && s.pixel(63, 1));
    assert!(!s.pixel(0, 1) && !s.pixel(0, 2));
    assert_eq!(lit_count(&emu), 2);
}

#[test]
fn screen_pixels_set_and_read() {
    let mut s = Screen::new();
    assert!(!s.pixel(5, 7));
    s.set_pixel(5, 7, true);
    assert!(s.pixel(5, 7));
    assert!(s.cells()[7 * 64 + 5]);
    s.set_pixel(5, 7, false);
    assert!(!s.pixel(5, 7));
    s.set_pixel(63, 31, true);
    s.clear();
    assert!(!s.pixel(63, 31));
}

#[test]
fn screen_draw_reports_collision() {
    let mut s = Screen::new();
    let mem = vec![0x80u8, 0x80];
    assert!(!s.draw(&mem, 0, 10, 10, 2));
    assert!(s.pixel(10, 10) && s.pixel(10, 11));
    s.set_pixel(10, 11, false);
    assert!(s.draw(&mem, 0, 10, 10, 2));
    assert!(!s.pixel(10, 10) && s.pixel(10, 11));
}

#[test]
fn sprite_read_past_memory_end_faults() {
    let mut emu = machine_with(&[0xAF, 0xFE, 0xD0, 0x05]);
    run_steps(&mut emu, 1);
    assert_eq!(emu.step_with(0), Err(Fault::AddressOutOfRange { address: 4096 }));
}

#[test]
fn font_is_loaded_at_address_zero() {
    let emu = machine_with(&[]);
    assert_eq!(emu.memory_at(0), 0xF0);
    assert_eq!(emu.memory_at(50), 0xF0);
    assert_eq!(emu.memory_at(79), 0x80);
    assert_eq!(emu.memory_at(80), 0x00);
}
