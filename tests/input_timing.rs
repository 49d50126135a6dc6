use hachi_emu::emulator::{Emulator, STANDARD_FONT};
use hachi_emu::keypad::{next_key_state, KeyState, Keypad};
use hachi_emu::machine::{Fault, StepOutcome};
use hachi_emu::timers::{Pacer, Timers};

fn held(keys: &[usize]) -> [bool; 16] {
    let mut h = [false; 16];
    for k in keys {
        h[*k] = true;
    }
    h
}

#[test]
fn key_held_three_frames_then_released() {
    let mut pad = Keypad::new();
    assert_eq!(pad.state(5), KeyState::Inactive);
    let mut seen = Vec::new();
    for _ in 0..3 {
        pad.update(&held(&[5]));
        seen.push(pad.state(5));
    }
    for _ in 0..2 {
        pad.update(&held(&[]));
        seen.push(pad.state(5));
    }
    assert_eq!(
        seen,
        vec![KeyState::JustPressed, KeyState::Active, KeyState::Active, KeyState::JustReleased, KeyState::Inactive]
    );
}

#[test]
fn key_transitions() {
    assert_eq!(next_key_state(KeyState::JustReleased, true), KeyState::JustPressed);
    assert_eq!(next_key_state(KeyState::JustPressed, false), KeyState::JustReleased);
    assert_eq!(next_key_state(KeyState::Inactive, false), KeyState::Inactive);
    assert_eq!(next_key_state(KeyState::Active, true), KeyState::Active);
}

#[test]
fn pressed_levels_and_lowest_edge() {
    let mut pad = Keypad::new();
    assert_eq!(pad.just_pressed_key(), None);
    pad.update(&held(&[9, 3]));
    assert!(pad.is_pressed(3) && pad.is_pressed(9) && !pad.is_pressed(4));
    assert_eq!(pad.just_pressed_key(), Some(3));
    pad.update(&held(&[9, 3]));
    assert!(pad.is_pressed(3));
    assert_eq!(pad.just_pressed_key(), None);
    pad.update(&held(&[]));
    assert!(!pad.is_pressed(3));
}

#[test]
fn skip_if_key_pressed_and_not_pressed() {
    let mut emu = Emulator::new();
    emu.load_program(&[0x60, 0x17, 0xE0, 0x9E, 0x00, 0x00, 0xE0, 0xA1]);
    emu.update_keys(&held(&[7]));
    emu.step_with(0).unwrap();
    emu.step_with(0).unwrap();
    assert_eq!(emu.program_counter(), 0x206);
    emu.step_with(0).unwrap();
    assert_eq!(emu.program_counter(), 0x208);
}

#[test]
fn wait_for_key_idles_until_a_press() {
    let mut emu = Emulator::new();
    emu.load_program(&[0xF3, 0x0A, 0x60, 0x01]);
    emu.step_with(0).unwrap();
    assert_eq!(emu.awaiting_key(), Some(3));
    for _ in 0..5 {
        assert_eq!(emu.step_with(0), Ok(StepOutcome::Waiting));
    }
    assert_eq!(emu.program_counter(), 0x202);
    emu.update_keys(&held(&[0xB]));
    emu.step_with(0).unwrap();
    assert_eq!(emu.register(3), 0xB);
    assert_eq!(emu.awaiting_key(), None);
    assert_eq!(emu.register(0), 1);
}

#[test]
fn wait_for_key_ignores_a_key_already_held() {
    let mut emu = Emulator::new();
    emu.load_program(&[0xF3, 0x0A]);
    emu.update_keys(&held(&[2]));
    emu.update_keys(&held(&[2]));
    emu.step_with(0).unwrap();
    assert_eq!(emu.step_with(0), Ok(StepOutcome::Waiting));
}

#[test]
fn timers_stop_at_zero() {
    let mut t = Timers::new();
    t.tick_many(100);
    assert_eq!((t.delay, t.sound), (0, 0));
    t.delay = 3;
    t.sound = 1;
    t.tick();
    assert_eq!((t.delay, t.sound), (2, 0));
    t.tick_many(5);
    assert_eq!((t.delay, t.sound), (0, 0));
}

#[test]
fn pacer_counts_whole_periods() {
    let mut p = Pacer::new(60);
    // 1/120 s: half a period
    assert_eq!(p.advance(8_333_333), 0);
    assert_eq!(p.advance(8_333_334), 1);
    assert_eq!(p.advance(1_000_000_000), 60);
    assert_eq!(p.advance(2_500_000_000), 150);
}

#[test]
fn timer_over_seconds_of_frames() {
    // delay 100, then 1.5 s of 16 ms frames plus the remainder: 90 ticks
    let mut emu = Emulator::new();
    emu.load_program(&[0x60, 0x64, 0xF0, 0x15, 0x12, 0x04]);
    emu.step_with(0).unwrap();
    emu.step_with(0).unwrap();
    assert_eq!(emu.delay_timer(), 100);
    let mut total: u64 = 0;
    while total + 16_000_000 <= 1_500_000_000 {
        emu.frame(16_000_000, &held(&[])).unwrap();
        total += 16_000_000;
    }
    emu.frame(1_500_000_000 - total, &held(&[])).unwrap();
    assert_eq!(emu.delay_timer(), 10);
    emu.frame(10_000_000_000, &held(&[])).unwrap();
    assert_eq!(emu.delay_timer(), 0);
}

#[test]
fn frame_runs_instructions_at_target_rate() {
    let mut emu = Emulator::new();
    emu.load_font(&STANDARD_FONT);
    // loop: V0 += 1; jump back
    emu.load_program(&[0x70, 0x01, 0x12, 0x00]);
    let outs = emu.frame(100_000_000, &held(&[])).unwrap();
    assert_eq!(outs.len(), 65);
    assert_eq!(emu.register(0), 33);
}

#[test]
fn frame_stops_at_a_fault() {
    let mut emu = Emulator::new();
    emu.load_program(&[0x60, 0x01, 0x00, 0xEE]);
    assert_eq!(emu.frame(1_000_000_000, &held(&[])), Err(Fault::ReturnWithEmptyStack));
    assert_eq!(emu.register(0), 1);
}
