use hachi_emu::decode::{decode, Instruction};
use hachi_emu::emulator::{Emulator, STANDARD_FONT};
use hachi_emu::machine::{Fault, Quirks, StepOutcome};

fn machine_with(program: &[u8]) -> Emulator {
    let mut emu = Emulator::new();
    emu.load_font(&STANDARD_FONT);
    emu.load_program(program);
    emu
}

fn run_steps(emu: &mut Emulator, n: usize) {
    for _ in 0..n {
        emu.step_with(0).expect("step should not fault");
    }
}

#[test]
fn load_then_add_immediate_leaves_0x15() {
    let mut emu = machine_with(&[0x60, 0x10, 0x70, 0x05]);
    run_steps(&mut emu, 2);
    assert_eq!(emu.register(0), 0x15);
    assert_eq!(emu.register(0xF), 0);
    assert_eq!(emu.program_counter(), 0x204);
}

#[test]
fn add_immediate_wraps_without_flag() {
    let mut emu = machine_with(&[0x6F, 0x07, 0x60, 0xFF, 0x70, 0x02]);
    run_steps(&mut emu, 3);
    assert_eq!(emu.register(0), 0x01);
    assert_eq!(emu.register(0xF), 0x07);
}

#[test]
fn register_add_overflow_sets_flag() {
    let mut emu = machine_with(&[0x60, 0xF0, 0x61, 0x10, 0x80, 0x14]);
    run_steps(&mut emu, 3);
    assert_eq!(emu.register(0), 0x00);
    assert_eq!(emu.register(0xF), 1);
}

#[test]
fn register_add_without_overflow_clears_flag() {
    let mut emu = machine_with(&[0x6F, 0x01, 0x60, 0x7F, 0x61, 0x80, 0x80, 0x14]);
    run_steps(&mut emu, 4);
    assert_eq!(emu.register(0), 0xFF);
    assert_eq!(emu.register(0xF), 0);
}

#[test]
fn add_into_flag_register_keeps_the_carry() {
    let mut emu = machine_with(&[0x6F, 0xF0, 0x61, 0x20, 0x8F, 0x14]);
    run_steps(&mut emu, 3);
    assert_eq!(emu.register(0xF), 1);
}

#[test]
fn subtract_equal_values_sets_no_borrow_flag() {
    let mut emu = machine_with(&[0x60, 0x05, 0x61, 0x05, 0x80, 0x15]);
    run_steps(&mut emu, 3);
    assert_eq!(emu.register(0), 0);
    assert_eq!(emu.register(0xF), 1);
}

#[test]
fn subtract_with_borrow_wraps() {
    let mut emu = machine_with(&[0x60, 0x03, 0x61, 0x05, 0x80, 0x15]);
    run_steps(&mut emu, 3);
    assert_eq!(emu.register(0), 0xFE);
    assert_eq!(emu.register(0xF), 0);
}

#[test]
fn reverse_subtract() {
    let mut emu = machine_with(&[0x60, 0x03, 0x61, 0x05, 0x80, 0x17]);
    run_steps(&mut emu, 3);
    assert_eq!(emu.register(0), 2);
    assert_eq!(emu.register(0xF), 1);
    let mut emu = machine_with(&[0x60, 0x05, 0x61, 0x03, 0x80, 0x17]);
    run_steps(&mut emu, 3);
    assert_eq!(emu.register(0), 0xFE);
    assert_eq!(emu.register(0xF), 0);
}

#[test]
fn shift_right_stores_low_bit() {
    let mut emu = machine_with(&[0x60, 0x05, 0x80, 0x06]);
    run_steps(&mut emu, 2);
    assert_eq!(emu.register(0), 0x02);
    assert_eq!(emu.register(0xF), 1);
    let mut emu = machine_with(&[0x60, 0x04, 0x80, 0x06]);
    run_steps(&mut emu, 2);
    assert_eq!(emu.register(0), 0x02);
    assert_eq!(emu.register(0xF), 0);
}

#[test]
fn shift_left_stores_high_bit() {
    let mut emu = machine_with(&[0x60, 0x81, 0x80, 0x0E]);
    run_steps(&mut emu, 2);
    assert_eq!(emu.register(0), 0x02);
    assert_eq!(emu.register(0xF), 1);
    let mut emu = machine_with(&[0x60, 0x41, 0x80, 0x0E]);
    run_steps(&mut emu, 2);
    assert_eq!(emu.register(0), 0x82);
    assert_eq!(emu.register(0xF), 0);
}

#[test]
fn shift_of_flag_register_keeps_shifted_out_bit() {
    let mut emu = machine_with(&[0x6F, 0x03, 0x8F, 0x06]);
    run_steps(&mut emu, 2);
    assert_eq!(emu.register(0xF), 1);
    let mut emu = machine_with(&[0x6F, 0x80, 0x8F, 0x0E]);
    run_steps(&mut emu, 2);
    assert_eq!(emu.register(0xF), 1);
}

#[test]
fn shift_quirk_reads_vy() {
    let quirks = Quirks { offset_jump_uses_v0: false, logic_resets_flag: false, shift_reads_vy: true };
    let mut emu = Emulator::with_quirks(quirks);
    emu.load_program(&[0x60, 0x00, 0x61, 0x03, 0x80, 0x16]);
    run_steps(&mut emu, 3);
    assert_eq!(emu.register(0), 0x01);
    assert_eq!(emu.register(0xF), 1);
}

#[test]
fn bitwise_ops_leave_flag() {
    let mut emu = machine_with(&[0x6F, 0x09, 0x60, 0x0C, 0x61, 0x0A, 0x62, 0x0C, 0x63, 0x0C, 0x80, 0x11, 0x82, 0x12, 0x83, 0x13]);
    run_steps(&mut emu, 8);
    assert_eq!(emu.register(0), 0x0E);
    assert_eq!(emu.register(2), 0x08);
    assert_eq!(emu.register(3), 0x06);
    assert_eq!(emu.register(0xF), 0x09);
}

#[test]
fn logic_quirk_resets_flag() {
    let quirks = Quirks { offset_jump_uses_v0: false, logic_resets_flag: true, shift_reads_vy: false };
    let mut emu = Emulator::with_quirks(quirks);
    emu.load_program(&[0x6F, 0x09, 0x60, 0x0C, 0x80, 0x01]);
    run_steps(&mut emu, 3);
    assert_eq!(emu.register(0), 0x0C);
    assert_eq!(emu.register(0xF), 0);
}

#[test]
fn assign_copies_register() {
    let mut emu = machine_with(&[0x61, 0x2A, 0x80, 0x10]);
    run_steps(&mut emu, 2);
    assert_eq!(emu.register(0), 0x2A);
}

#[test]
fn skips_on_equal_and_not_equal() {
    let mut emu = machine_with(&[0x60, 0x07, 0x30, 0x07]);
    run_steps(&mut emu, 2);
    assert_eq!(emu.program_counter(), 0x206);
    let mut emu = machine_with(&[0x60, 0x07, 0x40, 0x07]);
    run_steps(&mut emu, 2);
    assert_eq!(emu.program_counter(), 0x204);
    let mut emu = machine_with(&[0x60, 0x07, 0x61, 0x07, 0x50, 0x10]);
    run_steps(&mut emu, 3);
    assert_eq!(emu.program_counter(), 0x208);
    let mut emu = machine_with(&[0x60, 0x07, 0x61, 0x07, 0x90, 0x10]);
    run_steps(&mut emu, 3);
    assert_eq!(emu.program_counter(), 0x206);
}

#[test]
fn jump_and_offset_jump() {
    let mut emu = machine_with(&[0x13, 0x00]);
    run_steps(&mut emu, 1);
    assert_eq!(emu.program_counter(), 0x300);
    let mut emu = machine_with(&[0x62, 0x04, 0xB2, 0x10]);
    run_steps(&mut emu, 2);
    assert_eq!(emu.program_counter(), 0x214);
    let quirks = Quirks { offset_jump_uses_v0: true, logic_resets_flag: false, shift_reads_vy: false };
    let mut emu = Emulator::with_quirks(quirks);
    emu.load_program(&[0x60, 0x01, 0x62, 0x04, 0xB2, 0x10]);
    run_steps(&mut emu, 3);
    assert_eq!(emu.program_counter(), 0x211);
}

#[test]
fn call_and_return_resume_after_the_call() {
    // 0x200: call 0x206; 0x202: (return point); 0x206: call 0x20A; 0x208: ret; 0x20A: ret
    let mut emu = machine_with(&[0x22, 0x06, 0x00, 0x00, 0x00, 0x00, 0x22, 0x0A, 0x00, 0xEE, 0x00, 0xEE]);
    run_steps(&mut emu, 2);
    assert_eq!(emu.program_counter(), 0x20A);
    assert_eq!(emu.stack_depth(), 2);
    run_steps(&mut emu, 1);
    assert_eq!(emu.program_counter(), 0x208);
    run_steps(&mut emu, 1);
    assert_eq!(emu.program_counter(), 0x202);
    assert_eq!(emu.stack_depth(), 0);
}

#[test]
fn return_with_empty_stack_faults() {
    let mut emu = machine_with(&[0x00, 0xEE]);
    assert_eq!(emu.step_with(0), Err(Fault::ReturnWithEmptyStack));
}

#[test]
fn machine_routine_call_faults() {
    let mut emu = machine_with(&[0x01, 0x23]);
    assert_eq!(emu.step_with(0), Err(Fault::MachineRoutine { nnn: 0x123 }));
}

#[test]
fn unknown_opcode_is_skipped() {
    let mut emu = machine_with(&[0x80, 0x08, 0x60, 0x01]);
    assert_eq!(emu.step_with(0), Ok(StepOutcome::Unrecognized(0x8008)));
    assert_eq!(emu.program_counter(), 0x202);
    run_steps(&mut emu, 1);
    assert_eq!(emu.register(0), 1);
}

#[test]
fn fetch_past_memory_end_faults() {
    let mut emu = machine_with(&[0x1F, 0xFF]);
    run_steps(&mut emu, 1);
    assert_eq!(emu.step_with(0), Err(Fault::AddressOutOfRange { address: 4096 }));
}

#[test]
fn font_glyph_address() {
    let mut emu = machine_with(&[0x60, 0x00, 0xF0, 0x29]);
    run_steps(&mut emu, 2);
    assert_eq!(emu.index_register(), 0);
    let mut emu = machine_with(&[0x60, 0x0A, 0xF0, 0x29]);
    run_steps(&mut emu, 2);
    assert_eq!(emu.index_register(), 50);
    let mut emu = machine_with(&[0x60, 0xFA, 0xF0, 0x29]);
    run_steps(&mut emu, 2);
    assert_eq!(emu.index_register(), 50);
}

#[test]
fn set_and_add_index() {
    let mut emu = machine_with(&[0xA1, 0x23, 0x60, 0x10, 0xF0, 0x1E]);
    run_steps(&mut emu, 3);
    assert_eq!(emu.index_register(), 0x133);
}

#[test]
fn bcd_stores_digits() {
    let mut emu = machine_with(&[0x60, 0xFE, 0xA3, 0x00, 0xF0, 0x33]);
    run_steps(&mut emu, 3);
    assert_eq!(emu.memory_at(0x300), 2);
    assert_eq!(emu.memory_at(0x301), 5);
    assert_eq!(emu.memory_at(0x302), 4);
}

#[test]
fn bcd_past_memory_end_faults() {
    let mut emu = machine_with(&[0xAF, 0xFE, 0xF0, 0x33]);
    run_steps(&mut emu, 1);
    assert_eq!(emu.step_with(0), Err(Fault::AddressOutOfRange { address: 4096 }));
}

#[test]
fn store_and_load_registers() {
    let mut emu = machine_with(&[
        0x60, 0x11, 0x61, 0x22, 0x62, 0x33, 0x63, 0x44, 0xA3, 0x00, 0xF2, 0x55, 0x60, 0x00, 0x61, 0x00, 0x62, 0x00,
        0xF1, 0x65,
    ]);
    run_steps(&mut emu, 6);
    assert_eq!(emu.memory_at(0x300), 0x11);
    assert_eq!(emu.memory_at(0x301), 0x22);
    assert_eq!(emu.memory_at(0x302), 0x33);
    assert_eq!(emu.memory_at(0x303), 0x00);
    run_steps(&mut emu, 4);
    assert_eq!(emu.register(0), 0x11);
    assert_eq!(emu.register(1), 0x22);
    assert_eq!(emu.register(2), 0x00);
    assert_eq!(emu.register(3), 0x44);
    assert_eq!(emu.index_register(), 0x300);
}

#[test]
fn store_registers_past_memory_end_faults() {
    let mut emu = machine_with(&[0xAF, 0xFE, 0xF3, 0x55]);
    run_steps(&mut emu, 1);
    assert_eq!(emu.step_with(0), Err(Fault::AddressOutOfRange { address: 4096 }));
}

#[test]
fn random_is_masked() {
    let mut emu = machine_with(&[0xC0, 0x0F, 0xC1, 0xF0]);
    emu.step_with(0xAB).unwrap();
    emu.step_with(0xAB).unwrap();
    assert_eq!(emu.register(0), 0x0B);
    assert_eq!(emu.register(1), 0xA0);
    let mut emu = machine_with(&[0xC0, 0x0F]);
    emu.step().unwrap();
    assert_eq!(emu.register(0) & 0xF0, 0);
}

#[test]
fn delay_and_sound_timers_set_and_read() {
    let mut emu = machine_with(&[0x60, 0x09, 0xF0, 0x15, 0xF0, 0x18, 0xF1, 0x07]);
    run_steps(&mut emu, 4);
    assert_eq!(emu.delay_timer(), 9);
    assert_eq!(emu.sound_timer(), 9);
    assert_eq!(emu.register(1), 9);
}

#[test]
fn decode_fields() {
    assert_eq!(decode(0x00E0), Instruction::ClearScreen);
    assert_eq!(decode(0x00EE), Instruction::Return);
    assert_eq!(decode(0x0123), Instruction::MachineCall { nnn: 0x123 });
    assert_eq!(decode(0x1ABC), Instruction::Jump { nnn: 0xABC });
    assert_eq!(decode(0x3A42), Instruction::SkipIfEqual { x: 0xA, nn: 0x42 });
    assert_eq!(decode(0x8AB4), Instruction::Add { x: 0xA, y: 0xB });
    assert_eq!(decode(0x8ABE), Instruction::ShiftLeft { x: 0xA, y: 0xB });
    assert_eq!(decode(0x8AB9), Instruction::Unknown { word: 0x8AB9 });
    assert_eq!(decode(0xD12F), Instruction::Draw { x: 1, y: 2, n: 0xF });
    assert_eq!(decode(0xE39E), Instruction::SkipIfKey { x: 3 });
    assert_eq!(decode(0xE3A1), Instruction::SkipIfNotKey { x: 3 });
    assert_eq!(decode(0xE3A2), Instruction::Unknown { word: 0xE3A2 });
    assert_eq!(decode(0xF40A), Instruction::WaitKey { x: 4 });
    assert_eq!(decode(0xF465), Instruction::LoadRegs { x: 4 });
    assert_eq!(decode(0xF466), Instruction::Unknown { word: 0xF466 });
}
