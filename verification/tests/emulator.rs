use chip8::display::FONT_SET;
use chip8::emulator::{Emulator, EmulatorComponent};
use chip8::error::EmulatorError;

fn machine(program: &[u8]) -> Emulator {
    let mut emulator = Emulator::new();
    emulator.load_program(program).unwrap();
    emulator
}

fn run(emulator: &mut Emulator, ticks: usize) {
    for _ in 0..ticks {
        assert_eq!(emulator.tick(), Ok(()));
    }
}

fn register(emulator: &mut Emulator, x: usize) -> u8 {
    emulator.get_cpu().get_register_value(x).unwrap()
}

fn pc(emulator: &mut Emulator) -> u16 {
    emulator.get_cpu().get_program_counter()
}

fn lit_pixels(emulator: &Emulator) -> usize {
    emulator.get_display().screen().iter().filter(|pixel| **pixel).count()
}

fn assert_power_on_state(emulator: &mut Emulator) {
    assert_eq!(pc(emulator), 0x200);
    assert_eq!(emulator.get_cpu().get_i_register(), 0);
    for x in 0..16 {
        assert_eq!(register(emulator, x), 0);
    }
    assert_eq!(emulator.get_cpu().op_ret(), Err(EmulatorError::StackUnderflow));
    assert_eq!(emulator.get_memory().get_delay_timer(), 0);
    assert_eq!(emulator.get_memory().get_sound_timer(), 0);
    for address in 0..80u16 {
        assert_eq!(emulator.get_memory().fetch_byte(address), Ok(FONT_SET[address as usize]));
    }
    for address in 80..4096u16 {
        assert_eq!(emulator.get_memory().fetch_byte(address), Ok(0));
    }
    assert_eq!(lit_pixels(emulator), 0);
    for key in 0..16 {
        assert_eq!(emulator.get_input().is_pressed(key), Ok(false));
    }
}

#[test]
fn new_emulator_is_in_the_power_on_state() {
    let mut emulator = Emulator::new();
    assert_power_on_state(&mut emulator);
}

#[test]
fn split_operation_gives_four_nibbles() {
    assert_eq!(Emulator::split_operation(0xD12F), (0xD, 0x1, 0x2, 0xF));
    assert_eq!(Emulator::split_operation(0x0000), (0, 0, 0, 0));
    assert_eq!(Emulator::split_operation(0xFFFF), (0xF, 0xF, 0xF, 0xF));
    assert_eq!(Emulator::split_operation(0x00E0), (0, 0, 0xE, 0));
}

#[test]
fn load_add_program_end_to_end() {
    let mut emulator = machine(&[0x60, 0x05, 0x61, 0x03, 0x80, 0x14]);
    run(&mut emulator, 3);
    assert_eq!(register(&mut emulator, 0), 8);
    assert_eq!(register(&mut emulator, 1), 3);
    assert_eq!(register(&mut emulator, 0xF), 0);
    assert_eq!(pc(&mut emulator), 0x206);
}

#[test]
fn fetch_reads_big_endian_and_advances() {
    let mut emulator = machine(&[0x12, 0x34, 0x56, 0x78]);
    assert_eq!(emulator.fetch(), Ok(0x1234));
    assert_eq!(pc(&mut emulator), 0x202);
    assert_eq!(emulator.fetch(), Ok(0x5678));
    assert_eq!(pc(&mut emulator), 0x204);
}

#[test]
fn fetch_at_the_last_byte_is_refused() {
    let mut emulator = Emulator::new();
    emulator.get_cpu().set_program_counter(0xFFF);
    assert_eq!(emulator.fetch(), Err(EmulatorError::AddressOutOfRange));
    assert_eq!(pc(&mut emulator), 0xFFF);
    assert_eq!(emulator.tick(), Err(EmulatorError::AddressOutOfRange));
    assert_eq!(pc(&mut emulator), 0xFFF);
    emulator.get_cpu().set_program_counter(0xFFE);
    assert_eq!(emulator.tick(), Ok(()));
    assert_eq!(pc(&mut emulator), 0x1000);
    assert_eq!(emulator.tick(), Err(EmulatorError::AddressOutOfRange));
    assert_eq!(pc(&mut emulator), 0x1000);
}

#[test]
fn nop_only_advances_the_program_counter() {
    let mut emulator = machine(&[0x00, 0x00]);
    run(&mut emulator, 1);
    assert_eq!(pc(&mut emulator), 0x202);
    emulator.get_cpu().set_program_counter(0x200);
    assert_power_on_state(&mut emulator);
}

#[test]
fn unsupported_opcodes_are_reported_and_change_nothing() {
    for opcode in [0x0001u16, 0x00E1, 0x0123, 0x5121, 0xE19F, 0xE1A2, 0xF000, 0xF166, 0xFFFF] {
        let mut emulator = machine(&[(opcode >> 8) as u8, opcode as u8]);
        assert_eq!(emulator.tick(), Err(EmulatorError::UnsupportedOpcode), "{:04X}", opcode);
        assert_eq!(pc(&mut emulator), 0x200);
        assert_eq!(emulator.execute(opcode), Err(EmulatorError::UnsupportedOpcode));
        assert_eq!(emulator.execute_with(opcode, 3), Err(EmulatorError::UnsupportedOpcode));
        assert_eq!(pc(&mut emulator), 0x200);
        for x in 0..16 {
            assert_eq!(register(&mut emulator, x), 0);
        }
    }
}

#[test]
fn failed_tick_can_be_stepped_over_by_the_caller() {
    let mut emulator = machine(&[0xFF, 0xFF, 0x60, 0x09]);
    assert_eq!(emulator.tick(), Err(EmulatorError::UnsupportedOpcode));
    assert_eq!(emulator.tick(), Err(EmulatorError::UnsupportedOpcode));
    let next = pc(&mut emulator) + 2;
    emulator.get_cpu().set_program_counter(next);
    assert_eq!(emulator.tick(), Ok(()));
    assert_eq!(register(&mut emulator, 0), 9);
    assert_eq!(pc(&mut emulator), 0x204);
}

#[test]
fn jump_and_call_and_return() {
    // 200: CALL 206; 202: LD V1, 2; 204: JMP 204; 206: LD V0, 1; 208: RET
    let mut emulator =
        machine(&[0x22, 0x06, 0x61, 0x02, 0x12, 0x04, 0x60, 0x01, 0x00, 0xEE]);
    run(&mut emulator, 1);
    assert_eq!(pc(&mut emulator), 0x206);
    run(&mut emulator, 1);
    assert_eq!(register(&mut emulator, 0), 1);
    run(&mut emulator, 1);
    assert_eq!(pc(&mut emulator), 0x202);
    run(&mut emulator, 2);
    assert_eq!(register(&mut emulator, 1), 2);
    assert_eq!(pc(&mut emulator), 0x204);
    run(&mut emulator, 5);
    assert_eq!(pc(&mut emulator), 0x204);
}

#[test]
fn return_without_call_fails_and_keeps_the_program_counter() {
    let mut emulator = machine(&[0x00, 0xEE]);
    assert_eq!(emulator.tick(), Err(EmulatorError::StackUnderflow));
    assert_eq!(pc(&mut emulator), 0x200);
}

#[test]
fn endless_recursion_overflows_the_stack() {
    let mut emulator = machine(&[0x22, 0x00]);
    run(&mut emulator, 16);
    assert_eq!(emulator.tick(), Err(EmulatorError::StackOverflow));
    assert_eq!(pc(&mut emulator), 0x200);
    emulator.get_cpu().set_program_counter(0x300);
    assert_eq!(emulator.execute(0x00EE), Ok(()));
    assert_eq!(pc(&mut emulator), 0x202);
}

#[test]
fn skips_through_tick() {
    // LD V0, 5; SE V0, 5; (skipped); SNE V0, 5; LD V1, 1; SE V0, V1; SNE V0, V1; (skipped); NOP
    let mut emulator = machine(&[
        0x60, 0x05, 0x30, 0x05, 0x6A, 0xFF, 0x40, 0x05, 0x61, 0x01, 0x50, 0x10, 0x90, 0x10,
        0x6B, 0xFF, 0x00, 0x00,
    ]);
    run(&mut emulator, 2);
    assert_eq!(pc(&mut emulator), 0x206);
    run(&mut emulator, 1);
    assert_eq!(pc(&mut emulator), 0x208);
    run(&mut emulator, 2);
    assert_eq!(pc(&mut emulator), 0x20C);
    run(&mut emulator, 1);
    assert_eq!(pc(&mut emulator), 0x210);
    assert_eq!(register(&mut emulator, 0xA), 0);
    assert_eq!(register(&mut emulator, 0xB), 0);
    assert_eq!(register(&mut emulator, 1), 1);
}

#[test]
fn arithmetic_through_tick() {
    // V0 = 200, V1 = 100, V0 += V1; V2 = 0x0F; V2 |= V1; V3 = 3; V3 -= V1; V4 = 3; V4 = V1 - V4
    let mut emulator = machine(&[
        0x60, 200, 0x61, 100, 0x80, 0x14, 0x62, 0x0F, 0x82, 0x11, 0x63, 3, 0x83, 0x15, 0x64, 3,
        0x84, 0x17,
    ]);
    run(&mut emulator, 3);
    assert_eq!(register(&mut emulator, 0), 44);
    assert_eq!(register(&mut emulator, 0xF), 1);
    run(&mut emulator, 2);
    assert_eq!(register(&mut emulator, 2), 0x6F);
    assert_eq!(register(&mut emulator, 0xF), 1);
    run(&mut emulator, 2);
    assert_eq!(register(&mut emulator, 3), 159);
    assert_eq!(register(&mut emulator, 0xF), 0);
    run(&mut emulator, 2);
    assert_eq!(register(&mut emulator, 4), 97);
    assert_eq!(register(&mut emulator, 0xF), 1);
    assert_eq!(pc(&mut emulator), 0x212);
}

#[test]
fn shifts_and_copies_through_tick() {
    // V1 = 0x81; SHR V1; V2 = 0x81; SHL V2; V3 = V2 (8xy0); V4 = V1 (8xy2 is a copy too)
    let mut emulator = machine(&[
        0x61, 0x81, 0x81, 0x06, 0x62, 0x81, 0x82, 0x0E, 0x83, 0x20, 0x84, 0x12,
    ]);
    run(&mut emulator, 2);
    assert_eq!(register(&mut emulator, 1), 0x40);
    assert_eq!(register(&mut emulator, 0xF), 1);
    run(&mut emulator, 2);
    assert_eq!(register(&mut emulator, 2), 0x02);
    assert_eq!(register(&mut emulator, 0xF), 1);
    run(&mut emulator, 2);
    assert_eq!(register(&mut emulator, 3), 0x02);
    assert_eq!(register(&mut emulator, 4), 0x40);
}

#[test]
fn add_immediate_through_tick_leaves_the_flag() {
    let mut emulator = machine(&[0x6F, 0x07, 0x61, 0xFF, 0x71, 0x02]);
    run(&mut emulator, 3);
    assert_eq!(register(&mut emulator, 1), 1);
    assert_eq!(register(&mut emulator, 0xF), 7);
}

#[test]
fn index_register_instructions() {
    // I = 0x123; V1 = 0x10; I += V1; V2 = 0xA; I = glyph(V2); V0 = 4; JMP V0 + 0x20C
    let mut emulator = machine(&[
        0xA1, 0x23, 0x61, 0x10, 0xF1, 0x1E, 0x62, 0x0A, 0xF2, 0x29, 0x60, 0x04, 0xB2, 0x0C,
    ]);
    run(&mut emulator, 1);
    assert_eq!(emulator.get_cpu().get_i_register(), 0x123);
    run(&mut emulator, 2);
    assert_eq!(emulator.get_cpu().get_i_register(), 0x133);
    run(&mut emulator, 2);
    assert_eq!(emulator.get_cpu().get_i_register(), 50);
    run(&mut emulator, 2);
    assert_eq!(pc(&mut emulator), 0x210);
}

#[test]
fn random_through_tick_stays_inside_the_mask() {
    let mut emulator = machine(&[0xC1, 0x0F, 0x12, 0x00]);
    for _ in 0..100 {
        run(&mut emulator, 1);
        assert_eq!(register(&mut emulator, 1) & 0xF0, 0);
        assert_eq!(pc(&mut emulator), 0x202);
        run(&mut emulator, 1);
        assert_eq!(pc(&mut emulator), 0x200);
    }
}

#[test]
fn random_with_a_given_byte() {
    let mut emulator = machine(&[0xC1, 0x3C]);
    assert_eq!(emulator.tick_with(0xF5), Ok(()));
    assert_eq!(register(&mut emulator, 1), 0x34);
    assert_eq!(pc(&mut emulator), 0x202);
    assert_eq!(emulator.execute_with(0xC2FF, 0x5A), Ok(()));
    assert_eq!(register(&mut emulator, 2), 0x5A);
    assert_eq!(pc(&mut emulator), 0x202);
}

#[test]
fn given_byte_is_ignored_by_other_instructions() {
    for random in [0u8, 1, 0x7F, 0xFF] {
        let mut emulator = machine(&[0x60, 0x05, 0x61, 0x03, 0x80, 0x14]);
        for _ in 0..3 {
            assert_eq!(emulator.tick_with(random), Ok(()));
        }
        assert_eq!(register(&mut emulator, 0), 8);
        assert_eq!(register(&mut emulator, 0xF), 0);
        assert_eq!(pc(&mut emulator), 0x206);
    }
}

#[test]
fn draw_through_tick() {
    // V0 = 62; V1 = 30; I = glyph(V2 = 0); DRW V0, V1, 5; DRW again; CLS
    let mut emulator = machine(&[
        0x60, 62, 0x61, 30, 0xF2, 0x29, 0xD0, 0x15, 0xD0, 0x15, 0xD0, 0x15, 0x00, 0xE0,
    ]);
    run(&mut emulator, 4);
    assert_eq!(lit_pixels(&emulator), 14);
    assert_eq!(register(&mut emulator, 0xF), 0);
    let screen = *emulator.get_display().screen();
    assert!(screen[62 + 64 * 30] && screen[63 + 64 * 30]);
    assert!(screen[64 * 30] && screen[1 + 64 * 30]);
    assert!(screen[62 + 64 * 31] && !screen[63 + 64 * 31]);
    assert!(!screen[64 * 31] && screen[1 + 64 * 31]);
    assert!(screen[62] && screen[1] && screen[62 + 64 * 2] && screen[1 + 64 * 2]);
    run(&mut emulator, 1);
    assert_eq!(lit_pixels(&emulator), 0);
    assert_eq!(register(&mut emulator, 0xF), 1);
    run(&mut emulator, 1);
    assert_eq!(lit_pixels(&emulator), 14);
    assert_eq!(register(&mut emulator, 0xF), 0);
    run(&mut emulator, 1);
    assert_eq!(lit_pixels(&emulator), 0);
    assert_eq!(register(&mut emulator, 0xF), 0);
    assert_eq!(pc(&mut emulator), 0x20E);
}

#[test]
fn draw_past_the_memory_fails_and_keeps_the_program_counter() {
    // I = 0xFFF; DRW V0, V0, 2
    let mut emulator = machine(&[0xAF, 0xFF, 0xD0, 0x02]);
    run(&mut emulator, 1);
    assert_eq!(emulator.tick(), Err(EmulatorError::AddressOutOfRange));
    assert_eq!(pc(&mut emulator), 0x202);
    assert_eq!(lit_pixels(&emulator), 0);
}

#[test]
fn decimal_store_and_block_transfer_through_tick() {
    // V0 = 254; I = 0x300; BCD V0; LD V2, [I]; I = 0x310; LD [I], V2
    let mut emulator = machine(&[
        0x60, 254, 0xA3, 0x00, 0xF0, 0x33, 0xF2, 0x65, 0xA3, 0x10, 0xF2, 0x55,
    ]);
    run(&mut emulator, 3);
    assert_eq!(emulator.get_memory().fetch_byte(0x300), Ok(2));
    assert_eq!(emulator.get_memory().fetch_byte(0x301), Ok(5));
    assert_eq!(emulator.get_memory().fetch_byte(0x302), Ok(4));
    run(&mut emulator, 1);
    assert_eq!(register(&mut emulator, 0), 2);
    assert_eq!(register(&mut emulator, 1), 5);
    assert_eq!(register(&mut emulator, 2), 4);
    assert_eq!(register(&mut emulator, 3), 0);
    run(&mut emulator, 2);
    assert_eq!(emulator.get_memory().fetch_byte(0x310), Ok(2));
    assert_eq!(emulator.get_memory().fetch_byte(0x311), Ok(5));
    assert_eq!(emulator.get_memory().fetch_byte(0x312), Ok(4));
    assert_eq!(emulator.get_memory().fetch_byte(0x313), Ok(0));
    assert_eq!(emulator.get_cpu().get_i_register(), 0x310);
}

#[test]
fn timers_through_tick() {
    // V0 = 3; DT = V0; ST = V0; V5 = DT
    let mut emulator = machine(&[0x60, 0x03, 0xF0, 0x15, 0xF0, 0x18, 0xF5, 0x07]);
    run(&mut emulator, 3);
    assert_eq!(emulator.get_memory().get_delay_timer(), 3);
    assert_eq!(emulator.get_memory().get_sound_timer(), 3);
    assert!(!emulator.tick_timers());
    assert_eq!(emulator.get_memory().get_delay_timer(), 2);
    run(&mut emulator, 1);
    assert_eq!(register(&mut emulator, 5), 2);
    assert!(!emulator.tick_timers());
    assert!(emulator.tick_timers());
    assert!(!emulator.tick_timers());
    assert_eq!(emulator.get_memory().get_delay_timer(), 0);
    assert_eq!(emulator.get_memory().get_sound_timer(), 0);
    assert_eq!(pc(&mut emulator), 0x208);
}

#[test]
fn ticks_do_not_move_the_timers() {
    let mut emulator = machine(&[0x60, 0x09, 0xF0, 0x15, 0x00, 0x00, 0x00, 0x00, 0x00, 0x00]);
    run(&mut emulator, 5);
    assert_eq!(emulator.get_memory().get_delay_timer(), 9);
}

#[test]
fn key_skips_through_tick() {
    // V1 = 7; SKP V1; NOP; SKNP V1; NOP; NOP
    let program = [0x61, 0x07, 0xE1, 0x9E, 0x00, 0x00, 0xE1, 0xA1, 0x00, 0x00, 0x00, 0x00];
    let mut emulator = machine(&program);
    run(&mut emulator, 2);
    assert_eq!(pc(&mut emulator), 0x204);
    run(&mut emulator, 2);
    assert_eq!(pc(&mut emulator), 0x20A);
    let mut emulator = machine(&program);
    assert_eq!(emulator.set_key(7, true), Ok(()));
    run(&mut emulator, 2);
    assert_eq!(pc(&mut emulator), 0x206);
    run(&mut emulator, 1);
    assert_eq!(pc(&mut emulator), 0x208);
}

#[test]
fn key_skip_on_a_key_that_does_not_exist() {
    let mut emulator = machine(&[0x61, 0x10, 0xE1, 0x9E]);
    run(&mut emulator, 1);
    assert_eq!(emulator.tick(), Err(EmulatorError::InvalidKeyIndex));
    assert_eq!(pc(&mut emulator), 0x202);
    assert_eq!(emulator.set_key(16, true), Err(EmulatorError::InvalidKeyIndex));
}

#[test]
fn key_wait_blocks_until_a_key_is_pressed() {
    let mut emulator = machine(&[0xF3, 0x0A, 0x63, 0x99]);
    emulator.get_cpu().set_register_value(3, 0x42).unwrap();
    for _ in 0..10 {
        assert_eq!(emulator.tick(), Ok(()));
        assert_eq!(pc(&mut emulator), 0x200);
        assert_eq!(register(&mut emulator, 3), 0x42);
    }
    assert_eq!(emulator.set_key(0xB, true), Ok(()));
    assert_eq!(emulator.set_key(0xD, true), Ok(()));
    assert_eq!(emulator.tick(), Ok(()));
    assert_eq!(pc(&mut emulator), 0x202);
    assert_eq!(register(&mut emulator, 3), 0xB);
    assert_eq!(emulator.tick(), Ok(()));
    assert_eq!(register(&mut emulator, 3), 0x99);
}

#[test]
fn program_that_is_too_large_is_refused() {
    let mut emulator = Emulator::new();
    assert_eq!(
        emulator.load_program(&vec![1u8; 3585]),
        Err(EmulatorError::AddressOutOfRange)
    );
    assert_power_on_state(&mut emulator);
    assert_eq!(emulator.load_program(&vec![1u8; 3584]), Ok(()));
    assert_eq!(emulator.get_memory().fetch_byte(0xFFF), Ok(1));
}

#[test]
fn reset_restores_the_power_on_state() {
    let mut emulator = machine(&[
        0x60, 62, 0x61, 30, 0x22, 0x06, 0xF2, 0x29, 0xD0, 0x15, 0xF0, 0x15, 0xF0, 0x18, 0xA3,
        0x00, 0xF1, 0x55, 0x12, 0x12,
    ]);
    emulator.set_key(4, true).unwrap();
    run(&mut emulator, 12);
    assert!(lit_pixels(&emulator) > 0);
    assert_eq!(emulator.get_memory().get_delay_timer(), 62);
    assert_eq!(emulator.get_memory().fetch_byte(0x300), Ok(62));
    emulator.reset();
    assert_power_on_state(&mut emulator);
}

#[test]
fn reset_after_a_failed_tick() {
    let mut emulator = machine(&[0x6A, 0x01, 0xFF, 0xFF]);
    run(&mut emulator, 1);
    assert_eq!(emulator.tick(), Err(EmulatorError::UnsupportedOpcode));
    emulator.reset();
    assert_power_on_state(&mut emulator);
    assert_eq!(emulator.tick(), Ok(()));
    assert_eq!(pc(&mut emulator), 0x202);
}

#[test]
fn registers_can_be_changed_through_the_processor() {
    let mut emulator = Emulator::new();
    emulator.get_cpu().set_register_value(2, 9).unwrap();
    emulator.get_cpu().op_i_ld(0xA234);
    assert_eq!(register(&mut emulator, 2), 9);
    assert_eq!(emulator.get_cpu().get_i_register(), 0x234);
    assert_eq!(emulator.execute(0x8020), Ok(()));
    assert_eq!(register(&mut emulator, 0), 9);
}
