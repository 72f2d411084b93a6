use chip8::cpu::CPU;
use chip8::display::{Display, SCREEN_HEIGHT, SCREEN_SIZE, SCREEN_WIDTH};
use chip8::emulator::EmulatorComponent;
use chip8::error::EmulatorError;
use chip8::memory::Memory;

fn machine_with_sprite(sprite: &[u8]) -> (Display, CPU, Memory) {
    let mut memory = Memory::new();
    memory.load_program(sprite).unwrap();
    let mut cpu = CPU::new();
    cpu.op_i_ld(0x200);
    (Display::new(), cpu, memory)
}

fn lit(display: &Display) -> Vec<(usize, usize)> {
    let mut pixels = Vec::new();
    for (index, pixel) in display.screen().iter().enumerate() {
        if *pixel {
            pixels.push((index % 64, index / 64));
        }
    }
    pixels
}

#[test]
fn screen_constants() {
    assert_eq!(SCREEN_WIDTH, 64);
    assert_eq!(SCREEN_HEIGHT, 32);
    assert_eq!(SCREEN_SIZE, 2048);
}

#[test]
fn new_display_is_blank() {
    let display = Display::new();
    assert_eq!(display.screen().len(), 2048);
    assert!(display.screen().iter().all(|pixel| !*pixel));
}

#[test]
fn draw_sets_pixels_most_significant_bit_first() {
    let (mut display, mut cpu, memory) = machine_with_sprite(&[0b1010_0001]);
    cpu.set_register_value(0xF, 7).unwrap();
    assert_eq!(display.op_drw(&mut cpu, &memory, 10, 5, 1), Ok(()));
    assert_eq!(lit(&display), vec![(10, 5), (12, 5), (17, 5)]);
    assert_eq!(cpu.get_register_value(0xF), Ok(0));
}

#[test]
fn draw_places_rows_below_each_other() {
    let (mut display, mut cpu, memory) = machine_with_sprite(&[0x80, 0x40, 0x20]);
    assert_eq!(display.op_drw(&mut cpu, &memory, 0, 0, 3), Ok(()));
    assert_eq!(lit(&display), vec![(0, 0), (1, 1), (2, 2)]);
    assert_eq!(cpu.get_register_value(0xF), Ok(0));
}

#[test]
fn draw_uses_row_major_order() {
    let (mut display, mut cpu, memory) = machine_with_sprite(&[0x80]);
    assert_eq!(display.op_drw(&mut cpu, &memory, 3, 2, 1), Ok(()));
    assert!(display.screen()[3 + 64 * 2]);
    assert_eq!(display.screen().iter().filter(|pixel| **pixel).count(), 1);
}

#[test]
fn draw_wraps_at_the_right_and_bottom_edges() {
    let (mut display, mut cpu, memory) = machine_with_sprite(&[0xFF]);
    assert_eq!(display.op_drw(&mut cpu, &memory, 63, 31, 1), Ok(()));
    assert_eq!(
        lit(&display),
        vec![(0, 31), (1, 31), (2, 31), (3, 31), (4, 31), (5, 31), (6, 31), (63, 31)]
    );
    assert_eq!(cpu.get_register_value(0xF), Ok(0));
}

#[test]
fn draw_wraps_rows_round_the_bottom() {
    let (mut display, mut cpu, memory) = machine_with_sprite(&[0x80, 0x80, 0x80]);
    assert_eq!(display.op_drw(&mut cpu, &memory, 0, 30, 3), Ok(()));
    assert_eq!(lit(&display), vec![(0, 0), (0, 30), (0, 31)]);
}

#[test]
fn draw_takes_coordinates_modulo_the_screen() {
    let (mut display, mut cpu, memory) = machine_with_sprite(&[0xC0]);
    assert_eq!(display.op_drw(&mut cpu, &memory, 64 + 5, 32 * 3 + 4, 1), Ok(()));
    assert_eq!(lit(&display), vec![(5, 4), (6, 4)]);
    let (mut display, mut cpu, memory) = machine_with_sprite(&[0xC0]);
    assert_eq!(display.op_drw(&mut cpu, &memory, usize::MAX, usize::MAX, 1), Ok(()));
    let x = usize::MAX % 64;
    let y = usize::MAX % 32;
    assert_eq!(lit(&display), vec![((x + 1) % 64, y), (x, y)]);
}

#[test]
fn drawing_twice_restores_the_screen_and_collides() {
    let sprite = [0xF0, 0x90, 0x90, 0x90, 0xF0];
    let (mut display, mut cpu, memory) = machine_with_sprite(&sprite);
    let (mut background, mut other_cpu, other_memory) = machine_with_sprite(&[0x3C, 0x18]);
    assert_eq!(background.op_drw(&mut other_cpu, &other_memory, 61, 30, 2), Ok(()));
    assert_eq!(display.op_drw(&mut other_cpu, &other_memory, 61, 30, 2), Ok(()));
    let before = *display.screen();
    assert_eq!(before, *background.screen());
    assert_eq!(display.op_drw(&mut cpu, &memory, 62, 29, 5), Ok(()));
    assert_ne!(*display.screen(), before);
    assert_eq!(display.op_drw(&mut cpu, &memory, 62, 29, 5), Ok(()));
    assert_eq!(*display.screen(), before);
    assert_eq!(cpu.get_register_value(0xF), Ok(1));
}

#[test]
fn drawing_twice_on_a_blank_screen() {
    for x in [0usize, 7, 60, 63] {
        for y in [0usize, 15, 28, 31] {
            let (mut display, mut cpu, memory) = machine_with_sprite(&[0x81, 0x00, 0x18]);
            assert_eq!(display.op_drw(&mut cpu, &memory, x, y, 3), Ok(()));
            assert_eq!(cpu.get_register_value(0xF), Ok(0));
            assert_eq!(lit(&display).len(), 4);
            assert_eq!(display.op_drw(&mut cpu, &memory, x, y, 3), Ok(()));
            assert_eq!(cpu.get_register_value(0xF), Ok(1));
            assert!(lit(&display).is_empty());
        }
    }
}

#[test]
fn second_drawing_over_lit_pixels_only_does_not_collide() {
    let (mut display, mut cpu, memory) = machine_with_sprite(&[0xFF, 0x80]);
    assert_eq!(display.op_drw(&mut cpu, &memory, 0, 0, 1), Ok(()));
    cpu.op_i_ld(0x201);
    assert_eq!(display.op_drw(&mut cpu, &memory, 0, 0, 1), Ok(()));
    assert_eq!(cpu.get_register_value(0xF), Ok(1));
    assert!(!display.screen()[0]);
    assert_eq!(display.op_drw(&mut cpu, &memory, 0, 0, 1), Ok(()));
    assert_eq!(cpu.get_register_value(0xF), Ok(0));
    assert!(display.screen()[0]);
}

#[test]
fn empty_sprite_draws_nothing_and_clears_the_flag() {
    let (mut display, mut cpu, memory) = machine_with_sprite(&[0x00, 0x00]);
    cpu.set_register_value(0xF, 1).unwrap();
    assert_eq!(display.op_drw(&mut cpu, &memory, 4, 4, 2), Ok(()));
    assert!(lit(&display).is_empty());
    assert_eq!(cpu.get_register_value(0xF), Ok(0));
    assert_eq!(display.op_drw(&mut cpu, &memory, 4, 4, 2), Ok(()));
    assert_eq!(cpu.get_register_value(0xF), Ok(0));
}

#[test]
fn sprite_of_no_rows_clears_the_flag() {
    let (mut display, mut cpu, memory) = machine_with_sprite(&[0xFF]);
    cpu.set_register_value(0xF, 1).unwrap();
    assert_eq!(display.op_drw(&mut cpu, &memory, 4, 4, 0), Ok(()));
    assert!(lit(&display).is_empty());
    assert_eq!(cpu.get_register_value(0xF), Ok(0));
}

#[test]
fn collision_is_reported_only_where_a_lit_pixel_goes_off() {
    let (mut display, mut cpu, memory) = machine_with_sprite(&[0xF0, 0x0F, 0x18]);
    assert_eq!(display.op_drw(&mut cpu, &memory, 0, 0, 1), Ok(()));
    assert_eq!(cpu.get_register_value(0xF), Ok(0));
    cpu.op_i_ld(0x201);
    assert_eq!(display.op_drw(&mut cpu, &memory, 0, 0, 1), Ok(()));
    assert_eq!(cpu.get_register_value(0xF), Ok(0));
    assert_eq!(lit(&display).len(), 8);
    cpu.op_i_ld(0x202);
    assert_eq!(display.op_drw(&mut cpu, &memory, 0, 0, 1), Ok(()));
    assert_eq!(cpu.get_register_value(0xF), Ok(1));
    assert_eq!(
        lit(&display),
        vec![(0, 0), (1, 0), (2, 0), (5, 0), (6, 0), (7, 0)]
    );
}

#[test]
fn tall_sprite_wraps_onto_its_own_rows() {
    let sprite = vec![0x80u8; 33];
    let (mut display, mut cpu, memory) = machine_with_sprite(&sprite);
    assert_eq!(display.op_drw(&mut cpu, &memory, 0, 0, 33), Ok(()));
    assert_eq!(cpu.get_register_value(0xF), Ok(1));
    assert_eq!(lit(&display).len(), 31);
    assert!(!display.screen()[0]);
    assert_eq!(display.op_drw(&mut cpu, &memory, 0, 0, 33), Ok(()));
    assert_eq!(cpu.get_register_value(0xF), Ok(1));
    assert!(lit(&display).is_empty());
}

#[test]
fn sprite_past_the_end_of_memory_is_refused() {
    let (mut display, mut cpu, memory) = machine_with_sprite(&[0xFF]);
    cpu.op_i_ld(0xFFE);
    cpu.set_register_value(0xF, 5).unwrap();
    assert_eq!(display.op_drw(&mut cpu, &memory, 0, 0, 2), Ok(()));
    assert_eq!(cpu.get_register_value(0xF), Ok(0));
    cpu.set_register_value(0xF, 5).unwrap();
    assert_eq!(
        display.op_drw(&mut cpu, &memory, 0, 0, 3),
        Err(EmulatorError::AddressOutOfRange)
    );
    assert_eq!(
        display.op_drw(&mut cpu, &memory, 0, 0, usize::MAX),
        Err(EmulatorError::AddressOutOfRange)
    );
    assert_eq!(cpu.get_register_value(0xF), Ok(5));
    assert!(lit(&display).is_empty());
}

#[test]
fn sprite_is_refused_whole_with_its_first_rows_inside() {
    let mut memory = Memory::new();
    let mut cpu = CPU::new();
    cpu.op_i_ld(0xFFF);
    cpu.set_register_value(0, 0xFF).unwrap();
    memory.op_str(&cpu, 0).unwrap();
    let mut display = Display::new();
    assert_eq!(
        display.op_drw(&mut cpu, &memory, 0, 0, 2),
        Err(EmulatorError::AddressOutOfRange)
    );
    assert!(lit(&display).is_empty());
    assert_eq!(display.op_drw(&mut cpu, &memory, 0, 0, 1), Ok(()));
    assert_eq!(lit(&display).len(), 8);
}

#[test]
fn glyph_zero_draws_as_a_box() {
    let memory = Memory::new();
    let mut cpu = CPU::new();
    let mut display = Display::new();
    assert_eq!(cpu.op_ld_font(0), Ok(()));
    assert_eq!(display.op_drw(&mut cpu, &memory, 0, 0, 5), Ok(()));
    assert_eq!(
        lit(&display),
        vec![
            (0, 0), (1, 0), (2, 0), (3, 0),
            (0, 1), (3, 1),
            (0, 2), (3, 2),
            (0, 3), (3, 3),
            (0, 4), (1, 4), (2, 4), (3, 4),
        ]
    );
}

#[test]
fn clear_turns_every_pixel_off() {
    let (mut display, mut cpu, memory) = machine_with_sprite(&[0xFF, 0xFF]);
    assert_eq!(display.op_drw(&mut cpu, &memory, 20, 20, 2), Ok(()));
    assert_eq!(lit(&display).len(), 16);
    display.op_cls();
    assert!(lit(&display).is_empty());
}

#[test]
fn display_reset_turns_every_pixel_off() {
    let (mut display, mut cpu, memory) = machine_with_sprite(&[0xFF, 0xFF]);
    assert_eq!(display.op_drw(&mut cpu, &memory, 20, 20, 2), Ok(()));
    display.reset();
    assert!(lit(&display).is_empty());
}
