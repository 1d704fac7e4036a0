use chip8::cpu::{Fault, Status, CPU};
use chip8::display::Display;
use chip8::keypad::Keypad;

fn machine(program: &[u16]) -> CPU {
    let mut bytes: Vec<u8> = Vec::new();
    for w in program {
        bytes.push((w >> 8) as u8);
        bytes.push((w & 0xFF) as u8);
    }
    let mut cpu = CPU::new(Display::new());
    cpu.load_game(&bytes);
    cpu
}

fn run(cpu: &mut CPU, cycles: usize) {
    for _ in 0..cycles {
        assert_eq!(cpu.emulate_cycle_with(0), Ok(Status::Executed));
    }
}

#[test]
fn new_machine_state() {
    let cpu = CPU::new(Display::new());
    assert_eq!(cpu.pc(), 0x200);
    assert_eq!(cpu.index(), 0);
    assert_eq!(cpu.stack_pointer(), 0);
    assert_eq!(cpu.memory_at(0), 0xF0);
    assert_eq!(cpu.memory_at(5), 0x20);
    assert_eq!(cpu.memory_at(79), 0x80);
    assert_eq!(cpu.memory_at(80), 0);
    for r in 0..16 {
        assert_eq!(cpu.register(r), 0);
    }
    assert_eq!(cpu.delay_timer(), 0);
    assert_eq!(cpu.sound_timer(), 0);
}

#[test]
fn add_sets_carry() {
    let mut cpu = machine(&[0x60FF, 0x6102, 0x8014]);
    run(&mut cpu, 3);
    assert_eq!(cpu.register(0), 1);
    assert_eq!(cpu.register(15), 1);
    assert_eq!(cpu.pc(), 0x206);
}

#[test]
fn add_without_carry() {
    let mut cpu = machine(&[0x6010, 0x6120, 0x8014]);
    run(&mut cpu, 3);
    assert_eq!(cpu.register(0), 0x30);
    assert_eq!(cpu.register(15), 0);
}

#[test]
fn add_into_flag_register_keeps_sum() {
    let mut cpu = machine(&[0x6F05, 0x6103, 0x8F14]);
    run(&mut cpu, 3);
    assert_eq!(cpu.register(15), 8);
}

#[test]
fn sub_with_borrow() {
    let mut cpu = machine(&[0x6005, 0x6107, 0x8015]);
    run(&mut cpu, 3);
    assert_eq!(cpu.register(0), 0xFE);
    assert_eq!(cpu.register(15), 0);
}

#[test]
fn sub_without_borrow() {
    let mut cpu = machine(&[0x6007, 0x6105, 0x8015]);
    run(&mut cpu, 3);
    assert_eq!(cpu.register(0), 2);
    assert_eq!(cpu.register(15), 1);
}

#[test]
fn sub_equal_values_has_no_borrow() {
    let mut cpu = machine(&[0x6007, 0x6107, 0x8015]);
    run(&mut cpu, 3);
    assert_eq!(cpu.register(0), 0);
    assert_eq!(cpu.register(15), 1);
}

#[test]
fn reverse_sub_borrow() {
    let mut cpu = machine(&[0x6005, 0x6103, 0x8017]);
    run(&mut cpu, 3);
    assert_eq!(cpu.register(0), 0xFE);
    assert_eq!(cpu.register(15), 0);
    let mut cpu = machine(&[0x6003, 0x6105, 0x8017]);
    run(&mut cpu, 3);
    assert_eq!(cpu.register(0), 2);
    assert_eq!(cpu.register(15), 1);
}

#[test]
fn shift_right_flags_low_bit() {
    let mut cpu = machine(&[0x6005, 0x8006]);
    run(&mut cpu, 2);
    assert_eq!(cpu.register(0), 2);
    assert_eq!(cpu.register(15), 1);
    let mut cpu = machine(&[0x6004, 0x8006]);
    run(&mut cpu, 2);
    assert_eq!(cpu.register(0), 2);
    assert_eq!(cpu.register(15), 0);
}

#[test]
fn shift_left_flags_high_bit() {
    let mut cpu = machine(&[0x6081, 0x800E]);
    run(&mut cpu, 2);
    assert_eq!(cpu.register(0), 2);
    assert_eq!(cpu.register(15), 1);
    let mut cpu = machine(&[0x6041, 0x800E]);
    run(&mut cpu, 2);
    assert_eq!(cpu.register(0), 0x82);
    assert_eq!(cpu.register(15), 0);
}

#[test]
fn logic_ops() {
    let mut cpu = machine(&[0x600C, 0x610A, 0x8011, 0x620C, 0x8212, 0x630C, 0x8313, 0x6400, 0x8410]);
    run(&mut cpu, 9);
    assert_eq!(cpu.register(0), 0x0E);
    assert_eq!(cpu.register(2), 0x08);
    assert_eq!(cpu.register(3), 0x06);
    assert_eq!(cpu.register(4), 0x0A);
}

#[test]
fn add_immediate_wraps_without_flag() {
    let mut cpu = machine(&[0x60FF, 0x7002]);
    run(&mut cpu, 2);
    assert_eq!(cpu.register(0), 1);
    assert_eq!(cpu.register(15), 0);
}

#[test]
fn bcd_of_157() {
    let mut cpu = machine(&[0x609D, 0xA300, 0xF033]);
    run(&mut cpu, 3);
    assert_eq!(cpu.memory_at(0x300), 1);
    assert_eq!(cpu.memory_at(0x301), 5);
    assert_eq!(cpu.memory_at(0x302), 7);
    assert_eq!(cpu.index(), 0x300);
}

#[test]
fn store_then_load_round_trip() {
    let mut cpu = machine(&[
        0x6001, 0x6102, 0x6203, 0xA300, 0xF255, 0x6000, 0x6100, 0x6200, 0xA300, 0xF265,
    ]);
    run(&mut cpu, 5);
    assert_eq!(cpu.index(), 0x303);
    assert_eq!(cpu.memory_at(0x300), 1);
    assert_eq!(cpu.memory_at(0x302), 3);
    run(&mut cpu, 5);
    assert_eq!(cpu.register(0), 1);
    assert_eq!(cpu.register(1), 2);
    assert_eq!(cpu.register(2), 3);
    assert_eq!(cpu.index(), 0x303);
}

#[test]
fn skip_if_equal_immediate() {
    let mut cpu = machine(&[0x6007, 0x3007]);
    run(&mut cpu, 2);
    assert_eq!(cpu.pc(), 0x206);
    let mut cpu = machine(&[0x6007, 0x3008]);
    run(&mut cpu, 2);
    assert_eq!(cpu.pc(), 0x204);
}

#[test]
fn skip_if_not_equal_immediate() {
    let mut cpu = machine(&[0x6007, 0x4008]);
    run(&mut cpu, 2);
    assert_eq!(cpu.pc(), 0x206);
    let mut cpu = machine(&[0x6007, 0x4007]);
    run(&mut cpu, 2);
    assert_eq!(cpu.pc(), 0x204);
}

#[test]
fn skip_if_registers_equal() {
    let mut cpu = machine(&[0x6007, 0x6107, 0x5010]);
    run(&mut cpu, 3);
    assert_eq!(cpu.pc(), 0x208);
    let mut cpu = machine(&[0x6007, 0x6108, 0x5010]);
    run(&mut cpu, 3);
    assert_eq!(cpu.pc(), 0x206);
}

#[test]
fn skip_if_registers_differ() {
    let mut cpu = machine(&[0x6007, 0x6108, 0x9010]);
    run(&mut cpu, 3);
    assert_eq!(cpu.pc(), 0x208);
    let mut cpu = machine(&[0x6007, 0x6107, 0x9010]);
    run(&mut cpu, 3);
    assert_eq!(cpu.pc(), 0x206);
}

#[test]
fn skip_if_key_pressed() {
    let mut cpu = machine(&[0x6005, 0xE09E]);
    run(&mut cpu, 1);
    cpu.keypad.press(5, true);
    run(&mut cpu, 1);
    assert_eq!(cpu.pc(), 0x206);
    let mut cpu = machine(&[0x6005, 0xE09E]);
    run(&mut cpu, 2);
    assert_eq!(cpu.pc(), 0x204);
}

#[test]
fn skip_if_key_not_pressed() {
    let mut cpu = machine(&[0x6005, 0xE0A1]);
    run(&mut cpu, 2);
    assert_eq!(cpu.pc(), 0x206);
    let mut cpu = machine(&[0x6005, 0xE0A1]);
    run(&mut cpu, 1);
    cpu.keypad.press(5, true);
    run(&mut cpu, 1);
    assert_eq!(cpu.pc(), 0x204);
}

#[test]
fn call_then_return() {
    let mut program = vec![0u16; 0x81];
    program[0] = 0x2300;
    program[0x80] = 0x00EE;
    let mut cpu = machine(&program);
    run(&mut cpu, 1);
    assert_eq!(cpu.pc(), 0x300);
    assert_eq!(cpu.stack_pointer(), 1);
    run(&mut cpu, 1);
    assert_eq!(cpu.pc(), 0x202);
    assert_eq!(cpu.stack_pointer(), 0);
}

#[test]
fn jump_and_jump_with_offset() {
    let mut cpu = machine(&[0x1456]);
    run(&mut cpu, 1);
    assert_eq!(cpu.pc(), 0x456);
    let mut cpu = machine(&[0x6004, 0xB300]);
    run(&mut cpu, 2);
    assert_eq!(cpu.pc(), 0x304);
}

#[test]
fn index_instructions() {
    let mut cpu = machine(&[0xA123, 0x6010, 0xF01E]);
    run(&mut cpu, 3);
    assert_eq!(cpu.index(), 0x133);
    let mut cpu = machine(&[0x600A, 0xF029]);
    run(&mut cpu, 2);
    assert_eq!(cpu.index(), 50);
}

#[test]
fn load_fills_program_region() {
    let game: Vec<u8> = (0..3584).map(|k| (k % 251) as u8 + 1).collect();
    let mut cpu = CPU::new(Display::new());
    cpu.load_game(&game);
    assert_eq!(cpu.pc(), 0x200);
    for k in 0..3584 {
        assert_eq!(cpu.memory_at(0x200 + k), game[k]);
    }
    assert_eq!(cpu.memory_at(0x1FF), 0);
    assert_eq!(cpu.memory_at(0), 0xF0);
}

#[test]
fn load_truncates_oversized_program() {
    let game: Vec<u8> = (0..4000).map(|k| (k % 7) as u8 + 9).collect();
    let mut cpu = CPU::new(Display::new());
    cpu.load_game(&game);
    assert_eq!(cpu.pc(), 0x200);
    for k in 0..3584 {
        assert_eq!(cpu.memory_at(0x200 + k), game[k]);
    }
    assert_eq!(cpu.memory_at(0), 0xF0);
    assert_eq!(cpu.memory_at(79), 0x80);
    assert_eq!(cpu.memory_at(80), 0);
}

#[test]
fn wait_for_key_holds_until_pressed() {
    let mut cpu = machine(&[0xF30A]);
    for _ in 0..7 {
        assert_eq!(cpu.emulate_cycle_with(0), Ok(Status::Executed));
        assert_eq!(cpu.pc(), 0x200);
    }
    cpu.keypad.press(9, true);
    cpu.keypad.press(7, true);
    run(&mut cpu, 1);
    assert_eq!(cpu.pc(), 0x202);
    assert_eq!(cpu.register(3), 7);
}

#[test]
fn timers_count_down_to_zero() {
    let mut cpu = machine(&[0x6006, 0xF015, 0xF018, 0x1206]);
    run(&mut cpu, 2);
    assert_eq!(cpu.delay_timer(), 5);
    run(&mut cpu, 1);
    assert_eq!(cpu.sound_timer(), 5);
    assert_eq!(cpu.delay_timer(), 4);
    run(&mut cpu, 4);
    assert_eq!(cpu.delay_timer(), 0);
    assert_eq!(cpu.sound_timer(), 1);
    run(&mut cpu, 1);
    assert_eq!(cpu.sound_timer(), 0);
    run(&mut cpu, 3);
    assert_eq!(cpu.delay_timer(), 0);
    assert_eq!(cpu.sound_timer(), 0);
}

#[test]
fn read_delay_timer() {
    let mut cpu = machine(&[0x6009, 0xF015, 0xF107]);
    run(&mut cpu, 3);
    assert_eq!(cpu.register(1), 8);
}

#[test]
fn random_byte_is_masked() {
    let mut cpu = machine(&[0xC00F]);
    assert_eq!(cpu.emulate_cycle_with(0xAB), Ok(Status::Executed));
    assert_eq!(cpu.register(0), 0x0B);
    let mut cpu = machine(&[0xC100, 0xC2F0]);
    assert_eq!(cpu.emulate_cycle(), Ok(Status::Executed));
    assert_eq!(cpu.register(1), 0);
    assert_eq!(cpu.emulate_cycle(), Ok(Status::Executed));
    assert_eq!(cpu.register(2) & 0x0F, 0);
    assert_eq!(cpu.pc(), 0x204);
}

#[test]
fn draw_and_collide() {
    let mut cpu = machine(&[0xA000, 0xD015, 0xD015]);
    run(&mut cpu, 2);
    assert_eq!(cpu.register(15), 0);
    assert!(cpu.display.pixel(0, 0));
    assert!(cpu.display.pixel(3, 0));
    assert!(!cpu.display.pixel(4, 0));
    assert!(!cpu.display.pixel(1, 1));
    assert!(cpu.display.pixel(0, 4));
    run(&mut cpu, 1);
    assert_eq!(cpu.register(15), 1);
    assert!(!cpu.display.pixel(0, 0));
}

#[test]
fn clear_screen() {
    let mut cpu = machine(&[0xA000, 0xD015, 0x00E0]);
    run(&mut cpu, 2);
    assert!(cpu.display.pixel(0, 0));
    run(&mut cpu, 1);
    assert!(!cpu.display.pixel(0, 0));
    assert_eq!(cpu.pc(), 0x206);
}

#[test]
fn draw_wraps_round_edges() {
    let mut display = Display::new();
    let hit = display.draw(62, 31, &[0xF0, 0x80]);
    assert!(!hit);
    assert!(display.pixel(62, 31));
    assert!(display.pixel(63, 31));
    assert!(display.pixel(0, 31));
    assert!(display.pixel(1, 31));
    assert!(!display.pixel(2, 31));
    assert!(display.pixel(62, 0));
    assert!(!display.pixel(63, 0));
    let hit = display.draw(0, 31, &[0x80]);
    assert!(hit);
    assert!(!display.pixel(0, 31));
}

#[test]
fn unknown_opcodes_move_on() {
    let mut cpu = machine(&[0x0123, 0x8128, 0xE0FF, 0xF0FF]);
    assert_eq!(cpu.emulate_cycle_with(0), Ok(Status::UnknownOpcode(0x0123)));
    assert_eq!(cpu.emulate_cycle_with(0), Ok(Status::UnknownOpcode(0x8128)));
    assert_eq!(cpu.emulate_cycle_with(0), Ok(Status::UnknownOpcode(0xE0FF)));
    assert_eq!(cpu.emulate_cycle_with(0), Ok(Status::UnknownOpcode(0xF0FF)));
    assert_eq!(cpu.pc(), 0x208);
}

#[test]
fn return_with_empty_stack_faults() {
    let mut cpu = machine(&[0x6105, 0xF115, 0x00EE]);
    run(&mut cpu, 2);
    assert_eq!(cpu.emulate_cycle_with(0), Err(Fault::StackUnderflow));
    assert_eq!(cpu.pc(), 0x204);
    assert_eq!(cpu.delay_timer(), 4);
}

#[test]
fn call_with_full_stack_faults() {
    let mut cpu = machine(&[0x2200]);
    run(&mut cpu, 16);
    assert_eq!(cpu.stack_pointer(), 16);
    assert_eq!(cpu.emulate_cycle_with(0), Err(Fault::StackOverflow));
    assert_eq!(cpu.stack_pointer(), 16);
    assert_eq!(cpu.pc(), 0x200);
}

#[test]
fn pc_past_memory_faults() {
    let mut cpu = machine(&[0x1FFF]);
    run(&mut cpu, 1);
    assert_eq!(cpu.emulate_cycle_with(0), Err(Fault::PcOutOfRange));
    assert_eq!(cpu.pc(), 0xFFF);
}

#[test]
fn memory_access_past_end_faults() {
    let mut cpu = machine(&[0xAFFE, 0xF033]);
    run(&mut cpu, 1);
    assert_eq!(cpu.emulate_cycle_with(0), Err(Fault::MemoryOutOfRange));
    let mut cpu = machine(&[0xAFFF, 0xF155]);
    run(&mut cpu, 1);
    assert_eq!(cpu.emulate_cycle_with(0), Err(Fault::MemoryOutOfRange));
    let mut cpu = machine(&[0xAFFF, 0xF165]);
    run(&mut cpu, 1);
    assert_eq!(cpu.emulate_cycle_with(0), Err(Fault::MemoryOutOfRange));
    let mut cpu = machine(&[0xAFFE, 0xD003]);
    run(&mut cpu, 1);
    assert_eq!(cpu.emulate_cycle_with(0), Err(Fault::MemoryOutOfRange));
    assert_eq!(cpu.pc(), 0x202);
}

#[test]
fn index_overflow_faults() {
    let mut cpu = machine(&[0x60FF, 0xAFFF, 0xF01E, 0x1204]);
    run(&mut cpu, 2);
    let mut adds = 0;
    loop {
        match cpu.emulate_cycle_with(0) {
            Ok(_) => {}
            Err(f) => {
                assert_eq!(f, Fault::IndexOverflow);
                break;
            }
        }
        if cpu.pc() == 0x206 {
            adds += 1;
        }
        assert!(adds <= 241);
    }
    assert_eq!(cpu.index(), 0xFFF + 240 * 0xFF);
}

#[test]
fn keypad_reads_back() {
    let mut keypad = Keypad::new();
    assert!(!keypad.pressed(3));
    keypad.press(3, true);
    assert!(keypad.pressed(3));
    keypad.press(3, false);
    assert!(!keypad.pressed(3));
    assert!(!keypad.pressed(16));
    assert!(!keypad.pressed(200));
}
