use hachi::vm::consts::{
    DISPLAY_HEIGHT, DISPLAY_WIDTH, FONTSET, FONTSET_START_ADDR, MEM_SIZE, PROG_MEM_START_ADDR,
};
use hachi::vm::errors::FdeError;
use hachi::vm::VirtualMachine;

/// A running machine with `program` loaded.
fn machine_with(program: &[u8]) -> VirtualMachine {
    let mut vm = VirtualMachine::new();
    vm.load_program(program);
    vm
}

fn run(vm: &mut VirtualMachine, cycles: usize) {
    for _ in 0..cycles {
        assert!(vm.can_cycle());
        vm.fde_cycle();
    }
}

#[test]
fn new_machine_holds_font_and_starts_at_program() {
    let vm = VirtualMachine::new();
    assert_eq!(&vm.memory[FONTSET_START_ADDR..FONTSET_START_ADDR + 80], &FONTSET[..]);
    assert!(vm.memory[..FONTSET_START_ADDR].iter().all(|b| *b == 0));
    assert!(vm.memory[FONTSET_START_ADDR + 80..].iter().all(|b| *b == 0));
    assert_eq!(vm.program_counter, PROG_MEM_START_ADDR);
    assert!(!vm.is_running);
    assert!(!vm.is_waiting_for_key);
    assert_eq!(vm.current_key_press, None);
    assert_eq!(vm.last_cycle_result, Ok(()));
    assert!(vm.stack.is_empty());
    assert_eq!(vm.i_register, 0);
    assert_eq!(vm.variable_registers, [0; 16]);
    assert_eq!(vm.keypad, [false; 16]);
    assert!(vm.video_memory.iter().all(|row| row.iter().all(|p| *p == 0)));
}

#[test]
fn reset_restores_new_machine() {
    let mut vm = machine_with(&[0x60, 0x05, 0x22, 0x10]);
    run(&mut vm, 2);
    vm.delay_timer = 9;
    vm.keypad[3] = true;
    vm.reset();
    let fresh = VirtualMachine::new();
    assert_eq!(vm.memory, fresh.memory);
    assert_eq!(vm.program_counter, fresh.program_counter);
    assert_eq!(vm.variable_registers, fresh.variable_registers);
    assert_eq!(vm.stack, fresh.stack);
    assert_eq!(vm.delay_timer, 0);
    assert_eq!(vm.keypad, [false; 16]);
    assert!(!vm.is_running);
}

#[test]
fn pause_only_stops() {
    let mut vm = machine_with(&[0x60, 0x05]);
    vm.pause();
    assert!(!vm.is_running);
    assert_eq!(vm.memory[PROG_MEM_START_ADDR], 0x60);
}

#[test]
fn load_program_copies_bytes_and_starts() {
    let vm = machine_with(&[0x12, 0x34, 0x56]);
    assert!(vm.is_running);
    assert_eq!(&vm.memory[PROG_MEM_START_ADDR..PROG_MEM_START_ADDR + 4], &[0x12, 0x34, 0x56, 0]);
    assert_eq!(vm.memory[FONTSET_START_ADDR], FONTSET[0]);
}

#[test]
fn load_program_of_largest_size() {
    let program = vec![0xAB; MEM_SIZE - PROG_MEM_START_ADDR];
    let vm = machine_with(&program);
    assert_eq!(vm.memory[MEM_SIZE - 1], 0xAB);
    assert_eq!(vm.memory[PROG_MEM_START_ADDR - 1], 0);
}

#[test]
fn clear_screen() {
    let mut vm = machine_with(&[0x00, 0xE0]);
    vm.video_memory[3][5] = 1;
    run(&mut vm, 1);
    assert!(vm.video_memory.iter().all(|row| row.iter().all(|p| *p == 0)));
    assert_eq!(vm.program_counter, PROG_MEM_START_ADDR + 2);
    assert_eq!(vm.last_cycle_result, Ok(()));
}

#[test]
fn call_then_return_comes_back_after_the_call() {
    // 0x200: call 0x206; 0x206: return
    let mut vm = machine_with(&[0x22, 0x06, 0x00, 0x00, 0x00, 0x00, 0x00, 0xEE]);
    run(&mut vm, 1);
    assert_eq!(vm.program_counter, 0x206);
    assert_eq!(vm.stack, vec![0x202]);
    run(&mut vm, 1);
    assert_eq!(vm.program_counter, 0x202);
    assert!(vm.stack.is_empty());
    assert_eq!(vm.last_cycle_result, Ok(()));
}

#[test]
fn execute_call_then_return_restores_machine() {
    let mut vm = VirtualMachine::new();
    vm.program_counter = 0x345;
    vm.stack.push(0x222);
    assert_eq!(vm.execute_instruction([0x2A, 0xBC], 0), Ok(()));
    assert_eq!(vm.program_counter, 0xABC);
    assert_eq!(vm.execute_instruction([0x00, 0xEE], 0), Ok(()));
    assert_eq!(vm.program_counter, 0x345);
    assert_eq!(vm.stack, vec![0x222]);
}

#[test]
fn return_without_call_is_an_error() {
    let mut vm = machine_with(&[0x00, 0xEE]);
    run(&mut vm, 1);
    assert_eq!(vm.last_cycle_result, Err(FdeError::SubroutineReturn));
    assert_eq!(vm.program_counter, PROG_MEM_START_ADDR + 2);
}

#[test]
fn jump_sets_program_counter() {
    let mut vm = machine_with(&[0x1A, 0xBC]);
    run(&mut vm, 1);
    assert_eq!(vm.program_counter, 0xABC);
}

#[test]
fn jump_with_offset_adds_v0() {
    let mut vm = machine_with(&[0x60, 0xFF, 0xBF, 0xFF]);
    run(&mut vm, 2);
    assert_eq!(vm.program_counter, 0xFFF + 0xFF);
}

#[test]
fn skips_on_byte_comparison() {
    let mut vm = machine_with(&[0x61, 0x07, 0x31, 0x07]);
    run(&mut vm, 2);
    assert_eq!(vm.program_counter, PROG_MEM_START_ADDR + 6);

    let mut vm = machine_with(&[0x61, 0x07, 0x31, 0x08]);
    run(&mut vm, 2);
    assert_eq!(vm.program_counter, PROG_MEM_START_ADDR + 4);

    let mut vm = machine_with(&[0x61, 0x07, 0x41, 0x08]);
    run(&mut vm, 2);
    assert_eq!(vm.program_counter, PROG_MEM_START_ADDR + 6);

    let mut vm = machine_with(&[0x61, 0x07, 0x41, 0x07]);
    run(&mut vm, 2);
    assert_eq!(vm.program_counter, PROG_MEM_START_ADDR + 4);
}

#[test]
fn byte_skips_are_complementary() {
    for kk in [0u8, 6, 7, 8, 255] {
        let mut equal = VirtualMachine::new();
        equal.variable_registers[4] = 7;
        let mut not_equal = VirtualMachine::new();
        not_equal.variable_registers[4] = 7;
        equal.execute_instruction([0x34, kk], 0).unwrap();
        not_equal.execute_instruction([0x44, kk], 0).unwrap();
        let equal_skipped = equal.program_counter != PROG_MEM_START_ADDR;
        let not_equal_skipped = not_equal.program_counter != PROG_MEM_START_ADDR;
        assert_ne!(equal_skipped, not_equal_skipped);
    }
}

#[test]
fn skips_on_register_comparison() {
    let mut vm = machine_with(&[0x61, 0x07, 0x62, 0x07, 0x51, 0x20]);
    run(&mut vm, 3);
    assert_eq!(vm.program_counter, PROG_MEM_START_ADDR + 8);

    let mut vm = machine_with(&[0x61, 0x07, 0x62, 0x07, 0x91, 0x20]);
    run(&mut vm, 3);
    assert_eq!(vm.program_counter, PROG_MEM_START_ADDR + 6);
}

#[test]
fn set_and_add_byte() {
    let mut vm = machine_with(&[0x6A, 0xFF, 0x7A, 0x02]);
    vm.variable_registers[0xF] = 5;
    run(&mut vm, 2);
    assert_eq!(vm.variable_registers[0xA], 0x01);
    assert_eq!(vm.variable_registers[0xF], 5);
}

#[test]
fn register_logic() {
    let mut vm = VirtualMachine::new();
    vm.variable_registers[1] = 0b1100;
    vm.variable_registers[2] = 0b1010;
    vm.execute_instruction([0x81, 0x21], 0).unwrap();
    assert_eq!(vm.variable_registers[1], 0b1110);
    vm.variable_registers[1] = 0b1100;
    vm.execute_instruction([0x81, 0x22], 0).unwrap();
    assert_eq!(vm.variable_registers[1], 0b1000);
    vm.variable_registers[1] = 0b1100;
    vm.execute_instruction([0x81, 0x23], 0).unwrap();
    assert_eq!(vm.variable_registers[1], 0b0110);
    vm.execute_instruction([0x81, 0x20], 0).unwrap();
    assert_eq!(vm.variable_registers[1], 0b1010);
}

#[test]
fn add_registers_sets_carry() {
    let mut vm = VirtualMachine::new();
    vm.variable_registers[1] = 200;
    vm.variable_registers[2] = 100;
    vm.execute_instruction([0x81, 0x24], 0).unwrap();
    assert_eq!(vm.variable_registers[1], 44);
    assert_eq!(vm.variable_registers[0xF], 1);
    assert_eq!(256 * 1 + 44, 200 + 100);

    vm.variable_registers[1] = 20;
    vm.execute_instruction([0x81, 0x24], 0).unwrap();
    assert_eq!(vm.variable_registers[1], 120);
    assert_eq!(vm.variable_registers[0xF], 0);
}

#[test]
fn subtract_sets_no_borrow_flag() {
    let mut vm = VirtualMachine::new();
    vm.variable_registers[1] = 10;
    vm.variable_registers[2] = 3;
    vm.execute_instruction([0x81, 0x25], 0).unwrap();
    assert_eq!(vm.variable_registers[1], 7);
    assert_eq!(vm.variable_registers[0xF], 1);

    vm.variable_registers[1] = 3;
    vm.variable_registers[2] = 10;
    vm.execute_instruction([0x81, 0x25], 0).unwrap();
    assert_eq!(vm.variable_registers[1], 249);
    assert_eq!(vm.variable_registers[0xF], 0);

    vm.variable_registers[1] = 5;
    vm.variable_registers[2] = 5;
    vm.execute_instruction([0x81, 0x25], 0).unwrap();
    assert_eq!(vm.variable_registers[1], 0);
    assert_eq!(vm.variable_registers[0xF], 1);
}

#[test]
fn subtract_reversed() {
    let mut vm = VirtualMachine::new();
    vm.variable_registers[1] = 3;
    vm.variable_registers[2] = 10;
    vm.execute_instruction([0x81, 0x27], 0).unwrap();
    assert_eq!(vm.variable_registers[1], 7);
    assert_eq!(vm.variable_registers[0xF], 1);

    vm.variable_registers[1] = 10;
    vm.variable_registers[2] = 3;
    vm.execute_instruction([0x81, 0x27], 0).unwrap();
    assert_eq!(vm.variable_registers[1], 249);
    assert_eq!(vm.variable_registers[0xF], 0);
}

#[test]
fn shifts_set_flag_from_the_shifted_out_bit() {
    let mut vm = VirtualMachine::new();
    vm.variable_registers[3] = 0b1000_0101;
    vm.execute_instruction([0x83, 0x06], 0).unwrap();
    assert_eq!(vm.variable_registers[3], 0b0100_0010);
    assert_eq!(vm.variable_registers[0xF], 1);

    vm.variable_registers[3] = 0b1000_0101;
    vm.execute_instruction([0x83, 0x0E], 0).unwrap();
    assert_eq!(vm.variable_registers[3], 0b0000_1010);
    assert_eq!(vm.variable_registers[0xF], 1);

    vm.variable_registers[3] = 0b0100_0100;
    vm.execute_instruction([0x83, 0x0E], 0).unwrap();
    assert_eq!(vm.variable_registers[3], 0b1000_1000);
    assert_eq!(vm.variable_registers[0xF], 0);
}

#[test]
fn shift_right_of_vf_shifts_the_flag() {
    let mut vm = VirtualMachine::new();
    vm.variable_registers[0xF] = 3;
    vm.execute_instruction([0x8F, 0x06], 0).unwrap();
    assert_eq!(vm.variable_registers[0xF], 0);
}

#[test]
fn set_index_register() {
    let mut vm = machine_with(&[0xA1, 0x23]);
    run(&mut vm, 1);
    assert_eq!(vm.i_register, 0x123);
}

#[test]
fn random_byte_is_masked() {
    let mut vm = VirtualMachine::new();
    vm.execute_instruction([0xC5, 0x0F], 0xAB).unwrap();
    assert_eq!(vm.variable_registers[5], 0x0B);

    let mut vm = machine_with(&[0xC5, 0x00, 0xC6, 0x0F]);
    vm.variable_registers[5] = 9;
    run(&mut vm, 2);
    assert_eq!(vm.variable_registers[5], 0);
    assert!(vm.variable_registers[6] <= 0x0F);
}

#[test]
fn draw_font_glyph() {
    // I = glyph of 0, draw 5 rows at (0, 0)
    let mut vm = machine_with(&[0xF0, 0x29, 0xD0, 0x05]);
    run(&mut vm, 2);
    let expected = [0xF0u8, 0x90, 0x90, 0x90, 0xF0];
    for (row, byte) in expected.iter().enumerate() {
        for col in 0..8 {
            assert_eq!(vm.video_memory[row][col], (byte >> (7 - col)) & 1);
        }
    }
    assert_eq!(vm.video_memory[5][0], 0);
    assert_eq!(vm.variable_registers[0xF], 0);
}

#[test]
fn draw_twice_erases_and_reports_collision() {
    let mut vm = machine_with(&[0xF0, 0x29, 0xD0, 0x05, 0xD0, 0x05]);
    vm.video_memory[10][10] = 1;
    run(&mut vm, 3);
    assert!(vm.video_memory[..5].iter().all(|row| row.iter().all(|p| *p == 0)));
    assert_eq!(vm.video_memory[10][10], 1);
    assert_eq!(vm.variable_registers[0xF], 1);
}

#[test]
fn draw_clips_at_right_and_bottom_edges() {
    let mut vm = VirtualMachine::new();
    vm.memory[0x300] = 0xFF;
    vm.memory[0x301] = 0xFF;
    vm.i_register = 0x300;
    vm.variable_registers[1] = 62;
    vm.variable_registers[2] = 31;
    vm.execute_instruction([0xD1, 0x22], 0).unwrap();
    assert_eq!(vm.video_memory[31][62], 1);
    assert_eq!(vm.video_memory[31][63], 1);
    assert_eq!(vm.video_memory[31][0], 0);
    assert_eq!(vm.video_memory[0][62], 0);
    let lit: usize = vm.video_memory.iter().map(|r| r.iter().filter(|p| **p == 1).count()).sum();
    assert_eq!(lit, 2);
}

#[test]
fn draw_position_wraps_round_display() {
    let mut vm = VirtualMachine::new();
    vm.memory[0x300] = 0x80;
    vm.i_register = 0x300;
    vm.variable_registers[1] = (DISPLAY_WIDTH + 3) as u8;
    vm.variable_registers[2] = (DISPLAY_HEIGHT + 4) as u8;
    vm.execute_instruction([0xD1, 0x21], 0).unwrap();
    assert_eq!(vm.video_memory[4][3], 1);
}

#[test]
fn key_skips() {
    let mut vm = machine_with(&[0x61, 0x0A, 0xE1, 0x9E]);
    vm.keypad[0xA] = true;
    run(&mut vm, 2);
    assert_eq!(vm.program_counter, PROG_MEM_START_ADDR + 6);

    let mut vm = machine_with(&[0x61, 0x0A, 0xE1, 0xA1]);
    vm.keypad[0xA] = true;
    run(&mut vm, 2);
    assert_eq!(vm.program_counter, PROG_MEM_START_ADDR + 4);

    let mut vm = machine_with(&[0x61, 0x0A, 0xE1, 0xA1]);
    run(&mut vm, 2);
    assert_eq!(vm.program_counter, PROG_MEM_START_ADDR + 6);
}

#[test]
fn key_skip_with_no_such_key_cannot_run() {
    let mut vm = machine_with(&[0x61, 0x10, 0xE1, 0x9E]);
    run(&mut vm, 1);
    assert!(!vm.can_cycle());
    assert!(!vm.can_execute([0xE1, 0x9E]));
}

#[test]
fn timers_and_registers() {
    let mut vm = machine_with(&[0x63, 0x2A, 0xF3, 0x15, 0xF3, 0x18, 0xF4, 0x07]);
    run(&mut vm, 4);
    assert_eq!(vm.delay_timer, 0x2A);
    assert_eq!(vm.sound_timer, 0x2A);
    assert_eq!(vm.variable_registers[4], 0x2A);
}

#[test]
fn tick_timers_counts_down_to_zero() {
    let mut vm = VirtualMachine::new();
    vm.delay_timer = 2;
    vm.sound_timer = 1;
    vm.tick_timers();
    assert_eq!((vm.delay_timer, vm.sound_timer), (1, 0));
    vm.tick_timers();
    assert_eq!((vm.delay_timer, vm.sound_timer), (0, 0));
    vm.tick_timers();
    assert_eq!((vm.delay_timer, vm.sound_timer), (0, 0));
}

#[test]
fn add_to_index_register() {
    let mut vm = machine_with(&[0xA1, 0x00, 0x62, 0x10, 0xF2, 0x1E]);
    run(&mut vm, 3);
    assert_eq!(vm.i_register, 0x110);
}

#[test]
fn font_character_points_at_glyph() {
    let mut vm = VirtualMachine::new();
    vm.variable_registers[7] = 0xB;
    vm.execute_instruction([0xF7, 0x29], 0).unwrap();
    assert_eq!(vm.i_register, FONTSET_START_ADDR + 5 * 0xB);
    let glyph = &vm.memory[vm.i_register..vm.i_register + 5];
    assert_eq!(glyph, &FONTSET[55..60]);
    assert_eq!(glyph, &[0xE0, 0x90, 0xE0, 0x90, 0xE0]);
}

#[test]
fn font_character_beyond_byte_range_cannot_run() {
    let mut vm = VirtualMachine::new();
    vm.variable_registers[7] = 52;
    assert!(!vm.can_execute([0xF7, 0x29]));
    vm.variable_registers[7] = 51;
    assert!(vm.can_execute([0xF7, 0x29]));
}

#[test]
fn store_decimal_digits() {
    let mut vm = machine_with(&[0x65, 0xFE, 0xA3, 0x00, 0xF5, 0x33]);
    run(&mut vm, 3);
    assert_eq!(&vm.memory[0x300..0x303], &[2, 5, 4]);

    let mut vm = VirtualMachine::new();
    vm.variable_registers[0] = 7;
    vm.i_register = 0x400;
    vm.execute_instruction([0xF0, 0x33], 0).unwrap();
    assert_eq!(&vm.memory[0x3FF..0x404], &[0, 0, 0, 7, 0]);
}

#[test]
fn store_then_load_registers() {
    let mut vm = VirtualMachine::new();
    for k in 0..16 {
        vm.variable_registers[k] = (k as u8) * 3 + 1;
    }
    vm.i_register = 0x300;
    vm.execute_instruction([0xF3, 0x55], 0).unwrap();
    assert_eq!(&vm.memory[0x300..0x305], &[1, 4, 7, 10, 0]);
    let saved = vm.variable_registers;
    vm.variable_registers = [0; 16];
    vm.execute_instruction([0xF3, 0x65], 0).unwrap();
    assert_eq!(&vm.variable_registers[..4], &saved[..4]);
    assert_eq!(&vm.variable_registers[4..], &[0; 12]);
}

#[test]
fn register_transfer_at_end_of_memory() {
    let mut vm = VirtualMachine::new();
    vm.i_register = MEM_SIZE - 16;
    vm.variable_registers = [9; 16];
    assert!(vm.can_execute([0xFF, 0x55]));
    vm.execute_instruction([0xFF, 0x55], 0).unwrap();
    assert_eq!(vm.memory[MEM_SIZE - 1], 9);
    vm.i_register = MEM_SIZE - 15;
    assert!(!vm.can_execute([0xFF, 0x55]));
    assert!(!vm.can_execute([0xFF, 0x65]));
}

#[test]
fn wait_for_key_repeats_until_a_key_is_pressed() {
    let mut vm = machine_with(&[0xF3, 0x0A]);
    run(&mut vm, 1);
    assert!(vm.is_waiting_for_key);
    assert_eq!(vm.program_counter, PROG_MEM_START_ADDR);
    run(&mut vm, 1);
    assert_eq!(vm.program_counter, PROG_MEM_START_ADDR);
    vm.current_key_press = Some(0xC);
    run(&mut vm, 1);
    assert!(!vm.is_waiting_for_key);
    assert_eq!(vm.current_key_press, None);
    assert_eq!(vm.variable_registers[3], 0xC);
    assert_eq!(vm.program_counter, PROG_MEM_START_ADDR + 2);
}

#[test]
fn unknown_opcodes_are_reported() {
    for (opcode, nibbles) in [
        ([0x01u8, 0x23u8], [0x0u8, 0x1, 0x2, 0x3]),
        ([0x51, 0x21], [0x5, 0x1, 0x2, 0x1]),
        ([0x80, 0x08], [0x8, 0x0, 0x0, 0x8]),
        ([0x91, 0x2F], [0x9, 0x1, 0x2, 0xF]),
        ([0xE0, 0x00], [0xE, 0x0, 0x0, 0x0]),
        ([0xF0, 0xFF], [0xF, 0x0, 0xF, 0xF]),
    ] {
        let mut vm = machine_with(&opcode);
        let before = vm.variable_registers;
        run(&mut vm, 1);
        assert_eq!(vm.last_cycle_result, Err(FdeError::UnknownInstruction { _nibbles: nibbles }));
        assert_eq!(vm.program_counter, PROG_MEM_START_ADDR + 2);
        assert_eq!(vm.variable_registers, before);
    }
}

#[test]
fn cycle_at_end_of_memory_overflows() {
    let mut vm = VirtualMachine::new();
    vm.program_counter = MEM_SIZE - 1;
    assert!(vm.can_cycle());
    vm.fde_cycle();
    assert_eq!(vm.last_cycle_result, Err(FdeError::StackOverflow));
    assert_eq!(vm.program_counter, MEM_SIZE - 1);

    let mut vm = VirtualMachine::new();
    vm.program_counter = MEM_SIZE - 2;
    vm.memory[MEM_SIZE - 2] = 0x60;
    vm.memory[MEM_SIZE - 1] = 0x11;
    vm.fde_cycle();
    assert_eq!(vm.last_cycle_result, Ok(()));
    assert_eq!(vm.variable_registers[0], 0x11);
    assert_eq!(vm.program_counter, MEM_SIZE);
}

#[test]
fn cycle_error_is_replaced_by_next_outcome() {
    let mut vm = machine_with(&[0xFF, 0xFF, 0x60, 0x01]);
    run(&mut vm, 1);
    assert!(vm.last_cycle_result.is_err());
    run(&mut vm, 1);
    assert_eq!(vm.last_cycle_result, Ok(()));
}

#[test]
fn run_frame_runs_the_cycles_of_a_frame() {
    let mut vm = machine_with(&[0x70, 0x01, 0x12, 0x00]);
    assert_eq!(vm.run_frame(10), 10);
    assert_eq!(vm.variable_registers[0], 5);
    assert_eq!(vm.program_counter, PROG_MEM_START_ADDR);
}

#[test]
fn run_frame_does_nothing_when_not_running() {
    let mut vm = VirtualMachine::new();
    vm.memory[PROG_MEM_START_ADDR] = 0x70;
    vm.memory[PROG_MEM_START_ADDR + 1] = 0x01;
    assert_eq!(vm.run_frame(10), 0);
    assert_eq!(vm.variable_registers[0], 0);
    assert_eq!(vm.program_counter, PROG_MEM_START_ADDR);
}

#[test]
fn run_frame_stops_before_a_cycle_that_cannot_run() {
    // V0 += 1; I = 0xFFF; store decimal digits at I (out of memory)
    let mut vm = machine_with(&[0x70, 0x01, 0xAF, 0xFF, 0xF0, 0x33]);
    assert_eq!(vm.run_frame(10), 2);
    assert_eq!(vm.program_counter, PROG_MEM_START_ADDR + 4);
    assert!(!vm.can_cycle());
}

#[test]
fn load_then_store_registers_keeps_memory() {
    let mut vm = VirtualMachine::new();
    vm.i_register = 0x50;
    vm.variable_registers = [0xEE; 16];
    vm.execute_instruction([0xF4, 0x65], 0).unwrap();
    assert_eq!(&vm.variable_registers[..6], &[0xF0, 0x90, 0x90, 0x90, 0xF0, 0xEE]);
    let before = vm.memory;
    vm.execute_instruction([0xF4, 0x55], 0).unwrap();
    assert_eq!(vm.memory, before);
}

#[test]
fn key_skips_are_complementary() {
    for down in [false, true] {
        let mut skip_down = VirtualMachine::new();
        skip_down.variable_registers[2] = 0x9;
        skip_down.keypad[0x9] = down;
        let mut skip_up = VirtualMachine::new();
        skip_up.variable_registers[2] = 0x9;
        skip_up.keypad[0x9] = down;
        skip_down.execute_instruction([0xE2, 0x9E], 0).unwrap();
        skip_up.execute_instruction([0xE2, 0xA1], 0).unwrap();
        assert_ne!(
            skip_down.program_counter == PROG_MEM_START_ADDR,
            skip_up.program_counter == PROG_MEM_START_ADDR
        );
    }
}
