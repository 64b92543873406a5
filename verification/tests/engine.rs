use chippie::interpreter::{
    Chip8Instruction, Chip8Interpreter, Chip8InterpreterError, Chip8InterpreterState, BASE_ADDRESS,
    MAX_ROM_SIZE, MEMORY_SIZE, SCREEN_HEIGHT, SCREEN_WIDTH, STACK_SIZE, TIMER_TICK_INTERVAL,
};

fn machine_with(rom: &[u8]) -> Chip8Interpreter {
    let mut machine = Chip8Interpreter::new();
    machine.try_load_rom(rom).unwrap();
    machine
}

fn words(opcodes: &[u16]) -> Vec<u8> {
    let mut bytes = Vec::new();
    for opcode in opcodes {
        bytes.push((opcode >> 8) as u8);
        bytes.push((opcode & 0xff) as u8);
    }
    bytes
}

fn run(machine: &mut Chip8Interpreter, cycles: usize) {
    for _ in 0..cycles {
        machine.tick().unwrap();
    }
}

fn lit_pixels(state: &Chip8InterpreterState) -> usize {
    let mut count = 0;
    for row in 0..SCREEN_HEIGHT {
        for column in 0..SCREEN_WIDTH {
            assert!(state.screen[row][column] <= 1);
            count += state.screen[row][column] as usize;
        }
    }
    count
}

#[test]
fn a_new_machine_is_in_reset_state() {
    let machine = Chip8Interpreter::new();
    let state = machine.state();
    assert_eq!(state.pc, 0x200);
    assert_eq!(state.pc, BASE_ADDRESS);
    assert_eq!(state.sp, 0);
    assert_eq!(state.i, 0);
    assert_eq!(state.dt, 0);
    assert_eq!(state.st, 0);
    assert_eq!(state.input_keys, 0);
    assert_eq!(state.registers, [0u8; 16]);
    assert_eq!(state.stack, [0u16; 32]);
    assert_eq!(&state.memory[..5], &[0xF0, 0x90, 0x90, 0x90, 0xF0]);
    assert_eq!(&state.memory[75..80], &[0xF0, 0x80, 0xF0, 0x80, 0x80]);
    assert!(state.memory[80..].iter().all(|byte| *byte == 0));
    assert_eq!(lit_pixels(state), 0);
    assert!(!machine.is_sound_playing());
}

#[test]
fn reset_undoes_everything() {
    let mut machine = machine_with(&words(&[0x6a05, 0xa123, 0xd005, 0x2300]));
    machine.set_input_keys(0x8001);
    run(&mut machine, 4);
    machine.reset();
    let fresh = Chip8Interpreter::new();
    assert_eq!(machine.state().memory, fresh.state().memory);
    assert_eq!(machine.state().registers, fresh.state().registers);
    assert_eq!(machine.state().stack, fresh.state().stack);
    assert_eq!(machine.state().screen, fresh.state().screen);
    assert_eq!(machine.state().pc, 0x200);
    assert_eq!(machine.state().sp, 0);
    assert_eq!(machine.state().i, 0);
    assert_eq!(machine.state().input_keys, 0);
    machine.reset();
    assert_eq!(machine.state().memory, fresh.state().memory);
    assert_eq!(machine.state().pc, 0x200);
}

#[test]
fn loaded_program_is_read_back_at_the_load_address() {
    let machine = machine_with(&[0xd1, 0x25, 0x12, 0x00]);
    assert_eq!(
        machine.try_read_instruction(0x200),
        Ok(Chip8Instruction::Draw { x: 1, y: 2, len: 5 })
    );
    assert_eq!(machine.try_read_instruction(0x201), Ok(Chip8Instruction::Call { address: 0x512 }));
    assert_eq!(machine.try_read_instruction(0x202), Ok(Chip8Instruction::Jump { address: 0x200 }));
    let broken = machine_with(&[0xe0, 0x00]);
    assert_eq!(
        broken.try_read_instruction(0x200),
        Err(Chip8InterpreterError::InvalidInstruction(0xe000))
    );
}

#[test]
fn reading_stops_two_bytes_before_the_end_of_memory() {
    let machine = Chip8Interpreter::new();
    assert_eq!(machine.try_read_instruction(4093), Ok(Chip8Instruction::NoOperation));
    assert_eq!(machine.try_read_instruction(4094), Err(Chip8InterpreterError::MemoryAccessError));
    assert_eq!(machine.try_read_instruction(4095), Err(Chip8InterpreterError::MemoryAccessError));
    assert_eq!(machine.try_read_instruction(4096), Err(Chip8InterpreterError::MemoryAccessError));
    assert_eq!(
        machine.try_read_instruction(usize::MAX),
        Err(Chip8InterpreterError::MemoryAccessError)
    );
}

#[test]
fn rom_size_limit_is_exact() {
    assert_eq!(MAX_ROM_SIZE, 3584);
    let mut machine = Chip8Interpreter::new();
    let too_large = vec![0xaau8; 4096 - 0x200 + 1];
    assert_eq!(machine.try_load_rom(&too_large), Err(Chip8InterpreterError::RomFileTooLarge));
    assert!(machine.state().memory[0x200..].iter().all(|byte| *byte == 0));
    let largest = vec![0xaau8; 4096 - 0x200];
    assert_eq!(machine.try_load_rom(&largest), Ok(()));
    assert!(machine.state().memory[0x200..].iter().all(|byte| *byte == 0xaa));
    assert_eq!(machine.state().memory[0x1ff], 0);
    assert_eq!(machine.try_load_rom(&[]), Ok(()));
}

#[test]
fn loading_does_not_reset() {
    let mut machine = machine_with(&[1, 2, 3, 4, 5, 6]);
    machine.try_load_rom(&[9, 8]).unwrap();
    assert_eq!(&machine.state().memory[0x200..0x206], &[9, 8, 3, 4, 5, 6]);
    assert_eq!(&machine.state().memory[..5], &[0xF0, 0x90, 0x90, 0x90, 0xF0]);
}

#[test]
fn five_clear_screens_leave_a_blank_screen() {
    let mut machine = Chip8Interpreter::new();
    machine.reset();
    machine.try_load_rom(&words(&[0x00e0; 5])).unwrap();
    run(&mut machine, 5);
    assert_eq!(lit_pixels(machine.state()), 0);
    assert_eq!(machine.state().pc, 0x200 + 10);
}

#[test]
fn clear_screen_puts_out_what_was_drawn() {
    let mut machine = machine_with(&words(&[0xd005, 0x00e0]));
    machine.tick().unwrap();
    assert_eq!(lit_pixels(machine.state()), 14);
    machine.tick().unwrap();
    assert_eq!(lit_pixels(machine.state()), 0);
}

#[test]
fn call_fails_at_stack_depth_32() {
    let mut calls = Vec::new();
    for k in 0..33u16 {
        calls.push(0x2000 | (0x200 + 2 * (k + 1)));
    }
    let mut machine = machine_with(&words(&calls));
    run(&mut machine, 32);
    assert_eq!(machine.state().sp, 32);
    assert_eq!(machine.state().sp, STACK_SIZE);
    assert_eq!(machine.state().stack[0], 0x202);
    assert_eq!(machine.state().stack[31], 0x240);
    assert_eq!(machine.tick(), Err(Chip8InterpreterError::CallStackDepthExceeded));
    assert_eq!(machine.state().sp, 32);
    assert_eq!(machine.state().pc, 0x242);
}

#[test]
fn call_at_full_stack_leaves_the_state_alone() {
    let mut state = Chip8InterpreterState::default();
    state.sp = 32;
    let before = state;
    assert_eq!(
        state.execute(Chip8Instruction::Call { address: 0x300 }, 0),
        Err(Chip8InterpreterError::CallStackDepthExceeded)
    );
    assert_eq!(state.pc, before.pc);
    assert_eq!(state.sp, 32);
    assert_eq!(state.stack, before.stack);
}

#[test]
fn return_fails_on_an_empty_stack() {
    let mut machine = machine_with(&words(&[0x00ee]));
    assert_eq!(machine.tick(), Err(Chip8InterpreterError::CallStackEmpty));
    assert_eq!(machine.state().sp, 0);
    assert_eq!(machine.state().pc, 0x202);
}

#[test]
fn call_and_return_come_back() {
    let mut machine = machine_with(&words(&[0x2206, 0x6a01, 0x0000, 0x6b02, 0x00ee]));
    machine.tick().unwrap();
    assert_eq!(machine.state().pc, 0x206);
    assert_eq!(machine.state().sp, 1);
    assert_eq!(machine.state().stack[0], 0x202);
    run(&mut machine, 2);
    assert_eq!(machine.state().pc, 0x202);
    assert_eq!(machine.state().sp, 0);
    machine.tick().unwrap();
    assert_eq!(machine.state().registers[0xa], 1);
    assert_eq!(machine.state().registers[0xb], 2);
}

#[test]
fn drawing_a_sprite_twice_restores_the_screen() {
    let mut state = Chip8InterpreterState::default();
    state.registers[1] = 10;
    state.registers[2] = 7;
    state.i = 5 * 0xa;
    state.screen[3][3] = 1;
    let before = state;
    let draw = Chip8Instruction::Draw { x: 1, y: 2, len: 5 };
    assert_eq!(state.execute(draw, 0), Ok(()));
    assert_eq!(state.registers[15], 0);
    assert_ne!(state.screen, before.screen);
    assert_eq!(state.screen[7][10..14], [1, 1, 1, 1]);
    assert_eq!(state.screen[8][10..14], [1, 0, 0, 1]);
    assert_eq!(state.screen[3][3], 1);
    assert_eq!(state.execute(draw, 0), Ok(()));
    assert_eq!(state.screen, before.screen);
    assert_eq!(state.registers[15], 1);
}

#[test]
fn second_draw_does_not_collide_where_the_screen_was_lit() {
    let mut state = Chip8InterpreterState::default();
    state.memory[0x300] = 0x80;
    state.i = 0x300;
    state.screen[0][0] = 1;
    let draw = Chip8Instruction::Draw { x: 0, y: 0, len: 1 };
    assert_eq!(state.execute(draw, 0), Ok(()));
    assert_eq!(state.screen[0][0], 0);
    assert_eq!(state.registers[15], 1);
    state.registers[15] = 0;
    assert_eq!(state.execute(draw, 0), Ok(()));
    assert_eq!(state.screen[0][0], 1);
    assert_eq!(state.registers[15], 0);
}

#[test]
fn sprites_wrap_at_both_edges() {
    let mut state = Chip8InterpreterState::default();
    state.memory[0x300] = 0xff;
    state.memory[0x301] = 0x81;
    state.i = 0x300;
    state.registers[0] = 60 + 64;
    state.registers[1] = 31 + 32;
    assert_eq!(state.execute(Chip8Instruction::Draw { x: 0, y: 1, len: 2 }, 0), Ok(()));
    for column in 0..SCREEN_WIDTH {
        let lit = column >= 60 || column < 4;
        assert_eq!(state.screen[31][column], lit as u8, "column {}", column);
        let corner = column == 60 || column == 3;
        assert_eq!(state.screen[0][column], corner as u8, "column {}", column);
    }
    assert_eq!(lit_pixels(&state), 10);
    assert_eq!(state.registers[15], 0);
}

#[test]
fn drawing_with_no_rows_clears_the_flag() {
    let mut state = Chip8InterpreterState::default();
    state.registers[15] = 1;
    assert_eq!(state.execute(Chip8Instruction::Draw { x: 0, y: 0, len: 0 }, 0), Ok(()));
    assert_eq!(state.registers[15], 0);
    assert_eq!(lit_pixels(&state), 0);
}

#[test]
fn drawing_beyond_memory_fails() {
    let mut state = Chip8InterpreterState::default();
    state.i = 4094;
    let before = state;
    assert_eq!(state.execute(Chip8Instruction::Draw { x: 0, y: 0, len: 2 }, 0), Ok(()));
    assert_eq!(
        state.execute(Chip8Instruction::Draw { x: 0, y: 0, len: 3 }, 0),
        Err(Chip8InterpreterError::MemoryAccessError)
    );
    assert_eq!(state.screen, before.screen);
}

#[test]
fn timers_lose_one_every_interval() {
    assert_eq!(TIMER_TICK_INTERVAL, 8);
    let mut machine = machine_with(&words(&[0x6005, 0xf015, 0xf018]));
    run(&mut machine, 3);
    assert_eq!(machine.state().dt, 5);
    assert_eq!(machine.state().st, 5);
    assert!(machine.is_sound_playing());
    run(&mut machine, TIMER_TICK_INTERVAL - 1);
    assert_eq!(machine.state().dt, 4);
    run(&mut machine, 1);
    assert_eq!(machine.state().dt, 4);
    assert_eq!(machine.state().st, 4);
    run(&mut machine, TIMER_TICK_INTERVAL);
    assert_eq!(machine.state().dt, 3);
    run(&mut machine, 2 * TIMER_TICK_INTERVAL);
    assert_eq!(machine.state().st, 1);
    assert!(!machine.is_sound_playing());
    run(&mut machine, 3 * TIMER_TICK_INTERVAL);
    assert_eq!(machine.state().dt, 0);
    assert_eq!(machine.state().st, 0);
}

#[test]
fn sound_plays_above_one() {
    let mut machine = machine_with(&words(&[0x6002, 0xf018, 0x6101, 0xf118]));
    run(&mut machine, 2);
    assert_eq!(machine.state().st, 2);
    assert!(machine.is_sound_playing());
    run(&mut machine, 2);
    assert_eq!(machine.state().st, 1);
    assert!(!machine.is_sound_playing());
}

#[test]
fn add_register_carries_and_subtract_borrows() {
    let mut state = Chip8InterpreterState::default();
    state.registers[1] = 200;
    state.registers[2] = 100;
    assert_eq!(state.execute(Chip8Instruction::AddRegister { x: 1, y: 2 }, 0), Ok(()));
    assert_eq!(state.registers[1], 44);
    assert_eq!(state.registers[15], 1);
    state.registers[3] = 5;
    state.registers[4] = 10;
    assert_eq!(state.execute(Chip8Instruction::SubtractVxVy { x: 3, y: 4 }, 0), Ok(()));
    assert_eq!(state.registers[3], 251);
    assert_eq!(state.registers[15], 0);
    state.registers[3] = 5;
    assert_eq!(state.execute(Chip8Instruction::SubtractVyVx { x: 3, y: 4 }, 0), Ok(()));
    assert_eq!(state.registers[3], 5);
    assert_eq!(state.registers[15], 1);
    assert_eq!(state.execute(Chip8Instruction::SubtractVxVy { x: 4, y: 4 }, 0), Ok(()));
    assert_eq!(state.registers[4], 0);
    assert_eq!(state.registers[15], 1);
    state.registers[5] = 1;
    state.registers[6] = 2;
    assert_eq!(state.execute(Chip8Instruction::AddRegister { x: 5, y: 6 }, 0), Ok(()));
    assert_eq!(state.registers[5], 3);
    assert_eq!(state.registers[15], 0);
}

#[test]
fn add_register_through_a_program() {
    let mut machine = machine_with(&words(&[0x61c8, 0x6264, 0x8124, 0x6505, 0x660a, 0x8565]));
    run(&mut machine, 3);
    assert_eq!(machine.state().registers[1], 44);
    assert_eq!(machine.state().registers[15], 1);
    run(&mut machine, 3);
    assert_eq!(machine.state().registers[5], 251);
    assert_eq!(machine.state().registers[15], 0);
}

#[test]
fn add_value_sets_the_flag_when_it_does_not_carry() {
    let mut state = Chip8InterpreterState::default();
    state.registers[0] = 250;
    assert_eq!(state.execute(Chip8Instruction::AddValue { register: 0, value: 10 }, 0), Ok(()));
    assert_eq!(state.registers[0], 4);
    assert_eq!(state.registers[15], 0);
    assert_eq!(state.execute(Chip8Instruction::AddValue { register: 0, value: 1 }, 0), Ok(()));
    assert_eq!(state.registers[0], 5);
    assert_eq!(state.registers[15], 1);
    state.registers[15] = 255;
    assert_eq!(state.execute(Chip8Instruction::AddValue { register: 15, value: 1 }, 0), Ok(()));
    assert_eq!(state.registers[15], 0);
}

#[test]
fn flag_wins_when_the_target_is_the_flag_register() {
    let mut state = Chip8InterpreterState::default();
    state.registers[15] = 200;
    state.registers[1] = 100;
    assert_eq!(state.execute(Chip8Instruction::AddRegister { x: 15, y: 1 }, 0), Ok(()));
    assert_eq!(state.registers[15], 1);
}

#[test]
fn logic_and_shifts() {
    let mut state = Chip8InterpreterState::default();
    state.registers[1] = 0b1100_1010;
    state.registers[2] = 0b1010_0101;
    assert_eq!(state.execute(Chip8Instruction::Or { x: 1, y: 2 }, 0), Ok(()));
    assert_eq!(state.registers[1], 0b1110_1111);
    assert_eq!(state.execute(Chip8Instruction::And { x: 1, y: 2 }, 0), Ok(()));
    assert_eq!(state.registers[1], 0b1010_0101);
    state.registers[1] = 0b1100_1010;
    assert_eq!(state.execute(Chip8Instruction::Xor { x: 1, y: 2 }, 0), Ok(()));
    assert_eq!(state.registers[1], 0b0110_1111);
    assert_eq!(state.execute(Chip8Instruction::ShiftRight { x: 1, y: 2 }, 0), Ok(()));
    assert_eq!(state.registers[1], 0b0011_0111);
    assert_eq!(state.registers[15], 1);
    assert_eq!(state.execute(Chip8Instruction::ShiftLeft { x: 2, y: 1 }, 0), Ok(()));
    assert_eq!(state.registers[2], 0b0100_1010);
    assert_eq!(state.registers[15], 1);
    assert_eq!(state.execute(Chip8Instruction::ShiftLeft { x: 2, y: 1 }, 0), Ok(()));
    assert_eq!(state.registers[2], 0b1001_0100);
    assert_eq!(state.registers[15], 0);
    assert_eq!(state.execute(Chip8Instruction::ShiftRight { x: 2, y: 1 }, 0), Ok(()));
    assert_eq!(state.registers[2], 0b0100_1010);
    assert_eq!(state.registers[15], 0);
    assert_eq!(state.execute(Chip8Instruction::Copy { x: 3, y: 2 }, 0), Ok(()));
    assert_eq!(state.registers[3], 0b0100_1010);
}

#[test]
fn random_masks_the_byte_it_is_given() {
    let mut state = Chip8InterpreterState::default();
    assert_eq!(state.execute(Chip8Instruction::Random { register: 3, mask: 0x0f }, 0xab), Ok(()));
    assert_eq!(state.registers[3], 0x0b);
    assert_eq!(state.execute(Chip8Instruction::Random { register: 3, mask: 0xf0 }, 0xab), Ok(()));
    assert_eq!(state.registers[3], 0xa0);
    assert_eq!(state.execute(Chip8Instruction::Random { register: 3, mask: 0x00 }, 0xab), Ok(()));
    assert_eq!(state.registers[3], 0);
}

#[test]
fn random_in_a_program_stays_within_its_mask() {
    let mut program = Vec::new();
    for _ in 0..64 {
        program.push(0xc30f);
        program.push(0xc4f0);
    }
    let mut machine = machine_with(&words(&program));
    for _ in 0..64 {
        run(&mut machine, 2);
        assert_eq!(machine.state().registers[3] & 0xf0, 0);
        assert_eq!(machine.state().registers[4] & 0x0f, 0);
    }
    assert_eq!(machine.state().pc, 0x200 + 256);
}

#[test]
fn skips_move_past_one_instruction() {
    let mut state = Chip8InterpreterState::default();
    state.registers[1] = 7;
    state.registers[2] = 7;
    state.registers[3] = 8;
    let cases = [
        (Chip8Instruction::SkipIfEqualValue { register: 1, value: 7 }, true),
        (Chip8Instruction::SkipIfEqualValue { register: 1, value: 8 }, false),
        (Chip8Instruction::SkipIfNotEqualValue { register: 1, value: 7 }, false),
        (Chip8Instruction::SkipIfNotEqualValue { register: 1, value: 8 }, true),
        (Chip8Instruction::SkipIfEqualRegister { x: 1, y: 2 }, true),
        (Chip8Instruction::SkipIfEqualRegister { x: 1, y: 3 }, false),
        (Chip8Instruction::SkipIfNotEqualRegister { x: 1, y: 2 }, false),
        (Chip8Instruction::SkipIfNotEqualRegister { x: 1, y: 3 }, true),
    ];
    for (instruction, skips) in cases {
        state.pc = 0x300;
        assert_eq!(state.execute(instruction, 0), Ok(()));
        assert_eq!(state.pc, if skips { 0x302 } else { 0x300 }, "{:?}", instruction);
    }
}

#[test]
fn skip_in_a_program_steps_over_the_next_instruction() {
    let mut machine = machine_with(&words(&[0x6107, 0x3107, 0x6aff, 0x6bff]));
    run(&mut machine, 3);
    assert_eq!(machine.state().pc, 0x208);
    assert_eq!(machine.state().registers[0xa], 0);
    assert_eq!(machine.state().registers[0xb], 0xff);
}

#[test]
fn key_skips_look_at_the_named_key() {
    let mut state = Chip8InterpreterState::default();
    state.input_keys = 1 << 9;
    state.registers[4] = 9;
    state.registers[5] = 3;
    state.pc = 0x300;
    assert_eq!(state.execute(Chip8Instruction::SkipIfKeyPressed { register: 4 }, 0), Ok(()));
    assert_eq!(state.pc, 0x302);
    assert_eq!(state.execute(Chip8Instruction::SkipIfKeyPressed { register: 5 }, 0), Ok(()));
    assert_eq!(state.pc, 0x302);
    assert_eq!(state.execute(Chip8Instruction::SkipIfKeyNotPressed { register: 4 }, 0), Ok(()));
    assert_eq!(state.pc, 0x302);
    assert_eq!(state.execute(Chip8Instruction::SkipIfKeyNotPressed { register: 5 }, 0), Ok(()));
    assert_eq!(state.pc, 0x304);
}

#[test]
fn key_skips_refuse_keys_above_fifteen() {
    let mut machine = machine_with(&words(&[0x6010, 0xe09e]));
    machine.tick().unwrap();
    assert_eq!(machine.tick(), Err(Chip8InterpreterError::InvalidInputKey(16)));
    assert_eq!(machine.state().pc, 0x204);
    let mut state = Chip8InterpreterState::default();
    state.registers[0] = 255;
    assert_eq!(
        state.execute(Chip8Instruction::SkipIfKeyNotPressed { register: 0 }, 0),
        Err(Chip8InterpreterError::InvalidInputKey(255))
    );
    state.registers[0] = 15;
    assert_eq!(state.execute(Chip8Instruction::SkipIfKeyNotPressed { register: 0 }, 0), Ok(()));
}

#[test]
fn wait_for_key_polls_until_a_key_is_held() {
    let mut machine = machine_with(&words(&[0xf10a, 0x6a01]));
    let before = *machine.state();
    for _ in 0..20 {
        assert_eq!(machine.tick(), Ok(()));
    }
    assert_eq!(machine.state().pc, 0x200);
    assert_eq!(machine.state().registers, before.registers);
    assert_eq!(machine.state().memory, before.memory);
    machine.set_input_keys((1 << 9) | (1 << 5));
    assert_eq!(machine.state().input_keys, 0x220);
    assert_eq!(machine.tick(), Ok(()));
    assert_eq!(machine.state().pc, 0x202);
    assert_eq!(machine.state().registers[1], 5);
}

#[test]
fn a_poll_does_not_count_for_the_timers() {
    let mut machine = machine_with(&words(&[0x6005, 0xf015, 0xf10a]));
    run(&mut machine, 2);
    run(&mut machine, 100);
    assert_eq!(machine.state().dt, 5);
    assert_eq!(machine.state().pc, 0x204);
}

#[test]
fn wait_for_key_executed_directly_expects_a_key() {
    let mut state = Chip8InterpreterState::default();
    assert_eq!(
        state.execute(Chip8Instruction::WaitForKey { register: 2 }, 0),
        Err(Chip8InterpreterError::ExpectingInputKey)
    );
    state.input_keys = 0x8000;
    assert_eq!(state.execute(Chip8Instruction::WaitForKey { register: 2 }, 0), Ok(()));
    assert_eq!(state.registers[2], 15);
    state.input_keys = 0x1_0000;
    state.registers[2] = 77;
    assert_eq!(state.execute(Chip8Instruction::WaitForKey { register: 2 }, 0), Ok(()));
    assert_eq!(state.registers[2], 77);
}

#[test]
fn program_counter_must_leave_room_for_a_fetch() {
    let mut machine = machine_with(&words(&[0x1fff]));
    machine.tick().unwrap();
    assert_eq!(machine.state().pc, 0xfff);
    assert_eq!(machine.tick(), Err(Chip8InterpreterError::ProgramCounterOutOfBounds(0xfff)));
    assert_eq!(machine.state().pc, 0xfff);
    let mut last = machine_with(&words(&[0x1ffe]));
    last.tick().unwrap();
    assert_eq!(last.tick(), Ok(()));
    assert_eq!(last.state().pc, 0x1000);
    assert_eq!(last.state().pc, MEMORY_SIZE);
    assert_eq!(last.tick(), Err(Chip8InterpreterError::ProgramCounterOutOfBounds(0x1000)));
}

#[test]
fn an_invalid_opcode_stops_the_cycle_before_anything_moves() {
    let mut machine = machine_with(&[0x81, 0x28]);
    assert_eq!(machine.tick(), Err(Chip8InterpreterError::InvalidInstruction(0x8128)));
    assert_eq!(machine.state().pc, 0x200);
    assert_eq!(machine.tick(), Err(Chip8InterpreterError::InvalidInstruction(0x8128)));
}

#[test]
fn bcd_stores_three_digits() {
    let mut machine = machine_with(&words(&[0x63fe, 0xa300, 0xf333]));
    run(&mut machine, 3);
    assert_eq!(&machine.state().memory[0x300..0x303], &[2, 5, 4]);
    let mut state = Chip8InterpreterState::default();
    state.registers[0] = 7;
    state.i = 4093;
    assert_eq!(state.execute(Chip8Instruction::StoreBcd { register: 0 }, 0), Ok(()));
    assert_eq!(&state.memory[4093..4096], &[0, 0, 7]);
    state.i = 4094;
    assert_eq!(
        state.execute(Chip8Instruction::StoreBcd { register: 0 }, 0),
        Err(Chip8InterpreterError::MemoryAccessError)
    );
    state.i = 0xffff;
    assert_eq!(
        state.execute(Chip8Instruction::StoreBcd { register: 0 }, 0),
        Err(Chip8InterpreterError::MemoryAccessError)
    );
}

#[test]
fn bcd_beyond_memory_fails_after_the_counter_moved() {
    let mut machine = machine_with(&words(&[0xafff, 0xf033]));
    machine.tick().unwrap();
    assert_eq!(machine.tick(), Err(Chip8InterpreterError::MemoryAccessError));
    assert_eq!(machine.state().pc, 0x204);
}

#[test]
fn registers_are_stored_and_loaded_in_blocks() {
    let mut state = Chip8InterpreterState::default();
    for register in 0..16 {
        state.registers[register] = 100 + register as u8;
    }
    state.i = 0x400;
    assert_eq!(state.execute(Chip8Instruction::StoreRegisters { count: 3 }, 0), Ok(()));
    assert_eq!(&state.memory[0x3ff..0x404], &[0, 100, 101, 102, 0]);
    assert_eq!(state.i, 0x400);
    state.memory[0x400] = 1;
    state.memory[0x401] = 2;
    state.memory[0x402] = 3;
    state.memory[0x403] = 4;
    assert_eq!(state.execute(Chip8Instruction::LoadRegisters { count: 2 }, 0), Ok(()));
    assert_eq!(&state.registers[..4], &[1, 2, 102, 103]);
    state.i = 4096 - 16;
    assert_eq!(state.execute(Chip8Instruction::StoreRegisters { count: 16 }, 0), Ok(()));
    assert_eq!(state.memory[4095], 115);
    state.i = 4096 - 15;
    let before = state;
    assert_eq!(
        state.execute(Chip8Instruction::StoreRegisters { count: 16 }, 0),
        Err(Chip8InterpreterError::MemoryAccessError)
    );
    assert_eq!(
        state.execute(Chip8Instruction::LoadRegisters { count: 16 }, 0),
        Err(Chip8InterpreterError::MemoryAccessError)
    );
    assert_eq!(state.memory, before.memory);
    assert_eq!(state.registers, before.registers);
}

#[test]
fn jumps_and_index_arithmetic() {
    let mut state = Chip8InterpreterState::default();
    assert_eq!(state.execute(Chip8Instruction::Jump { address: 0xabc }, 0), Ok(()));
    assert_eq!(state.pc, 0xabc);
    state.registers[0] = 0x10;
    assert_eq!(state.execute(Chip8Instruction::JumpRelative { address: 0x300 }, 0), Ok(()));
    assert_eq!(state.pc, 0x310);
    state.registers[0] = 1;
    assert_eq!(state.execute(Chip8Instruction::JumpRelative { address: 0xffe }, 0), Ok(()));
    assert_eq!(state.pc, 0xfff);
    assert_eq!(
        state.execute(Chip8Instruction::JumpRelative { address: 0xfff }, 0),
        Err(Chip8InterpreterError::MemoryAccessError)
    );
    assert_eq!(state.pc, 0xfff);
    assert_eq!(state.execute(Chip8Instruction::SetIndex { address: 0x123 }, 0), Ok(()));
    assert_eq!(state.i, 0x123);
    state.registers[7] = 0xff;
    assert_eq!(state.execute(Chip8Instruction::AddIndex { register: 7 }, 0), Ok(()));
    assert_eq!(state.i, 0x222);
    state.i = 0xffff;
    assert_eq!(state.execute(Chip8Instruction::AddIndex { register: 7 }, 0), Ok(()));
    assert_eq!(state.i, 0xfe);
    state.registers[7] = 0xf;
    assert_eq!(state.execute(Chip8Instruction::SelectCharacter { register: 7 }, 0), Ok(()));
    assert_eq!(state.i, 75);
    state.registers[7] = 255;
    assert_eq!(state.execute(Chip8Instruction::SelectCharacter { register: 7 }, 0), Ok(()));
    assert_eq!(state.i, 1275);
}

#[test]
fn delay_timer_is_read_and_set() {
    let mut state = Chip8InterpreterState::default();
    state.registers[1] = 42;
    assert_eq!(state.execute(Chip8Instruction::SetDelayTimer { register: 1 }, 0), Ok(()));
    assert_eq!(state.dt, 42);
    assert_eq!(state.st, 0);
    assert_eq!(state.execute(Chip8Instruction::ReadDelayTimer { register: 2 }, 0), Ok(()));
    assert_eq!(state.registers[2], 42);
    assert_eq!(state.execute(Chip8Instruction::SetSoundTimer { register: 1 }, 0), Ok(()));
    assert_eq!(state.st, 42);
    assert_eq!(state.execute(Chip8Instruction::LoadValue { register: 1, value: 9 }, 0), Ok(()));
    assert_eq!(state.registers[1], 9);
}

#[test]
fn no_operation_and_syscall_change_nothing() {
    let mut state = Chip8InterpreterState::default();
    state.registers[3] = 3;
    let before = state;
    assert_eq!(state.execute(Chip8Instruction::NoOperation, 0), Ok(()));
    assert_eq!(state.execute(Chip8Instruction::Syscall { address: 0x123 }, 0), Ok(()));
    assert_eq!(state.registers, before.registers);
    assert_eq!(state.memory, before.memory);
    assert_eq!(state.pc, before.pc);
}
