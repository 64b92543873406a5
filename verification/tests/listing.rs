use chippie::interpreter::text::{push_decimal, push_hex_byte, push_hex_word, push_hexadecimal};
use chippie::interpreter::{Chip8Instruction, Chip8Interpreter};
use chippie::keypad::{with_key_held, HostKey};

#[test]
fn numbers_print_as_the_standard_formatter_prints_them() {
    let samples = [0usize, 1, 9, 10, 15, 16, 99, 100, 255, 256, 4095, 4096, 65535, 65536, usize::MAX];
    for number in samples {
        let mut hexadecimal = String::from("x");
        push_hexadecimal(&mut hexadecimal, number);
        assert_eq!(hexadecimal, format!("x{:x}", number));
        let mut decimal = String::from("d");
        push_decimal(&mut decimal, number);
        assert_eq!(decimal, format!("d{}", number));
    }
    for word in [0u16, 1, 0x0abc, 0x1000, 0xffff, 0x00f0] {
        let mut text = String::new();
        push_hex_word(&mut text, word);
        assert_eq!(text, format!("{:04x}", word));
    }
    for byte in [0u8, 9, 0x0a, 0x10, 0xff] {
        let mut text = String::new();
        push_hex_byte(&mut text, byte);
        assert_eq!(text, format!("{:02x}", byte));
    }
}

#[test]
fn instructions_render_as_listing_lines() {
    let cases = [
        (Chip8Instruction::NoOperation, "NoOp"),
        (Chip8Instruction::Syscall { address: 0x123 }, "Syscall 0123"),
        (Chip8Instruction::Random { register: 10, mask: 0x0f }, "Va := random & 0x0f"),
        (Chip8Instruction::Call { address: 0xabc }, "Call 0abc"),
        (Chip8Instruction::Return, "Return"),
        (Chip8Instruction::StoreRegisters { count: 16 }, "StoreRegisters(16)"),
        (Chip8Instruction::LoadRegisters { count: 1 }, "LoadRegisters(1)"),
        (Chip8Instruction::Jump { address: 0x200 }, "Jump 0200"),
        (Chip8Instruction::JumpRelative { address: 0x2f0 }, "Jump 02f0 + V0"),
        (Chip8Instruction::ClearScreen, "ClearScreen"),
        (Chip8Instruction::SelectCharacter { register: 15 }, "SelectCharacter(Vf)"),
        (Chip8Instruction::StoreBcd { register: 0 }, "StoreBcd(V0)"),
        (Chip8Instruction::Draw { x: 1, y: 12, len: 15 }, "Draw(x: 1, y: 12, length: 15)"),
        (Chip8Instruction::SkipIfEqualValue { register: 11, value: 200 }, "SkipNext if Vb == 200"),
        (Chip8Instruction::SkipIfEqualRegister { x: 1, y: 14 }, "SkipNext if V1 == Ve"),
        (Chip8Instruction::SkipIfNotEqualValue { register: 2, value: 0 }, "SkipNext if V2 != 0"),
        (Chip8Instruction::SkipIfNotEqualRegister { x: 1, y: 2 }, "SkipNext if V1 == V2"),
        (Chip8Instruction::SkipIfKeyPressed { register: 3 }, "SkipNext if Key[V3] == Pressed"),
        (Chip8Instruction::SkipIfKeyNotPressed { register: 3 }, "SkipNext if Key[V3] == Pressed"),
        (Chip8Instruction::SetIndex { address: 0xfff }, "I := 0fff"),
        (Chip8Instruction::AddIndex { register: 13 }, "I += Vd"),
        (Chip8Instruction::LoadValue { register: 12, value: 255 }, "Vc := 255"),
        (Chip8Instruction::Copy { x: 1, y: 2 }, "V1 := V2"),
        (Chip8Instruction::ReadDelayTimer { register: 4 }, "V4 += DT"),
        (Chip8Instruction::SetDelayTimer { register: 4 }, "DT := V4"),
        (Chip8Instruction::SetSoundTimer { register: 4 }, "ST := V4"),
        (Chip8Instruction::WaitForKey { register: 5 }, "WaitForKey; V5 = Key"),
        (Chip8Instruction::AddValue { register: 6, value: 10 }, "V6 += 10"),
        (Chip8Instruction::AddRegister { x: 7, y: 8 }, "V7 += V8"),
        (Chip8Instruction::SubtractVxVy { x: 7, y: 8 }, "V7 := V7 - V8"),
        (Chip8Instruction::SubtractVyVx { x: 7, y: 8 }, "V7 := V8 - V7"),
        (Chip8Instruction::Or { x: 7, y: 8 }, "V7 := V7 | V8"),
        (Chip8Instruction::And { x: 7, y: 8 }, "V7 := V7 & V8"),
        (Chip8Instruction::Xor { x: 7, y: 8 }, "V7 := V7 ^ V8"),
        (Chip8Instruction::ShiftRight { x: 7, y: 8 }, "V7 := V8 >> 1"),
        (Chip8Instruction::ShiftLeft { x: 7, y: 8 }, "V7 := V8 << 1"),
    ];
    for (instruction, expected) in cases {
        assert_eq!(instruction.to_string(), expected);
    }
}

#[test]
fn operands_out_of_the_decoded_range_still_print() {
    assert_eq!(Chip8Instruction::Copy { x: 255, y: 4096 }.to_string(), "Vff := V1000");
    assert_eq!(Chip8Instruction::StoreRegisters { count: 12345 }.to_string(), "StoreRegisters(12345)");
    assert_eq!(Chip8Instruction::Jump { address: 0xffff }.to_string(), "Jump ffff");
}

#[test]
fn disassembly_lines_show_address_and_instruction() {
    let mut machine = Chip8Interpreter::new();
    machine.try_load_rom(&[0x00, 0xe0, 0xe0, 0x00, 0xd1, 0x25]).unwrap();
    assert_eq!(machine.disassembly_line(0x200), "0200:  ClearScreen");
    assert_eq!(machine.disassembly_line(0x201), "0201:");
    assert_eq!(machine.disassembly_line(0x202), "0202:");
    assert_eq!(machine.disassembly_line(0x204), "0204:  Draw(x: 1, y: 2, length: 5)");
    assert_eq!(machine.disassembly_line(0), "0000:");
    assert_eq!(machine.disassembly_line(4093), "0ffd:  NoOp");
    assert_eq!(machine.disassembly_line(4094), "0ffe:");
    assert_eq!(machine.disassembly_line(4097), "1001:");
    assert_eq!(machine.disassembly_line(0x12345), "12345:");
}

#[test]
fn keyboard_block_maps_onto_the_pad() {
    let layout = [
        (HostKey::Num1, 0x1u8),
        (HostKey::Num2, 0x2),
        (HostKey::Num3, 0x3),
        (HostKey::Num4, 0xc),
        (HostKey::Q, 0x4),
        (HostKey::W, 0x5),
        (HostKey::E, 0x6),
        (HostKey::R, 0xd),
        (HostKey::A, 0x7),
        (HostKey::S, 0x8),
        (HostKey::D, 0x9),
        (HostKey::F, 0xe),
        (HostKey::Z, 0xa),
        (HostKey::X, 0x0),
        (HostKey::C, 0xb),
        (HostKey::V, 0xf),
    ];
    let mut all = 0u32;
    for (host, pad) in layout {
        assert_eq!(host.logical_key(), pad);
        assert_eq!(with_key_held(0, host), 1u32 << pad);
        assert_eq!(with_key_held(0x8001, host), 0x8001 | (1u32 << pad));
        all = with_key_held(all, host);
    }
    assert_eq!(all, 0xffff);
}

#[test]
fn held_host_key_is_seen_by_a_key_wait() {
    let mut machine = Chip8Interpreter::new();
    machine.try_load_rom(&[0xf1, 0x0a]).unwrap();
    machine.set_input_keys(with_key_held(with_key_held(0, HostKey::V), HostKey::R));
    machine.tick().unwrap();
    assert_eq!(machine.state().registers[1], 0xd);
}
