use chippie::interpreter::{Chip8Instruction, Chip8InterpreterError};

fn decode(opcode: u16) -> Result<Chip8Instruction, Chip8InterpreterError> {
    Chip8Instruction::try_from(opcode)
}

#[test]
fn clear_screen_and_return_are_special_cased() {
    assert_eq!(decode(0x00e0), Ok(Chip8Instruction::ClearScreen));
    assert_eq!(decode(0x00ee), Ok(Chip8Instruction::Return));
    assert_eq!(decode(0x0123), Ok(Chip8Instruction::NoOperation));
    assert_eq!(decode(0x0000), Ok(Chip8Instruction::NoOperation));
    assert_eq!(decode(0x0fff), Ok(Chip8Instruction::NoOperation));
}

#[test]
fn classes_without_selector_never_fail() {
    for class in [0x0u16, 0x1, 0x2, 0x3, 0x4, 0x5, 0x6, 0x7, 0x9, 0xa, 0xb, 0xc, 0xd] {
        for low in 0..0x1000u16 {
            let opcode = (class << 12) | low;
            let decoded = decode(opcode);
            assert!(decoded.is_ok(), "{:04x}", opcode);
            if class == 0 && opcode != 0x00e0 && opcode != 0x00ee {
                assert_eq!(decoded, Ok(Chip8Instruction::NoOperation));
            }
        }
    }
}

#[test]
fn alu_group_accepts_exactly_nine_selectors() {
    for low in 0..0x1000u16 {
        let opcode = 0x8000 | low;
        let selector = low & 0xf;
        let decoded = decode(opcode);
        if selector <= 7 || selector == 0xe {
            assert!(decoded.is_ok(), "{:04x}", opcode);
        } else {
            assert_eq!(decoded, Err(Chip8InterpreterError::InvalidInstruction(opcode)));
        }
    }
}

#[test]
fn undefined_alu_selector_is_refused() {
    assert_eq!(decode(0x8128), Err(Chip8InterpreterError::InvalidInstruction(0x8128)));
    assert_eq!(decode(0x812f), Err(Chip8InterpreterError::InvalidInstruction(0x812f)));
}

#[test]
fn alu_group_decodes_each_operation() {
    assert_eq!(decode(0x8ab0), Ok(Chip8Instruction::Copy { x: 0xa, y: 0xb }));
    assert_eq!(decode(0x8ab1), Ok(Chip8Instruction::Or { x: 0xa, y: 0xb }));
    assert_eq!(decode(0x8ab2), Ok(Chip8Instruction::And { x: 0xa, y: 0xb }));
    assert_eq!(decode(0x8ab3), Ok(Chip8Instruction::Xor { x: 0xa, y: 0xb }));
    assert_eq!(decode(0x8ab4), Ok(Chip8Instruction::AddRegister { x: 0xa, y: 0xb }));
    assert_eq!(decode(0x8ab5), Ok(Chip8Instruction::SubtractVxVy { x: 0xa, y: 0xb }));
    assert_eq!(decode(0x8ab6), Ok(Chip8Instruction::ShiftRight { x: 0xa, y: 0xb }));
    assert_eq!(decode(0x8ab7), Ok(Chip8Instruction::SubtractVyVx { x: 0xa, y: 0xb }));
    assert_eq!(decode(0x8abe), Ok(Chip8Instruction::ShiftLeft { x: 0xa, y: 0xb }));
}

#[test]
fn operands_come_from_their_bit_fields() {
    assert_eq!(decode(0x1abc), Ok(Chip8Instruction::Jump { address: 0xabc }));
    assert_eq!(decode(0x2fff), Ok(Chip8Instruction::Call { address: 0xfff }));
    assert_eq!(decode(0x3c42), Ok(Chip8Instruction::SkipIfEqualValue { register: 0xc, value: 0x42 }));
    assert_eq!(
        decode(0x4c42),
        Ok(Chip8Instruction::SkipIfNotEqualValue { register: 0xc, value: 0x42 })
    );
    assert_eq!(decode(0x5120), Ok(Chip8Instruction::SkipIfEqualRegister { x: 1, y: 2 }));
    assert_eq!(decode(0x512f), Ok(Chip8Instruction::SkipIfEqualRegister { x: 1, y: 2 }));
    assert_eq!(decode(0x6aff), Ok(Chip8Instruction::LoadValue { register: 0xa, value: 0xff }));
    assert_eq!(decode(0x7a01), Ok(Chip8Instruction::AddValue { register: 0xa, value: 1 }));
    assert_eq!(decode(0x9120), Ok(Chip8Instruction::SkipIfNotEqualRegister { x: 1, y: 2 }));
    assert_eq!(decode(0xa123), Ok(Chip8Instruction::SetIndex { address: 0x123 }));
    assert_eq!(decode(0xb123), Ok(Chip8Instruction::JumpRelative { address: 0x123 }));
    assert_eq!(decode(0xc30f), Ok(Chip8Instruction::Random { register: 3, mask: 0x0f }));
    assert_eq!(decode(0xd125), Ok(Chip8Instruction::Draw { x: 1, y: 2, len: 5 }));
}

#[test]
fn key_group_accepts_two_selectors() {
    assert_eq!(decode(0xe49e), Ok(Chip8Instruction::SkipIfKeyPressed { register: 4 }));
    assert_eq!(decode(0xe4a1), Ok(Chip8Instruction::SkipIfKeyNotPressed { register: 4 }));
    for low in 0..0x100u16 {
        if low != 0x9e && low != 0xa1 {
            let opcode = 0xe400 | low;
            assert_eq!(decode(opcode), Err(Chip8InterpreterError::InvalidInstruction(opcode)));
        }
    }
}

#[test]
fn misc_group_accepts_nine_selectors() {
    assert_eq!(decode(0xf307), Ok(Chip8Instruction::ReadDelayTimer { register: 3 }));
    assert_eq!(decode(0xf30a), Ok(Chip8Instruction::WaitForKey { register: 3 }));
    assert_eq!(decode(0xf315), Ok(Chip8Instruction::SetDelayTimer { register: 3 }));
    assert_eq!(decode(0xf318), Ok(Chip8Instruction::SetSoundTimer { register: 3 }));
    assert_eq!(decode(0xf31e), Ok(Chip8Instruction::AddIndex { register: 3 }));
    assert_eq!(decode(0xf329), Ok(Chip8Instruction::SelectCharacter { register: 3 }));
    assert_eq!(decode(0xf333), Ok(Chip8Instruction::StoreBcd { register: 3 }));
    assert_eq!(decode(0xf355), Ok(Chip8Instruction::StoreRegisters { count: 4 }));
    assert_eq!(decode(0xff65), Ok(Chip8Instruction::LoadRegisters { count: 16 }));
    assert_eq!(decode(0xf055), Ok(Chip8Instruction::StoreRegisters { count: 1 }));
    let accepted = [0x07u16, 0x0a, 0x15, 0x18, 0x1e, 0x29, 0x33, 0x55, 0x65];
    for low in 0..0x100u16 {
        if !accepted.contains(&low) {
            let opcode = 0xf300 | low;
            assert_eq!(decode(opcode), Err(Chip8InterpreterError::InvalidInstruction(opcode)));
        }
    }
}
