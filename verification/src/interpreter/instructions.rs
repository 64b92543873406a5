//! The instruction set and its decoder: what each 16-bit opcode stands for.
use super::error::Chip8InterpreterError;
use vstd::prelude::*;
use vstd::std_specs::convert::TryFromSpecImpl;

verus! {

/// One decoded instruction, with only the operands it needs.
///
/// Register operands are register numbers (`0..=15` when decoded), `address`
/// operands are 12-bit addresses, `value` and `mask` are 8-bit immediates.
#[derive(Clone, Copy, Debug, PartialEq, Eq, Structural)]
pub enum Chip8Instruction {
    /// No operation
    NoOperation,
    /// Syscall to machine-code function
    Syscall { address: u16 },
    /// Generate random byte and store the masked value in register
    Random { register: usize, mask: u8 },
    /// Call subroutine at address
    Call { address: u16 },
    /// Return from subroutine
    Return,
    /// Store register values in memory
    StoreRegisters { count: usize },
    /// Load register values from memory
    LoadRegisters { count: usize },
    ///  Jump to address
    Jump { address: u16 },
    /// Jump relative to value stored in register 0
    JumpRelative { address: u16 },
    /// Clear screen
    ClearScreen,
    /// Select font character sprite to correspond with value stored in register
    SelectCharacter { register: usize },
    /// Store BCD representation of value from register
    StoreBcd { register: usize },
    /// Display sprite
    Draw { x: usize, y: usize, len: usize },
    /// Skip next instruction if value stored in register is equal to value
    SkipIfEqualValue { register: usize, value: u8 },
    /// Skip next instruction if value stored in register x is equal to value stored in register y
    SkipIfEqualRegister { x: usize, y: usize },
    /// Skip next instruction if value stored in register is not equal to value
    SkipIfNotEqualValue { register: usize, value: u8 },
    /// Skip next instruction if value in register x is not equal to value in register y
    SkipIfNotEqualRegister { x: usize, y: usize },
    /// Skip next instruction if key is pressed (key value is stored in register)
    SkipIfKeyPressed { register: usize },
    /// Skip next instruction if key is not pressed (key value is stored in register)
    SkipIfKeyNotPressed { register: usize },
    /// Set register I to value
    SetIndex { address: u16 },
    /// Add value from register to index address
    AddIndex { register: usize },
    /// Load value into register
    LoadValue { register: usize, value: u8 },
    /// Copy value from register y into register x
    Copy { x: usize, y: usize },
    /// Copy delay timer value into register
    ReadDelayTimer { register: usize },
    /// Set delay timer to value from register
    SetDelayTimer { register: usize },
    /// Set sound timer to value from register
    SetSoundTimer { register: usize },
    /// Wait for key press then store the key value in register
    WaitForKey { register: usize },
    /// Add value to value stored in register
    AddValue { register: usize, value: u8 },
    /// Add value from register y to value stored in register x
    AddRegister { x: usize, y: usize },
    /// Subtract value from register y from value stored in register x
    SubtractVxVy { x: usize, y: usize },
    /// Subtract value in register x from value in register y, storing the result in register x
    SubtractVyVx { x: usize, y: usize },
    /// Or value from register y into value stored in register x
    Or { x: usize, y: usize },
    /// And value from register y into value stored in register x
    And { x: usize, y: usize },
    /// Xor value from register y into value stored in register x
    Xor { x: usize, y: usize },
    /// Shift value in register x right by one bit
    ShiftRight { x: usize, y: usize },
    /// Shift value in register x left by one bit
    ShiftLeft { x: usize, y: usize },
}

/// The top four bits of an opcode: the class that selects its meaning.
pub open spec fn opcode_class(opcode: u16) -> int {
    opcode as int / 4096
}

/// Bits 8 to 11 of an opcode: the register operand `x`.
pub open spec fn opcode_x(opcode: u16) -> usize {
    ((opcode as int / 256) % 16) as usize
}

/// Bits 4 to 7 of an opcode: the register operand `y`.
pub open spec fn opcode_y(opcode: u16) -> usize {
    ((opcode as int / 16) % 16) as usize
}

/// The low four bits of an opcode.
pub open spec fn opcode_nibble(opcode: u16) -> int {
    opcode as int % 16
}

/// The low byte of an opcode: an 8-bit immediate or a selector.
pub open spec fn opcode_byte(opcode: u16) -> u8 {
    (opcode as int % 256) as u8
}

/// The low twelve bits of an opcode: an address.
pub open spec fn opcode_address(opcode: u16) -> u16 {
    (opcode as int % 4096) as u16
}

/// The arithmetic and logic group (class 8), selected by the low nibble.
pub open spec fn decode_alu(opcode: u16) -> Result<Chip8Instruction, Chip8InterpreterError> {
    let x = opcode_x(opcode);
    let y = opcode_y(opcode);
    let selector = opcode_nibble(opcode);
    if selector == 0x0 {
        Ok(Chip8Instruction::Copy { x, y })
    } else if selector == 0x1 {
        Ok(Chip8Instruction::Or { x, y })
    } else if selector == 0x2 {
        Ok(Chip8Instruction::And { x, y })
    } else if selector == 0x3 {
        Ok(Chip8Instruction::Xor { x, y })
    } else if selector == 0x4 {
        Ok(Chip8Instruction::AddRegister { x, y })
    } else if selector == 0x5 {
        Ok(Chip8Instruction::SubtractVxVy { x, y })
    } else if selector == 0x6 {
        Ok(Chip8Instruction::ShiftRight { x, y })
    } else if selector == 0x7 {
        Ok(Chip8Instruction::SubtractVyVx { x, y })
    } else if selector == 0xe {
        Ok(Chip8Instruction::ShiftLeft { x, y })
    } else {
        Err(Chip8InterpreterError::InvalidInstruction(opcode))
    }
}

/// The key group (class E), selected by the low byte.
pub open spec fn decode_key(opcode: u16) -> Result<Chip8Instruction, Chip8InterpreterError> {
    let register = opcode_x(opcode);
    let selector = opcode_byte(opcode);
    if selector == 0x9e {
        Ok(Chip8Instruction::SkipIfKeyPressed { register })
    } else if selector == 0xa1 {
        Ok(Chip8Instruction::SkipIfKeyNotPressed { register })
    } else {
        Err(Chip8InterpreterError::InvalidInstruction(opcode))
    }
}

/// The timer and memory group (class F), selected by the low byte.
pub open spec fn decode_misc(opcode: u16) -> Result<Chip8Instruction, Chip8InterpreterError> {
    let register = opcode_x(opcode);
    let selector = opcode_byte(opcode);
    if selector == 0x07 {
        Ok(Chip8Instruction::ReadDelayTimer { register })
    } else if selector == 0x0a {
        Ok(Chip8Instruction::WaitForKey { register })
    } else if selector == 0x15 {
        Ok(Chip8Instruction::SetDelayTimer { register })
    } else if selector == 0x18 {
        Ok(Chip8Instruction::SetSoundTimer { register })
    } else if selector == 0x1e {
        Ok(Chip8Instruction::AddIndex { register })
    } else if selector == 0x29 {
        Ok(Chip8Instruction::SelectCharacter { register })
    } else if selector == 0x33 {
        Ok(Chip8Instruction::StoreBcd { register })
    } else if selector == 0x55 {
        Ok(Chip8Instruction::StoreRegisters { count: (register + 1) as usize })
    } else if selector == 0x65 {
        Ok(Chip8Instruction::LoadRegisters { count: (register + 1) as usize })
    } else {
        Err(Chip8InterpreterError::InvalidInstruction(opcode))
    }
}

/// What an opcode means: the instruction it stands for, or
/// `InvalidInstruction` with the opcode where it stands for none.
pub open spec fn decode(opcode: u16) -> Result<Chip8Instruction, Chip8InterpreterError> {
    let class = opcode_class(opcode);
    let x = opcode_x(opcode);
    let y = opcode_y(opcode);
    let value = opcode_byte(opcode);
    let address = opcode_address(opcode);
    if class == 0x0 {
        if opcode == 0x00e0 {
            Ok(Chip8Instruction::ClearScreen)
        } else if opcode == 0x00ee {
            Ok(Chip8Instruction::Return)
        } else {
            Ok(Chip8Instruction::NoOperation)
        }
    } else if class == 0x1 {
        Ok(Chip8Instruction::Jump { address })
    } else if class == 0x2 {
        Ok(Chip8Instruction::Call { address })
    } else if class == 0x3 {
        Ok(Chip8Instruction::SkipIfEqualValue { register: x, value })
    } else if class == 0x4 {
        Ok(Chip8Instruction::SkipIfNotEqualValue { register: x, value })
    } else if class == 0x5 {
        Ok(Chip8Instruction::SkipIfEqualRegister { x, y })
    } else if class == 0x6 {
        Ok(Chip8Instruction::LoadValue { register: x, value })
    } else if class == 0x7 {
        Ok(Chip8Instruction::AddValue { register: x, value })
    } else if class == 0x8 {
        decode_alu(opcode)
    } else if class == 0x9 {
        Ok(Chip8Instruction::SkipIfNotEqualRegister { x, y })
    } else if class == 0xa {
        Ok(Chip8Instruction::SetIndex { address })
    } else if class == 0xb {
        Ok(Chip8Instruction::JumpRelative { address })
    } else if class == 0xc {
        Ok(Chip8Instruction::Random { register: x, mask: value })
    } else if class == 0xd {
        Ok(Chip8Instruction::Draw { x, y, len: opcode_nibble(opcode) as usize })
    } else if class == 0xe {
        decode_key(opcode)
    } else {
        decode_misc(opcode)
    }
}

impl Chip8Instruction {
    /// The operands are in the ranges that decoding gives them: register
    /// numbers below 16, register counts from 1 to 16, sprite lengths below
    /// 16 and addresses below 4096.
    pub open spec fn well_formed(self) -> bool {
        match self {
            Chip8Instruction::NoOperation => true,
            Chip8Instruction::Syscall { address } => address < 4096,
            Chip8Instruction::Random { register, mask } => register < 16,
            Chip8Instruction::Call { address } => address < 4096,
            Chip8Instruction::Return => true,
            Chip8Instruction::StoreRegisters { count } => 1 <= count <= 16,
            Chip8Instruction::LoadRegisters { count } => 1 <= count <= 16,
            Chip8Instruction::Jump { address } => address < 4096,
            Chip8Instruction::JumpRelative { address } => address < 4096,
            Chip8Instruction::ClearScreen => true,
            Chip8Instruction::SelectCharacter { register } => register < 16,
            Chip8Instruction::StoreBcd { register } => register < 16,
            Chip8Instruction::Draw { x, y, len } => x < 16 && y < 16 && len < 16,
            Chip8Instruction::SkipIfEqualValue { register, value } => register < 16,
            Chip8Instruction::SkipIfEqualRegister { x, y } => x < 16 && y < 16,
            Chip8Instruction::SkipIfNotEqualValue { register, value } => register < 16,
            Chip8Instruction::SkipIfNotEqualRegister { x, y } => x < 16 && y < 16,
            Chip8Instruction::SkipIfKeyPressed { register } => register < 16,
            Chip8Instruction::SkipIfKeyNotPressed { register } => register < 16,
            Chip8Instruction::SetIndex { address } => address < 4096,
            Chip8Instruction::AddIndex { register } => register < 16,
            Chip8Instruction::LoadValue { register, value } => register < 16,
            Chip8Instruction::Copy { x, y } => x < 16 && y < 16,
            Chip8Instruction::ReadDelayTimer { register } => register < 16,
            Chip8Instruction::SetDelayTimer { register } => register < 16,
            Chip8Instruction::SetSoundTimer { register } => register < 16,
            Chip8Instruction::WaitForKey { register } => register < 16,
            Chip8Instruction::AddValue { register, value } => register < 16,
            Chip8Instruction::AddRegister { x, y } => x < 16 && y < 16,
            Chip8Instruction::SubtractVxVy { x, y } => x < 16 && y < 16,
            Chip8Instruction::SubtractVyVx { x, y } => x < 16 && y < 16,
            Chip8Instruction::Or { x, y } => x < 16 && y < 16,
            Chip8Instruction::And { x, y } => x < 16 && y < 16,
            Chip8Instruction::Xor { x, y } => x < 16 && y < 16,
            Chip8Instruction::ShiftRight { x, y } => x < 16 && y < 16,
            Chip8Instruction::ShiftLeft { x, y } => x < 16 && y < 16,
        }
    }
}

/// Shifts and masks read the same fields of an opcode as division and
/// remainder do.
proof fn lemma_opcode_fields(opcode: u16)
    by (bit_vector)
    ensures
        opcode >> 12 == opcode / 4096,
        (opcode >> 8) & 0x0f == (opcode / 256) % 16,
        (opcode >> 4) & 0x0f == (opcode / 16) % 16,
        opcode & 0x000f == opcode % 16,
        opcode & 0x0f == opcode % 16,
        opcode & 0xff == opcode % 256,
        opcode & 0x0fff == opcode % 4096,
{
}

impl TryFrom<u16> for Chip8Instruction {
    type Error = Chip8InterpreterError;

    /// Decodes an opcode. The result is `decode(opcode)`.
    fn try_from(opcode: u16) -> (decoded: Result<Self, Self::Error>) {
        proof {
            lemma_opcode_fields(opcode);
        }
        let x = ((opcode >> 8) & 0x0f) as usize;
        let y = ((opcode >> 4) & 0x0f) as usize;
        match (opcode >> 12) as u8 {
            0x0 => match opcode {
                0x00e0 => Ok(Chip8Instruction::ClearScreen),
                0x00ee => Ok(Chip8Instruction::Return),
                _ => Ok(Chip8Instruction::NoOperation),
            },
            0x1 => Ok(Chip8Instruction::Jump { address: opcode & 0x0fff }),
            0x2 => Ok(Chip8Instruction::Call { address: opcode & 0x0fff }),
            0x3 => Ok(Chip8Instruction::SkipIfEqualValue { register: x, value: (opcode & 0xff) as u8 }),
            0x4 => Ok(
                Chip8Instruction::SkipIfNotEqualValue { register: x, value: (opcode & 0xff) as u8 },
            ),
            0x5 => Ok(Chip8Instruction::SkipIfEqualRegister { x, y }),
            0x6 => Ok(Chip8Instruction::LoadValue { register: x, value: (opcode & 0xff) as u8 }),
            0x7 => Ok(Chip8Instruction::AddValue { register: x, value: (opcode & 0xff) as u8 }),
            0x8 => match opcode & 0x000f {
                0x0 => Ok(Chip8Instruction::Copy { x, y }),
                0x1 => Ok(Chip8Instruction::Or { x, y }),
                0x2 => Ok(Chip8Instruction::And { x, y }),
                0x3 => Ok(Chip8Instruction::Xor { x, y }),
                0x4 => Ok(Chip8Instruction::AddRegister { x, y }),
                0x5 => Ok(Chip8Instruction::SubtractVxVy { x, y }),
                0x6 => Ok(Chip8Instruction::ShiftRight { x, y }),
                0x7 => Ok(Chip8Instruction::SubtractVyVx { x, y }),
                0xe => Ok(Chip8Instruction::ShiftLeft { x, y }),
                _ => Err(Chip8InterpreterError::InvalidInstruction(opcode)),
            },
            0x9 => Ok(Chip8Instruction::SkipIfNotEqualRegister { x, y }),
            0xa => Ok(Chip8Instruction::SetIndex { address: opcode & 0x0fff }),
            0xb => Ok(Chip8Instruction::JumpRelative { address: opcode & 0x0fff }),
            0xc => Ok(Chip8Instruction::Random { register: x, mask: (opcode & 0xff) as u8 }),
            0xd => Ok(Chip8Instruction::Draw { x, y, len: (opcode & 0x0f) as usize }),
            0xe => {
                if (opcode & 0xff) == 0x9e {
                    Ok(Chip8Instruction::SkipIfKeyPressed { register: x })
                } else if (opcode & 0xff) == 0xa1 {
                    Ok(Chip8Instruction::SkipIfKeyNotPressed { register: x })
                } else {
                    Err(Chip8InterpreterError::InvalidInstruction(opcode))
                }
            },
            _ => {
                let register = x;
                match opcode & 0xff {
                    0x07 => Ok(Chip8Instruction::ReadDelayTimer { register }),
                    0x0a => Ok(Chip8Instruction::WaitForKey { register }),
                    0x15 => Ok(Chip8Instruction::SetDelayTimer { register }),
                    0x18 => Ok(Chip8Instruction::SetSoundTimer { register }),
                    0x1e => Ok(Chip8Instruction::AddIndex { register }),
                    0x29 => Ok(Chip8Instruction::SelectCharacter { register }),
                    0x33 => Ok(Chip8Instruction::StoreBcd { register }),
                    0x55 => Ok(Chip8Instruction::StoreRegisters { count: register + 1 }),
                    0x65 => Ok(Chip8Instruction::LoadRegisters { count: register + 1 }),
                    _ => Err(Chip8InterpreterError::InvalidInstruction(opcode)),
                }
            },
        }
    }
}

impl TryFromSpecImpl<u16> for Chip8Instruction {
    open spec fn obeys_try_from_spec() -> bool {
        true
    }

    open spec fn try_from_spec(opcode: u16) -> Result<Self, Self::Error> {
        decode(opcode)
    }
}

/// Decoding never fails outside the three groups that have a selector: every
/// opcode of class 0 to 7, 9 or A to D stands for an instruction. In class 0,
/// `0x00E0` clears the screen, `0x00EE` returns, and every other opcode does
/// nothing.
pub proof fn lemma_decode_total_outside_groups(opcode: u16)
    requires
        opcode_class(opcode) != 0x8,
        opcode_class(opcode) != 0xe,
        opcode_class(opcode) != 0xf,
    ensures
        decode(opcode) is Ok,
        opcode_class(opcode) == 0 ==> decode(opcode) == Ok::<
            Chip8Instruction,
            Chip8InterpreterError,
        >(
            if opcode == 0x00e0 {
                Chip8Instruction::ClearScreen
            } else if opcode == 0x00ee {
                Chip8Instruction::Return
            } else {
                Chip8Instruction::NoOperation
            },
        ),
{
}

/// In the arithmetic and logic group an opcode stands for an instruction
/// exactly when its low nibble is 0 to 7 or E; any other is refused as
/// `InvalidInstruction`, with the opcode.
pub proof fn lemma_decode_alu_selectors(opcode: u16)
    requires
        opcode_class(opcode) == 0x8,
    ensures
        decode(opcode) is Ok <==> (opcode_nibble(opcode) <= 0x7 || opcode_nibble(opcode) == 0xe),
        decode(opcode) is Err ==> decode(opcode) == Err::<Chip8Instruction, Chip8InterpreterError>(
            Chip8InterpreterError::InvalidInstruction(opcode),
        ),
{
}

/// Whatever fails to decode fails as `InvalidInstruction` and carries the
/// opcode; whatever decodes has operands in range.
pub proof fn lemma_decode_outcomes(opcode: u16)
    ensures
        match decode(opcode) {
            Ok(instruction) => instruction.well_formed(),
            Err(error) => error == Chip8InterpreterError::InvalidInstruction(opcode),
        },
{
}

} // verus!
