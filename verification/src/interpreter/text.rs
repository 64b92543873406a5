//! Instructions as text, for disassembly listings.
use super::instructions::Chip8Instruction;
use super::Chip8Interpreter;
use vstd::prelude::*;

verus! {

/// The character for one digit below sixteen: `0` to `9`, then `a` to `f`.
pub open spec fn digit_char(digit: int) -> char {
    seq![
        '0',
        '1',
        '2',
        '3',
        '4',
        '5',
        '6',
        '7',
        '8',
        '9',
        'a',
        'b',
        'c',
        'd',
        'e',
        'f',
    ][digit]
}

/// A number in lower-case hexadecimal, without leading zeros.
pub open spec fn hexadecimal(number: nat) -> Seq<char>
    decreases number,
{
    if number < 16 {
        seq![digit_char(number as int)]
    } else {
        hexadecimal(number / 16).push(digit_char((number % 16) as int))
    }
}

/// A number in decimal, without leading zeros.
pub open spec fn decimal(number: nat) -> Seq<char>
    decreases number,
{
    if number < 10 {
        seq![digit_char(number as int)]
    } else {
        decimal(number / 10).push(digit_char((number % 10) as int))
    }
}

/// A 16-bit number as four lower-case hexadecimal digits.
pub open spec fn hex_word(number: u16) -> Seq<char> {
    seq![
        digit_char(number as int / 4096),
        digit_char(number as int / 256 % 16),
        digit_char(number as int / 16 % 16),
        digit_char(number as int % 16),
    ]
}

/// An 8-bit number as two lower-case hexadecimal digits.
pub open spec fn hex_byte(number: u8) -> Seq<char> {
    seq![digit_char(number as int / 16), digit_char(number as int % 16)]
}

/// The one-character string of a digit below sixteen.
fn digit_str(digit: usize) -> (text: &'static str)
    requires
        digit < 16,
    ensures
        text@ == seq![digit_char(digit as int)],
{
    let text = match digit {
        0 => {
            proof {
                reveal_strlit("0");
            }
            "0"
        },
        1 => {
            proof {
                reveal_strlit("1");
            }
            "1"
        },
        2 => {
            proof {
                reveal_strlit("2");
            }
            "2"
        },
        3 => {
            proof {
                reveal_strlit("3");
            }
            "3"
        },
        4 => {
            proof {
                reveal_strlit("4");
            }
            "4"
        },
        5 => {
            proof {
                reveal_strlit("5");
            }
            "5"
        },
        6 => {
            proof {
                reveal_strlit("6");
            }
            "6"
        },
        7 => {
            proof {
                reveal_strlit("7");
            }
            "7"
        },
        8 => {
            proof {
                reveal_strlit("8");
            }
            "8"
        },
        9 => {
            proof {
                reveal_strlit("9");
            }
            "9"
        },
        10 => {
            proof {
                reveal_strlit("a");
            }
            "a"
        },
        11 => {
            proof {
                reveal_strlit("b");
            }
            "b"
        },
        12 => {
            proof {
                reveal_strlit("c");
            }
            "c"
        },
        13 => {
            proof {
                reveal_strlit("d");
            }
            "d"
        },
        14 => {
            proof {
                reveal_strlit("e");
            }
            "e"
        },
        _ => {
            proof {
                reveal_strlit("f");
            }
            "f"
        },
    };
    assert(text@ =~= seq![digit_char(digit as int)]);
    text
}

/// Appends a number in lower-case hexadecimal, without leading zeros.
pub fn push_hexadecimal(text: &mut String, number: usize)
    ensures
        final(text)@ == old(text)@ + hexadecimal(number as nat),
    decreases number,
{
    if number >= 16 {
        push_hexadecimal(text, number / 16);
    }
    text.append(digit_str(number % 16));
    assert(text@ =~= old(text)@ + hexadecimal(number as nat));
}

/// Appends a number in decimal, without leading zeros.
pub fn push_decimal(text: &mut String, number: usize)
    ensures
        final(text)@ == old(text)@ + decimal(number as nat),
    decreases number,
{
    if number >= 10 {
        push_decimal(text, number / 10);
    }
    text.append(digit_str(number % 10));
    assert(text@ =~= old(text)@ + decimal(number as nat));
}

/// Appends a 16-bit number as four lower-case hexadecimal digits.
pub fn push_hex_word(text: &mut String, number: u16)
    ensures
        final(text)@ == old(text)@ + hex_word(number),
{
    text.append(digit_str((number / 4096) as usize));
    text.append(digit_str((number / 256 % 16) as usize));
    text.append(digit_str((number / 16 % 16) as usize));
    text.append(digit_str((number % 16) as usize));
    assert(text@ =~= old(text)@ + hex_word(number));
}

/// Appends an 8-bit number as two lower-case hexadecimal digits.
pub fn push_hex_byte(text: &mut String, number: u8)
    ensures
        final(text)@ == old(text)@ + hex_byte(number),
{
    text.append(digit_str((number / 16) as usize));
    text.append(digit_str((number % 16) as usize));
    assert(text@ =~= old(text)@ + hex_byte(number));
}

impl Chip8Instruction {
    /// The instruction as a line of a disassembly listing. Register
    /// numbers and addresses are in hexadecimal, immediate values, counts
    /// and the operands of `Draw` in decimal.
    ///
    /// The format is fixed. It writes `SkipIfNotEqualRegister` with `==`
    /// and `SkipIfKeyNotPressed` with `== Pressed`, like the skips they
    /// negate, and `ReadDelayTimer` with `+=`: a listing alone does not
    /// tell these apart.
    pub open spec fn text(self) -> Seq<char> {
        match self {
            Chip8Instruction::NoOperation => "NoOp"@,
            Chip8Instruction::Syscall { address } => "Syscall "@ + hex_word(address),
            Chip8Instruction::Random { register, mask } => "V"@ + hexadecimal(register as nat) + " := random & 0x"@ + hex_byte(mask),
            Chip8Instruction::Call { address } => "Call "@ + hex_word(address),
            Chip8Instruction::Return => "Return"@,
            Chip8Instruction::StoreRegisters { count } => "StoreRegisters("@ + decimal(count as nat) + ")"@,
            Chip8Instruction::LoadRegisters { count } => "LoadRegisters("@ + decimal(count as nat) + ")"@,
            Chip8Instruction::Jump { address } => "Jump "@ + hex_word(address),
            Chip8Instruction::JumpRelative { address } => "Jump "@ + hex_word(address) + " + V0"@,
            Chip8Instruction::ClearScreen => "ClearScreen"@,
            Chip8Instruction::SelectCharacter { register } => "SelectCharacter(V"@ + hexadecimal(register as nat) + ")"@,
            Chip8Instruction::StoreBcd { register } => "StoreBcd(V"@ + hexadecimal(register as nat) + ")"@,
            Chip8Instruction::Draw { x, y, len } => "Draw(x: "@ + decimal(x as nat) + ", y: "@ + decimal(y as nat) + ", length: "@ + decimal(len as nat) + ")"@,
            Chip8Instruction::SkipIfEqualValue { register, value } => "SkipNext if V"@ + hexadecimal(register as nat) + " == "@ + decimal(value as nat),
            Chip8Instruction::SkipIfEqualRegister { x, y } => "SkipNext if V"@ + hexadecimal(x as nat) + " == V"@ + hexadecimal(y as nat),
            Chip8Instruction::SkipIfNotEqualValue { register, value } => "SkipNext if V"@ + hexadecimal(register as nat) + " != "@ + decimal(value as nat),
            Chip8Instruction::SkipIfNotEqualRegister { x, y } => "SkipNext if V"@ + hexadecimal(x as nat) + " == V"@ + hexadecimal(y as nat),
            Chip8Instruction::SkipIfKeyPressed { register } => "SkipNext if Key[V"@ + hexadecimal(register as nat) + "] == Pressed"@,
            Chip8Instruction::SkipIfKeyNotPressed { register } => "SkipNext if Key[V"@ + hexadecimal(register as nat) + "] == Pressed"@,
            Chip8Instruction::SetIndex { address } => "I := "@ + hex_word(address),
            Chip8Instruction::AddIndex { register } => "I += V"@ + hexadecimal(register as nat),
            Chip8Instruction::LoadValue { register, value } => "V"@ + hexadecimal(register as nat) + " := "@ + decimal(value as nat),
            Chip8Instruction::Copy { x, y } => "V"@ + hexadecimal(x as nat) + " := V"@ + hexadecimal(y as nat),
            Chip8Instruction::ReadDelayTimer { register } => "V"@ + hexadecimal(register as nat) + " += DT"@,
            Chip8Instruction::SetDelayTimer { register } => "DT := V"@ + hexadecimal(register as nat),
            Chip8Instruction::SetSoundTimer { register } => "ST := V"@ + hexadecimal(register as nat),
            Chip8Instruction::WaitForKey { register } => "WaitForKey; V"@ + hexadecimal(register as nat) + " = Key"@,
            Chip8Instruction::AddValue { register, value } => "V"@ + hexadecimal(register as nat) + " += "@ + decimal(value as nat),
            Chip8Instruction::AddRegister { x, y } => "V"@ + hexadecimal(x as nat) + " += V"@ + hexadecimal(y as nat),
            Chip8Instruction::SubtractVxVy { x, y } => "V"@ + hexadecimal(x as nat) + " := V"@ + hexadecimal(x as nat) + " - V"@ + hexadecimal(y as nat),
            Chip8Instruction::SubtractVyVx { x, y } => "V"@ + hexadecimal(x as nat) + " := V"@ + hexadecimal(y as nat) + " - V"@ + hexadecimal(x as nat),
            Chip8Instruction::Or { x, y } => "V"@ + hexadecimal(x as nat) + " := V"@ + hexadecimal(x as nat) + " | V"@ + hexadecimal(y as nat),
            Chip8Instruction::And { x, y } => "V"@ + hexadecimal(x as nat) + " := V"@ + hexadecimal(x as nat) + " & V"@ + hexadecimal(y as nat),
            Chip8Instruction::Xor { x, y } => "V"@ + hexadecimal(x as nat) + " := V"@ + hexadecimal(x as nat) + " ^ V"@ + hexadecimal(y as nat),
            Chip8Instruction::ShiftRight { x, y } => "V"@ + hexadecimal(x as nat) + " := V"@ + hexadecimal(y as nat) + " >> 1"@,
            Chip8Instruction::ShiftLeft { x, y } => "V"@ + hexadecimal(x as nat) + " := V"@ + hexadecimal(y as nat) + " << 1"@,
        }
    }

    /// Renders the instruction as a line of a disassembly listing.
    pub fn to_string(&self) -> (text: String)
        ensures
            text@ == self.text(),
    {
        match *self {
            Chip8Instruction::NoOperation => String::from_str("NoOp"),
            Chip8Instruction::Syscall { address } => {
                let mut text = String::from_str("Syscall ");
                push_hex_word(&mut text, address);
                text
            },
            Chip8Instruction::Random { register, mask } => {
                let mut text = String::from_str("V");
                push_hexadecimal(&mut text, register);
                text.append(" := random & 0x");
                push_hex_byte(&mut text, mask);
                text
            },
            Chip8Instruction::Call { address } => {
                let mut text = String::from_str("Call ");
                push_hex_word(&mut text, address);
                text
            },
            Chip8Instruction::Return => String::from_str("Return"),
            Chip8Instruction::StoreRegisters { count } => {
                let mut text = String::from_str("StoreRegisters(");
                push_decimal(&mut text, count);
                text.append(")");
                text
            },
            Chip8Instruction::LoadRegisters { count } => {
                let mut text = String::from_str("LoadRegisters(");
                push_decimal(&mut text, count);
                text.append(")");
                text
            },
            Chip8Instruction::Jump { address } => {
                let mut text = String::from_str("Jump ");
                push_hex_word(&mut text, address);
                text
            },
            Chip8Instruction::JumpRelative { address } => {
                let mut text = String::from_str("Jump ");
                push_hex_word(&mut text, address);
                text.append(" + V0");
                text
            },
            Chip8Instruction::ClearScreen => String::from_str("ClearScreen"),
            Chip8Instruction::SelectCharacter { register } => {
                let mut text = String::from_str("SelectCharacter(V");
                push_hexadecimal(&mut text, register);
                text.append(")");
                text
            },
            Chip8Instruction::StoreBcd { register } => {
                let mut text = String::from_str("StoreBcd(V");
                push_hexadecimal(&mut text, register);
                text.append(")");
                text
            },
            Chip8Instruction::Draw { x, y, len } => {
                let mut text = String::from_str("Draw(x: ");
                push_decimal(&mut text, x);
                text.append(", y: ");
                push_decimal(&mut text, y);
                text.append(", length: ");
                push_decimal(&mut text, len);
                text.append(")");
                text
            },
            Chip8Instruction::SkipIfEqualValue { register, value } => {
                let mut text = String::from_str("SkipNext if V");
                push_hexadecimal(&mut text, register);
                text.append(" == ");
                push_decimal(&mut text, value as usize);
                text
            },
            Chip8Instruction::SkipIfEqualRegister { x, y } => {
                let mut text = String::from_str("SkipNext if V");
                push_hexadecimal(&mut text, x);
                text.append(" == V");
                push_hexadecimal(&mut text, y);
                text
            },
            Chip8Instruction::SkipIfNotEqualValue { register, value } => {
                let mut text = String::from_str("SkipNext if V");
                push_hexadecimal(&mut text, register);
                text.append(" != ");
                push_decimal(&mut text, value as usize);
                text
            },
            Chip8Instruction::SkipIfNotEqualRegister { x, y } => {
                let mut text = String::from_str("SkipNext if V");
                push_hexadecimal(&mut text, x);
                text.append(" == V");
                push_hexadecimal(&mut text, y);
                text
            },
            Chip8Instruction::SkipIfKeyPressed { register } => {
                let mut text = String::from_str("SkipNext if Key[V");
                push_hexadecimal(&mut text, register);
                text.append("] == Pressed");
                text
            },
            Chip8Instruction::SkipIfKeyNotPressed { register } => {
                let mut text = String::from_str("SkipNext if Key[V");
                push_hexadecimal(&mut text, register);
                text.append("] == Pressed");
                text
            },
            Chip8Instruction::SetIndex { address } => {
                let mut text = String::from_str("I := ");
                push_hex_word(&mut text, address);
                text
            },
            Chip8Instruction::AddIndex { register } => {
                let mut text = String::from_str("I += V");
                push_hexadecimal(&mut text, register);
                text
            },
            Chip8Instruction::LoadValue { register, value } => {
                let mut text = String::from_str("V");
                push_hexadecimal(&mut text, register);
                text.append(" := ");
                push_decimal(&mut text, value as usize);
                text
            },
            Chip8Instruction::Copy { x, y } => {
                let mut text = String::from_str("V");
                push_hexadecimal(&mut text, x);
                text.append(" := V");
                push_hexadecimal(&mut text, y);
                text
            },
            Chip8Instruction::ReadDelayTimer { register } => {
                let mut text = String::from_str("V");
                push_hexadecimal(&mut text, register);
                text.append(" += DT");
                text
            },
            Chip8Instruction::SetDelayTimer { register } => {
                let mut text = String::from_str("DT := V");
                push_hexadecimal(&mut text, register);
                text
            },
            Chip8Instruction::SetSoundTimer { register } => {
                let mut text = String::from_str("ST := V");
                push_hexadecimal(&mut text, register);
                text
            },
            Chip8Instruction::WaitForKey { register } => {
                let mut text = String::from_str("WaitForKey; V");
                push_hexadecimal(&mut text, register);
                text.append(" = Key");
                text
            },
            Chip8Instruction::AddValue { register, value } => {
                let mut text = String::from_str("V");
                push_hexadecimal(&mut text, register);
                text.append(" += ");
                push_decimal(&mut text, value as usize);
                text
            },
            Chip8Instruction::AddRegister { x, y } => {
                let mut text = String::from_str("V");
                push_hexadecimal(&mut text, x);
                text.append(" += V");
                push_hexadecimal(&mut text, y);
                text
            },
            Chip8Instruction::SubtractVxVy { x, y } => {
                let mut text = String::from_str("V");
                push_hexadecimal(&mut text, x);
                text.append(" := V");
                push_hexadecimal(&mut text, x);
                text.append(" - V");
                push_hexadecimal(&mut text, y);
                text
            },
            Chip8Instruction::SubtractVyVx { x, y } => {
                let mut text = String::from_str("V");
                push_hexadecimal(&mut text, x);
                text.append(" := V");
                push_hexadecimal(&mut text, y);
                text.append(" - V");
                push_hexadecimal(&mut text, x);
                text
            },
            Chip8Instruction::Or { x, y } => {
                let mut text = String::from_str("V");
                push_hexadecimal(&mut text, x);
                text.append(" := V");
                push_hexadecimal(&mut text, x);
                text.append(" | V");
                push_hexadecimal(&mut text, y);
                text
            },
            Chip8Instruction::And { x, y } => {
                let mut text = String::from_str("V");
                push_hexadecimal(&mut text, x);
                text.append(" := V");
                push_hexadecimal(&mut text, x);
                text.append(" & V");
                push_hexadecimal(&mut text, y);
                text
            },
            Chip8Instruction::Xor { x, y } => {
                let mut text = String::from_str("V");
                push_hexadecimal(&mut text, x);
                text.append(" := V");
                push_hexadecimal(&mut text, x);
                text.append(" ^ V");
                push_hexadecimal(&mut text, y);
                text
            },
            Chip8Instruction::ShiftRight { x, y } => {
                let mut text = String::from_str("V");
                push_hexadecimal(&mut text, x);
                text.append(" := V");
                push_hexadecimal(&mut text, y);
                text.append(" >> 1");
                text
            },
            Chip8Instruction::ShiftLeft { x, y } => {
                let mut text = String::from_str("V");
                push_hexadecimal(&mut text, x);
                text.append(" := V");
                push_hexadecimal(&mut text, y);
                text.append(" << 1");
                text
            },
        }
    }
}

/// An address as a disassembly listing shows it: in lower-case hexadecimal,
/// with zeros in front up to four digits.
pub open spec fn listing_address(address: nat) -> Seq<char> {
    if address < 0x1_0000 {
        hex_word(address as u16)
    } else {
        hexadecimal(address)
    }
}

impl Chip8Interpreter {
    /// The line of a disassembly listing for `address`: the address, a
    /// colon and, where the two bytes there are within memory and stand
    /// for an instruction, two spaces and the instruction.
    pub open spec fn listing_line(self, address: nat) -> Seq<char> {
        match self@.instruction_at(address as int) {
            Ok(instruction) => listing_address(address) + ":  "@ + instruction.text(),
            Err(_) => listing_address(address) + ":"@,
        }
    }

    /// Renders the line of a disassembly listing for `address`.
    pub fn disassembly_line(&self, address: usize) -> (line: String)
        ensures
            line@ == self.listing_line(address as nat),
    {
        let mut line = String::new();
        if address < 0x1_0000 {
            push_hex_word(&mut line, address as u16);
        } else {
            push_hexadecimal(&mut line, address);
        }
        assert(line@ =~= listing_address(address as nat));
        match self.try_read_instruction(address) {
            Ok(instruction) => {
                line.append(":  ");
                let text = instruction.to_string();
                line.append(text.as_str());
            },
            Err(_) => {
                line.append(":");
            },
        }
        line
    }
}

} // verus!
