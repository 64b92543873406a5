//! The effect of one decoded instruction on the machine state.
use super::error::Chip8InterpreterError;
use super::instructions::Chip8Instruction;
use super::model::{blank_screen, lowest_held_key, StateView};
use super::{Chip8InterpreterState, MEMORY_SIZE, SCREEN_HEIGHT, SCREEN_WIDTH, STACK_SIZE};
use vstd::prelude::*;

verus! {

impl Chip8Instruction {
    /// Whether the instruction may move the program counter past the
    /// instruction that follows it.
    pub open spec fn may_skip(self) -> bool {
        self is SkipIfEqualValue || self is SkipIfEqualRegister || self is SkipIfNotEqualValue
            || self is SkipIfNotEqualRegister || self is SkipIfKeyPressed
            || self is SkipIfKeyNotPressed
    }
}

/// Shifting a byte right by one bit halves it; its lowest bit is its
/// parity, and shifting it right by seven bits leaves its top bit.
proof fn lemma_shift_right(value: u8)
    by (bit_vector)
    ensures
        value >> 1 == value / 2,
        value & 1 == value % 2,
        value >> 7 == value / 128,
{
}

/// Shifting a byte left by one bit doubles it modulo 256.
proof fn lemma_shift_left(value: u8)
    by (bit_vector)
    ensures
        value << 1 == (value * 2) % 256,
{
}

/// The difference of two bytes modulo 256.
fn wrapping_difference(minuend: u8, subtrahend: u8) -> (difference: u8)
    ensures
        difference == (minuend - subtrahend) % 256,
    no_unwind
{
    if minuend >= subtrahend {
        minuend - subtrahend
    } else {
        (0x100 - (subtrahend - minuend) as u16) as u8
    }
}

/// The lowest key of `keys` that is held, looking at keys 0 to 15.
fn lowest_key(keys: u32) -> (found: Option<u8>)
    ensures
        found == lowest_held_key(keys, 0),
    no_unwind
{
    let mut key: u8 = 0;
    while key < 16
        invariant
            key <= 16,
            lowest_held_key(keys, 0) == lowest_held_key(keys, key),
        decreases 16 - key,
    {
        if keys & (1u32 << key) > 0 {
            return Some(key);
        }
        key += 1;
    }
    None
}

impl Chip8InterpreterState {
    /// Copies the first `count` registers to memory at the index register.
    fn store_registers(&mut self, count: usize)
        requires
            count <= 16,
            old(self).i + count <= MEMORY_SIZE,
        ensures
            final(self)@ == (StateView {
                memory: old(self)@.memory_with_registers(count as int),
                ..old(self)@
            }),
        no_unwind
    {
        let mut cursor = self.i as usize;
        let mut register: usize = 0;
        while register < count
            invariant
                register <= count <= 16,
                cursor == self.i + register,
                self.i + count <= MEMORY_SIZE,
                self.registers == old(self).registers,
                self.stack == old(self).stack,
                self.screen == old(self).screen,
                self.input_keys == old(self).input_keys,
                self.i == old(self).i,
                self.st == old(self).st,
                self.dt == old(self).dt,
                self.pc == old(self).pc,
                self.sp == old(self).sp,
                forall|address: int|
                    0 <= address < MEMORY_SIZE ==> self.memory[address] == if self.i <= address
                        < self.i + register {
                        self.registers[address - self.i]
                    } else {
                        old(self).memory[address]
                    },
            decreases count - register,
        {
            self.memory[cursor] = self.registers[register];
            cursor += 1;
            register += 1;
        }
        assert(self@ =~~= (StateView {
            memory: old(self)@.memory_with_registers(count as int),
            ..old(self)@
        }));
    }

    /// Reads the first `count` registers from memory at the index register.
    fn load_registers(&mut self, count: usize)
        requires
            count <= 16,
            old(self).i + count <= MEMORY_SIZE,
        ensures
            final(self)@ == (StateView {
                registers: old(self)@.registers_from_memory(count as int),
                ..old(self)@
            }),
        no_unwind
    {
        let mut cursor = self.i as usize;
        let mut register: usize = 0;
        while register < count
            invariant
                register <= count <= 16,
                cursor == self.i + register,
                self.i + count <= MEMORY_SIZE,
                self.memory == old(self).memory,
                self.stack == old(self).stack,
                self.screen == old(self).screen,
                self.input_keys == old(self).input_keys,
                self.i == old(self).i,
                self.st == old(self).st,
                self.dt == old(self).dt,
                self.pc == old(self).pc,
                self.sp == old(self).sp,
                forall|r: int|
                    0 <= r < 16 ==> self.registers[r] == if r < register {
                        self.memory[self.i + r]
                    } else {
                        old(self).registers[r]
                    },
            decreases count - register,
        {
            self.registers[register] = self.memory[cursor];
            cursor += 1;
            register += 1;
        }
        assert(self@ =~~= (StateView {
            registers: old(self)@.registers_from_memory(count as int),
            ..old(self)@
        }));
    }

    /// Turns every pixel off.
    fn clear_screen(&mut self)
        ensures
            final(self)@ == (StateView { screen: blank_screen(), ..old(self)@ }),
        no_unwind
    {
        let mut row: usize = 0;
        while row < SCREEN_HEIGHT
            invariant
                row <= SCREEN_HEIGHT,
                *self == (Chip8InterpreterState { screen: self.screen, ..*old(self) }),
                forall|r: int, c: int|
                    0 <= r < row && 0 <= c < SCREEN_WIDTH ==> self.screen[r][c] == 0,
            decreases SCREEN_HEIGHT - row,
        {
            let mut column: usize = 0;
            while column < SCREEN_WIDTH
                invariant
                    row < SCREEN_HEIGHT,
                    column <= SCREEN_WIDTH,
                    *self == (Chip8InterpreterState { screen: self.screen, ..*old(self) }),
                    forall|r: int, c: int|
                        0 <= r < row && 0 <= c < SCREEN_WIDTH ==> self.screen[r][c] == 0,
                    forall|c: int| 0 <= c < column ==> self.screen[row as int][c] == 0,
                decreases SCREEN_WIDTH - column,
            {
                self.screen[row][column] = 0;
                column += 1;
            }
            row += 1;
        }
        assert(self@ =~~= (StateView { screen: blank_screen(), ..old(self)@ }));
    }

    /// Executes one instruction on the state. `random` is the byte that
    /// `Random` masks; no other instruction looks at it.
    ///
    /// The result and the new state are those of [`StateView::effect`]. An
    /// instruction that fails leaves the state untouched.
    pub fn execute(&mut self, instruction: Chip8Instruction, random: u8) -> (outcome: Result<
        (),
        Chip8InterpreterError,
    >)
        requires
            instruction.well_formed(),
            old(self).sp <= STACK_SIZE,
            instruction.may_skip() ==> old(self).pc <= u16::MAX - 2,
        ensures
            match old(self)@.effect(instruction, random) {
                Ok(after) => outcome is Ok && final(self)@ == after,
                Err(error) => outcome == Err::<(), Chip8InterpreterError>(error) && *final(self)
                    == *old(self),
            },
        no_unwind
    {
        match instruction {
            Chip8Instruction::NoOperation => Ok(()),
            Chip8Instruction::Syscall { .. } => Ok(()),
            Chip8Instruction::Random { register, mask } => {
                self.registers[register] = random & mask;
                Ok(())
            },
            Chip8Instruction::Call { address } => {
                if self.sp > (STACK_SIZE - 1) {
                    return Err(Chip8InterpreterError::CallStackDepthExceeded);
                }
                self.stack[self.sp] = self.pc;
                self.sp += 1;
                self.pc = address;
                Ok(())
            },
            Chip8Instruction::Return => {
                if self.sp == 0 {
                    return Err(Chip8InterpreterError::CallStackEmpty);
                }
                self.sp -= 1;
                self.pc = self.stack[self.sp];
                Ok(())
            },
            Chip8Instruction::StoreRegisters { count } => {
                if (self.i as usize + count) > MEMORY_SIZE as usize {
                    return Err(Chip8InterpreterError::MemoryAccessError);
                }
                self.store_registers(count);
                Ok(())
            },
            Chip8Instruction::LoadRegisters { count } => {
                if (self.i as usize + count) > MEMORY_SIZE as usize {
                    return Err(Chip8InterpreterError::MemoryAccessError);
                }
                self.load_registers(count);
                Ok(())
            },
            Chip8Instruction::Jump { address } => {
                self.pc = address;
                Ok(())
            },
            Chip8Instruction::JumpRelative { address } => {
                if (self.registers[0] as u16 + address) > (MEMORY_SIZE - 1) {
                    return Err(Chip8InterpreterError::MemoryAccessError);
                }
                self.pc = self.registers[0] as u16 + address;
                Ok(())
            },
            Chip8Instruction::ClearScreen => {
                self.clear_screen();
                Ok(())
            },
            Chip8Instruction::SelectCharacter { register } => {
                self.i = self.registers[register] as u16 * 5;
                Ok(())
            },
            Chip8Instruction::StoreBcd { register } => {
                if (self.i as usize + 3) > MEMORY_SIZE as usize {
                    return Err(Chip8InterpreterError::MemoryAccessError);
                }
                let cursor = self.i as usize;
                self.memory[cursor] = self.registers[register] / 100;
                self.memory[cursor + 1] = (self.registers[register] / 10) % 10;
                self.memory[cursor + 2] = self.registers[register] % 10;
                Ok(())
            },
            Chip8Instruction::Draw { x, y, len } => {
                if (self.i as usize + len) > MEMORY_SIZE as usize {
                    return Err(Chip8InterpreterError::MemoryAccessError);
                }
                self.draw_sprite(x, y, len);
                Ok(())
            },
            Chip8Instruction::SkipIfEqualValue { register, value } => {
                if self.registers[register] == value {
                    self.pc += 2;
                }
                Ok(())
            },
            Chip8Instruction::SkipIfEqualRegister { x, y } => {
                if self.registers[x] == self.registers[y] {
                    self.pc += 2;
                }
                Ok(())
            },
            Chip8Instruction::SkipIfNotEqualValue { register, value } => {
                if self.registers[register] != value {
                    self.pc += 2;
                }
                Ok(())
            },
            Chip8Instruction::SkipIfNotEqualRegister { x, y } => {
                if self.registers[x] != self.registers[y] {
                    self.pc += 2;
                }
                Ok(())
            },
            Chip8Instruction::SkipIfKeyPressed { register } => {
                if self.registers[register] > 15 {
                    return Err(Chip8InterpreterError::InvalidInputKey(self.registers[register]));
                }
                if self.input_keys & (1u32 << self.registers[register]) > 0 {
                    self.pc += 2;
                }
                Ok(())
            },
            Chip8Instruction::SkipIfKeyNotPressed { register } => {
                if self.registers[register] > 15 {
                    return Err(Chip8InterpreterError::InvalidInputKey(self.registers[register]));
                }
                if self.input_keys & (1u32 << self.registers[register]) == 0 {
                    self.pc += 2;
                }
                Ok(())
            },
            Chip8Instruction::SetIndex { address } => {
                self.i = address;
                Ok(())
            },
            Chip8Instruction::AddIndex { register } => {
                self.i = ((self.i as u32 + self.registers[register] as u32) % 0x1_0000) as u16;
                Ok(())
            },
            Chip8Instruction::LoadValue { register, value } => {
                self.registers[register] = value;
                Ok(())
            },
            Chip8Instruction::Copy { x, y } => {
                self.registers[x] = self.registers[y];
                Ok(())
            },
            Chip8Instruction::ReadDelayTimer { register } => {
                self.registers[register] = self.dt;
                Ok(())
            },
            Chip8Instruction::SetDelayTimer { register } => {
                self.dt = self.registers[register];
                Ok(())
            },
            Chip8Instruction::SetSoundTimer { register } => {
                self.st = self.registers[register];
                Ok(())
            },
            Chip8Instruction::WaitForKey { register } => {
                if self.input_keys == 0 {
                    Err(Chip8InterpreterError::ExpectingInputKey)
                } else {
                    match lowest_key(self.input_keys) {
                        Some(key) => {
                            self.registers[register] = key;
                        },
                        None => {},
                    }
                    Ok(())
                }
            },
            Chip8Instruction::AddValue { register, value } => {
                let sum = self.registers[register] as u16 + value as u16;
                let carry = sum > 0xff;
                self.registers[register] = (sum % 0x100) as u8;
                self.registers[15] = if carry {
                    0
                } else {
                    1
                };
                Ok(())
            },
            Chip8Instruction::AddRegister { x, y } => {
                let sum = self.registers[x] as u16 + self.registers[y] as u16;
                let carry = sum > 0xff;
                self.registers[x] = (sum % 0x100) as u8;
                self.registers[15] = if carry {
                    1
                } else {
                    0
                };
                Ok(())
            },
            Chip8Instruction::SubtractVxVy { x, y } => {
                let borrow = self.registers[x] < self.registers[y];
                self.registers[x] = wrapping_difference(self.registers[x], self.registers[y]);
                self.registers[15] = if borrow {
                    0
                } else {
                    1
                };
                Ok(())
            },
            Chip8Instruction::SubtractVyVx { x, y } => {
                let borrow = self.registers[y] < self.registers[x];
                self.registers[x] = wrapping_difference(self.registers[y], self.registers[x]);
                self.registers[15] = if borrow {
                    0
                } else {
                    1
                };
                Ok(())
            },
            Chip8Instruction::Or { x, y } => {
                self.registers[x] = self.registers[x] | self.registers[y];
                Ok(())
            },
            Chip8Instruction::And { x, y } => {
                self.registers[x] = self.registers[x] & self.registers[y];
                Ok(())
            },
            Chip8Instruction::Xor { x, y } => {
                self.registers[x] = self.registers[x] ^ self.registers[y];
                Ok(())
            },
            Chip8Instruction::ShiftRight { x, .. } => {
                proof {
                    lemma_shift_right(self.registers[x as int]);
                }
                let carry = self.registers[x] & 1;
                self.registers[x] = self.registers[x] >> 1;
                self.registers[15] = carry;
                Ok(())
            },
            Chip8Instruction::ShiftLeft { x, .. } => {
                proof {
                    lemma_shift_right(self.registers[x as int]);
                    lemma_shift_left(self.registers[x as int]);
                }
                let carry = self.registers[x] >> 7;
                self.registers[x] = self.registers[x] << 1;
                self.registers[15] = carry;
                Ok(())
            },
        }
    }
}

} // verus!
