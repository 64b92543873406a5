//! The mathematical model of the machine: what a state is, and what each
//! instruction and each cycle make of it.
use super::error::Chip8InterpreterError;
use super::font::FONT_ROM;
use super::instructions::{decode, Chip8Instruction};
use super::{
    BASE_ADDRESS, MEMORY_SIZE, REGISTER_COUNT, SCREEN_HEIGHT, SCREEN_WIDTH, STACK_SIZE,
    TIMER_TICK_INTERVAL,
};
use vstd::prelude::*;

verus! {

/// The machine state as plain mathematical values.
#[verifier::ext_equal]
pub struct StateView {
    /// The 16 general registers; register 15 doubles as the flag.
    pub registers: Seq<u8>,
    /// The 32 return-address slots.
    pub stack: Seq<u16>,
    /// The 4096 bytes of memory.
    pub memory: Seq<u8>,
    /// The 32 rows of 64 pixels, each pixel a byte.
    pub screen: Seq<Seq<u8>>,
    /// Bit `n` is set while key `n` is held.
    pub input_keys: u32,
    /// The index register.
    pub i: u16,
    /// The sound timer.
    pub st: u8,
    /// The delay timer.
    pub dt: u8,
    /// The program counter.
    pub pc: u16,
    /// The number of return addresses on the stack.
    pub sp: nat,
}

/// A screen with every pixel off.
pub open spec fn blank_screen() -> Seq<Seq<u8>> {
    Seq::new(SCREEN_HEIGHT as nat, |row: int| Seq::new(SCREEN_WIDTH as nat, |column: int| 0u8))
}

/// Memory right after a reset: the font sprites first, zeros after them.
pub open spec fn initial_memory() -> Seq<u8> {
    Seq::new(
        MEMORY_SIZE as nat,
        |address: int|
            if address < FONT_ROM@.len() {
                FONT_ROM@[address]
            } else {
                0u8
            },
    )
}

/// The state right after a reset.
pub open spec fn initial_state() -> StateView {
    StateView {
        registers: Seq::new(REGISTER_COUNT as nat, |r: int| 0u8),
        stack: Seq::new(STACK_SIZE as nat, |slot: int| 0u16),
        memory: initial_memory(),
        screen: blank_screen(),
        input_keys: 0,
        i: 0,
        st: 0,
        dt: 0,
        pc: BASE_ADDRESS,
        sp: 0,
    }
}

/// The opcode stored at `address`: two bytes, the high byte first.
pub open spec fn opcode_at(memory: Seq<u8>, address: int) -> u16 {
    (memory[address] as int * 256 + memory[address + 1] as int) as u16
}

/// Whether `keys` has the bit of key `key` set.
pub open spec fn key_is_held(keys: u32, key: u8) -> bool {
    keys & (1u32 << key) != 0
}

/// The lowest held key from `from` up to key 15, if there is one.
pub open spec fn lowest_held_key(keys: u32, from: u8) -> Option<u8>
    decreases 16 - from,
{
    if from >= 16 {
        None
    } else if key_is_held(keys, from) {
        Some(from)
    } else {
        lowest_held_key(keys, (from + 1) as u8)
    }
}

/// Pixel `column` of a sprite row, the leftmost pixel being the top bit.
pub open spec fn sprite_bit(row_bits: u8, column: int) -> u8 {
    (row_bits >> (7 - column)) & 1
}

/// The pixel that a sprite row drawn from column `left` on puts on screen
/// column `column`, wrapping at the right edge; 0 where it does not reach.
pub open spec fn sprite_row_pixel(row_bits: u8, left: int, column: int) -> u8 {
    let sprite_column = (column - left) % (SCREEN_WIDTH as int);
    if sprite_column < 8 {
        sprite_bit(row_bits, sprite_column)
    } else {
        0
    }
}

/// Whether a sprite row drawn from column `left` on turns a lit pixel of the
/// screen row `line` off.
pub open spec fn sprite_row_collides(line: Seq<u8>, row_bits: u8, left: int) -> bool {
    exists|column: int|
        0 <= column < SCREEN_WIDTH && line[column] == 1 && #[trigger] sprite_row_pixel(
            row_bits,
            left,
            column,
        ) == 1
}

/// A sprite and where it is drawn: its rows from the top down, eight pixels
/// each, and the screen position of its top left corner.
#[verifier::ext_equal]
pub struct Sprite {
    /// The rows, one byte each.
    pub rows: Seq<u8>,
    /// The column of the leftmost pixel.
    pub left: int,
    /// The row of the topmost pixel.
    pub top: int,
}

impl Sprite {
    /// The sprite pixel that lands on screen cell (`row`, `column`), both
    /// axes wrapping; 0 where the sprite does not reach.
    pub open spec fn pixel(self, row: int, column: int) -> u8 {
        let sprite_row = (row - self.top) % (SCREEN_HEIGHT as int);
        if sprite_row < self.rows.len() {
            sprite_row_pixel(self.rows[sprite_row], self.left, column)
        } else {
            0
        }
    }

    /// The screen with the sprite drawn: every cell XORed with the sprite
    /// pixel that lands on it.
    pub open spec fn drawn_on(self, screen: Seq<Seq<u8>>) -> Seq<Seq<u8>> {
        Seq::new(
            SCREEN_HEIGHT as nat,
            |row: int|
                Seq::new(
                    SCREEN_WIDTH as nat,
                    |column: int| screen[row][column] ^ self.pixel(row, column),
                ),
        )
    }

    /// Whether drawing the sprite turns a lit pixel of the screen off.
    pub open spec fn collides_with(self, screen: Seq<Seq<u8>>) -> bool {
        exists|row: int, column: int|
            0 <= row < SCREEN_HEIGHT && 0 <= column < SCREEN_WIDTH && screen[row][column] == 1
                && #[trigger] self.pixel(row, column) == 1
    }

    /// The sprite cut down to its first `count` rows.
    pub open spec fn first_rows(self, count: int) -> Sprite {
        Sprite { rows: self.rows.take(count), ..self }
    }
}

impl StateView {
    /// The parts have the machine's sizes, and the stack pointer is within
    /// the stack.
    pub open spec fn well_formed(self) -> bool {
        &&& self.registers.len() == REGISTER_COUNT
        &&& self.stack.len() == STACK_SIZE
        &&& self.memory.len() == MEMORY_SIZE
        &&& self.screen.len() == SCREEN_HEIGHT
        &&& forall|row: int|
            0 <= row < SCREEN_HEIGHT ==> (#[trigger] self.screen[row]).len() == SCREEN_WIDTH
        &&& self.sp <= STACK_SIZE
    }

    /// Every pixel is 0 or 1.
    pub open spec fn screen_is_binary(self) -> bool {
        forall|row: int, column: int|
            0 <= row < SCREEN_HEIGHT && 0 <= column < SCREEN_WIDTH ==> #[trigger] self.screen[row][column]
                <= 1
    }

    /// The state with register `register` set to `value`.
    pub open spec fn with_register(self, register: int, value: u8) -> StateView {
        StateView { registers: self.registers.update(register, value), ..self }
    }

    /// The state with the flag register set to 1 if `flag`, else to 0.
    pub open spec fn with_flag(self, flag: bool) -> StateView {
        self.with_register(
            15,
            if flag {
                1u8
            } else {
                0u8
            },
        )
    }

    /// The state with the program counter moved past one more instruction
    /// if `condition` holds.
    pub open spec fn skipping_if(self, condition: bool) -> StateView {
        if condition {
            StateView { pc: (self.pc + 2) as u16, ..self }
        } else {
            self
        }
    }

    /// The sprite that `Draw { x, y, len }` draws: the `len` bytes at the
    /// index register, placed at the position that registers `x` and `y`
    /// hold.
    pub open spec fn sprite(self, x: int, y: int, len: int) -> Sprite {
        Sprite {
            rows: self.memory.subrange(self.i as int, self.i + len),
            left: self.registers[x] as int,
            top: self.registers[y] as int,
        }
    }

    /// Memory after `StoreRegisters { count }`: the first `count` registers
    /// copied to the index register's address and the ones after it.
    pub open spec fn memory_with_registers(self, count: int) -> Seq<u8> {
        Seq::new(
            MEMORY_SIZE as nat,
            |address: int|
                if self.i <= address < self.i + count {
                    self.registers[address - self.i]
                } else {
                    self.memory[address]
                },
        )
    }

    /// The registers after `LoadRegisters { count }`: the first `count`
    /// read from the index register's address and the ones after it.
    pub open spec fn registers_from_memory(self, count: int) -> Seq<u8> {
        Seq::new(
            REGISTER_COUNT as nat,
            |register: int|
                if register < count {
                    self.memory[self.i + register]
                } else {
                    self.registers[register]
                },
        )
    }

    /// What an instruction makes of the state once the program counter has
    /// moved past it: the new state, or the error it stops with. `random` is
    /// the byte that `Random` draws. A failing instruction changes nothing.
    pub open spec fn effect(self, instruction: Chip8Instruction, random: u8) -> Result<
        StateView,
        Chip8InterpreterError,
    > {
        match instruction {
            Chip8Instruction::NoOperation => Ok(self),
            Chip8Instruction::Syscall { address } => Ok(self),
            Chip8Instruction::Random { register, mask } => Ok(
                self.with_register(register as int, random & mask),
            ),
            Chip8Instruction::Call { address } => if self.sp >= STACK_SIZE {
                Err(Chip8InterpreterError::CallStackDepthExceeded)
            } else {
                Ok(
                    StateView {
                        stack: self.stack.update(self.sp as int, self.pc),
                        sp: self.sp + 1,
                        pc: address,
                        ..self
                    },
                )
            },
            Chip8Instruction::Return => if self.sp == 0 {
                Err(Chip8InterpreterError::CallStackEmpty)
            } else {
                Ok(StateView { sp: (self.sp - 1) as nat, pc: self.stack[self.sp - 1], ..self })
            },
            Chip8Instruction::StoreRegisters { count } => if self.i + count > MEMORY_SIZE {
                Err(Chip8InterpreterError::MemoryAccessError)
            } else {
                Ok(StateView { memory: self.memory_with_registers(count as int), ..self })
            },
            Chip8Instruction::LoadRegisters { count } => if self.i + count > MEMORY_SIZE {
                Err(Chip8InterpreterError::MemoryAccessError)
            } else {
                Ok(StateView { registers: self.registers_from_memory(count as int), ..self })
            },
            Chip8Instruction::Jump { address } => Ok(StateView { pc: address, ..self }),
            Chip8Instruction::JumpRelative { address } => if self.registers[0] + address
                > MEMORY_SIZE - 1 {
                Err(Chip8InterpreterError::MemoryAccessError)
            } else {
                Ok(StateView { pc: (self.registers[0] + address) as u16, ..self })
            },
            Chip8Instruction::ClearScreen => Ok(StateView { screen: blank_screen(), ..self }),
            Chip8Instruction::SelectCharacter { register } => Ok(
                StateView { i: (self.registers[register as int] * 5) as u16, ..self },
            ),
            Chip8Instruction::StoreBcd { register } => if self.i + 3 > MEMORY_SIZE {
                Err(Chip8InterpreterError::MemoryAccessError)
            } else {
                let value = self.registers[register as int];
                Ok(
                    StateView {
                        memory: self.memory.update(self.i as int, value / 100).update(
                            self.i + 1,
                            (value / 10) % 10,
                        ).update(self.i + 2, value % 10),
                        ..self
                    },
                )
            },
            Chip8Instruction::Draw { x, y, len } => if self.i + len > MEMORY_SIZE {
                Err(Chip8InterpreterError::MemoryAccessError)
            } else {
                let sprite = self.sprite(x as int, y as int, len as int);
                Ok(
                    StateView { screen: sprite.drawn_on(self.screen), ..self }.with_flag(
                        sprite.collides_with(self.screen),
                    ),
                )
            },
            Chip8Instruction::SkipIfEqualValue { register, value } => Ok(
                self.skipping_if(self.registers[register as int] == value),
            ),
            Chip8Instruction::SkipIfEqualRegister { x, y } => Ok(
                self.skipping_if(self.registers[x as int] == self.registers[y as int]),
            ),
            Chip8Instruction::SkipIfNotEqualValue { register, value } => Ok(
                self.skipping_if(self.registers[register as int] != value),
            ),
            Chip8Instruction::SkipIfNotEqualRegister { x, y } => Ok(
                self.skipping_if(self.registers[x as int] != self.registers[y as int]),
            ),
            Chip8Instruction::SkipIfKeyPressed { register } => {
                let key = self.registers[register as int];
                if key > 15 {
                    Err(Chip8InterpreterError::InvalidInputKey(key))
                } else {
                    Ok(self.skipping_if(key_is_held(self.input_keys, key)))
                }
            },
            Chip8Instruction::SkipIfKeyNotPressed { register } => {
                let key = self.registers[register as int];
                if key > 15 {
                    Err(Chip8InterpreterError::InvalidInputKey(key))
                } else {
                    Ok(self.skipping_if(!key_is_held(self.input_keys, key)))
                }
            },
            Chip8Instruction::SetIndex { address } => Ok(StateView { i: address, ..self }),
            Chip8Instruction::AddIndex { register } => Ok(
                StateView {
                    i: ((self.i + self.registers[register as int]) % 0x1_0000) as u16,
                    ..self
                },
            ),
            Chip8Instruction::LoadValue { register, value } => Ok(
                self.with_register(register as int, value),
            ),
            Chip8Instruction::Copy { x, y } => Ok(
                self.with_register(x as int, self.registers[y as int]),
            ),
            Chip8Instruction::ReadDelayTimer { register } => Ok(
                self.with_register(register as int, self.dt),
            ),
            Chip8Instruction::SetDelayTimer { register } => Ok(
                StateView { dt: self.registers[register as int], ..self },
            ),
            Chip8Instruction::SetSoundTimer { register } => Ok(
                StateView { st: self.registers[register as int], ..self },
            ),
            Chip8Instruction::WaitForKey { register } => if self.input_keys == 0 {
                Err(Chip8InterpreterError::ExpectingInputKey)
            } else {
                match lowest_held_key(self.input_keys, 0) {
                    Some(key) => Ok(self.with_register(register as int, key)),
                    None => Ok(self),
                }
            },
            Chip8Instruction::AddValue { register, value } => {
                let sum = self.registers[register as int] + value;
                Ok(self.with_register(register as int, (sum % 256) as u8).with_flag(sum <= 255))
            },
            Chip8Instruction::AddRegister { x, y } => {
                let sum = self.registers[x as int] + self.registers[y as int];
                Ok(self.with_register(x as int, (sum % 256) as u8).with_flag(sum > 255))
            },
            Chip8Instruction::SubtractVxVy { x, y } => {
                let difference = self.registers[x as int] - self.registers[y as int];
                Ok(
                    self.with_register(x as int, (difference % 256) as u8).with_flag(
                        difference >= 0,
                    ),
                )
            },
            Chip8Instruction::SubtractVyVx { x, y } => {
                let difference = self.registers[y as int] - self.registers[x as int];
                Ok(
                    self.with_register(x as int, (difference % 256) as u8).with_flag(
                        difference >= 0,
                    ),
                )
            },
            Chip8Instruction::Or { x, y } => Ok(
                self.with_register(x as int, self.registers[x as int] | self.registers[y as int]),
            ),
            Chip8Instruction::And { x, y } => Ok(
                self.with_register(x as int, self.registers[x as int] & self.registers[y as int]),
            ),
            Chip8Instruction::Xor { x, y } => Ok(
                self.with_register(x as int, self.registers[x as int] ^ self.registers[y as int]),
            ),
            Chip8Instruction::ShiftRight { x, y } => {
                let value = self.registers[x as int];
                Ok(self.with_register(x as int, value / 2).with_flag(value % 2 == 1))
            },
            Chip8Instruction::ShiftLeft { x, y } => {
                let value = self.registers[x as int];
                Ok(self.with_register(x as int, ((value * 2) % 256) as u8).with_flag(value >= 128))
            },
        }
    }
}

/// The machine as plain mathematical values: its state and the number of
/// cycles since the timers last ran.
#[verifier::ext_equal]
pub struct MachineView {
    /// The machine state.
    pub state: StateView,
    /// Completed cycles since the timers were last decremented.
    pub timer_counter: nat,
}

/// The machine right after a reset.
pub open spec fn initial_machine() -> MachineView {
    MachineView { state: initial_state(), timer_counter: 0 }
}

/// A timer one tick later: one less, and never below zero.
pub open spec fn timer_decayed(timer: u8) -> u8 {
    if timer > 0 {
        (timer - 1) as u8
    } else {
        0
    }
}

impl MachineView {
    /// The state is well formed, its pixels are 0 or 1, and the cycle
    /// counter is below the timer interval.
    pub open spec fn well_formed(self) -> bool {
        &&& self.state.well_formed()
        &&& self.state.screen_is_binary()
        &&& self.timer_counter < TIMER_TICK_INTERVAL
    }

    /// The instruction at the program counter, or why none can be had.
    pub open spec fn fetched(self) -> Result<Chip8Instruction, Chip8InterpreterError> {
        if self.state.pc + 1 >= MEMORY_SIZE {
            Err(Chip8InterpreterError::ProgramCounterOutOfBounds(self.state.pc))
        } else {
            decode(opcode_at(self.state.memory, self.state.pc as int))
        }
    }

    /// Whether the next cycle only polls the keys: the instruction at the
    /// program counter waits for a key and none is held.
    pub open spec fn awaits_key(self) -> bool {
        self.fetched() matches Ok(instruction) && instruction is WaitForKey
            && self.state.input_keys == 0
    }

    /// The machine with the program counter moved past one instruction.
    pub open spec fn advanced(self) -> MachineView {
        MachineView { state: StateView { pc: (self.state.pc + 2) as u16, ..self.state }, ..self }
    }

    /// The machine after one more completed cycle has been counted: every
    /// `TIMER_TICK_INTERVAL` cycles both timers lose one and the count
    /// starts again.
    pub open spec fn timers_updated(self) -> MachineView {
        if self.timer_counter + 1 >= TIMER_TICK_INTERVAL {
            MachineView {
                state: StateView {
                    st: timer_decayed(self.state.st),
                    dt: timer_decayed(self.state.dt),
                    ..self.state
                },
                timer_counter: 0,
            }
        } else {
            MachineView { timer_counter: self.timer_counter + 1, ..self }
        }
    }

    /// One cycle: the machine after it and what the cycle reports. `random`
    /// is the byte that a `Random` instruction draws.
    ///
    /// A fetch that fails leaves the machine as it was. A key wait with no
    /// key held succeeds and leaves the machine as it was. Otherwise the
    /// program counter moves past the instruction; then the instruction
    /// takes effect and the timers are updated, or it fails and nothing
    /// more happens.
    pub open spec fn stepped(self, random: u8) -> (MachineView, Result<(), Chip8InterpreterError>) {
        match self.fetched() {
            Err(error) => (self, Err(error)),
            Ok(instruction) => if self.awaits_key() {
                (self, Ok(()))
            } else {
                match self.advanced().state.effect(instruction, random) {
                    Err(error) => (self.advanced(), Err(error)),
                    Ok(state) => (MachineView { state, ..self }.timers_updated(), Ok(())),
                }
            },
        }
    }

    /// The machine after a program is loaded: the bytes of `rom` from
    /// `BASE_ADDRESS` on, everything else as before.
    pub open spec fn loaded(self, rom: Seq<u8>) -> MachineView {
        MachineView {
            state: StateView {
                memory: Seq::new(
                    MEMORY_SIZE as nat,
                    |address: int|
                        if BASE_ADDRESS <= address < BASE_ADDRESS + rom.len() {
                            rom[address - BASE_ADDRESS]
                        } else {
                            self.state.memory[address]
                        },
                ),
                ..self.state
            },
            ..self
        }
    }

    /// The instruction that a disassembler shows at `address`.
    pub open spec fn instruction_at(self, address: int) -> Result<
        Chip8Instruction,
        Chip8InterpreterError,
    > {
        if address >= MEMORY_SIZE - 2 {
            Err(Chip8InterpreterError::MemoryAccessError)
        } else {
            decode(opcode_at(self.state.memory, address))
        }
    }
}

/// Whether `outcome` and `after` are what `instruction` makes of `before`
/// when `random` is the byte it draws: the new state on success, the error
/// and the old state on failure.
pub open spec fn execution_of(
    before: StateView,
    instruction: Chip8Instruction,
    random: u8,
    after: StateView,
    outcome: Result<(), Chip8InterpreterError>,
) -> bool {
    match before.effect(instruction, random) {
        Ok(state) => outcome is Ok && after == state,
        Err(error) => outcome == Err::<(), Chip8InterpreterError>(error) && after == before,
    }
}

/// A machine that was just reset is well formed.
pub proof fn lemma_initial_machine_is_well_formed()
    ensures
        initial_machine().well_formed(),
{
}

/// Only `Random` looks at the random byte.
pub proof fn lemma_random_only_matters_to_random(
    state: StateView,
    instruction: Chip8Instruction,
    random: u8,
    other: u8,
)
    requires
        !(instruction is Random),
    ensures
        state.effect(instruction, random) == state.effect(instruction, other),
{
}

/// An instruction with operands in range keeps a well-formed state well
/// formed, and pixels that are 0 or 1 stay 0 or 1.
pub proof fn lemma_effect_keeps_well_formed(
    state: StateView,
    instruction: Chip8Instruction,
    random: u8,
)
    requires
        state.well_formed(),
        instruction.well_formed(),
    ensures
        state.effect(instruction, random) matches Ok(after) ==> after.well_formed() && (
        state.screen_is_binary() ==> after.screen_is_binary()),
{
    match instruction {
        Chip8Instruction::Draw { x, y, len } => {
            let sprite = state.sprite(x as int, y as int, len as int);
            if state.screen_is_binary() {
                assert forall|row: int, column: int|
                    0 <= row < SCREEN_HEIGHT && 0 <= column < SCREEN_WIDTH implies #[trigger] sprite.drawn_on(
                    state.screen,
                )[row][column] <= 1 by {
                    lemma_sprite_pixel_is_binary(sprite, row, column);
                    lemma_xor_of_pixels(state.screen[row][column], sprite.pixel(row, column));
                }
            }
        },
        _ => {},
    }
}

/// XOR keeps pixels within 0 and 1, and undoes itself.
pub proof fn lemma_xor_of_pixels(pixel: u8, bit: u8)
    by (bit_vector)
    ensures
        pixel <= 1 && bit <= 1 ==> pixel ^ bit <= 1,
        (pixel ^ bit) ^ bit == pixel,
        pixel ^ 0 == pixel,
        pixel & 1 <= 1,
{
}

/// A sprite pixel is 0 or 1.
pub proof fn lemma_sprite_pixel_is_binary(sprite: Sprite, row: int, column: int)
    ensures
        sprite.pixel(row, column) <= 1,
{
    let sprite_row = (row - sprite.top) % (SCREEN_HEIGHT as int);
    let sprite_column = (column - sprite.left) % (SCREEN_WIDTH as int);
    if sprite_row < sprite.rows.len() && sprite_column < 8 {
        lemma_xor_of_pixels(sprite.rows[sprite_row] >> (7 - sprite_column), 0);
    }
}

} // verus!
