//! The virtual machine: its state, its instruction set and its cycle.
pub mod display;
pub mod error;
pub mod execute;
pub mod font;
pub mod instructions;
pub mod laws;
pub mod model;
pub mod text;

pub use error::Chip8InterpreterError;
pub use instructions::Chip8Instruction;

use font::FONT_ROM;
use model::{initial_machine, initial_state, opcode_at, MachineView, StateView};
use vstd::prelude::*;

verus! {

/// Where programs are loaded and where execution starts.
pub const BASE_ADDRESS: u16 = 0x200;

/// The number of addressable bytes.
pub const MEMORY_SIZE: u16 = 4096;

/// The number of return addresses the call stack holds.
pub const STACK_SIZE: usize = 32;

/// The number of general registers.
pub const REGISTER_COUNT: usize = 16;

/// The number of pixels in a screen row.
pub const SCREEN_WIDTH: usize = 64;

/// The number of screen rows.
pub const SCREEN_HEIGHT: usize = 32;

/// The largest program that fits above the load address.
pub const MAX_ROM_SIZE: u16 = MEMORY_SIZE - BASE_ADDRESS;

/// The nominal number of cycles per second.
pub const TICKS_PER_SECOND: usize = 500;

/// How often per second the timers count down.
pub const TIMER_FREQUENCY: usize = 60;

/// The number of cycles between two timer decrements.
pub const TIMER_TICK_INTERVAL: usize = TICKS_PER_SECOND / TIMER_FREQUENCY;

/// The whole of the emulated hardware, as a value that can be copied.
#[derive(Copy, Clone)]
pub struct Chip8InterpreterState {
    /// Registers
    pub registers: [u8; REGISTER_COUNT],
    /// Call stack
    pub stack: [u16; STACK_SIZE],
    /// Program memory
    pub memory: [u8; 4096],
    /// Currently displayed screen data
    pub screen: [[u8; SCREEN_WIDTH]; SCREEN_HEIGHT],
    /// Currently held input keys
    pub input_keys: u32,
    /// Address for indexing operations
    pub i: u16,
    /// Sound timer
    pub st: u8,
    /// Delay timer
    pub dt: u8,
    /// Program counter
    pub pc: u16,
    /// Stack pointer
    pub sp: usize,
}

impl View for Chip8InterpreterState {
    type V = StateView;

    open spec fn view(&self) -> StateView {
        StateView {
            registers: self.registers@,
            stack: self.stack@,
            memory: self.memory@,
            screen: Seq::new(SCREEN_HEIGHT as nat, |row: int| self.screen[row]@),
            input_keys: self.input_keys,
            i: self.i,
            st: self.st,
            dt: self.dt,
            pc: self.pc,
            sp: self.sp as nat,
        }
    }
}

impl Default for Chip8InterpreterState {
    /// The state right after a reset: everything zero, the font at the
    /// bottom of memory, the program counter at the load address.
    fn default() -> (state: Self)
        ensures
            state@ == initial_state(),
    {
        let mut state = Self {
            registers: [0; REGISTER_COUNT],
            stack: [0; STACK_SIZE],
            memory: [0; 4096],
            screen: [[0; SCREEN_WIDTH]; SCREEN_HEIGHT],
            input_keys: 0,
            i: 0,
            st: 0,
            dt: 0,
            pc: BASE_ADDRESS,
            sp: 0,
        };
        let mut address: usize = 0;
        while address < FONT_ROM.len()
            invariant
                address <= FONT_ROM@.len(),
                state.registers@ == initial_state().registers,
                state.stack@ == initial_state().stack,
                forall|row: int, column: int|
                    0 <= row < SCREEN_HEIGHT && 0 <= column < SCREEN_WIDTH
                        ==> state.screen[row][column] == 0,
                state.input_keys == 0 && state.i == 0 && state.st == 0 && state.dt == 0,
                state.pc == BASE_ADDRESS && state.sp == 0,
                forall|a: int| 0 <= a < address ==> state.memory[a] == FONT_ROM[a],
                forall|a: int| address <= a < MEMORY_SIZE ==> state.memory[a] == 0,
            decreases FONT_ROM@.len() - address,
        {
            state.memory[address] = FONT_ROM[address];
            address += 1;
        }
        assert(state@ =~~= initial_state());
        state
    }
}

/// The two bytes of an opcode joined by a shift and an OR make the number
/// `256 * high + low`.
proof fn lemma_opcode_bytes(high: u8, low: u8)
    by (bit_vector)
    ensures
        ((high as u16) << 8) | (low as u16) == high * 256 + low,
{
}

/// Draws one byte with `rand::random`. The byte is whatever the thread's
/// generator gives next: nothing is claimed of it beyond its type.
#[verifier::external_body]
fn random_byte() -> (byte: u8) {
    rand::random::<u8>()
}

/// The engine: it owns the machine state and runs it one cycle at a time.
pub struct Chip8Interpreter {
    state: Chip8InterpreterState,
    /// Keeps track of when to tick st and dt relative to master clock
    timer_counter: usize,
}

impl View for Chip8Interpreter {
    type V = MachineView;

    closed spec fn view(&self) -> MachineView {
        MachineView { state: self.state@, timer_counter: self.timer_counter as nat }
    }
}

impl Chip8Interpreter {
    /// What holds of every engine at all times: a stack pointer within the
    /// stack, pixels that are 0 or 1, and a cycle count below the timer
    /// interval.
    #[verifier::type_invariant]
    spec fn always_holds(&self) -> bool {
        self@.well_formed()
    }

    /// A machine in its reset state.
    pub fn new() -> (machine: Self)
        ensures
            machine@ == initial_machine(),
    {
        proof {
            model::lemma_initial_machine_is_well_formed();
        }
        let mut interp = Chip8Interpreter {
            state: Chip8InterpreterState::default(),
            timer_counter: 0,
        };
        interp.reset();
        interp
    }

    /// Whether a tone should be playing: the sound timer is above 1.
    pub fn is_sound_playing(&self) -> (playing: bool)
        ensures
            playing == (self@.state.st > 1),
    {
        self.state.st > 1
    }

    /// The machine state, to look at.
    pub fn state(&self) -> (state: &Chip8InterpreterState)
        ensures
            state@ == self@.state,
            self@.well_formed(),
    {
        proof {
            use_type_invariant(self);
        }
        &self.state
    }

    /// Puts the machine back into its reset state.
    pub fn reset(&mut self)
        ensures
            final(self)@ == initial_machine(),
    {
        proof {
            use_type_invariant(&*self);
            model::lemma_initial_machine_is_well_formed();
        }
        self.state = Chip8InterpreterState::default();
        self.timer_counter = 0;
    }

    /// Decodes the two bytes at `address` without running anything.
    ///
    /// Fails with `MemoryAccessError` from `MEMORY_SIZE - 2` on, and with
    /// `InvalidInstruction` where the bytes mean nothing.
    pub fn try_read_instruction(&self, address: usize) -> (instruction: Result<
        Chip8Instruction,
        Chip8InterpreterError,
    >)
        ensures
            instruction == self@.instruction_at(address as int),
    {
        if address >= (MEMORY_SIZE as usize) - 2 {
            return Err(Chip8InterpreterError::MemoryAccessError);
        }
        proof {
            lemma_opcode_bytes(self.state.memory[address as int], self.state.memory[address + 1]);
        }
        let opcode = ((self.state.memory[address] as u16) << 8) | (self.state.memory[address
            + 1] as u16);
        Chip8Instruction::try_from(opcode)
    }

    /// Copies a program into memory from `BASE_ADDRESS` on.
    ///
    /// A program longer than `MAX_ROM_SIZE` is refused with
    /// `RomFileTooLarge` and nothing changes. Otherwise its bytes are
    /// written and everything else, memory around them included, stays as it
    /// was: loading does not reset.
    pub fn try_load_rom(&mut self, rom: &[u8]) -> (outcome: Result<(), Chip8InterpreterError>)
        ensures
            rom@.len() > MAX_ROM_SIZE ==> outcome == Err::<(), Chip8InterpreterError>(
                Chip8InterpreterError::RomFileTooLarge,
            ) && final(self)@ == old(self)@,
            rom@.len() <= MAX_ROM_SIZE ==> outcome is Ok && final(self)@ == old(self)@.loaded(
                rom@,
            ),
    {
        if rom.len() > MAX_ROM_SIZE as usize {
            return Err(Chip8InterpreterError::RomFileTooLarge);
        }
        proof {
            use_type_invariant(&*self);
        }
        let mut offset: usize = 0;
        while offset < rom.len()
            invariant
                offset <= rom@.len() <= MAX_ROM_SIZE,
                self@.well_formed(),
                self@ == (MachineView {
                    state: StateView { memory: self@.state.memory, ..old(self)@.state },
                    ..old(self)@
                }),
                forall|address: int|
                    0 <= address < MEMORY_SIZE ==> self.state.memory[address] == if BASE_ADDRESS
                        <= address < BASE_ADDRESS + offset {
                        rom@[address - BASE_ADDRESS]
                    } else {
                        old(self).state.memory[address]
                    },
            decreases rom@.len() - offset,
        {
            self.state.memory[BASE_ADDRESS as usize + offset] = rom[offset];
            offset += 1;
            assert(self@ =~~= (MachineView {
                state: StateView { memory: self@.state.memory, ..old(self)@.state },
                ..old(self)@
            }));
        }
        assert(self@ =~~= old(self)@.loaded(rom@));
        Ok(())
    }

    /// Replaces the set of held keys: bit `n` of `input_keys` stands for
    /// key `n`.
    pub fn set_input_keys(&mut self, input_keys: u32)
        ensures
            final(self)@ == (MachineView {
                state: StateView { input_keys, ..old(self)@.state },
                ..old(self)@
            }),
    {
        proof {
            use_type_invariant(&*self);
        }
        self.state.input_keys = input_keys;
        assert(self@ =~~= (MachineView {
            state: StateView { input_keys, ..old(self)@.state },
            ..old(self)@
        }));
    }

    /// Runs one cycle: fetch, decode, execute, timers.
    ///
    /// The machine and the result are those of [`MachineView::stepped`] for
    /// the byte that a `Random` instruction drew; for every other
    /// instruction they do not depend on that byte.
    pub fn tick(&mut self) -> (outcome: Result<(), Chip8InterpreterError>)
        ensures
            exists|random: u8| #[trigger] old(self)@.stepped(random) == (final(self)@, outcome),
            !(old(self)@.fetched() matches Ok(instruction) && instruction is Random) ==> old(
                self,
            )@.stepped(0) == (final(self)@, outcome),
    {
        proof {
            use_type_invariant(&*self);
        }
        if (self.state.pc as usize + 1) >= MEMORY_SIZE as usize {
            assert(old(self)@.stepped(0) == (self@, Err::<(), Chip8InterpreterError>(
                Chip8InterpreterError::ProgramCounterOutOfBounds(self.state.pc),
            )));
            return Err(Chip8InterpreterError::ProgramCounterOutOfBounds(self.state.pc));
        }
        // If next instruction is WaitForKey we can only continue if we have input

        proof {
            lemma_opcode_bytes(
                self.state.memory[self.state.pc as int],
                self.state.memory[self.state.pc + 1],
            );
            instructions::lemma_decode_outcomes(opcode_at(self@.state.memory, self.state.pc as int));
        }
        let opcode = ((self.state.memory[self.state.pc as usize] as u16) << 8) | (
        self.state.memory[self.state.pc as usize + 1] as u16);
        let instruction = match Chip8Instruction::try_from(opcode) {
            Ok(instruction) => instruction,
            Err(error) => {
                assert(old(self)@.stepped(0) == (self@, Err::<(), Chip8InterpreterError>(error)));
                return Err(error);
            },
        };
        if let Chip8Instruction::WaitForKey { .. } = instruction {
            if self.state.input_keys == 0 {
                assert(old(self)@.stepped(0) == (self@, Ok::<(), Chip8InterpreterError>(())));
                return Ok(());
            }
        }
        // Instruction preconditions have been met

        self.state.pc += 2;
        assert(self@ =~~= old(self)@.advanced());
        let ghost advanced = self@;
        let outcome = self.dispatch(instruction);
        let ghost random = choose|random: u8| #[trigger]
            model::execution_of(advanced.state, instruction, random, self@.state, outcome);
        proof {
            if !(instruction is Random) {
                model::lemma_random_only_matters_to_random(advanced.state, instruction, random, 0);
            }
        }
        match outcome {
            Ok(()) => {},
            Err(error) => {
                assert(self@ =~~= advanced);
                assert(old(self)@.stepped(random) == (self@, outcome));
                return Err(error);
            },
        }
        let ghost executed = self@;
        self.update_timers();
        proof {
            assert(advanced.state.effect(instruction, random) == Ok::<
                StateView,
                Chip8InterpreterError,
            >(executed.state));
            assert(executed =~~= MachineView { state: executed.state, ..old(self)@ });
            assert(old(self)@.stepped(random) == (self@, Ok::<(), Chip8InterpreterError>(())));
        }
        Ok(())
    }

    /// Counts one completed cycle and, every `TIMER_TICK_INTERVAL` cycles,
    /// takes one off each timer that is not yet zero.
    fn update_timers(&mut self)
        ensures
            final(self)@ == old(self)@.timers_updated(),
    {
        proof {
            use_type_invariant(&*self);
        }
        let elapsed = self.timer_counter + 1;
        if elapsed >= TIMER_TICK_INTERVAL {
            self.timer_counter = 0;
            if self.state.st > 0 {
                self.state.st -= 1;
            }
            if self.state.dt > 0 {
                self.state.dt -= 1;
            }
        } else {
            self.timer_counter = elapsed;
        }
        assert(self@ =~~= old(self)@.timers_updated());
    }

    /// Executes a decoded instruction, drawing a random byte where the
    /// instruction asks for one.
    fn dispatch(&mut self, instruction: Chip8Instruction) -> (outcome: Result<
        (),
        Chip8InterpreterError,
    >)
        requires
            instruction.well_formed(),
            instruction.may_skip() ==> old(self)@.state.pc <= u16::MAX - 2,
        ensures
            exists|random: u8| #[trigger]
                model::execution_of(
                    old(self)@.state,
                    instruction,
                    random,
                    final(self)@.state,
                    outcome,
                ),
            final(self)@.timer_counter == old(self)@.timer_counter,
    {
        proof {
            use_type_invariant(&*self);
        }
        let random = match instruction {
            Chip8Instruction::Random { .. } => random_byte(),
            _ => 0,
        };
        proof {
            model::lemma_effect_keeps_well_formed(self.state@, instruction, random);
        }
        let outcome = self.state.execute(instruction, random);
        assert(model::execution_of(old(self)@.state, instruction, random, self@.state, outcome));
        outcome
    }
}

} // verus!
