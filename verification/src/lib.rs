//! A CHIP-8 virtual machine: instruction decoder and execution engine.
//!
//! The decoder maps 16-bit opcodes to [`Chip8Instruction`] values; the engine
//! owns the machine state and executes one instruction per tick.
pub mod interpreter;
pub mod keypad;

pub use interpreter::Chip8Instruction;
pub use interpreter::Chip8Interpreter;
pub use interpreter::Chip8InterpreterError;
pub use interpreter::Chip8InterpreterState;
