//! What holds of the machine whatever the program: facts that relate loading,
//! disassembly, the call stack, drawing and the timers.
use super::error::Chip8InterpreterError;
use super::instructions::{decode, Chip8Instruction};
use super::model::{lemma_xor_of_pixels, timer_decayed, MachineView, StateView};
use super::{
    BASE_ADDRESS, MAX_ROM_SIZE, MEMORY_SIZE, SCREEN_HEIGHT, SCREEN_WIDTH, STACK_SIZE,
    TIMER_TICK_INTERVAL,
};
use vstd::prelude::*;

verus! {

/// Right after a program of at least two bytes is loaded, the instruction
/// shown at the load address is the decoding of the program's first two
/// bytes, the first one being the high byte.
pub proof fn lemma_loaded_program_is_read_back(machine: MachineView, rom: Seq<u8>)
    requires
        2 <= rom.len() <= MAX_ROM_SIZE,
    ensures
        machine.loaded(rom).instruction_at(BASE_ADDRESS as int) == decode(
            (rom[0] as int * 256 + rom[1] as int) as u16,
        ),
{
}

/// A program of `MAX_ROM_SIZE` bytes fills memory up to its last byte and
/// leaves everything below the load address as it was.
pub proof fn lemma_largest_program_fits(machine: MachineView, rom: Seq<u8>)
    requires
        rom.len() == MAX_ROM_SIZE,
    ensures
        machine.loaded(rom).state.memory.len() == MEMORY_SIZE,
        machine.loaded(rom).state.memory[MEMORY_SIZE - 1] == rom[rom.len() - 1],
        forall|address: int|
            0 <= address < BASE_ADDRESS ==> machine.loaded(rom).state.memory[address]
                == machine.state.memory[address],
{
}

/// A call with the stack full fails with `CallStackDepthExceeded`, and a
/// return with the stack empty fails with `CallStackEmpty`; with room on
/// the stack a call succeeds, and with an address on it so does a return.
pub proof fn lemma_call_stack_limits(state: StateView, address: u16, random: u8)
    ensures
        state.sp >= STACK_SIZE <==> state.effect(Chip8Instruction::Call { address }, random)
            == Err::<StateView, Chip8InterpreterError>(
            Chip8InterpreterError::CallStackDepthExceeded,
        ),
        state.sp < STACK_SIZE <==> state.effect(Chip8Instruction::Call { address }, random) is Ok,
        state.sp == 0 <==> state.effect(Chip8Instruction::Return, random) == Err::<
            StateView,
            Chip8InterpreterError,
        >(Chip8InterpreterError::CallStackEmpty),
        state.sp > 0 <==> state.effect(Chip8Instruction::Return, random) is Ok,
{
}

/// A return right after a call comes back to where the call was made and
/// leaves the stack as deep as it was.
pub proof fn lemma_return_undoes_call(state: StateView, address: u16, random: u8)
    requires
        state.well_formed(),
        state.sp < STACK_SIZE,
    ensures
        state.effect(Chip8Instruction::Call { address }, random) matches Ok(called)
            && called.effect(Chip8Instruction::Return, random) matches Ok(returned)
            && returned.pc == state.pc && returned.sp == state.sp,
{
}

/// XORing a bit into a pixel that is 0 or 1 gives 1 exactly where the two
/// differ.
proof fn lemma_lit_after_xor(pixel: u8, bit: u8)
    by (bit_vector)
    requires
        pixel <= 1,
        bit <= 1,
    ensures
        (pixel ^ bit == 1) <==> (pixel != bit),
{
}

/// Drawing the same sprite twice at the same position gives the screen back
/// as it was. The second draw reports a collision exactly when a set pixel
/// of the sprite lands on a pixel that was off before the first draw: those
/// are the pixels that the first draw lit and the second puts out.
///
/// "The same position" is a premise because the first draw writes the flag
/// register, which a draw may also name as the register of a coordinate.
pub proof fn lemma_draw_twice_restores_screen(
    state: StateView,
    x: usize,
    y: usize,
    len: usize,
    random: u8,
)
    requires
        state.well_formed(),
        state.screen_is_binary(),
        x < 16,
        y < 16,
        len < 16,
        state.i + len <= MEMORY_SIZE,
        state.effect(Chip8Instruction::Draw { x, y, len }, random) matches Ok(once)
            && once.registers[x as int] == state.registers[x as int] && once.registers[y as int]
            == state.registers[y as int],
    ensures
        state.effect(Chip8Instruction::Draw { x, y, len }, random) matches Ok(once) && once.effect(
            Chip8Instruction::Draw { x, y, len },
            random,
        ) matches Ok(twice) && twice.screen == state.screen && (twice.registers[15] == 1 <==> (
        exists|row: int, column: int|
            0 <= row < SCREEN_HEIGHT && 0 <= column < SCREEN_WIDTH && state.screen[row][column]
                == 0 && #[trigger] state.sprite(x as int, y as int, len as int).pixel(row, column)
                == 1)) && (twice.registers[15] == 0 || twice.registers[15] == 1),
{
    let draw = Chip8Instruction::Draw { x, y, len };
    let sprite = state.sprite(x as int, y as int, len as int);
    let once = state.effect(draw, random)->Ok_0;
    assert(once.sprite(x as int, y as int, len as int) == sprite);
    let twice = once.effect(draw, random)->Ok_0;
    assert forall|row: int, column: int|
        0 <= row < SCREEN_HEIGHT && 0 <= column < SCREEN_WIDTH implies #[trigger] twice.screen[row][column]
        == state.screen[row][column] by {
        lemma_xor_of_pixels(state.screen[row][column], sprite.pixel(row, column));
    }
    assert(twice.screen =~~= state.screen);
    if sprite.collides_with(once.screen) {
        let (row, column) = choose|row: int, column: int|
            0 <= row < SCREEN_HEIGHT && 0 <= column < SCREEN_WIDTH && once.screen[row][column] == 1
                && #[trigger] sprite.pixel(row, column) == 1;
        lemma_lit_after_xor(state.screen[row][column], sprite.pixel(row, column));
        assert(state.screen[row][column] == 0 && sprite.pixel(row, column) == 1);
    }
    if exists|row: int, column: int|
        0 <= row < SCREEN_HEIGHT && 0 <= column < SCREEN_WIDTH && state.screen[row][column] == 0
            && #[trigger] sprite.pixel(row, column) == 1 {
        let (row, column) = choose|row: int, column: int|
            0 <= row < SCREEN_HEIGHT && 0 <= column < SCREEN_WIDTH && state.screen[row][column]
                == 0 && #[trigger] sprite.pixel(row, column) == 1;
        lemma_lit_after_xor(state.screen[row][column], sprite.pixel(row, column));
        assert(once.screen[row][column] == 1 && sprite.pixel(row, column) == 1);
        assert(sprite.collides_with(once.screen));
    }
}

/// Only `SetDelayTimer` writes the delay timer, and only `SetSoundTimer`
/// the sound timer.
pub proof fn lemma_effect_leaves_timers(
    state: StateView,
    instruction: Chip8Instruction,
    random: u8,
)
    ensures
        state.effect(instruction, random) matches Ok(after) ==> (instruction is SetDelayTimer
            || after.dt == state.dt) && (instruction is SetSoundTimer || after.st == state.st),
{
}

impl MachineView {
    /// Whether the next cycle executes an instruction to its end and that
    /// instruction writes neither timer. A failing cycle and a cycle that
    /// only polls the keys do not count.
    pub open spec fn steps_past_timers(self, random: u8) -> bool {
        &&& self.stepped(random).1 is Ok
        &&& !self.awaits_key()
        &&& self.fetched() matches Ok(instruction) && !(instruction is SetDelayTimer)
            && !(instruction is SetSoundTimer)
    }

    /// The machine after the cycles that draw the bytes of `randoms`, one
    /// cycle for each byte, in order.
    pub open spec fn run(self, randoms: Seq<u8>) -> MachineView
        decreases randoms.len(),
    {
        if randoms.len() == 0 {
            self
        } else {
            self.stepped(randoms[0]).0.run(randoms.drop_first())
        }
    }

    /// Whether each of the cycles of `run` executes an instruction to its
    /// end without writing a timer.
    pub open spec fn runs_past_timers(self, randoms: Seq<u8>) -> bool
        decreases randoms.len(),
    {
        randoms.len() == 0 || (self.steps_past_timers(randoms[0]) && self.stepped(
            randoms[0],
        ).0.runs_past_timers(randoms.drop_first()))
    }
}

/// A cycle that executes an instruction which writes no timer counts one
/// more cycle, and takes one off each timer when the count reaches the
/// interval.
pub proof fn lemma_step_past_timers(machine: MachineView, random: u8)
    requires
        machine.timer_counter < TIMER_TICK_INTERVAL,
        machine.steps_past_timers(random),
    ensures
        ({
            let after = machine.stepped(random).0;
            let due = machine.timer_counter + 1 == TIMER_TICK_INTERVAL;
            &&& after.timer_counter == if due {
                0nat
            } else {
                machine.timer_counter + 1
            }
            &&& after.state.dt == if due {
                timer_decayed(machine.state.dt)
            } else {
                machine.state.dt
            }
            &&& after.state.st == if due {
                timer_decayed(machine.state.st)
            } else {
                machine.state.st
            }
        }),
{
    let instruction = machine.fetched()->Ok_0;
    lemma_effect_leaves_timers(machine.advanced().state, instruction, random);
}

/// Over at most one interval of cycles that write no timer, each timer
/// loses one exactly if the cycle count passes the interval on the way.
proof fn lemma_run_past_timers(machine: MachineView, randoms: Seq<u8>)
    requires
        machine.timer_counter < TIMER_TICK_INTERVAL,
        randoms.len() <= TIMER_TICK_INTERVAL,
        machine.runs_past_timers(randoms),
    ensures
        ({
            let after = machine.run(randoms);
            let due = machine.timer_counter + randoms.len() >= TIMER_TICK_INTERVAL;
            &&& after.timer_counter == if due {
                machine.timer_counter + randoms.len() - TIMER_TICK_INTERVAL
            } else {
                (machine.timer_counter + randoms.len()) as int
            }
            &&& after.state.dt == if due {
                timer_decayed(machine.state.dt)
            } else {
                machine.state.dt
            }
            &&& after.state.st == if due {
                timer_decayed(machine.state.st)
            } else {
                machine.state.st
            }
        }),
    decreases randoms.len(),
{
    if randoms.len() > 0 {
        lemma_step_past_timers(machine, randoms[0]);
        lemma_run_past_timers(machine.stepped(randoms[0]).0, randoms.drop_first());
    }
}

/// After exactly `TIMER_TICK_INTERVAL` cycles, each of which executes an
/// instruction that writes no timer, a timer that was above zero is one
/// less and a timer that was zero is still zero. The cycle count is where
/// it was.
pub proof fn lemma_timers_decay_once_per_interval(machine: MachineView, randoms: Seq<u8>)
    requires
        machine.timer_counter < TIMER_TICK_INTERVAL,
        randoms.len() == TIMER_TICK_INTERVAL,
        machine.runs_past_timers(randoms),
    ensures
        machine.run(randoms).state.dt == if machine.state.dt > 0 {
            machine.state.dt - 1
        } else {
            0
        },
        machine.run(randoms).state.st == if machine.state.st > 0 {
            machine.state.st - 1
        } else {
            0
        },
        machine.run(randoms).timer_counter == machine.timer_counter,
{
    lemma_run_past_timers(machine, randoms);
}

/// A cycle keeps a well-formed machine well formed.
pub proof fn lemma_step_keeps_well_formed(machine: MachineView, random: u8)
    requires
        machine.well_formed(),
    ensures
        machine.stepped(random).0.well_formed(),
{
    match machine.fetched() {
        Ok(instruction) => {
            super::instructions::lemma_decode_outcomes(
                super::model::opcode_at(machine.state.memory, machine.state.pc as int),
            );
            super::model::lemma_effect_keeps_well_formed(
                machine.advanced().state,
                instruction,
                random,
            );
        },
        Err(_) => {},
    }
}

} // verus!
