//! The machine as a whole: it owns the four components, fetches and decodes
//! the instructions, and hands each to the component that it belongs to.

use crate::cpu::{random_byte, CpuState, CPU};
use crate::display::{
    blank_screen, draw, lemma_draw_sprite_pixels, Display, FONT_SET, SCREEN_SIZE,
};
use crate::error::{follows, EmulatorError};
use crate::input::{
    none_pressed, released_keys, set_key, skip_on_key, wait_for_key, Input, NUMBER_OF_KEYS,
};
use crate::memory::{Memory, MemoryState};
use vstd::prelude::*;

verus! {

/// A part of the machine that can be put back into its power-on state.
pub trait EmulatorComponent {
    /// Whether the component is in its power-on state.
    spec fn is_reset(&self) -> bool;

    fn reset(&mut self)
        ensures
            final(self).is_reset(),
    ;
}

/// The four nibbles of an opcode, the most significant first.
pub open spec fn nibbles(operation: u16) -> (u16, u16, u16, u16) {
    (operation / 0x1000, operation / 0x100 % 0x10, operation / 0x10 % 0x10, operation % 0x10)
}

/// Whether the opcode is RND, the one instruction that draws a random byte.
pub open spec fn draws_random(operation: u16) -> bool {
    operation / 0x1000 == 0xC
}

/// The machine as mathematical values.
pub struct EmulatorState {
    pub cpu: CpuState,
    pub memory: MemoryState,
    pub display: Seq<bool>,
    pub keys: Seq<bool>,
}

impl EmulatorState {
    /// Each component holds as many registers, return addresses, bytes,
    /// pixels and keys as the machine has.
    pub open spec fn wf(self) -> bool {
        &&& self.cpu.wf()
        &&& self.memory.wf()
        &&& self.display.len() == SCREEN_SIZE
        &&& self.keys.len() == NUMBER_OF_KEYS
    }

    /// The state at power-on and after a reset.
    pub open spec fn initial() -> EmulatorState {
        EmulatorState {
            cpu: CpuState::initial(),
            memory: MemoryState::initial(),
            display: blank_screen(),
            keys: released_keys(),
        }
    }

    /// What an instruction that works on the processor alone does to the
    /// machine.
    pub open spec fn with_cpu(self, cpu: Result<CpuState, EmulatorError>) -> Result<
        EmulatorState,
        EmulatorError,
    > {
        match cpu {
            Ok(cpu) => Ok(EmulatorState { cpu, ..self }),
            Err(error) => Err(error),
        }
    }

    /// What an instruction that works on the memory alone does to the
    /// machine.
    pub open spec fn with_memory(self, memory: Result<MemoryState, EmulatorError>) -> Result<
        EmulatorState,
        EmulatorError,
    > {
        match memory {
            Ok(memory) => Ok(EmulatorState { memory, ..self }),
            Err(error) => Err(error),
        }
    }

    /// What drawing does to the machine.
    pub open spec fn with_drawing(
        self,
        drawing: Result<(Seq<bool>, CpuState), EmulatorError>,
    ) -> Result<EmulatorState, EmulatorError> {
        match drawing {
            Ok((display, cpu)) => Ok(EmulatorState { display, cpu, ..self }),
            Err(error) => Err(error),
        }
    }

    /// What the keypad's owner does to the machine by pressing or releasing
    /// a key.
    pub open spec fn set_key(self, key: int, pressed: bool) -> Result<
        EmulatorState,
        EmulatorError,
    > {
        match set_key(self.keys, key, pressed) {
            Ok(keys) => Ok(EmulatorState { keys, ..self }),
            Err(error) => Err(error),
        }
    }

    /// The instruction table. `x` and `y` are the second and third nibble of
    /// the opcode; `random` is the byte that RND draws.
    pub open spec fn execute(self, operation: u16, random: u8) -> Result<
        EmulatorState,
        EmulatorError,
    > {
        let x = nibbles(operation).1 as int;
        let y = nibbles(operation).2 as int;
        match nibbles(operation) {
            (0, 0, 0, 0) => Ok(self),
            (0, 0, 0xE, 0) => Ok(EmulatorState { display: blank_screen(), ..self }),
            (0, 0, 0xE, 0xE) => self.with_cpu(self.cpu.return_from_subroutine()),
            (1, _, _, _) => Ok(EmulatorState { cpu: self.cpu.jump(operation), ..self }),
            (2, _, _, _) => self.with_cpu(self.cpu.call_subroutine(operation)),
            (3, _, _, _) => self.with_cpu(self.cpu.skip_if_equals_byte(operation, x)),
            (4, _, _, _) => self.with_cpu(self.cpu.skip_unless_equals_byte(operation, x)),
            (5, _, _, 0) => self.with_cpu(self.cpu.skip_if_registers_equal(x, y)),
            (6, _, _, _) => self.with_cpu(self.cpu.load_byte(operation, x)),
            (7, _, _, _) => self.with_cpu(self.cpu.add_byte(operation, x)),
            (8, _, _, 1) => self.with_cpu(self.cpu.or_registers(x, y)),
            (8, _, _, 4) => self.with_cpu(self.cpu.add_registers(x, y)),
            (8, _, _, 5) => self.with_cpu(self.cpu.subtract_registers(x, y, false)),
            (8, _, _, 6) => self.with_cpu(self.cpu.shift(x, true)),
            (8, _, _, 7) => self.with_cpu(self.cpu.subtract_registers(x, y, true)),
            (8, _, _, 0xE) => self.with_cpu(self.cpu.shift(x, false)),
            (8, _, _, _) => self.with_cpu(self.cpu.copy_register(x, y)),
            (9, _, _, _) => self.with_cpu(self.cpu.skip_unless_registers_equal(x, y)),
            (0xA, _, _, _) => Ok(EmulatorState { cpu: self.cpu.load_index(operation), ..self }),
            (0xB, _, _, _) => Ok(
                EmulatorState { cpu: self.cpu.jump_with_offset(operation), ..self },
            ),
            (0xC, _, _, _) => self.with_cpu(self.cpu.load_masked(operation, x, random)),
            (0xD, _, _, rows) => self.with_drawing(
                draw(
                    self.display,
                    self.cpu,
                    self.memory,
                    self.cpu.registers[x] as int,
                    self.cpu.registers[y] as int,
                    rows as int,
                ),
            ),
            (0xE, _, 9, 0xE) => self.with_cpu(skip_on_key(self.keys, self.cpu, x, false)),
            (0xE, _, 0xA, 1) => self.with_cpu(skip_on_key(self.keys, self.cpu, x, true)),
            (0xF, _, 0, 7) => self.with_cpu(self.cpu.write(x, self.memory.delay_timer)),
            (0xF, _, 0, 0xA) => self.with_cpu(wait_for_key(self.keys, self.cpu, x)),
            (0xF, _, 1, 5) => self.with_memory(self.memory.set_delay_timer(self.cpu, x)),
            (0xF, _, 1, 8) => self.with_memory(self.memory.set_sound_timer(self.cpu, x)),
            (0xF, _, 1, 0xE) => self.with_cpu(self.cpu.add_to_index(x)),
            (0xF, _, 2, 9) => self.with_cpu(self.cpu.point_to_glyph(x)),
            (0xF, _, 3, 3) => self.with_memory(self.memory.store_decimal(self.cpu, x)),
            (0xF, _, 5, 5) => self.with_memory(self.memory.store_registers(self.cpu, x)),
            (0xF, _, 6, 5) => self.with_cpu(self.memory.load_registers(self.cpu, x)),
            (_, _, _, _) => Err(EmulatorError::UnsupportedOpcode),
        }
    }

    /// The machine with the program counter moved past the instruction that
    /// it points to.
    pub open spec fn past_instruction(self) -> EmulatorState {
        EmulatorState { cpu: self.cpu.with_pc((self.cpu.pc + 2) as u16), ..self }
    }

    /// One cycle: the word at the program counter is fetched, the program
    /// counter moves past it, and the word is executed.
    pub open spec fn tick(self, random: u8) -> Result<EmulatorState, EmulatorError> {
        match self.memory.word_at(self.cpu.pc as int) {
            Ok(operation) => self.past_instruction().execute(operation, random),
            Err(error) => Err(error),
        }
    }

    /// Whether the instruction that the program counter points to is RND.
    pub open spec fn at_random_instruction(self) -> bool {
        match self.memory.word_at(self.cpu.pc as int) {
            Ok(operation) => draws_random(operation),
            Err(_) => false,
        }
    }
}

/// The power-on state, which a reset restores: the program counter at the
/// start address, the registers and I at zero, the stack empty, the timers
/// at rest, the glyphs in the first eighty bytes of the memory and zeros in
/// the others, every pixel off and every key released.
pub proof fn lemma_initial_state()
    ensures
        EmulatorState::initial().cpu.pc == 0x200,
        EmulatorState::initial().cpu.index == 0,
        EmulatorState::initial().cpu.stack.len() == 0,
        EmulatorState::initial().cpu.registers.len() == 16,
        forall|x: int| 0 <= x < 16 ==> EmulatorState::initial().cpu.registers[x] == 0,
        EmulatorState::initial().memory.delay_timer == 0,
        EmulatorState::initial().memory.sound_timer == 0,
        EmulatorState::initial().memory.ram.len() == 4096,
        forall|a: int| 0 <= a < 80 ==> EmulatorState::initial().memory.ram[a] == FONT_SET@[a],
        forall|a: int| 80 <= a < 4096 ==> EmulatorState::initial().memory.ram[a] == 0,
        EmulatorState::initial().display.len() == 2048,
        forall|index: int| 0 <= index < 2048 ==> !EmulatorState::initial().display[index],
        EmulatorState::initial().keys.len() == 16,
        forall|key: int| 0 <= key < 16 ==> !EmulatorState::initial().keys[key],
{
}

/// Executing an instruction takes a valid machine to a valid machine.
pub proof fn lemma_execute_keeps_valid(state: EmulatorState, operation: u16, random: u8)
    requires
        state.wf(),
    ensures
        state.execute(operation, random) matches Ok(next) ==> next.wf(),
{
    let rows = nibbles(operation).3 as int;
    let x = state.cpu.registers[nibbles(operation).1 as int] as int;
    let y = state.cpu.registers[nibbles(operation).2 as int] as int;
    lemma_draw_sprite_pixels(
        state.display,
        state.memory.bytes_from(state.cpu.index as int, rows),
        x,
        y,
    );
}

/// A cycle takes a valid machine to a valid machine.
pub proof fn lemma_tick_keeps_valid(state: EmulatorState, random: u8)
    requires
        state.wf(),
    ensures
        state.tick(random) matches Ok(next) ==> next.wf(),
{
    if state.memory.word_at(state.cpu.pc as int) is Ok {
        let operation = state.memory.word_at(state.cpu.pc as int)->Ok_0;
        lemma_execute_keeps_valid(state.past_instruction(), operation, random);
    }
}

/// A cycle on the instruction that waits for a key, with no key held down,
/// leaves the whole machine as it was: the program counter points to the
/// same instruction, which the next cycle fetches again.
pub proof fn lemma_key_wait_blocks(state: EmulatorState, random: u8)
    requires
        state.memory.word_at(state.cpu.pc as int) is Ok,
        ({
            let operation = state.memory.word_at(state.cpu.pc as int)->Ok_0;
            operation / 0x1000 == 0xF && operation % 0x100 == 0x0A
        }),
        none_pressed(state.keys),
    ensures
        state.tick(random) == Ok::<EmulatorState, EmulatorError>(state),
{
    let operation = state.memory.word_at(state.cpu.pc as int)->Ok_0;
    assert(nibbles(operation).2 == 0 && nibbles(operation).3 == 0xA) by {
        assert(operation % 0x100 == 0x0A ==> operation / 0x10 % 0x10 == 0 && operation % 0x10
            == 0xA) by (bit_vector);
    }
}

/// The byte that is drawn at random has no part in any instruction but RND.
pub proof fn lemma_random_only_in_rnd(state: EmulatorState, operation: u16, one: u8, other: u8)
    requires
        !draws_random(operation),
    ensures
        state.execute(operation, one) == state.execute(operation, other),
{
}

/// Represents the CHIP-8 emulator itself and its internal components
///
/// Constructor will initiate memory with default font set.
pub struct Emulator {
    cpu: CPU,
    memory: Memory,
    display: Display,
    input: Input,
}

impl View for Emulator {
    type V = EmulatorState;

    closed spec fn view(&self) -> EmulatorState {
        EmulatorState {
            cpu: self.cpu@,
            memory: self.memory@,
            display: self.display@,
            keys: self.input@,
        }
    }
}

impl Emulator {
    /// Constructor
    pub fn new() -> (emulator: Self)
        ensures
            emulator@ == EmulatorState::initial(),
    {
        Emulator {
            cpu: CPU::new(),
            memory: Memory::new(),
            display: Display::new(),
            input: Input::new(),
        }
    }

    /// The view of a machine is made of valid components.
    pub proof fn lemma_valid(&self)
        ensures
            self@.wf(),
    {
        self.cpu.lemma_valid();
        self.memory.lemma_valid();
        self.display.lemma_valid();
        self.input.lemma_valid();
    }

    pub fn get_cpu(&mut self) -> (cpu: &mut CPU)
        ensures
            cpu@ == old(self)@.cpu,
            final(self)@ == (EmulatorState { cpu: final(cpu)@, ..old(self)@ }),
    {
        &mut self.cpu
    }

    pub fn get_memory(&self) -> (memory: &Memory)
        ensures
            memory@ == self@.memory,
    {
        &self.memory
    }

    pub fn get_display(&self) -> (display: &Display)
        ensures
            display@ == self@.display,
    {
        &self.display
    }

    pub fn get_input(&self) -> (input: &Input)
        ensures
            input@ == self@.keys,
    {
        &self.input
    }

    /// Split an opcode into 4 nibbles
    pub fn split_operation(operation: u16) -> (digits: (u16, u16, u16, u16))
        ensures
            digits == nibbles(operation),
    {
        let digit1 = (operation & 0xF000) >> 12;
        let digit2 = (operation & 0x0F00) >> 8;
        let digit3 = (operation & 0x00F0) >> 4;
        let digit4 = operation & 0x000F;
        assert((operation & 0xF000) >> 12 == operation / 0x1000) by (bit_vector);
        assert((operation & 0x0F00) >> 8 == operation / 0x100 % 0x10) by (bit_vector);
        assert((operation & 0x00F0) >> 4 == operation / 0x10 % 0x10) by (bit_vector);
        assert(operation & 0x000F == operation % 0x10) by (bit_vector);
        (digit1, digit2, digit3, digit4)
    }

    /// Copies a program to the start address, where the first tick after
    /// power-on looks for it.
    pub fn load_program(&mut self, program: &[u8]) -> (result: Result<(), EmulatorError>)
        ensures
            follows(
                old(self)@,
                old(self)@.with_memory(old(self)@.memory.load_program(program@)),
                result,
                final(self)@,
            ),
    {
        self.memory.load_program(program)
    }

    /// Records that `key` went down or came up.
    pub fn set_key(&mut self, key: usize, pressed: bool) -> (result: Result<(), EmulatorError>)
        ensures
            follows(old(self)@, old(self)@.set_key(key as int, pressed), result, final(self)@),
    {
        self.input.set_key(key, pressed)
    }

    /// One beat of the 60 Hz clock, which is no part of a tick. The result
    /// says whether the tone is due on this beat.
    pub fn tick_timers(&mut self) -> (beep: bool)
        ensures
            final(self)@ == (EmulatorState {
                memory: old(self)@.memory.tick_timers(),
                ..old(self)@
            }),
            beep == old(self)@.memory.beep_due(),
    {
        self.memory.tick_timers()
    }

    /// Reads the word at the program counter and moves the program counter
    /// past it.
    pub fn fetch(&mut self) -> (result: Result<u16, EmulatorError>)
        ensures
            result == old(self)@.memory.word_at(old(self)@.cpu.pc as int),
            final(self)@ == if result is Ok {
                old(self)@.past_instruction()
            } else {
                old(self)@
            },
    {
        let pc = self.cpu.get_program_counter();
        match self.memory.fetch_word(pc) {
            Ok(operation) => {
                self.cpu.set_program_counter(pc + 2);
                Ok(operation)
            },
            Err(error) => Err(error),
        }
    }

    /// Executes one opcode, with `random` as the byte that RND draws.
    pub fn execute_with(&mut self, operation: u16, random: u8) -> (result: Result<
        (),
        EmulatorError,
    >)
        ensures
            follows(old(self)@, old(self)@.execute(operation, random), result, final(self)@),
    {
        let (digit1, digit2, digit3, digit4) = Emulator::split_operation(operation);
        let x = digit2 as usize;
        let y = digit3 as usize;
        proof {
            self.cpu.lemma_valid();
        }
        match (digit1, digit2, digit3, digit4) {
            // NOP - No Operation
            (0, 0, 0, 0) => Ok(()),
            // CLS - Clear Screen
            (0, 0, 0xE, 0) => {
                self.display.op_cls();
                Ok(())
            },
            // RET - Return from subroutine
            (0, 0, 0xE, 0xE) => self.cpu.op_ret(),
            // JMP NNN - Move program counter to given address
            (1, _, _, _) => {
                self.cpu.op_jmp(operation);
                Ok(())
            },
            // CALL NNN - Goto subroutine
            (2, _, _, _) => self.cpu.op_call(operation),
            // SKIP VX == NN
            (3, _, _, _) => self.cpu.op_se(operation, x),
            // SKIP VX != NN
            (4, _, _, _) => self.cpu.op_sne(operation, x),
            // SKIP VX == VY
            (5, _, _, 0) => self.cpu.op_reg_se(x, y),
            // LD VX = NN
            (6, _, _, _) => self.cpu.op_ld(operation, x),
            // ADD VX += NN
            (7, _, _, _) => self.cpu.op_add(operation, x),
            // OR VX |= VY
            (8, _, _, 1) => self.cpu.op_reg_or(x, y),
            // ADD VX += VY
            (8, _, _, 4) => self.cpu.op_reg_add(x, y),
            // SUB VX -= VY
            (8, _, _, 5) => self.cpu.op_reg_sub(x, y, false),
            // SHR VX
            (8, _, _, 6) => self.cpu.op_shift(x, true),
            // SUB VX = VY - VX
            (8, _, _, 7) => self.cpu.op_reg_sub(x, y, true),
            // SHL VX
            (8, _, _, 0xE) => self.cpu.op_shift(x, false),
            // LD VX = VY
            (8, _, _, _) => self.cpu.op_reg_ld(x, y),
            // SKIP VX != VY
            (9, _, _, _) => self.cpu.op_reg_sne(x, y),
            // LD I = NNN
            (0xA, _, _, _) => {
                self.cpu.op_i_ld(operation);
                Ok(())
            },
            // JMP V0 + NNN
            (0xB, _, _, _) => {
                self.cpu.op_reg_jmp(operation);
                Ok(())
            },
            // RND Vx = Rand & NN
            (0xC, _, _, _) => self.cpu.op_rnd_with(operation, x, random),
            // DRW Vx Vy
            (0xD, _, _, _) => {
                let x_coord = self.cpu.register(x) as usize;
                let y_coord = self.cpu.register(y) as usize;
                self.display.op_drw(&mut self.cpu, &self.memory, x_coord, y_coord, digit4 as usize)
            },
            // SKP Vx
            (0xE, _, 9, 0xE) => self.input.op_skp(&mut self.cpu, x, false),
            // SKNP Vx
            (0xE, _, 0xA, 1) => self.input.op_skp(&mut self.cpu, x, true),
            // LD Vx = DT
            (0xF, _, 0, 7) => self.cpu.op_ld_dt(&self.memory, x),
            // LD Vx K **BLOCKING**
            (0xF, _, 0, 0xA) => self.input.op_ld_wait(&mut self.cpu, x),
            // LD DT = VX
            (0xF, _, 1, 5) => self.memory.op_ld_dt(&self.cpu, x),
            // LD ST = VX
            (0xF, _, 1, 8) => self.memory.op_ld_st(&self.cpu, x),
            // ADD I += VX
            (0xF, _, 1, 0xE) => self.cpu.op_add_i(x),
            // LD I = Font
            (0xF, _, 2, 9) => self.cpu.op_ld_font(x),
            // LD B = VX
            (0xF, _, 3, 3) => self.memory.op_ld_bcd(&self.cpu, x),
            // STR V0 - VX into I
            (0xF, _, 5, 5) => self.memory.op_str(&self.cpu, x),
            // LD I into V0 - VX
            (0xF, _, 6, 5) => self.memory.op_ld(&mut self.cpu, x),
            // Invalid opcode
            (_, _, _, _) => Err(EmulatorError::UnsupportedOpcode),
        }
    }

    /// Executes one opcode. For RND a byte is drawn at random; whichever it
    /// is, the outcome is that of `execute_with` on it.
    pub fn execute(&mut self, operation: u16) -> (result: Result<(), EmulatorError>)
        ensures
            exists|random: u8|
                follows(
                    old(self)@,
                    #[trigger] old(self)@.execute(operation, random),
                    result,
                    final(self)@,
                ),
            !draws_random(operation) ==> follows(
                old(self)@,
                old(self)@.execute(operation, 0),
                result,
                final(self)@,
            ),
    {
        let random = if operation >> 12 == 0xC {
            random_byte()
        } else {
            0
        };
        assert(operation >> 12 == operation / 0x1000) by (bit_vector);
        self.execute_with(operation, random)
    }

    /// One cycle, with `random` as the byte that RND draws: fetches the
    /// instruction at the program counter, moves the program counter past it
    /// and executes it. A cycle that fails leaves the machine as it was, the
    /// program counter included.
    pub fn tick_with(&mut self, random: u8) -> (result: Result<(), EmulatorError>)
        ensures
            follows(old(self)@, old(self)@.tick(random), result, final(self)@),
    {
        let pc = self.cpu.get_program_counter();
        let operation = match self.fetch() {
            Ok(operation) => operation,
            Err(error) => {
                return Err(error);
            },
        };
        match self.execute_with(operation, random) {
            Ok(()) => Ok(()),
            Err(error) => {
                self.cpu.set_program_counter(pc);
                Err(error)
            },
        }
    }

    /// One cycle. Where the instruction is RND a byte is drawn at random;
    /// whichever it is, the outcome is that of `tick_with` on it.
    pub fn tick(&mut self) -> (result: Result<(), EmulatorError>)
        ensures
            exists|random: u8|
                follows(old(self)@, #[trigger] old(self)@.tick(random), result, final(self)@),
            !old(self)@.at_random_instruction() ==> follows(
                old(self)@,
                old(self)@.tick(0),
                result,
                final(self)@,
            ),
    {
        let pc = self.cpu.get_program_counter();
        let operation = match self.fetch() {
            Ok(operation) => operation,
            Err(error) => {
                return Err(error);
            },
        };
        let ghost fetched = self@;
        let outcome = self.execute(operation);
        proof {
            let random = choose|random: u8|
                follows(fetched, #[trigger] fetched.execute(operation, random), outcome, self@);
            assert(old(self)@.tick(random) == fetched.execute(operation, random));
        }
        if outcome.is_err() {
            self.cpu.set_program_counter(pc);
        }
        outcome
    }
}

impl EmulatorComponent for Emulator {
    open spec fn is_reset(&self) -> bool {
        self@ == EmulatorState::initial()
    }

    /// Resets the emulator to the initial starting state.
    fn reset(&mut self) {
        self.cpu.reset();
        self.memory.reset();
        self.display.reset();
        self.input.reset();
    }
}

} // verus!
