//! The 4096 bytes of memory, with the glyphs at its low end, and the two
//! timers.

use crate::cpu::{is_register, CpuState, CPU, NUMBER_OF_REGISTERS, START_ADDRESS};
use crate::display::{FONT_SET, FONT_SET_SIZE};
use crate::emulator::EmulatorComponent;
use crate::error::{follows, EmulatorError};
use vstd::prelude::*;

verus! {

pub const RAM_SIZE: usize = 0x1000;

/// The memory unit as mathematical values.
pub struct MemoryState {
    pub ram: Seq<u8>,
    pub delay_timer: u8,
    pub sound_timer: u8,
}

/// `ram` with the glyphs written over its first eighty bytes.
pub open spec fn with_font_set(ram: Seq<u8>) -> Seq<u8> {
    Seq::new(ram.len(), |a: int| if a < FONT_SET_SIZE { FONT_SET@[a] } else { ram[a] })
}

/// The decimal digits of `value`: hundreds, tens, ones.
pub open spec fn decimal_digits(value: u8) -> Seq<u8> {
    seq![value / 100, (value / 10) % 10, value % 10]
}

impl MemoryState {
    /// 4096 bytes.
    pub open spec fn wf(self) -> bool {
        self.ram.len() == RAM_SIZE
    }

    /// The state at power-on and after a reset: the glyphs, then zeros, and
    /// both timers at rest.
    pub open spec fn initial() -> MemoryState {
        MemoryState {
            ram: with_font_set(Seq::new(RAM_SIZE as nat, |a: int| 0u8)),
            delay_timer: 0,
            sound_timer: 0,
        }
    }

    /// `bytes` written over the memory from `start` on.
    pub open spec fn with_bytes(self, start: int, bytes: Seq<u8>) -> MemoryState {
        MemoryState {
            ram: Seq::new(
                self.ram.len(),
                |a: int|
                    if start <= a < start + bytes.len() {
                        bytes[a - start]
                    } else {
                        self.ram[a]
                    },
            ),
            ..self
        }
    }

    /// The `count` bytes from `start` on.
    pub open spec fn bytes_from(self, start: int, count: int) -> Seq<u8> {
        Seq::new(count as nat, |k: int| self.ram[start + k])
    }

    /// The byte at `address`.
    pub open spec fn byte_at(self, address: int) -> Result<u8, EmulatorError> {
        if 0 <= address < RAM_SIZE {
            Ok(self.ram[address])
        } else {
            Err(EmulatorError::AddressOutOfRange)
        }
    }

    /// The big-endian word in the two bytes at `address`.
    pub open spec fn word_at(self, address: int) -> Result<u16, EmulatorError> {
        if 0 <= address && address + 1 < RAM_SIZE {
            Ok((self.ram[address] * 256 + self.ram[address + 1]) as u16)
        } else {
            Err(EmulatorError::AddressOutOfRange)
        }
    }

    /// A program copied to the start address; one that does not fit below
    /// the end of the memory is refused.
    pub open spec fn load_program(self, program: Seq<u8>) -> Result<MemoryState, EmulatorError> {
        if START_ADDRESS + program.len() <= RAM_SIZE {
            Ok(self.with_bytes(START_ADDRESS as int, program))
        } else {
            Err(EmulatorError::AddressOutOfRange)
        }
    }

    /// LD DT, Vx.
    pub open spec fn set_delay_timer(self, cpu: CpuState, x: int) -> Result<
        MemoryState,
        EmulatorError,
    > {
        if is_register(x) {
            Ok(MemoryState { delay_timer: cpu.registers[x], ..self })
        } else {
            Err(EmulatorError::InvalidRegisterIndex)
        }
    }

    /// LD ST, Vx.
    pub open spec fn set_sound_timer(self, cpu: CpuState, x: int) -> Result<
        MemoryState,
        EmulatorError,
    > {
        if is_register(x) {
            Ok(MemoryState { sound_timer: cpu.registers[x], ..self })
        } else {
            Err(EmulatorError::InvalidRegisterIndex)
        }
    }

    /// LD B, Vx: the three decimal digits of Vx go to I, I+1 and I+2.
    pub open spec fn store_decimal(self, cpu: CpuState, x: int) -> Result<
        MemoryState,
        EmulatorError,
    > {
        if !is_register(x) {
            Err(EmulatorError::InvalidRegisterIndex)
        } else if cpu.index + 3 > RAM_SIZE {
            Err(EmulatorError::AddressOutOfRange)
        } else {
            Ok(self.with_bytes(cpu.index as int, decimal_digits(cpu.registers[x])))
        }
    }

    /// LD [I], Vx: V0 to Vx, both included, go to the memory from I on.
    pub open spec fn store_registers(self, cpu: CpuState, x: int) -> Result<
        MemoryState,
        EmulatorError,
    > {
        if !is_register(x) {
            Err(EmulatorError::InvalidRegisterIndex)
        } else if cpu.index + x + 1 > RAM_SIZE {
            Err(EmulatorError::AddressOutOfRange)
        } else {
            Ok(self.with_bytes(cpu.index as int, cpu.registers.take(x + 1)))
        }
    }

    /// LD Vx, [I]: V0 to Vx, both included, are read from the memory from
    /// I on.
    pub open spec fn load_registers(self, cpu: CpuState, x: int) -> Result<
        CpuState,
        EmulatorError,
    > {
        if !is_register(x) {
            Err(EmulatorError::InvalidRegisterIndex)
        } else if cpu.index + x + 1 > RAM_SIZE {
            Err(EmulatorError::AddressOutOfRange)
        } else {
            Ok(
                CpuState {
                    registers: Seq::new(
                        cpu.registers.len(),
                        |k: int| if k <= x { self.ram[cpu.index + k] } else { cpu.registers[k] },
                    ),
                    ..cpu
                },
            )
        }
    }

    /// One beat of the 60 Hz clock: each timer that is running goes down by
    /// one.
    pub open spec fn tick_timers(self) -> MemoryState {
        MemoryState {
            delay_timer: if self.delay_timer > 0 {
                (self.delay_timer - 1) as u8
            } else {
                0
            },
            sound_timer: if self.sound_timer > 0 {
                (self.sound_timer - 1) as u8
            } else {
                0
            },
            ..self
        }
    }

    /// Whether a beat of the clock on this state is the one on which the
    /// tone is due: the sound timer stands at one.
    pub open spec fn beep_due(self) -> bool {
        self.sound_timer == 1
    }
}

/// The memory unit. Its view is a `MemoryState`.
pub struct Memory {
    ram: [u8; RAM_SIZE],
    delay_timer: u8,
    sound_timer: u8,
}

impl View for Memory {
    type V = MemoryState;

    closed spec fn view(&self) -> MemoryState {
        MemoryState {
            ram: self.ram@,
            delay_timer: self.delay_timer,
            sound_timer: self.sound_timer,
        }
    }
}

impl Memory {
    pub fn new() -> (memory: Self)
        ensures
            memory@ == MemoryState::initial(),
    {
        let mut memory = Self { ram: [0; RAM_SIZE], delay_timer: 0, sound_timer: 0 };
        assert(memory@.ram =~= Seq::new(RAM_SIZE as nat, |a: int| 0u8));
        memory.initialize_font_set();
        memory
    }

    /// Initializes the font set within the first 80 bytes of memory.
    pub fn initialize_font_set(&mut self)
        ensures
            final(self)@ == (MemoryState { ram: with_font_set(old(self)@.ram), ..old(self)@ }),
    {
        let mut i: usize = 0;
        while i < FONT_SET_SIZE
            invariant
                i <= FONT_SET_SIZE,
                self.delay_timer == old(self).delay_timer,
                self.sound_timer == old(self).sound_timer,
                forall|a: int| 0 <= a < i ==> self.ram@[a] == FONT_SET@[a],
                forall|a: int| i <= a < RAM_SIZE ==> self.ram@[a] == old(self).ram@[a],
            decreases FONT_SET_SIZE - i,
        {
            self.ram[i] = FONT_SET[i];
            i += 1;
        }
        assert(self@.ram =~= with_font_set(old(self)@.ram));
    }

    /// The view of a memory holds 4096 bytes.
    pub proof fn lemma_valid(&self)
        ensures
            self@.wf(),
    {
    }

    /// Copies a program to the start address.
    pub fn load_program(&mut self, program: &[u8]) -> (result: Result<(), EmulatorError>)
        ensures
            follows(old(self)@, old(self)@.load_program(program@), result, final(self)@),
    {
        let length = program.len();
        let start = START_ADDRESS as usize;
        if length > RAM_SIZE - start {
            return Err(EmulatorError::AddressOutOfRange);
        }
        let mut i: usize = 0;
        while i < length
            invariant
                i <= length,
                length == program@.len(),
                start == START_ADDRESS,
                start + length <= RAM_SIZE,
                self.delay_timer == old(self).delay_timer,
                self.sound_timer == old(self).sound_timer,
                forall|a: int| start <= a < start + i ==> self.ram@[a] == program@[a - start],
                forall|a: int|
                    0 <= a < RAM_SIZE && !(start <= a < start + i) ==> self.ram@[a] == old(
                        self,
                    ).ram@[a],
            decreases length - i,
        {
            self.ram[start + i] = program[i];
            i += 1;
        }
        assert(self@.ram =~= old(self)@.with_bytes(START_ADDRESS as int, program@).ram);
        Ok(())
    }

    /// Fetch byte
    pub fn fetch_byte(&self, index: u16) -> (result: Result<u8, EmulatorError>)
        ensures
            result == self@.byte_at(index as int),
    {
        if index as usize >= RAM_SIZE {
            return Err(EmulatorError::AddressOutOfRange);
        }
        Ok(self.ram[index as usize])
    }

    /// Fetches word at index
    pub fn fetch_word(&self, index: u16) -> (result: Result<u16, EmulatorError>)
        ensures
            result == self@.word_at(index as int),
    {
        if index as usize >= RAM_SIZE - 1 {
            return Err(EmulatorError::AddressOutOfRange);
        }
        let high = self.ram[index as usize];
        let low = self.ram[index as usize + 1];
        assert((high as u16) << 8 | (low as u16) == high * 256 + low) by (bit_vector);
        Ok((high as u16) << 8 | (low as u16))
    }

    /// The byte at `address`, for callers that have checked the address.
    pub(crate) fn byte(&self, address: usize) -> (value: u8)
        requires
            address < RAM_SIZE,
        ensures
            value == self@.ram[address as int],
    {
        self.ram[address]
    }

    pub fn get_delay_timer(&self) -> (value: u8)
        ensures
            value == self@.delay_timer,
    {
        self.delay_timer
    }

    pub fn get_sound_timer(&self) -> (value: u8)
        ensures
            value == self@.sound_timer,
    {
        self.sound_timer
    }

    /// LD DT = VX - Load the delay timer with the value of VX
    pub fn op_ld_dt(&mut self, cpu: &CPU, x: usize) -> (result: Result<(), EmulatorError>)
        ensures
            follows(
                old(self)@,
                old(self)@.set_delay_timer(cpu@, x as int),
                result,
                final(self)@,
            ),
    {
        if x >= NUMBER_OF_REGISTERS {
            return Err(EmulatorError::InvalidRegisterIndex);
        }
        self.delay_timer = cpu.register(x);
        Ok(())
    }

    /// LD ST = VX - Load the sound timer with the value of VX
    pub fn op_ld_st(&mut self, cpu: &CPU, x: usize) -> (result: Result<(), EmulatorError>)
        ensures
            follows(
                old(self)@,
                old(self)@.set_sound_timer(cpu@, x as int),
                result,
                final(self)@,
            ),
    {
        if x >= NUMBER_OF_REGISTERS {
            return Err(EmulatorError::InvalidRegisterIndex);
        }
        self.sound_timer = cpu.register(x);
        Ok(())
    }

    /// LD B = VX - Store the decimal digits of VX at I, I+1 and I+2
    pub fn op_ld_bcd(&mut self, cpu: &CPU, x: usize) -> (result: Result<(), EmulatorError>)
        ensures
            follows(old(self)@, old(self)@.store_decimal(cpu@, x as int), result, final(self)@),
    {
        if x >= NUMBER_OF_REGISTERS {
            return Err(EmulatorError::InvalidRegisterIndex);
        }
        let i_reg = cpu.get_i_register() as usize;
        if i_reg + 3 > RAM_SIZE {
            return Err(EmulatorError::AddressOutOfRange);
        }
        let vx = cpu.register(x);
        let hundreds = vx / 100;
        let tens = (vx / 10) % 10;
        let ones = vx % 10;
        self.ram[i_reg] = hundreds;
        self.ram[i_reg + 1] = tens;
        self.ram[i_reg + 2] = ones;
        assert(self@.ram =~= old(self)@.with_bytes(
            cpu@.index as int,
            decimal_digits(cpu@.registers[x as int]),
        ).ram);
        Ok(())
    }

    /// STR V0 - VX into I
    pub fn op_str(&mut self, cpu: &CPU, x: usize) -> (result: Result<(), EmulatorError>)
        ensures
            follows(
                old(self)@,
                old(self)@.store_registers(cpu@, x as int),
                result,
                final(self)@,
            ),
    {
        if x >= NUMBER_OF_REGISTERS {
            return Err(EmulatorError::InvalidRegisterIndex);
        }
        let i = cpu.get_i_register() as usize;
        if i + x + 1 > RAM_SIZE {
            return Err(EmulatorError::AddressOutOfRange);
        }
        let mut idx: usize = 0;
        while idx <= x
            invariant
                idx <= x + 1,
                x < NUMBER_OF_REGISTERS,
                i == cpu@.index,
                i + x + 1 <= RAM_SIZE,
                self.delay_timer == old(self).delay_timer,
                self.sound_timer == old(self).sound_timer,
                forall|a: int| i <= a < i + idx ==> self.ram@[a] == cpu@.registers[a - i],
                forall|a: int|
                    0 <= a < RAM_SIZE && !(i <= a < i + idx) ==> self.ram@[a] == old(self).ram@[a],
            decreases x + 1 - idx,
        {
            self.ram[i + idx] = cpu.register(idx);
            idx += 1;
        }
        proof {
            cpu.lemma_valid();
            assert(self@.ram =~= old(self)@.with_bytes(
                cpu@.index as int,
                cpu@.registers.take(x + 1),
            ).ram);
        }
        Ok(())
    }

    /// LD I into V0 - VX
    pub fn op_ld(&self, cpu: &mut CPU, x: usize) -> (result: Result<(), EmulatorError>)
        ensures
            follows(old(cpu)@, self@.load_registers(old(cpu)@, x as int), result, final(cpu)@),
    {
        if x >= NUMBER_OF_REGISTERS {
            return Err(EmulatorError::InvalidRegisterIndex);
        }
        let i = cpu.get_i_register() as usize;
        if i + x + 1 > RAM_SIZE {
            return Err(EmulatorError::AddressOutOfRange);
        }
        proof {
            cpu.lemma_valid();
        }
        let mut idx: usize = 0;
        while idx <= x
            invariant
                idx <= x + 1,
                x < NUMBER_OF_REGISTERS,
                i == old(cpu)@.index,
                i + x + 1 <= RAM_SIZE,
                cpu@.registers.len() == NUMBER_OF_REGISTERS,
                old(cpu)@.registers.len() == NUMBER_OF_REGISTERS,
                cpu@.index == old(cpu)@.index,
                cpu@.pc == old(cpu)@.pc,
                cpu@.stack == old(cpu)@.stack,
                forall|k: int| 0 <= k < idx ==> cpu@.registers[k] == self@.ram[i + k],
                forall|k: int|
                    idx <= k < cpu@.registers.len() ==> cpu@.registers[k] == old(
                        cpu,
                    )@.registers[k],
            decreases x + 1 - idx,
        {
            cpu.set_register(idx, self.ram[i + idx]);
            idx += 1;
        }
        proof {
            let expected = self@.load_registers(old(cpu)@, x as int)->Ok_0;
            assert(cpu@.registers =~= expected.registers);
        }
        Ok(())
    }

    /// One beat of the 60 Hz clock. The result says whether the tone is due
    /// on this beat: the sound timer stood at one.
    pub fn tick_timers(&mut self) -> (beep: bool)
        ensures
            final(self)@ == old(self)@.tick_timers(),
            beep == old(self)@.beep_due(),
    {
        if self.delay_timer > 0 {
            self.delay_timer -= 1;
        }
        let mut beep = false;
        if self.sound_timer > 0 {
            if self.sound_timer == 1 {
                beep = true;
            }
            self.sound_timer -= 1;
        }
        beep
    }
}

impl EmulatorComponent for Memory {
    open spec fn is_reset(&self) -> bool {
        self@ == MemoryState::initial()
    }

    fn reset(&mut self) {
        self.ram = [0; RAM_SIZE];
        self.delay_timer = 0;
        self.sound_timer = 0;
        assert(self@.ram =~= Seq::new(RAM_SIZE as nat, |a: int| 0u8));
        self.initialize_font_set();
    }
}

} // verus!
