//! The register file, the address register, the program counter and the
//! call stack, with the arithmetic and control-flow instructions.

use crate::emulator::EmulatorComponent;
use crate::error::{follows, EmulatorError};
use crate::memory::Memory;
use vstd::prelude::*;

verus! {

pub const NUMBER_OF_REGISTERS: usize = 16;

/// How many return addresses the call stack holds.
pub const STACK_SIZE: usize = 16;

/// Where programs are loaded and where the program counter starts.
pub const START_ADDRESS: u16 = 0x200;

/// The register that arithmetic and drawing overwrite with their flag.
pub const FLAG_REGISTER: usize = 0xF;

/// The processor as mathematical values. `stack` holds the pending return
/// addresses, the most recent one last.
pub struct CpuState {
    pub registers: Seq<u8>,
    pub index: u16,
    pub pc: u16,
    pub stack: Seq<u16>,
}

/// Whether `x` names one of the sixteen general registers.
pub open spec fn is_register(x: int) -> bool {
    0 <= x < NUMBER_OF_REGISTERS
}

/// The twelve-bit address `nnn` in the low end of an opcode.
pub open spec fn address_operand(operation: u16) -> u16 {
    operation % 0x1000
}

/// The byte `nn` in the low end of an opcode.
pub open spec fn byte_operand(operation: u16) -> u8 {
    (operation % 0x100) as u8
}

impl CpuState {
    /// Sixteen registers and at most sixteen return addresses.
    pub open spec fn wf(self) -> bool {
        &&& self.registers.len() == NUMBER_OF_REGISTERS
        &&& self.stack.len() <= STACK_SIZE
    }

    /// The state at power-on and after a reset.
    pub open spec fn initial() -> CpuState {
        CpuState {
            registers: Seq::new(NUMBER_OF_REGISTERS as nat, |i: int| 0u8),
            index: 0,
            pc: START_ADDRESS,
            stack: Seq::empty(),
        }
    }

    pub open spec fn with_register(self, x: int, value: u8) -> CpuState {
        CpuState { registers: self.registers.update(x, value), ..self }
    }

    pub open spec fn with_pc(self, pc: u16) -> CpuState {
        CpuState { pc, ..self }
    }

    pub open spec fn with_index(self, index: u16) -> CpuState {
        CpuState { index, ..self }
    }

    /// VF replaced by 1 if `set`, by 0 otherwise.
    pub open spec fn with_flag(self, set: bool) -> CpuState {
        self.with_register(FLAG_REGISTER as int, if set { 1u8 } else { 0u8 })
    }

    /// Reading register `x`.
    pub open spec fn read(self, x: int) -> Result<u8, EmulatorError> {
        if is_register(x) {
            Ok(self.registers[x])
        } else {
            Err(EmulatorError::InvalidRegisterIndex)
        }
    }

    /// Writing `value` to register `x`.
    pub open spec fn write(self, x: int, value: u8) -> Result<CpuState, EmulatorError> {
        if is_register(x) {
            Ok(self.with_register(x, value))
        } else {
            Err(EmulatorError::InvalidRegisterIndex)
        }
    }

    /// Stepping over the next instruction if `taken`: the program counter
    /// moves on by two, which it cannot do past the end of its sixteen bits.
    pub open spec fn skip(self, taken: bool) -> Result<CpuState, EmulatorError> {
        if !taken {
            Ok(self)
        } else if self.pc + 2 > u16::MAX {
            Err(EmulatorError::AddressOutOfRange)
        } else {
            Ok(self.with_pc((self.pc + 2) as u16))
        }
    }

    /// Going back by one instruction, which cannot be done from below
    /// address two.
    pub open spec fn rewind(self) -> Result<CpuState, EmulatorError> {
        if self.pc < 2 {
            Err(EmulatorError::AddressOutOfRange)
        } else {
            Ok(self.with_pc((self.pc - 2) as u16))
        }
    }

    /// RET: the program counter becomes the most recent return address,
    /// which leaves the stack.
    pub open spec fn return_from_subroutine(self) -> Result<CpuState, EmulatorError> {
        if self.stack.len() == 0 {
            Err(EmulatorError::StackUnderflow)
        } else {
            Ok(CpuState { pc: self.stack.last(), stack: self.stack.drop_last(), ..self })
        }
    }

    /// CALL nnn: the program counter goes onto the stack and becomes `nnn`.
    pub open spec fn call_subroutine(self, operation: u16) -> Result<CpuState, EmulatorError> {
        if self.stack.len() >= STACK_SIZE {
            Err(EmulatorError::StackOverflow)
        } else {
            Ok(
                CpuState {
                    pc: address_operand(operation),
                    stack: self.stack.push(self.pc),
                    ..self
                },
            )
        }
    }

    /// JMP nnn.
    pub open spec fn jump(self, operation: u16) -> CpuState {
        self.with_pc(address_operand(operation))
    }

    /// JMP V0 + nnn. The sum is not reduced to twelve bits.
    pub open spec fn jump_with_offset(self, operation: u16) -> CpuState {
        self.with_pc((self.registers[0] + address_operand(operation)) as u16)
    }

    /// SE Vx, nn.
    pub open spec fn skip_if_equals_byte(self, operation: u16, x: int) -> Result<
        CpuState,
        EmulatorError,
    > {
        if is_register(x) {
            self.skip(self.registers[x] == byte_operand(operation))
        } else {
            Err(EmulatorError::InvalidRegisterIndex)
        }
    }

    /// SNE Vx, nn.
    pub open spec fn skip_unless_equals_byte(self, operation: u16, x: int) -> Result<
        CpuState,
        EmulatorError,
    > {
        if is_register(x) {
            self.skip(self.registers[x] != byte_operand(operation))
        } else {
            Err(EmulatorError::InvalidRegisterIndex)
        }
    }

    /// SE Vx, Vy.
    pub open spec fn skip_if_registers_equal(self, x: int, y: int) -> Result<
        CpuState,
        EmulatorError,
    > {
        if is_register(x) && is_register(y) {
            self.skip(self.registers[x] == self.registers[y])
        } else {
            Err(EmulatorError::InvalidRegisterIndex)
        }
    }

    /// SNE Vx, Vy.
    pub open spec fn skip_unless_registers_equal(self, x: int, y: int) -> Result<
        CpuState,
        EmulatorError,
    > {
        if is_register(x) && is_register(y) {
            self.skip(self.registers[x] != self.registers[y])
        } else {
            Err(EmulatorError::InvalidRegisterIndex)
        }
    }

    /// LD Vx, nn.
    pub open spec fn load_byte(self, operation: u16, x: int) -> Result<CpuState, EmulatorError> {
        self.write(x, byte_operand(operation))
    }

    /// LD Vx, Vy.
    pub open spec fn copy_register(self, x: int, y: int) -> Result<CpuState, EmulatorError> {
        if is_register(x) && is_register(y) {
            Ok(self.with_register(x, self.registers[y]))
        } else {
            Err(EmulatorError::InvalidRegisterIndex)
        }
    }

    /// ADD Vx, nn: the sum modulo 256; VF is not touched.
    pub open spec fn add_byte(self, operation: u16, x: int) -> Result<CpuState, EmulatorError> {
        if is_register(x) {
            Ok(
                self.with_register(
                    x,
                    ((self.registers[x] + byte_operand(operation)) % 256) as u8,
                ),
            )
        } else {
            Err(EmulatorError::InvalidRegisterIndex)
        }
    }

    /// ADD Vx, Vy: the sum modulo 256 goes to Vx, then VF becomes 1 if the
    /// sum passed 255 and 0 if not.
    pub open spec fn add_registers(self, x: int, y: int) -> Result<CpuState, EmulatorError> {
        if is_register(x) && is_register(y) {
            let sum = self.registers[x] + self.registers[y];
            Ok(self.with_register(x, (sum % 256) as u8).with_flag(sum >= 256))
        } else {
            Err(EmulatorError::InvalidRegisterIndex)
        }
    }

    /// SUB Vx, Vy, or with `reverse` SUBN Vx, Vy: the difference modulo 256
    /// of Vx and Vy (of Vy and Vx with `reverse`) goes to Vx, then VF
    /// becomes 1 if nothing was borrowed and 0 if something was.
    pub open spec fn subtract_registers(self, x: int, y: int, reverse: bool) -> Result<
        CpuState,
        EmulatorError,
    > {
        if is_register(x) && is_register(y) {
            let minuend = if reverse { self.registers[y] } else { self.registers[x] };
            let subtrahend = if reverse { self.registers[x] } else { self.registers[y] };
            Ok(
                self.with_register(x, ((minuend - subtrahend) % 256) as u8).with_flag(
                    minuend >= subtrahend,
                ),
            )
        } else {
            Err(EmulatorError::InvalidRegisterIndex)
        }
    }

    /// OR Vx, Vy.
    pub open spec fn or_registers(self, x: int, y: int) -> Result<CpuState, EmulatorError> {
        if is_register(x) && is_register(y) {
            Ok(self.with_register(x, self.registers[x] | self.registers[y]))
        } else {
            Err(EmulatorError::InvalidRegisterIndex)
        }
    }

    /// SHR Vx if `right`, SHL Vx if not: Vx moves by one bit, then VF becomes
    /// the bit that fell off.
    pub open spec fn shift(self, x: int, right: bool) -> Result<CpuState, EmulatorError> {
        if is_register(x) {
            let value = self.registers[x];
            if right {
                Ok(self.with_register(x, value / 2).with_flag(value % 2 == 1))
            } else {
                Ok(self.with_register(x, ((value * 2) % 256) as u8).with_flag(value >= 128))
            }
        } else {
            Err(EmulatorError::InvalidRegisterIndex)
        }
    }

    /// LD I, nnn.
    pub open spec fn load_index(self, operation: u16) -> CpuState {
        self.with_index(address_operand(operation))
    }

    /// RND Vx, nn with `random` as the byte that was drawn.
    pub open spec fn load_masked(self, operation: u16, x: int, random: u8) -> Result<
        CpuState,
        EmulatorError,
    > {
        self.write(x, random & byte_operand(operation))
    }

    /// ADD I, Vx: the sum modulo 65536.
    pub open spec fn add_to_index(self, x: int) -> Result<CpuState, EmulatorError> {
        if is_register(x) {
            Ok(self.with_index(((self.index + self.registers[x]) % 0x1_0000) as u16))
        } else {
            Err(EmulatorError::InvalidRegisterIndex)
        }
    }

    /// LD I, FONT(Vx): the address of the five-byte glyph number Vx.
    pub open spec fn point_to_glyph(self, x: int) -> Result<CpuState, EmulatorError> {
        if is_register(x) {
            Ok(self.with_index((self.registers[x] * 5) as u16))
        } else {
            Err(EmulatorError::InvalidRegisterIndex)
        }
    }
}

/// The processor. Its view is a `CpuState`.
pub struct CPU {
    v_registers: [u8; NUMBER_OF_REGISTERS],
    i_register: u16,
    stack: [u16; STACK_SIZE],
    program_counter: u16,
    stack_pointer: u16,
}

impl View for CPU {
    type V = CpuState;

    closed spec fn view(&self) -> CpuState {
        CpuState {
            registers: self.v_registers@,
            index: self.i_register,
            pc: self.program_counter,
            // No processor that runs has its stack pointer past the end of
            // the stack; the bound makes the view valid of every value that
            // a proof may speak of.
            stack: self.stack@.take(
                if self.stack_pointer <= STACK_SIZE {
                    self.stack_pointer as int
                } else {
                    STACK_SIZE as int
                },
            ),
        }
    }
}

impl CPU {
    #[verifier::type_invariant]
    spec fn stack_pointer_in_bounds(&self) -> bool {
        self.stack_pointer <= STACK_SIZE
    }

    pub fn new() -> (cpu: Self)
        ensures
            cpu@ == CpuState::initial(),
    {
        let cpu = Self {
            v_registers: [0; NUMBER_OF_REGISTERS],
            i_register: 0,
            stack: [0; STACK_SIZE],
            program_counter: START_ADDRESS,
            stack_pointer: 0,
        };
        assert(cpu@.registers =~= CpuState::initial().registers);
        assert(cpu@.stack =~= CpuState::initial().stack);
        cpu
    }

    pub fn get_program_counter(&self) -> (pc: u16)
        ensures
            pc == self@.pc,
    {
        self.program_counter
    }

    pub fn set_program_counter(&mut self, value: u16)
        ensures
            final(self)@ == old(self)@.with_pc(value),
    {
        proof {
            use_type_invariant(&*self);
        }
        self.program_counter = value;
    }

    pub fn get_i_register(&self) -> (index: u16)
        ensures
            index == self@.index,
    {
        self.i_register
    }

    pub fn set_register_value(&mut self, index: usize, value: u8) -> (result: Result<
        (),
        EmulatorError,
    >)
        ensures
            follows(old(self)@, old(self)@.write(index as int, value), result, final(self)@),
    {
        if index >= NUMBER_OF_REGISTERS {
            return Err(EmulatorError::InvalidRegisterIndex);
        }
        proof {
            use_type_invariant(&*self);
        }
        self.v_registers[index] = value;
        Ok(())
    }

    pub fn get_register_value(&self, index: usize) -> (result: Result<u8, EmulatorError>)
        ensures
            result == self@.read(index as int),
    {
        if index >= NUMBER_OF_REGISTERS {
            return Err(EmulatorError::InvalidRegisterIndex);
        }
        Ok(self.v_registers[index])
    }

    /// The view of a processor holds sixteen registers and at most sixteen
    /// return addresses.
    pub proof fn lemma_valid(&self)
        ensures
            self@.wf(),
    {
    }

    /// Vx, for callers that have checked `x`.
    pub(crate) fn register(&self, x: usize) -> (value: u8)
        requires
            is_register(x as int),
        ensures
            value == self@.registers[x as int],
    {
        self.v_registers[x]
    }

    /// Writes Vx, for callers that have checked `x`.
    pub(crate) fn set_register(&mut self, x: usize, value: u8)
        requires
            is_register(x as int),
        ensures
            final(self)@ == old(self)@.with_register(x as int, value),
    {
        proof {
            use_type_invariant(&*self);
        }
        self.v_registers[x] = value;
    }

    /// Writes the flag register.
    pub(crate) fn set_flag(&mut self, set: bool)
        ensures
            final(self)@ == old(self)@.with_flag(set),
    {
        self.set_register(FLAG_REGISTER, if set { 1 } else { 0 });
    }

    fn push(&mut self, val: u16)
        requires
            old(self)@.stack.len() < STACK_SIZE,
        ensures
            final(self)@ == (CpuState { stack: old(self)@.stack.push(val), ..old(self)@ }),
    {
        proof {
            use_type_invariant(&*self);
        }
        self.stack[self.stack_pointer as usize] = val;
        self.stack_pointer += 1;
        assert(self@.stack =~= old(self)@.stack.push(val));
    }

    fn pop(&mut self) -> (val: u16)
        requires
            old(self)@.stack.len() > 0,
        ensures
            val == old(self)@.stack.last(),
            final(self)@ == (CpuState { stack: old(self)@.stack.drop_last(), ..old(self)@ }),
    {
        proof {
            use_type_invariant(&*self);
        }
        self.stack_pointer -= 1;
        assert(self@.stack =~= old(self)@.stack.drop_last());
        self.stack[self.stack_pointer as usize]
    }

    fn depth(&self) -> (depth: usize)
        ensures
            depth == self@.stack.len(),
            depth <= STACK_SIZE,
    {
        proof {
            use_type_invariant(self);
        }
        self.stack_pointer as usize
    }

    /// Moves the program counter back onto the instruction just fetched.
    pub(crate) fn rewind(&mut self) -> (result: Result<(), EmulatorError>)
        ensures
            follows(old(self)@, old(self)@.rewind(), result, final(self)@),
    {
        proof {
            use_type_invariant(&*self);
        }
        if self.program_counter < 2 {
            return Err(EmulatorError::AddressOutOfRange);
        }
        self.program_counter -= 2;
        Ok(())
    }

    pub(crate) fn skip(&mut self, taken: bool) -> (result: Result<(), EmulatorError>)
        ensures
            follows(old(self)@, old(self)@.skip(taken), result, final(self)@),
    {
        proof {
            use_type_invariant(&*self);
        }
        if !taken {
            return Ok(());
        }
        if self.program_counter > u16::MAX - 2 {
            return Err(EmulatorError::AddressOutOfRange);
        }
        self.program_counter += 2;
        Ok(())
    }

    /// RET - Return from subroutine
    pub fn op_ret(&mut self) -> (result: Result<(), EmulatorError>)
        ensures
            follows(old(self)@, old(self)@.return_from_subroutine(), result, final(self)@),
    {
        if self.depth() == 0 {
            return Err(EmulatorError::StackUnderflow);
        }
        let return_address = self.pop();
        self.set_program_counter(return_address);
        Ok(())
    }

    /// CALL - Call subroutine
    pub fn op_call(&mut self, operation: u16) -> (result: Result<(), EmulatorError>)
        ensures
            follows(old(self)@, old(self)@.call_subroutine(operation), result, final(self)@),
    {
        if self.depth() >= STACK_SIZE {
            return Err(EmulatorError::StackOverflow);
        }
        let nnn = address_of(operation);
        let return_address = self.program_counter;
        self.push(return_address);
        self.set_program_counter(nnn);
        Ok(())
    }

    /// JMP NNN - Move program counter to given address
    pub fn op_jmp(&mut self, operation: u16)
        ensures
            final(self)@ == old(self)@.jump(operation),
    {
        let nnn = address_of(operation);
        self.set_program_counter(nnn);
    }

    /// JMP V0 + NNN - Move program counter to given address
    pub fn op_reg_jmp(&mut self, operation: u16)
        ensures
            final(self)@ == old(self)@.jump_with_offset(operation),
    {
        let nnn = address_of(operation);
        let target = (self.v_registers[0] as u16) + nnn;
        self.set_program_counter(target);
    }

    /// SKIP VX == NN - Skip next instruction if register VX == NN
    pub fn op_se(&mut self, operation: u16, x: usize) -> (result: Result<(), EmulatorError>)
        ensures
            follows(
                old(self)@,
                old(self)@.skip_if_equals_byte(operation, x as int),
                result,
                final(self)@,
            ),
    {
        if x >= NUMBER_OF_REGISTERS {
            return Err(EmulatorError::InvalidRegisterIndex);
        }
        let nn = byte_of(operation);
        self.skip(self.v_registers[x] == nn)
    }

    /// SKIP VX == VY - Skip next instruction if register VX == VY
    pub fn op_reg_se(&mut self, x: usize, y: usize) -> (result: Result<(), EmulatorError>)
        ensures
            follows(
                old(self)@,
                old(self)@.skip_if_registers_equal(x as int, y as int),
                result,
                final(self)@,
            ),
    {
        if x >= NUMBER_OF_REGISTERS || y >= NUMBER_OF_REGISTERS {
            return Err(EmulatorError::InvalidRegisterIndex);
        }
        self.skip(self.v_registers[x] == self.v_registers[y])
    }

    /// SKIP VX != NN - Skip next instruction if register VX != NN
    pub fn op_sne(&mut self, operation: u16, x: usize) -> (result: Result<(), EmulatorError>)
        ensures
            follows(
                old(self)@,
                old(self)@.skip_unless_equals_byte(operation, x as int),
                result,
                final(self)@,
            ),
    {
        if x >= NUMBER_OF_REGISTERS {
            return Err(EmulatorError::InvalidRegisterIndex);
        }
        let nn = byte_of(operation);
        self.skip(self.v_registers[x] != nn)
    }

    /// LD VX = NN - Load register VX with value NN
    pub fn op_ld(&mut self, operation: u16, x: usize) -> (result: Result<(), EmulatorError>)
        ensures
            follows(old(self)@, old(self)@.load_byte(operation, x as int), result, final(self)@),
    {
        let nn = byte_of(operation);
        self.set_register_value(x, nn)
    }

    /// LD VX = VY - Load Register VX with value of register VY
    pub fn op_reg_ld(&mut self, x: usize, y: usize) -> (result: Result<(), EmulatorError>)
        ensures
            follows(
                old(self)@,
                old(self)@.copy_register(x as int, y as int),
                result,
                final(self)@,
            ),
    {
        if x >= NUMBER_OF_REGISTERS || y >= NUMBER_OF_REGISTERS {
            return Err(EmulatorError::InvalidRegisterIndex);
        }
        let vy = self.v_registers[y];
        self.set_register_value(x, vy)
    }

    /// ADD VX += NN - Add NN to VX
    pub fn op_add(&mut self, operation: u16, x: usize) -> (result: Result<(), EmulatorError>)
        ensures
            follows(old(self)@, old(self)@.add_byte(operation, x as int), result, final(self)@),
    {
        if x >= NUMBER_OF_REGISTERS {
            return Err(EmulatorError::InvalidRegisterIndex);
        }
        let nn = byte_of(operation);
        let sum: u16 = self.v_registers[x] as u16 + nn as u16;
        self.set_register_value(x, (sum % 256) as u8)
    }

    /// ADD VX += VY - Add VY to VX
    pub fn op_reg_add(&mut self, x: usize, y: usize) -> (result: Result<(), EmulatorError>)
        ensures
            follows(
                old(self)@,
                old(self)@.add_registers(x as int, y as int),
                result,
                final(self)@,
            ),
    {
        if x >= NUMBER_OF_REGISTERS || y >= NUMBER_OF_REGISTERS {
            return Err(EmulatorError::InvalidRegisterIndex);
        }
        let sum: u16 = self.v_registers[x] as u16 + self.v_registers[y] as u16;
        let new_vf: u8 = if sum > 255 { 1 } else { 0 };
        let _ = self.set_register_value(x, (sum % 256) as u8);
        self.set_register_value(FLAG_REGISTER, new_vf)
    }

    /// SUB VX -= VY - Subtract VY from VX, or VX from VY if `reverse`
    pub fn op_reg_sub(&mut self, x: usize, y: usize, reverse: bool) -> (result: Result<
        (),
        EmulatorError,
    >)
        ensures
            follows(
                old(self)@,
                old(self)@.subtract_registers(x as int, y as int, reverse),
                result,
                final(self)@,
            ),
    {
        if x >= NUMBER_OF_REGISTERS || y >= NUMBER_OF_REGISTERS {
            return Err(EmulatorError::InvalidRegisterIndex);
        }
        let minuend: u8;
        let subtrahend: u8;
        if reverse {
            minuend = self.v_registers[y];
            subtrahend = self.v_registers[x];
        } else {
            minuend = self.v_registers[x];
            subtrahend = self.v_registers[y];
        }
        let new_vx: u8;
        let new_vf: u8;
        if minuend >= subtrahend {
            new_vx = minuend - subtrahend;
            new_vf = 1;
        } else {
            new_vx = (256 - (subtrahend - minuend) as u16) as u8;
            new_vf = 0;
        }
        let _ = self.set_register_value(x, new_vx);
        self.set_register_value(FLAG_REGISTER, new_vf)
    }

    /// OR VX |= VY - Bitwise OR between VX and VY
    pub fn op_reg_or(&mut self, x: usize, y: usize) -> (result: Result<(), EmulatorError>)
        ensures
            follows(
                old(self)@,
                old(self)@.or_registers(x as int, y as int),
                result,
                final(self)@,
            ),
    {
        if x >= NUMBER_OF_REGISTERS || y >= NUMBER_OF_REGISTERS {
            return Err(EmulatorError::InvalidRegisterIndex);
        }
        let value = self.v_registers[x] | self.v_registers[y];
        self.set_register_value(x, value)
    }

    /// SHR VX >>= 1, or SHL VX <<= 1 - Bitwise shift right or left by one
    pub fn op_shift(&mut self, x: usize, right: bool) -> (result: Result<(), EmulatorError>)
        ensures
            follows(old(self)@, old(self)@.shift(x as int, right), result, final(self)@),
    {
        if x >= NUMBER_OF_REGISTERS {
            return Err(EmulatorError::InvalidRegisterIndex);
        }
        let value = self.v_registers[x];
        let bit: u8;
        let shifted: u8;
        if right {
            bit = value & 1;
            shifted = value >> 1;
            assert(value & 1 == value % 2 && value >> 1 == value / 2) by (bit_vector);
        } else {
            bit = (value >> 7) & 1;
            shifted = value << 1;
            assert((value >> 7) & 1 == (if value >= 128 { 1u8 } else { 0u8 }) && value << 1 == ((
            value * 2) % 256) as u8) by (bit_vector);
        }
        let _ = self.set_register_value(x, shifted);
        self.set_register_value(FLAG_REGISTER, bit)
    }

    /// SNE VX != VY - Skip next instruction if VX != VY
    pub fn op_reg_sne(&mut self, x: usize, y: usize) -> (result: Result<(), EmulatorError>)
        ensures
            follows(
                old(self)@,
                old(self)@.skip_unless_registers_equal(x as int, y as int),
                result,
                final(self)@,
            ),
    {
        if x >= NUMBER_OF_REGISTERS || y >= NUMBER_OF_REGISTERS {
            return Err(EmulatorError::InvalidRegisterIndex);
        }
        self.skip(self.v_registers[x] != self.v_registers[y])
    }

    /// LD I = NNN - Load register I with value NNN
    pub fn op_i_ld(&mut self, operation: u16)
        ensures
            final(self)@ == old(self)@.load_index(operation),
    {
        proof {
            use_type_invariant(&*self);
        }
        let nnn = address_of(operation);
        self.i_register = nnn;
    }

    /// RND Vx = Rand & NN, with the random byte given by the caller
    pub fn op_rnd_with(&mut self, operation: u16, x: usize, random: u8) -> (result: Result<
        (),
        EmulatorError,
    >)
        ensures
            follows(
                old(self)@,
                old(self)@.load_masked(operation, x as int, random),
                result,
                final(self)@,
            ),
    {
        let nn = byte_of(operation);
        self.set_register_value(x, random & nn)
    }

    /// RND Vx = Rand & NN
    pub fn op_rnd(&mut self, operation: u16, x: usize) -> (result: Result<(), EmulatorError>)
        ensures
            exists|random: u8|
                follows(
                    old(self)@,
                    #[trigger] old(self)@.load_masked(operation, x as int, random),
                    result,
                    final(self)@,
                ),
    {
        let random = random_byte();
        self.op_rnd_with(operation, x, random)
    }

    /// LD VX = DT - Load VX with Delay Timer value
    pub fn op_ld_dt(&mut self, memory: &Memory, x: usize) -> (result: Result<(), EmulatorError>)
        ensures
            follows(
                old(self)@,
                old(self)@.write(x as int, memory@.delay_timer),
                result,
                final(self)@,
            ),
    {
        self.set_register_value(x, memory.get_delay_timer())
    }

    /// ADD I += VX - Add Vx to I
    pub fn op_add_i(&mut self, x: usize) -> (result: Result<(), EmulatorError>)
        ensures
            follows(old(self)@, old(self)@.add_to_index(x as int), result, final(self)@),
    {
        proof {
            use_type_invariant(&*self);
        }
        if x >= NUMBER_OF_REGISTERS {
            return Err(EmulatorError::InvalidRegisterIndex);
        }
        let sum: u32 = self.i_register as u32 + self.v_registers[x] as u32;
        self.i_register = (sum % 0x1_0000) as u16;
        Ok(())
    }

    /// LD I = FONT - Load the address of the glyph for Vx into the I register
    pub fn op_ld_font(&mut self, x: usize) -> (result: Result<(), EmulatorError>)
        ensures
            follows(old(self)@, old(self)@.point_to_glyph(x as int), result, final(self)@),
    {
        proof {
            use_type_invariant(&*self);
        }
        if x >= NUMBER_OF_REGISTERS {
            return Err(EmulatorError::InvalidRegisterIndex);
        }
        let c = self.v_registers[x] as u16;
        self.i_register = c * 5;
        Ok(())
    }
}

/// The low twelve bits of an opcode.
pub fn address_of(operation: u16) -> (nnn: u16)
    ensures
        nnn == address_operand(operation),
{
    assert(operation & 0xFFF == operation % 0x1000) by (bit_vector);
    operation & 0xFFF
}

/// The low byte of an opcode.
pub fn byte_of(operation: u16) -> (nn: u8)
    ensures
        nn == byte_operand(operation),
{
    assert(operation & 0xFF == operation % 0x100) by (bit_vector);
    (operation & 0xFF) as u8
}

/// One byte from `rand::random`, which draws it from the generator that the
/// `rand` crate keeps for each thread. Nothing is claimed of its value.
#[verifier::external_body]
pub(crate) fn random_byte() -> (byte: u8) {
    rand::random::<u8>()
}

/// A register that was written reads back as the value written, and the
/// other registers read as before.
pub proof fn lemma_write_then_read(cpu: CpuState, x: int, value: u8)
    requires
        cpu.wf(),
        is_register(x),
    ensures
        cpu.write(x, value) matches Ok(written) && written.read(x) == Ok::<u8, EmulatorError>(
            value,
        ) && forall|other: int|
            is_register(other) && other != x ==> written.read(other) == cpu.read(other),
{
}

/// ADD Vx, Vy leaves in VF 1 if the sum of the two registers is 256 or
/// more and 0 if it is less, and in Vx, unless Vx is VF, the sum modulo 256.
pub proof fn lemma_add_registers(cpu: CpuState, x: int, y: int)
    requires
        cpu.wf(),
        is_register(x),
        is_register(y),
    ensures
        cpu.add_registers(x, y) matches Ok(after) && {
            let sum = cpu.registers[x] + cpu.registers[y];
            &&& after.registers[FLAG_REGISTER as int] == 1 <==> sum >= 256
            &&& after.registers[FLAG_REGISTER as int] == 0 <==> sum < 256
            &&& x != FLAG_REGISTER ==> after.registers[x] == sum % 256
        },
{
}

/// SUB Vx, Vy (SUBN with `reverse`, which takes Vx from Vy) leaves in VF 1
/// if the register taken from is at least the one taken and 0 if it is
/// less, and in Vx, unless Vx is VF, the difference modulo 256.
pub proof fn lemma_subtract_registers(cpu: CpuState, x: int, y: int, reverse: bool)
    requires
        cpu.wf(),
        is_register(x),
        is_register(y),
    ensures
        cpu.subtract_registers(x, y, reverse) matches Ok(after) && {
            let minuend = if reverse { cpu.registers[y] } else { cpu.registers[x] };
            let subtrahend = if reverse { cpu.registers[x] } else { cpu.registers[y] };
            &&& after.registers[FLAG_REGISTER as int] == 1 <==> minuend >= subtrahend
            &&& after.registers[FLAG_REGISTER as int] == 0 <==> minuend < subtrahend
            &&& x != FLAG_REGISTER ==> after.registers[x] == (minuend - subtrahend) % 256
        },
{
}

/// SHR Vx leaves in VF the lowest bit of Vx and SHL Vx the highest, and
/// both leave in Vx, unless Vx is VF, its bits moved by one place.
pub proof fn lemma_shift(cpu: CpuState, x: int, right: bool)
    requires
        cpu.wf(),
        is_register(x),
    ensures
        cpu.shift(x, right) matches Ok(after) && {
            let value = cpu.registers[x];
            &&& right ==> after.registers[FLAG_REGISTER as int] == value & 1
            &&& right && x != FLAG_REGISTER ==> after.registers[x] == value >> 1
            &&& !right ==> after.registers[FLAG_REGISTER as int] == value >> 7
            &&& !right && x != FLAG_REGISTER ==> after.registers[x] == value << 1
        },
{
    let value = cpu.registers[x];
    assert(value & 1 == value % 2 && value >> 1 == value / 2) by (bit_vector);
    assert(value >> 7 == (if value >= 128 { 1u8 } else { 0u8 }) && value << 1 == ((value * 2)
        % 256) as u8) by (bit_vector);
}

/// A call that is followed at once by a return leaves the processor as it
/// was before the call, the program counter included.
pub proof fn lemma_call_then_return(cpu: CpuState, operation: u16)
    requires
        cpu.stack.len() < STACK_SIZE,
    ensures
        cpu.call_subroutine(operation) matches Ok(called) && called.return_from_subroutine()
            == Ok::<CpuState, EmulatorError>(cpu),
{
    let called = cpu.call_subroutine(operation)->Ok_0;
    assert(called.stack.drop_last() =~= cpu.stack);
}

impl EmulatorComponent for CPU {
    open spec fn is_reset(&self) -> bool {
        self@ == CpuState::initial()
    }

    fn reset(&mut self) {
        proof {
            use_type_invariant(&*self);
        }
        self.v_registers = [0; NUMBER_OF_REGISTERS];
        self.i_register = 0;
        self.stack = [0; STACK_SIZE];
        self.program_counter = START_ADDRESS;
        self.stack_pointer = 0;
        assert(self@.registers =~= CpuState::initial().registers);
        assert(self@.stack =~= CpuState::initial().stack);
    }
}

} // verus!
