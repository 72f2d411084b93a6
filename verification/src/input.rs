//! The sixteen keys of the hexadecimal pad.

use crate::cpu::{is_register, CpuState, CPU, NUMBER_OF_REGISTERS};
use crate::emulator::EmulatorComponent;
use crate::error::{follows, EmulatorError};
use vstd::prelude::*;

verus! {

pub const NUMBER_OF_KEYS: usize = 16;

/// Whether `key` names one of the sixteen keys.
pub open spec fn is_key(key: int) -> bool {
    0 <= key < NUMBER_OF_KEYS
}

/// A pad with no key held down.
pub open spec fn released_keys() -> Seq<bool> {
    Seq::new(NUMBER_OF_KEYS as nat, |key: int| false)
}

/// Whether no key is held down.
pub open spec fn none_pressed(keys: Seq<bool>) -> bool {
    forall|key: int| 0 <= key < keys.len() ==> !keys[key]
}

/// Whether `key` is held down and no key with a lower number is.
pub open spec fn is_lowest_pressed(keys: Seq<bool>, key: int) -> bool {
    &&& 0 <= key < keys.len()
    &&& keys[key]
    &&& forall|lower: int| 0 <= lower < key ==> !keys[lower]
}

/// The key with the lowest number among those held down.
pub open spec fn lowest_pressed(keys: Seq<bool>) -> int {
    choose|key: int| is_lowest_pressed(keys, key)
}

/// SKP Vx, or with `reverse` SKNP Vx: the next instruction is stepped over
/// if the key that Vx names is held down (is not, with `reverse`).
pub open spec fn skip_on_key(keys: Seq<bool>, cpu: CpuState, x: int, reverse: bool) -> Result<
    CpuState,
    EmulatorError,
> {
    if !is_register(x) {
        Err(EmulatorError::InvalidRegisterIndex)
    } else if !is_key(cpu.registers[x] as int) {
        Err(EmulatorError::InvalidKeyIndex)
    } else {
        cpu.skip(keys[cpu.registers[x] as int] != reverse)
    }
}

/// LD Vx, K: with a key held down, Vx becomes the lowest number of such a
/// key; with none, the program counter goes back by two, onto the
/// instruction that was just fetched.
pub open spec fn wait_for_key(keys: Seq<bool>, cpu: CpuState, x: int) -> Result<
    CpuState,
    EmulatorError,
> {
    if !is_register(x) {
        Err(EmulatorError::InvalidRegisterIndex)
    } else if !none_pressed(keys) {
        Ok(cpu.with_register(x, lowest_pressed(keys) as u8))
    } else {
        cpu.rewind()
    }
}

/// Pressing or releasing `key`.
pub open spec fn set_key(keys: Seq<bool>, key: int, pressed: bool) -> Result<
    Seq<bool>,
    EmulatorError,
> {
    if is_key(key) {
        Ok(keys.update(key, pressed))
    } else {
        Err(EmulatorError::InvalidKeyIndex)
    }
}

/// At most one key is the lowest one held down.
pub proof fn lemma_lowest_pressed_unique(keys: Seq<bool>, key: int)
    requires
        is_lowest_pressed(keys, key),
    ensures
        lowest_pressed(keys) == key,
        !none_pressed(keys),
{
    let chosen = lowest_pressed(keys);
    assert(is_lowest_pressed(keys, chosen));
    if chosen < key {
        assert(!keys[chosen]);
    } else if key < chosen {
        assert(!keys[key]);
    }
}

/// The keypad. Its view is the sequence of its sixteen keys' states; a
/// key that is held down is `true`.
pub struct Input {
    keys: [bool; NUMBER_OF_KEYS],
}

impl View for Input {
    type V = Seq<bool>;

    closed spec fn view(&self) -> Seq<bool> {
        self.keys@
    }
}

impl Input {
    pub fn new() -> (input: Self)
        ensures
            input@ == released_keys(),
    {
        Self { keys: [false; NUMBER_OF_KEYS] }
    }

    /// The view of a pad holds one state for each of the sixteen keys.
    pub proof fn lemma_valid(&self)
        ensures
            self@.len() == NUMBER_OF_KEYS,
    {
    }

    /// Records that `key` went down or came up.
    pub fn set_key(&mut self, key: usize, pressed: bool) -> (result: Result<(), EmulatorError>)
        ensures
            follows(old(self)@, set_key(old(self)@, key as int, pressed), result, final(self)@),
    {
        if key >= NUMBER_OF_KEYS {
            return Err(EmulatorError::InvalidKeyIndex);
        }
        self.keys[key] = pressed;
        Ok(())
    }

    /// Whether `key` is held down.
    pub fn is_pressed(&self, key: usize) -> (result: Result<bool, EmulatorError>)
        ensures
            result == if is_key(key as int) {
                Ok::<bool, EmulatorError>(self@[key as int])
            } else {
                Err::<bool, EmulatorError>(EmulatorError::InvalidKeyIndex)
            },
    {
        if key >= NUMBER_OF_KEYS {
            return Err(EmulatorError::InvalidKeyIndex);
        }
        Ok(self.keys[key])
    }

    /// SKP Vx - Skip next instruction if key at index Vx is pressed, or is
    /// not pressed if `reverse`.
    pub fn op_skp(&self, cpu: &mut CPU, x: usize, reverse: bool) -> (result: Result<
        (),
        EmulatorError,
    >)
        ensures
            follows(
                old(cpu)@,
                skip_on_key(self@, old(cpu)@, x as int, reverse),
                result,
                final(cpu)@,
            ),
    {
        if x >= NUMBER_OF_REGISTERS {
            return Err(EmulatorError::InvalidRegisterIndex);
        }
        let vx = cpu.register(x) as usize;
        if vx >= NUMBER_OF_KEYS {
            return Err(EmulatorError::InvalidKeyIndex);
        }
        let key = self.keys[vx];
        cpu.skip(key != reverse)
    }

    /// LD Vx - Loads register Vx with value of key pressed.
    pub fn op_ld_wait(&self, cpu: &mut CPU, x: usize) -> (result: Result<(), EmulatorError>)
        ensures
            follows(old(cpu)@, wait_for_key(self@, old(cpu)@, x as int), result, final(cpu)@),
    {
        if x >= NUMBER_OF_REGISTERS {
            return Err(EmulatorError::InvalidRegisterIndex);
        }
        let mut i: usize = 0;
        while i < NUMBER_OF_KEYS
            invariant
                i <= NUMBER_OF_KEYS,
                x < NUMBER_OF_REGISTERS,
                cpu@ == old(cpu)@,
                forall|key: int| 0 <= key < i ==> !self.keys@[key],
            decreases NUMBER_OF_KEYS - i,
        {
            if self.keys[i] {
                proof {
                    lemma_lowest_pressed_unique(self@, i as int);
                }
                cpu.set_register(x, i as u8);
                return Ok(());
            }
            i += 1;
        }
        // redo opcode
        cpu.rewind()
    }
}

impl EmulatorComponent for Input {
    open spec fn is_reset(&self) -> bool {
        self@ == released_keys()
    }

    fn reset(&mut self) {
        self.keys = [false; NUMBER_OF_KEYS];
        assert(self@ =~= released_keys());
    }
}

} // verus!
