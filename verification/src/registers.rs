//! The fixed-size register file.

use vstd::prelude::*;

use crate::value::{Value, ValueModel};
use crate::vm::VmError;

verus! {

/// An opaque 16-bit register index.
#[derive(Clone, Copy, Debug, PartialEq, Eq, Structural, Hash)]
pub struct Reg(pub u16);

impl Reg {
    pub fn as_usize(self) -> (r: usize)
        ensures
            r == self.0 as usize,
    {
        self.0 as usize
    }
}

/// A fixed-length array of values, initialized to `Unit`.
#[derive(Debug, PartialEq)]
pub struct RegisterFile {
    registers: Vec<Value>,
}

impl View for RegisterFile {
    type V = Seq<ValueModel>;

    closed spec fn view(&self) -> Seq<ValueModel> {
        Seq::new(self.registers@.len(), |i: int| self.registers@[i]@)
    }
}

impl RegisterFile {
    /// A file of `register_count` registers, all `Unit`.
    pub fn new(register_count: usize) -> (r: RegisterFile)
        ensures
            r@.len() == register_count,
            forall|i: int| 0 <= i < register_count ==> r@[i] == ValueModel::Unit,
    {
        let mut registers: Vec<Value> = Vec::new();
        let mut i: usize = 0;
        while i < register_count
            invariant
                i <= register_count,
                registers@.len() == i,
                forall|j: int| 0 <= j < i ==> registers@[j] == Value::Unit,
            decreases register_count - i,
        {
            registers.push(Value::Unit);
            i = i + 1;
        }
        RegisterFile { registers }
    }

    pub fn len(&self) -> (r: usize)
        ensures
            r == self@.len(),
    {
        self.registers.len()
    }

    pub fn is_empty(&self) -> (r: bool)
        ensures
            r == (self@.len() == 0),
    {
        self.registers.is_empty()
    }

    /// Reads a register; out-of-bounds indices are reported, not panicked on.
    pub fn get(&self, reg: Reg) -> (r: Result<&Value, VmError>)
        ensures
            reg.0 < self@.len() ==> (r matches Ok(v) && v@ == self@[reg.0 as int]),
            reg.0 >= self@.len() ==> r == Err::<&Value, VmError>(
                VmError::RegisterOutOfBounds { reg, register_count: self@.len() as usize },
            ),
    {
        let index = reg.as_usize();
        if index < self.registers.len() {
            Ok(&self.registers[index])
        } else {
            Err(VmError::RegisterOutOfBounds { reg, register_count: self.registers.len() })
        }
    }

    /// Writes a register; the file's length never changes.
    pub fn set(&mut self, reg: Reg, value: Value) -> (r: Result<(), VmError>)
        ensures
            reg.0 < old(self)@.len() ==> r is Ok && final(self)@ == old(self)@.update(
                reg.0 as int,
                value@,
            ),
            reg.0 >= old(self)@.len() ==> final(self)@ == old(self)@ && r == Err::<(), VmError>(
                VmError::RegisterOutOfBounds { reg, register_count: old(self)@.len() as usize },
            ),
    {
        let index = reg.as_usize();
        let register_count = self.registers.len();
        if index < register_count {
            self.registers[index] = value;
            proof {
                assert(self@ =~= old(self)@.update(reg.0 as int, value@));
            }
            Ok(())
        } else {
            Err(VmError::RegisterOutOfBounds { reg, register_count })
        }
    }
}

} // verus!
