//! The VM's instruction record.

use vstd::prelude::*;

use crate::ops::SyscallId;
use crate::registers::Reg;
use crate::value::Value;

verus! {

/// One VM instruction.
#[derive(Debug, PartialEq)]
pub enum Instruction {
    /// Stops the machine.
    Halt,
    /// Writes `value` into `dst`.
    LoadConst { dst: Reg, value: Value },
    /// Copies `src` into `dst`.
    Mov { dst: Reg, src: Reg },
    /// Calls the host with the values of `args`; writes what comes back into
    /// `results`, positionally.
    Syscall { id: SyscallId, args: Vec<Reg>, results: Vec<Reg> },
}

} // verus!
