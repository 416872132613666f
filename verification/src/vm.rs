//! The deterministic register VM: error surface, the small-step relation,
//! and run loops.
//!
//! A step is a pure function of the machine state except at `Syscall`
//! instructions, where the host's answer is unconstrained; the contracts
//! state what holds of the machine for every possible answer.

use vstd::prelude::*;

use crate::event::{EventSink, SyscallEvent, SyscallEventModel, VmEvent, VmEventModel};
use crate::instruction::Instruction;
use crate::ops::{Host, HostError, SyscallId};
use crate::registers::{Reg, RegisterFile};
use crate::value::{Value, ValueModel};

verus! {

pub const DEFAULT_REGISTER_COUNT: usize = 32;

#[derive(Clone, Copy, Debug, PartialEq, Eq, Structural)]
pub enum StepOutcome {
    Continued,
    Halted,
}

/// A failed VM step. No failing step corrupts the machine: the instruction
/// pointer is never advanced on failure.
#[derive(Debug, PartialEq)]
pub enum VmError {
    Halted,
    InstructionPointerOutOfBounds { ip: usize, program_len: usize },
    RegisterOutOfBounds { reg: Reg, register_count: usize },
    SyscallWithoutHost { id: SyscallId },
    SyscallFailed { id: SyscallId, error: HostError },
    SyscallResultArityMismatch { id: SyscallId, expected: usize, got: usize },
}

/// All the named registers lie inside a file of `n` registers.
pub open spec fn regs_in_bounds(rs: Seq<Reg>, n: nat) -> bool {
    forall|i: int| 0 <= i < rs.len() ==> (#[trigger] rs[i]).0 < n
}

/// Index of the first out-of-bounds register in `rs` (meaningful only when
/// one exists).
pub open spec fn first_oob(rs: Seq<Reg>, n: nat) -> int
    decreases rs.len(),
{
    if rs.len() == 0 {
        0
    } else if rs[0].0 as nat >= n {
        0
    } else {
        1 + first_oob(rs.drop_first(), n)
    }
}

/// The values of the named registers, in order.
pub open spec fn read_regs(regs: Seq<ValueModel>, rs: Seq<Reg>) -> Seq<ValueModel> {
    Seq::new(rs.len(), |i: int| regs[rs[i].0 as int])
}

/// Writes `vals` into the registers named by `dsts`, positionally, earlier
/// writes first (a later duplicate destination wins).
pub open spec fn write_regs(regs: Seq<ValueModel>, dsts: Seq<Reg>, vals: Seq<ValueModel>) -> Seq<
    ValueModel,
>
    decreases dsts.len(),
{
    if dsts.len() == 0 || vals.len() == 0 {
        regs
    } else {
        write_regs(regs.update(dsts[0].0 as int, vals[0]), dsts.drop_first(), vals.drop_first())
    }
}

/// Before/after views of an attached event sink; `None` when no sink is
/// attached to the step.
pub open spec fn events_unchanged(evs: Option<(Seq<VmEventModel>, Seq<VmEventModel>)>) -> bool {
    evs matches Some(pair) ==> pair.1 == pair.0
}

pub open spec fn events_pushed(
    evs: Option<(Seq<VmEventModel>, Seq<VmEventModel>)>,
    e: VmEventModel,
) -> bool {
    evs matches Some(pair) ==> pair.1 == pair.0.push(e)
}

/// Some register in `rs` names index `i`.
pub open spec fn reg_listed(rs: Seq<Reg>, i: int) -> bool {
    exists|j: int| 0 <= j < rs.len() && (#[trigger] rs[j]).0 == i
}

/// VM state: program, register file, instruction pointer, halt flag.
#[derive(Debug)]
pub struct Vm {
    program: Vec<Instruction>,
    registers: RegisterFile,
    ip: usize,
    halted: bool,
}

impl Vm {
    pub closed spec fn spec_program(&self) -> Seq<Instruction> {
        self.program@
    }

    pub closed spec fn spec_registers(&self) -> Seq<ValueModel> {
        self.registers@
    }

    pub closed spec fn spec_ip(&self) -> int {
        self.ip as int
    }

    pub closed spec fn spec_halted(&self) -> bool {
        self.halted
    }
}

/// The two machines agree on every observable component.
pub open spec fn vm_state_eq(a: Vm, b: Vm) -> bool {
    &&& a.spec_program() == b.spec_program()
    &&& a.spec_registers() == b.spec_registers()
    &&& a.spec_ip() == b.spec_ip()
    &&& a.spec_halted() == b.spec_halted()
}

/// Whether a step of `pre` may write register `i`: only a `Syscall`
/// instruction's result registers are written before a step can fail.
pub open spec fn step_may_write(pre: Vm, i: int) -> bool {
    &&& !pre.spec_halted()
    &&& 0 <= pre.spec_ip() < pre.spec_program().len()
    &&& match pre.spec_program()[pre.spec_ip()] {
        Instruction::Syscall { results, .. } => reg_listed(results@, i),
        _ => false,
    }
}

/// What a `Syscall` instruction step guarantees when a host is attached,
/// whatever the host answers.
pub open spec fn syscall_step_post(
    pre: Vm,
    post: Vm,
    id: SyscallId,
    args: Seq<Reg>,
    results: Seq<Reg>,
    r: Result<StepOutcome, VmError>,
    evs: Option<(Seq<VmEventModel>, Seq<VmEventModel>)>,
) -> bool {
    let n = pre.spec_registers().len();
    if !regs_in_bounds(args, n) {
        &&& r == Err::<StepOutcome, VmError>(
            VmError::RegisterOutOfBounds {
                reg: args[first_oob(args, n)],
                register_count: n as usize,
            },
        )
        &&& vm_state_eq(post, pre)
        &&& events_unchanged(evs)
    } else {
        let vals = read_regs(pre.spec_registers(), args);
        ||| (r matches Err(VmError::SyscallFailed { id: eid, error }) && {
            &&& eid == id
            &&& vm_state_eq(post, pre)
            &&& events_pushed(
                evs,
                VmEventModel::Syscall(
                    SyscallEventModel { id, args: vals, result: Err(error.spec_message()) },
                ),
            )
        })
        ||| (r matches Err(VmError::SyscallResultArityMismatch { id: eid, expected, got }) && {
            &&& eid == id
            &&& expected == results.len()
            &&& got != results.len()
            &&& vm_state_eq(post, pre)
            &&& (evs matches Some(pair) ==> exists|ret: Seq<ValueModel>|
                {
                    &&& (#[trigger] ret.len()) == got
                    &&& pair.1 == pair.0.push(
                        VmEventModel::Syscall(
                            SyscallEventModel { id, args: vals, result: Ok(ret) },
                        ),
                    )
                })
        })
        ||| (exists|ret: Seq<ValueModel>|
            {
                &&& (#[trigger] ret.len()) == results.len()
                &&& events_pushed(
                    evs,
                    VmEventModel::Syscall(SyscallEventModel { id, args: vals, result: Ok(ret) }),
                )
                &&& post.spec_program() == pre.spec_program()
                &&& post.spec_halted() == pre.spec_halted()
                &&& if regs_in_bounds(results, n) {
                    &&& r == Ok::<StepOutcome, VmError>(StepOutcome::Continued)
                    &&& post.spec_registers() == write_regs(pre.spec_registers(), results, ret)
                    &&& post.spec_ip() == pre.spec_ip() + 1
                } else {
                    &&& r == Err::<StepOutcome, VmError>(
                        VmError::RegisterOutOfBounds {
                            reg: results[first_oob(results, n)],
                            register_count: n as usize,
                        },
                    )
                    &&& post.spec_registers() == write_regs(
                        pre.spec_registers(),
                        results.take(first_oob(results, n)),
                        ret.take(first_oob(results, n)),
                    )
                    &&& post.spec_ip() == pre.spec_ip()
                }
            })
    }
}

/// The full step relation when a host is attached. `evs` carries the event
/// sink's before/after views, or `None` when no sink is attached.
pub open spec fn host_step_post(
    pre: Vm,
    post: Vm,
    r: Result<StepOutcome, VmError>,
    evs: Option<(Seq<VmEventModel>, Seq<VmEventModel>)>,
) -> bool {
    let n = pre.spec_registers().len();
    if pre.spec_halted() {
        &&& r == Err::<StepOutcome, VmError>(VmError::Halted)
        &&& vm_state_eq(post, pre)
        &&& events_unchanged(evs)
    } else if pre.spec_ip() >= pre.spec_program().len() {
        &&& r == Err::<StepOutcome, VmError>(
            VmError::InstructionPointerOutOfBounds {
                ip: pre.spec_ip() as usize,
                program_len: pre.spec_program().len() as usize,
            },
        )
        &&& vm_state_eq(post, pre)
        &&& events_unchanged(evs)
    } else {
        match pre.spec_program()[pre.spec_ip()] {
            Instruction::Halt => {
                &&& r == Ok::<StepOutcome, VmError>(StepOutcome::Halted)
                &&& post.spec_program() == pre.spec_program()
                &&& post.spec_registers() == pre.spec_registers()
                &&& post.spec_ip() == pre.spec_ip() + 1
                &&& post.spec_halted()
                &&& events_unchanged(evs)
            },
            Instruction::LoadConst { dst, value } => {
                &&& events_unchanged(evs)
                &&& if dst.0 < n {
                    &&& r == Ok::<StepOutcome, VmError>(StepOutcome::Continued)
                    &&& post.spec_program() == pre.spec_program()
                    &&& post.spec_registers() == pre.spec_registers().update(
                        dst.0 as int,
                        value@,
                    )
                    &&& post.spec_ip() == pre.spec_ip() + 1
                    &&& !post.spec_halted()
                } else {
                    &&& r == Err::<StepOutcome, VmError>(
                        VmError::RegisterOutOfBounds { reg: dst, register_count: n as usize },
                    )
                    &&& vm_state_eq(post, pre)
                }
            },
            Instruction::Mov { dst, src } => {
                &&& events_unchanged(evs)
                &&& if src.0 >= n {
                    &&& r == Err::<StepOutcome, VmError>(
                        VmError::RegisterOutOfBounds { reg: src, register_count: n as usize },
                    )
                    &&& vm_state_eq(post, pre)
                } else if dst.0 >= n {
                    &&& r == Err::<StepOutcome, VmError>(
                        VmError::RegisterOutOfBounds { reg: dst, register_count: n as usize },
                    )
                    &&& vm_state_eq(post, pre)
                } else {
                    &&& r == Ok::<StepOutcome, VmError>(StepOutcome::Continued)
                    &&& post.spec_program() == pre.spec_program()
                    &&& post.spec_registers() == pre.spec_registers().update(
                        dst.0 as int,
                        pre.spec_registers()[src.0 as int],
                    )
                    &&& post.spec_ip() == pre.spec_ip() + 1
                    &&& !post.spec_halted()
                }
            },
            Instruction::Syscall { id, args, results } => syscall_step_post(
                pre,
                post,
                id,
                args@,
                results@,
                r,
                evs,
            ),
        }
    }
}

/// The whole machine as one specification value, for stating what a full
/// run computes.
pub struct MachineState {
    pub program: Seq<Instruction>,
    pub registers: Seq<ValueModel>,
    pub ip: int,
    pub halted: bool,
}

pub open spec fn machine(vm: Vm) -> MachineState {
    MachineState {
        program: vm.spec_program(),
        registers: vm.spec_registers(),
        ip: vm.spec_ip(),
        halted: vm.spec_halted(),
    }
}

/// One hostless step, as a function of the machine state: exactly the
/// behaviour `pure_step_post` relates.
pub open spec fn step_spec(m: MachineState) -> (MachineState, Result<StepOutcome, VmError>) {
    let n = m.registers.len();
    if m.halted {
        (m, Err(VmError::Halted))
    } else if m.ip < 0 || m.ip >= m.program.len() {
        (
            m,
            Err(
                VmError::InstructionPointerOutOfBounds {
                    ip: m.ip as usize,
                    program_len: m.program.len() as usize,
                },
            ),
        )
    } else {
        match m.program[m.ip] {
            Instruction::Halt => (
                MachineState { ip: m.ip + 1, halted: true, ..m },
                Ok(StepOutcome::Halted),
            ),
            Instruction::LoadConst { dst, value } => if dst.0 < n {
                (
                    MachineState {
                        registers: m.registers.update(dst.0 as int, value@),
                        ip: m.ip + 1,
                        ..m
                    },
                    Ok(StepOutcome::Continued),
                )
            } else {
                (m, Err(VmError::RegisterOutOfBounds { reg: dst, register_count: n as usize }))
            },
            Instruction::Mov { dst, src } => if src.0 >= n {
                (m, Err(VmError::RegisterOutOfBounds { reg: src, register_count: n as usize }))
            } else if dst.0 >= n {
                (m, Err(VmError::RegisterOutOfBounds { reg: dst, register_count: n as usize }))
            } else {
                (
                    MachineState {
                        registers: m.registers.update(
                            dst.0 as int,
                            m.registers[src.0 as int],
                        ),
                        ip: m.ip + 1,
                        ..m
                    },
                    Ok(StepOutcome::Continued),
                )
            },
            Instruction::Syscall { id, .. } => (m, Err(VmError::SyscallWithoutHost { id })),
        }
    }
}

/// Hostless execution run to completion: the final machine and the result
/// `run` owes. Every successful step advances the instruction pointer, so
/// the iteration ends after at most `program.len() + 1` steps: with `Ok(())`
/// exactly when a `Halt` instruction executed, else with the first step
/// error, the machine left at the failing state.
pub open spec fn run_spec(m: MachineState) -> (MachineState, Result<(), VmError>)
    decreases m.program.len() - m.ip,
        via run_spec_decreases
{
    if m.halted {
        (m, Ok(()))
    } else {
        let s = step_spec(m);
        match s.1 {
            Err(e) => (m, Err(e)),
            Ok(_) => run_spec(s.0),
        }
    }
}

#[via_fn]
proof fn run_spec_decreases(m: MachineState) {
    if !m.halted {
        let s = step_spec(m);
        if s.1 is Ok {
            assert(0 <= m.ip < m.program.len());
            assert(s.0.program == m.program && s.0.ip == m.ip + 1);
        }
    }
}

/// The program contains no `Syscall` instruction: no outside call can decide
/// the run's outcome.
pub open spec fn program_is_pure(prog: Seq<Instruction>) -> bool {
    forall|i: int| 0 <= i < prog.len() ==> !((#[trigger] prog[i]) is Syscall)
}

/// A hostless step satisfying the step relation computes exactly `step_spec`.
pub proof fn lemma_pure_step_is_step_spec(pre: Vm, post: Vm, r: Result<StepOutcome, VmError>)
    requires
        pure_step_post(pre, post, r),
    ensures
        machine(post) == step_spec(machine(pre)).0,
        r == step_spec(machine(pre)).1,
{
}

/// A with-host step away from any `Syscall` instruction also computes
/// exactly `step_spec`.
pub proof fn lemma_host_step_nonsyscall_is_step_spec(
    pre: Vm,
    post: Vm,
    r: Result<StepOutcome, VmError>,
    evs: Option<(Seq<VmEventModel>, Seq<VmEventModel>)>,
)
    requires
        host_step_post(pre, post, r, evs),
        pre.spec_halted() || !(0 <= pre.spec_ip() < pre.spec_program().len()) || !(
        pre.spec_program()[pre.spec_ip()] is Syscall),
    ensures
        machine(post) == step_spec(machine(pre)).0,
        r == step_spec(machine(pre)).1,
{
}

/// The step relation without a host: a pure function of the machine state.
/// A `Syscall` instruction fails without advancing the instruction pointer.
pub open spec fn pure_step_post(pre: Vm, post: Vm, r: Result<StepOutcome, VmError>) -> bool {
    if pre.spec_halted() || pre.spec_ip() >= pre.spec_program().len() {
        host_step_post(pre, post, r, None)
    } else {
        match pre.spec_program()[pre.spec_ip()] {
            Instruction::Syscall { id, .. } => {
                &&& r == Err::<StepOutcome, VmError>(VmError::SyscallWithoutHost { id })
                &&& vm_state_eq(post, pre)
            },
            _ => host_step_post(pre, post, r, None),
        }
    }
}

proof fn lemma_first_oob_at(rs: Seq<Reg>, n: nat, k: int)
    requires
        0 <= k < rs.len(),
        forall|j: int| 0 <= j < k ==> (#[trigger] rs[j]).0 < n,
        rs[k].0 as nat >= n,
    ensures
        first_oob(rs, n) == k,
    decreases k,
{
    if k > 0 {
        assert(rs[0].0 < n);
        assert forall|j: int| 0 <= j < k - 1 implies (#[trigger] rs.drop_first()[j]).0 < n by {
            assert(rs.drop_first()[j] == rs[j + 1]);
        }
        assert(rs.drop_first()[k - 1].0 as nat >= n);
        lemma_first_oob_at(rs.drop_first(), n, k - 1);
    }
}

proof fn lemma_write_regs_len(regs: Seq<ValueModel>, dsts: Seq<Reg>, vals: Seq<ValueModel>)
    requires
        regs_in_bounds(dsts, regs.len()),
    ensures
        write_regs(regs, dsts, vals).len() == regs.len(),
    decreases dsts.len(),
{
    if dsts.len() != 0 && vals.len() != 0 {
        assert forall|j: int|
            0 <= j < dsts.drop_first().len() implies (#[trigger] dsts.drop_first()[j]).0
            < regs.len() by {
            assert(dsts.drop_first()[j] == dsts[j + 1]);
        }
        lemma_write_regs_len(
            regs.update(dsts[0].0 as int, vals[0]),
            dsts.drop_first(),
            vals.drop_first(),
        );
    }
}

proof fn lemma_write_regs_push(
    regs: Seq<ValueModel>,
    dsts: Seq<Reg>,
    vals: Seq<ValueModel>,
    d: Reg,
    v: ValueModel,
)
    requires
        dsts.len() == vals.len(),
        regs_in_bounds(dsts, regs.len()),
        d.0 < regs.len(),
    ensures
        write_regs(regs, dsts.push(d), vals.push(v)) == write_regs(regs, dsts, vals).update(
            d.0 as int,
            v,
        ),
    decreases dsts.len(),
{
    if dsts.len() == 0 {
        assert(dsts.push(d).drop_first() =~= Seq::<Reg>::empty());
        assert(vals.push(v).drop_first() =~= Seq::<ValueModel>::empty());
        assert(dsts.push(d)[0] == d);
        assert(vals.push(v)[0] == v);
        assert(write_regs(
            regs.update(d.0 as int, v),
            Seq::<Reg>::empty(),
            Seq::<ValueModel>::empty(),
        ) == regs.update(d.0 as int, v));
        assert(write_regs(regs, dsts.push(d), vals.push(v)) == regs.update(d.0 as int, v));
        assert(write_regs(regs, dsts, vals) == regs);
    } else {
        assert(dsts.push(d).drop_first() =~= dsts.drop_first().push(d));
        assert(vals.push(v).drop_first() =~= vals.drop_first().push(v));
        assert(dsts.push(d)[0] == dsts[0]);
        assert(vals.push(v)[0] == vals[0]);
        assert forall|j: int|
            0 <= j < dsts.drop_first().len() implies (#[trigger] dsts.drop_first()[j]).0
            < regs.len() by {
            assert(dsts.drop_first()[j] == dsts[j + 1]);
        }
        lemma_write_regs_push(
            regs.update(dsts[0].0 as int, vals[0]),
            dsts.drop_first(),
            vals.drop_first(),
            d,
            v,
        );
    }
}

fn clone_regs(rs: &Vec<Reg>) -> (r: Vec<Reg>)
    ensures
        r@ == rs@,
{
    let r = rs.clone();
    proof {
        assert(r@ =~= rs@);
    }
    r
}

impl Vm {
    /// A machine over `program` with the default register count.
    pub fn new(program: Vec<Instruction>) -> (r: Vm)
        ensures
            r.spec_program() == program@,
            r.spec_registers().len() == DEFAULT_REGISTER_COUNT,
            forall|i: int|
                0 <= i < DEFAULT_REGISTER_COUNT ==> r.spec_registers()[i] == ValueModel::Unit,
            r.spec_ip() == 0,
            !r.spec_halted(),
    {
        Vm::with_register_count(program, DEFAULT_REGISTER_COUNT)
    }

    /// A machine over `program` with `register_count` registers, all `Unit`,
    /// the instruction pointer at zero, not halted.
    pub fn with_register_count(program: Vec<Instruction>, register_count: usize) -> (r: Vm)
        ensures
            r.spec_program() == program@,
            r.spec_registers().len() == register_count,
            forall|i: int| 0 <= i < register_count ==> r.spec_registers()[i] == ValueModel::Unit,
            r.spec_ip() == 0,
            !r.spec_halted(),
    {
        Vm { program, registers: RegisterFile::new(register_count), ip: 0, halted: false }
    }

    pub fn ip(&self) -> (r: usize)
        ensures
            r == self.spec_ip(),
    {
        self.ip
    }

    pub fn is_halted(&self) -> (r: bool)
        ensures
            r == self.spec_halted(),
    {
        self.halted
    }

    pub fn registers(&self) -> (r: &RegisterFile)
        ensures
            r@ == self.spec_registers(),
    {
        &self.registers
    }

    /// A mutable borrow of the register file; the machine's registers end up
    /// as whatever the caller leaves behind the borrow, everything else
    /// untouched.
    pub fn registers_mut(&mut self) -> (r: &mut RegisterFile)
        ensures
            (*r)@ == old(self).spec_registers(),
            final(self).spec_registers() == (*final(r))@,
            final(self).spec_program() == old(self).spec_program(),
            final(self).spec_ip() == old(self).spec_ip(),
            final(self).spec_halted() == old(self).spec_halted(),
    {
        &mut self.registers
    }

    pub fn read(&self, reg: Reg) -> (r: Result<&Value, VmError>)
        ensures
            reg.0 < self.spec_registers().len() ==> (r matches Ok(v) && v@
                == self.spec_registers()[reg.0 as int]),
            reg.0 >= self.spec_registers().len() ==> r == Err::<&Value, VmError>(
                VmError::RegisterOutOfBounds {
                    reg,
                    register_count: self.spec_registers().len() as usize,
                },
            ),
    {
        self.registers.get(reg)
    }

    pub fn write(&mut self, reg: Reg, value: Value) -> (r: Result<(), VmError>)
        ensures
            final(self).spec_program() == old(self).spec_program(),
            final(self).spec_ip() == old(self).spec_ip(),
            final(self).spec_halted() == old(self).spec_halted(),
            reg.0 < old(self).spec_registers().len() ==> r is Ok && final(self).spec_registers()
                == old(self).spec_registers().update(reg.0 as int, value@),
            reg.0 >= old(self).spec_registers().len() ==> final(self).spec_registers()
                == old(self).spec_registers() && r == Err::<(), VmError>(
                VmError::RegisterOutOfBounds {
                    reg,
                    register_count: old(self).spec_registers().len() as usize,
                },
            ),
    {
        self.registers.set(reg, value)
    }

    /// Reads the values of the argument registers, in order; reports the
    /// first out-of-bounds register.
    fn gather_args(&self, args: &Vec<Reg>) -> (r: Result<Vec<Value>, VmError>)
        ensures
            regs_in_bounds(args@, self.spec_registers().len()) ==> (r matches Ok(v)
                && v.deep_view() == read_regs(self.spec_registers(), args@)),
            !regs_in_bounds(args@, self.spec_registers().len()) ==> r == Err::<Vec<Value>, VmError>(
                VmError::RegisterOutOfBounds {
                    reg: args@[first_oob(args@, self.spec_registers().len())],
                    register_count: self.spec_registers().len() as usize,
                },
            ),
    {
        let mut values: Vec<Value> = Vec::new();
        let mut i: usize = 0;
        while i < args.len()
            invariant
                i <= args@.len(),
                values@.len() == i,
                forall|j: int| 0 <= j < i ==> (#[trigger] args@[j]).0 < self.spec_registers().len(),
                forall|j: int|
                    0 <= j < i ==> #[trigger] values@[j]@ == self.spec_registers()[args@[j].0 as int],
            decreases args@.len() - i,
        {
            let reg = args[i];
            match self.registers.get(reg) {
                Ok(value) => {
                    values.push(value.clone());
                },
                Err(e) => {
                    proof {
                        lemma_first_oob_at(args@, self.spec_registers().len(), i as int);
                    }
                    return Err(e);
                },
            }
            i = i + 1;
        }
        proof {
            assert(values.deep_view() =~= read_regs(self.spec_registers(), args@));
        }
        Ok(values)
    }

    /// Writes returned values into the result registers, positionally; on an
    /// out-of-bounds register, earlier writes stay.
    fn write_results(&mut self, results: &Vec<Reg>, returned: Vec<Value>) -> (r: Result<
        (),
        VmError,
    >)
        requires
            returned@.len() == results@.len(),
        ensures
            final(self).spec_program() == old(self).spec_program(),
            final(self).spec_ip() == old(self).spec_ip(),
            final(self).spec_halted() == old(self).spec_halted(),
            forall|i: int|
                0 <= i < old(self).spec_registers().len() && !reg_listed(results@, i)
                    ==> final(self).spec_registers()[i] == old(self).spec_registers()[i],
            regs_in_bounds(results@, old(self).spec_registers().len()) ==> r is Ok
                && final(self).spec_registers() == write_regs(
                old(self).spec_registers(),
                results@,
                returned.deep_view(),
            ),
            !regs_in_bounds(results@, old(self).spec_registers().len()) ==> r == Err::<
                (),
                VmError,
            >(
                VmError::RegisterOutOfBounds {
                    reg: results@[first_oob(results@, old(self).spec_registers().len())],
                    register_count: old(self).spec_registers().len() as usize,
                },
            ) && final(self).spec_registers() == write_regs(
                old(self).spec_registers(),
                results@.take(first_oob(results@, old(self).spec_registers().len())),
                returned.deep_view().take(
                    first_oob(results@, old(self).spec_registers().len()),
                ),
            ),
    {
        let ghost n = old(self).spec_registers().len();
        let ghost rets = returned.deep_view();
        let mut k: usize = 0;
        proof {
            assert(results@.take(0) =~= Seq::<Reg>::empty());
            assert(rets.take(0) =~= Seq::<ValueModel>::empty());
        }
        while k < results.len()
            invariant
                k <= results@.len(),
                results@.len() == returned@.len(),
                rets == returned.deep_view(),
                rets.len() == returned@.len(),
                n == old(self).spec_registers().len(),
                forall|j: int| 0 <= j < k ==> (#[trigger] results@[j]).0 < n,
                forall|i: int|
                    0 <= i < n && !reg_listed(results@, i) ==> self.spec_registers()[i] == old(
                        self,
                    ).spec_registers()[i],
                self.spec_registers() == write_regs(
                    old(self).spec_registers(),
                    results@.take(k as int),
                    rets.take(k as int),
                ),
                self.spec_program() == old(self).spec_program(),
                self.spec_ip() == old(self).spec_ip(),
                self.spec_halted() == old(self).spec_halted(),
            decreases results@.len() - k,
        {
            proof {
                lemma_write_regs_len(
                    old(self).spec_registers(),
                    results@.take(k as int),
                    rets.take(k as int),
                );
            }
            let reg = results[k];
            let value = returned[k].clone();
            let ghost pre_regs = self.spec_registers();
            match self.registers.set(reg, value) {
                Ok(()) => {
                    proof {
                        lemma_write_regs_push(
                            old(self).spec_registers(),
                            results@.take(k as int),
                            rets.take(k as int),
                            results@[k as int],
                            rets[k as int],
                        );
                        assert(results@.take(k + 1) =~= results@.take(k as int).push(
                            results@[k as int],
                        ));
                        assert(rets.take(k + 1) =~= rets.take(k as int).push(rets[k as int]));
                        assert(reg_listed(results@, results@[k as int].0 as int));
                    }
                },
                Err(e) => {
                    proof {
                        lemma_first_oob_at(results@, n, k as int);
                    }
                    return Err(e);
                },
            }
            k = k + 1;
        }
        proof {
            assert(results@.take(results@.len() as int) =~= results@);
            assert(rets.take(results@.len() as int) =~= rets);
        }
        Ok(())
    }

    /// One step without a host: deterministic; a syscall fails.
    pub fn step(&mut self) -> (r: Result<StepOutcome, VmError>)
        ensures
            pure_step_post(*old(self), *final(self), r),
            r is Err ==> final(self).spec_ip() == old(self).spec_ip()
                && final(self).spec_halted() == old(self).spec_halted(),
            r is Err ==> forall|i: int|
                0 <= i < old(self).spec_registers().len() && !step_may_write(*old(self), i)
                    ==> final(self).spec_registers()[i] == old(self).spec_registers()[i],
    {
        if self.halted {
            return Err(VmError::Halted);
        }
        if self.ip >= self.program.len() {
            return Err(
                VmError::InstructionPointerOutOfBounds {
                    ip: self.ip,
                    program_len: self.program.len(),
                },
            );
        }
        match &self.program[self.ip] {
            Instruction::Halt => {
                self.ip = self.ip + 1;
                self.halted = true;
                Ok(StepOutcome::Halted)
            },
            Instruction::LoadConst { dst, value } => {
                let dst = *dst;
                let value = value.clone();
                match self.registers.set(dst, value) {
                    Ok(()) => {
                        self.ip = self.ip + 1;
                        Ok(StepOutcome::Continued)
                    },
                    Err(e) => Err(e),
                }
            },
            Instruction::Mov { dst, src } => {
                let dst = *dst;
                let src = *src;
                let value = match self.registers.get(src) {
                    Ok(value) => value.clone(),
                    Err(e) => {
                        return Err(e);
                    },
                };
                match self.registers.set(dst, value) {
                    Ok(()) => {
                        self.ip = self.ip + 1;
                        Ok(StepOutcome::Continued)
                    },
                    Err(e) => Err(e),
                }
            },
            Instruction::Syscall { id, .. } => Err(VmError::SyscallWithoutHost { id: *id }),
        }
    }

    /// One step against a host, without an event sink.
    pub fn step_with_host<H: Host<Value>>(&mut self, host: &mut H) -> (r: Result<
        StepOutcome,
        VmError,
    >)
        ensures
            host_step_post(*old(self), *final(self), r, None),
            r is Err ==> final(self).spec_ip() == old(self).spec_ip()
                && final(self).spec_halted() == old(self).spec_halted(),
            r is Err ==> forall|i: int|
                0 <= i < old(self).spec_registers().len() && !step_may_write(*old(self), i)
                    ==> final(self).spec_registers()[i] == old(self).spec_registers()[i],
    {
        if self.halted {
            return Err(VmError::Halted);
        }
        if self.ip >= self.program.len() {
            return Err(
                VmError::InstructionPointerOutOfBounds {
                    ip: self.ip,
                    program_len: self.program.len(),
                },
            );
        }
        match &self.program[self.ip] {
            Instruction::Halt => {
                self.ip = self.ip + 1;
                self.halted = true;
                Ok(StepOutcome::Halted)
            },
            Instruction::LoadConst { dst, value } => {
                let dst = *dst;
                let value = value.clone();
                match self.registers.set(dst, value) {
                    Ok(()) => {
                        self.ip = self.ip + 1;
                        Ok(StepOutcome::Continued)
                    },
                    Err(e) => Err(e),
                }
            },
            Instruction::Mov { dst, src } => {
                let dst = *dst;
                let src = *src;
                let value = match self.registers.get(src) {
                    Ok(value) => value.clone(),
                    Err(e) => {
                        return Err(e);
                    },
                };
                match self.registers.set(dst, value) {
                    Ok(()) => {
                        self.ip = self.ip + 1;
                        Ok(StepOutcome::Continued)
                    },
                    Err(e) => Err(e),
                }
            },
            Instruction::Syscall { id, args, results } => {
                let id = *id;
                let args = clone_regs(args);
                let results = clone_regs(results);
                let values = match self.gather_args(&args) {
                    Ok(values) => values,
                    Err(e) => {
                        return Err(e);
                    },
                };
                match host.syscall(id, values.as_slice()) {
                    Ok(returned) => {
                        if returned.len() != results.len() {
                            return Err(
                                VmError::SyscallResultArityMismatch {
                                    id,
                                    expected: results.len(),
                                    got: returned.len(),
                                },
                            );
                        }
                        let ghost ret = returned.deep_view();
                        match self.write_results(&results, returned) {
                            Ok(()) => {
                                self.ip = self.ip + 1;
                                proof {
                                    assert(ret.len() == results@.len());
                                }
                                Ok(StepOutcome::Continued)
                            },
                            Err(e) => {
                                proof {
                                    assert(ret.len() == results@.len());
                                }
                                Err(e)
                            },
                        }
                    },
                    Err(error) => Err(VmError::SyscallFailed { id, error }),
                }
            },
        }
    }

    /// One step against a host, emitting one event for each syscall that
    /// reaches the host: the event carries the argument values and mirrors
    /// the host's outcome, and is emitted whether or not the step succeeds.
    pub fn step_with_host_and_events<H: Host<Value>, E: EventSink>(
        &mut self,
        host: &mut H,
        events: &mut E,
    ) -> (r: Result<StepOutcome, VmError>)
        ensures
            host_step_post(
                *old(self),
                *final(self),
                r,
                Some((old(events).events(), final(events).events())),
            ),
            r is Err ==> final(self).spec_ip() == old(self).spec_ip()
                && final(self).spec_halted() == old(self).spec_halted(),
            r is Err ==> forall|i: int|
                0 <= i < old(self).spec_registers().len() && !step_may_write(*old(self), i)
                    ==> final(self).spec_registers()[i] == old(self).spec_registers()[i],
    {
        if self.halted {
            return Err(VmError::Halted);
        }
        if self.ip >= self.program.len() {
            return Err(
                VmError::InstructionPointerOutOfBounds {
                    ip: self.ip,
                    program_len: self.program.len(),
                },
            );
        }
        match &self.program[self.ip] {
            Instruction::Halt => {
                self.ip = self.ip + 1;
                self.halted = true;
                Ok(StepOutcome::Halted)
            },
            Instruction::LoadConst { dst, value } => {
                let dst = *dst;
                let value = value.clone();
                match self.registers.set(dst, value) {
                    Ok(()) => {
                        self.ip = self.ip + 1;
                        Ok(StepOutcome::Continued)
                    },
                    Err(e) => Err(e),
                }
            },
            Instruction::Mov { dst, src } => {
                let dst = *dst;
                let src = *src;
                let value = match self.registers.get(src) {
                    Ok(value) => value.clone(),
                    Err(e) => {
                        return Err(e);
                    },
                };
                match self.registers.set(dst, value) {
                    Ok(()) => {
                        self.ip = self.ip + 1;
                        Ok(StepOutcome::Continued)
                    },
                    Err(e) => Err(e),
                }
            },
            Instruction::Syscall { id, args, results } => {
                let id = *id;
                let args = clone_regs(args);
                let results = clone_regs(results);
                let values = match self.gather_args(&args) {
                    Ok(values) => values,
                    Err(e) => {
                        return Err(e);
                    },
                };
                match host.syscall(id, values.as_slice()) {
                    Ok(returned) => {
                        let ghost ret = returned.deep_view();
                        let event_result = clone_values(&returned);
                        events.emit(
                            VmEvent::Syscall(
                                SyscallEvent { id, args: values, result: Ok(event_result) },
                            ),
                        );
                        if returned.len() != results.len() {
                            proof {
                                assert(ret.len() == returned@.len());
                            }
                            return Err(
                                VmError::SyscallResultArityMismatch {
                                    id,
                                    expected: results.len(),
                                    got: returned.len(),
                                },
                            );
                        }
                        match self.write_results(&results, returned) {
                            Ok(()) => {
                                self.ip = self.ip + 1;
                                proof {
                                    assert(ret.len() == results@.len());
                                }
                                Ok(StepOutcome::Continued)
                            },
                            Err(e) => {
                                proof {
                                    assert(ret.len() == results@.len());
                                }
                                Err(e)
                            },
                        }
                    },
                    Err(error) => {
                        events.emit(
                            VmEvent::Syscall(
                                SyscallEvent { id, args: values, result: Err(error.clone()) },
                            ),
                        );
                        Err(VmError::SyscallFailed { id, error })
                    },
                }
            },
        }
    }

    /// Runs without a host until the machine halts or a step fails: the
    /// outcome and the final machine are exactly what `run_spec` computes
    /// from the starting state, so execution is a pure function of program
    /// and registers, and `Ok` is owed exactly when a `Halt` executes.
    pub fn run(&mut self) -> (r: Result<(), VmError>)
        ensures
            machine(*final(self)) == run_spec(machine(*old(self))).0,
            r == run_spec(machine(*old(self))).1,
            final(self).spec_program() == old(self).spec_program(),
            r is Ok ==> final(self).spec_halted(),
            r matches Err(e) ==> !final(self).spec_halted() && e != VmError::Halted,
    {
        while !self.halted
            invariant
                self.spec_program() == old(self).spec_program(),
                run_spec(machine(*self)) == run_spec(machine(*old(self))),
            decreases self.spec_program().len() - self.spec_ip(),
        {
            let ghost pre = *self;
            match self.step() {
                Ok(o) => {
                    proof {
                        lemma_pure_step_is_step_spec(pre, *self, Ok(o));
                    }
                },
                Err(e) => {
                    proof {
                        lemma_pure_step_is_step_spec(pre, *self, Err(e));
                    }
                    return Err(e);
                },
            }
        }
        Ok(())
    }

    /// Runs against a host until the machine halts or a step fails. On a
    /// program without `Syscall` instructions no outside call decides, and
    /// the outcome is exactly the hostless `run_spec`.
    pub fn run_with_host<H: Host<Value>>(&mut self, host: &mut H) -> (r: Result<(), VmError>)
        ensures
            final(self).spec_program() == old(self).spec_program(),
            r is Ok ==> final(self).spec_halted(),
            r matches Err(e) ==> !final(self).spec_halted() && e != VmError::Halted,
            program_is_pure(old(self).spec_program()) ==> machine(*final(self)) == run_spec(
                machine(*old(self)),
            ).0 && r == run_spec(machine(*old(self))).1,
    {
        while !self.halted
            invariant
                self.spec_program() == old(self).spec_program(),
                program_is_pure(old(self).spec_program()) ==> run_spec(machine(*self))
                    == run_spec(machine(*old(self))),
            decreases self.spec_program().len() - self.spec_ip(),
        {
            let ghost pre = *self;
            match self.step_with_host(host) {
                Ok(o) => {
                    proof {
                        if program_is_pure(old(self).spec_program()) {
                            lemma_host_step_nonsyscall_is_step_spec(pre, *self, Ok(o), None);
                        }
                    }
                },
                Err(e) => {
                    proof {
                        if program_is_pure(old(self).spec_program()) {
                            lemma_host_step_nonsyscall_is_step_spec(pre, *self, Err(e), None);
                        }
                    }
                    return Err(e);
                },
            }
        }
        Ok(())
    }

    /// Runs against a host with an event sink; the sink only ever grows, one
    /// event per syscall that reached the host. On a program without
    /// `Syscall` instructions the outcome is exactly the hostless `run_spec`
    /// and no event is emitted.
    pub fn run_with_host_and_events<H: Host<Value>, E: EventSink>(
        &mut self,
        host: &mut H,
        events: &mut E,
    ) -> (r: Result<(), VmError>)
        ensures
            final(self).spec_program() == old(self).spec_program(),
            r is Ok ==> final(self).spec_halted(),
            r matches Err(e) ==> !final(self).spec_halted() && e != VmError::Halted,
            old(events).events().is_prefix_of(final(events).events()),
            program_is_pure(old(self).spec_program()) ==> machine(*final(self)) == run_spec(
                machine(*old(self)),
            ).0 && r == run_spec(machine(*old(self))).1 && final(events).events() == old(
                events,
            ).events(),
    {
        while !self.halted
            invariant
                self.spec_program() == old(self).spec_program(),
                old(events).events().is_prefix_of(events.events()),
                program_is_pure(old(self).spec_program()) ==> run_spec(machine(*self))
                    == run_spec(machine(*old(self))) && events.events() == old(events).events(),
            decreases self.spec_program().len() - self.spec_ip(),
        {
            let ghost pre = *self;
            let ghost pre_events = events.events();
            match self.step_with_host_and_events(host, events) {
                Ok(o) => {
                    proof {
                        if program_is_pure(old(self).spec_program()) {
                            lemma_host_step_nonsyscall_is_step_spec(
                                pre,
                                *self,
                                Ok(o),
                                Some((pre_events, events.events())),
                            );
                        }
                    }
                },
                Err(e) => {
                    proof {
                        if program_is_pure(old(self).spec_program()) {
                            lemma_host_step_nonsyscall_is_step_spec(
                                pre,
                                *self,
                                Err(e),
                                Some((pre_events, events.events())),
                            );
                        }
                    }
                    return Err(e);
                },
            }
        }
        Ok(())
    }
}

/// Without a host, stepping is deterministic: for one starting state the
/// step relation admits exactly one outcome and one next state.
pub proof fn lemma_pure_step_deterministic(
    pre: Vm,
    post_a: Vm,
    post_b: Vm,
    r_a: Result<StepOutcome, VmError>,
    r_b: Result<StepOutcome, VmError>,
)
    requires
        pure_step_post(pre, post_a, r_a),
        pure_step_post(pre, post_b, r_b),
    ensures
        r_a == r_b,
        vm_state_eq(post_a, post_b),
{
}

fn clone_values(values: &Vec<Value>) -> (r: Vec<Value>)
    ensures
        r.deep_view() == values.deep_view(),
{
    let mut out: Vec<Value> = Vec::new();
    let mut i: usize = 0;
    while i < values.len()
        invariant
            i <= values@.len(),
            out@.len() == i,
            forall|j: int| 0 <= j < i ==> #[trigger] out@[j]@ == values@[j]@,
        decreases values@.len() - i,
    {
        out.push(values[i].clone());
        i = i + 1;
    }
    proof {
        assert(out.deep_view() =~= values.deep_view());
    }
    out
}

} // verus!
