//! The execution engine: a value store, a program counter, and one
//! dispatch step per instruction.
//!
//! The engine performs no floating-point work and no input/output.
//! Whenever an instruction needs either, `step` pauses the machine with
//! an explicit [`Effect`] and the caller hands the outcome back through
//! the matching `provide_*` method: IEEE-754 arithmetic, comparison and
//! formatting of `Number` bit patterns, the next key event, and the
//! delivery of flushed output all happen in the environment.

use vstd::prelude::*;
use vstd::string::StringExecFns;

use crate::value::Inst;
use crate::value::InstModel;
use crate::value::ValModel;
use crate::value::Value;
use crate::value::VmError;
use crate::value::resolve_in;
use crate::value::text_of;
use crate::value::vals_eq;
use crate::value::value_eq;
use crate::value::want_addr;
use crate::value::want_jump;
use crate::value::want_num;

verus! {

/// The four IEEE-754 operations the engine asks its environment for.
#[derive(Debug, Clone, Copy, PartialEq, Eq, Structural)]
pub enum ArithOp {
    Add,
    Sub,
    Mul,
    Div,
}

/// What the machine is waiting for, if anything.
#[derive(Debug)]
pub enum Mode {
    /// Ready to execute the instruction at the program counter.
    Ready,
    /// Waiting for an arithmetic result to store at `addr`.
    AwaitNum { addr: u64 },
    /// Waiting for a comparison outcome; `negate` inverts it, and a
    /// taken branch jumps to `target` (which must be a raw `Uint`).
    AwaitCond { negate: bool, target: Option<Value> },
    /// Waiting for the text form of a `Number` to print.
    AwaitText,
    /// Waiting for a key event to store at `base .. base + 4`.
    AwaitKey { base: u64 },
}

/// Mathematical model of [`Mode`].
#[verifier::ext_equal]
pub enum ModeModel {
    Ready,
    AwaitNum { addr: u64 },
    AwaitCond { negate: bool, target: Option<ValModel> },
    AwaitText,
    AwaitKey { base: u64 },
}

impl View for Mode {
    type V = ModeModel;

    open spec fn view(&self) -> ModeModel {
        match self {
            Mode::Ready => ModeModel::Ready,
            Mode::AwaitNum { addr } => ModeModel::AwaitNum { addr: *addr },
            Mode::AwaitCond { negate, target } => ModeModel::AwaitCond {
                negate: *negate,
                target: target.deep_view(),
            },
            Mode::AwaitText => ModeModel::AwaitText,
            Mode::AwaitKey { base } => ModeModel::AwaitKey { base: *base },
        }
    }
}

/// What a `step` asks of the environment.
#[derive(Debug)]
pub enum Effect {
    /// The instruction completed on its own.
    Quiet,
    /// Apply `op` to the doubles with bit patterns `cur` and `arg`;
    /// answer with `provide_num`.
    NeedArith { op: ArithOp, cur: u64, arg: u64 },
    /// IEEE-754 equality of the doubles `a` and `b`; answer with
    /// `provide_cond`.
    NeedEq { a: u64, b: u64 },
    /// IEEE-754 `a > b`; answer with `provide_cond`.
    NeedGt { a: u64, b: u64 },
    /// IEEE-754 `a < b`; answer with `provide_cond`.
    NeedLt { a: u64, b: u64 },
    /// The standard text of the double with bit pattern `bits`; answer
    /// with `provide_text`.
    NeedText { bits: u64 },
    /// The next key event; answer with `provide_key`.
    NeedKey,
    /// Deliver `text` (the whole buffered output) to the output sink
    /// and force it out.
    Flush { text: String },
}

/// Mathematical model of [`Effect`].
#[verifier::ext_equal]
pub enum EffectModel {
    Quiet,
    NeedArith { op: ArithOp, cur: u64, arg: u64 },
    NeedEq { a: u64, b: u64 },
    NeedGt { a: u64, b: u64 },
    NeedLt { a: u64, b: u64 },
    NeedText { bits: u64 },
    NeedKey,
    Flush { text: Seq<char> },
}

impl View for Effect {
    type V = EffectModel;

    open spec fn view(&self) -> EffectModel {
        match self {
            Effect::Quiet => EffectModel::Quiet,
            Effect::NeedArith { op, cur, arg } => EffectModel::NeedArith {
                op: *op,
                cur: *cur,
                arg: *arg,
            },
            Effect::NeedEq { a, b } => EffectModel::NeedEq { a: *a, b: *b },
            Effect::NeedGt { a, b } => EffectModel::NeedGt { a: *a, b: *b },
            Effect::NeedLt { a, b } => EffectModel::NeedLt { a: *a, b: *b },
            Effect::NeedText { bits } => EffectModel::NeedText { bits: *bits },
            Effect::NeedKey => EffectModel::NeedKey,
            Effect::Flush { text } => EffectModel::Flush { text: text@ },
        }
    }
}

/// Mathematical model of the whole machine.
#[verifier::ext_equal]
pub struct MachineModel {
    pub insts: Seq<InstModel>,
    pub store: Seq<ValModel>,
    pub pc: u64,
    pub out: Seq<char>,
    pub mode: ModeModel,
}

impl MachineModel {
    /// Internal consistency: a paused machine still points at the
    /// paused instruction, and every address it is waiting to write is
    /// in bounds.
    pub open spec fn wf(self) -> bool {
        &&& (!(self.mode is Ready) ==> self.pc < self.insts.len())
        &&& (self.mode matches ModeModel::AwaitNum { addr } ==> addr < self.store.len())
        &&& (self.mode matches ModeModel::AwaitKey { base } ==> base + 4 < self.store.len())
    }
}

/// Execution is over exactly when the program counter has reached the
/// instruction count.
pub open spec fn spec_halted(m: MachineModel) -> bool {
    m.pc >= m.insts.len()
}

/// The machine freshly loaded with an instruction sequence: empty
/// store, program counter zero, empty output buffer, ready to run.
pub open spec fn loaded(insts: Seq<InstModel>) -> MachineModel {
    MachineModel {
        insts: insts,
        store: Seq::empty(),
        pc: 0,
        out: Seq::empty(),
        mode: ModeModel::Ready,
    }
}

/// Argument `j` of an instruction, or the arity error.
pub open spec fn spec_arg(inst: InstModel, j: int) -> Result<ValModel, VmError> {
    if 0 <= j < inst.args.len() {
        Ok(inst.args[j])
    } else {
        Err(VmError::MissingArg)
    }
}

/// Argument `j`, if present.
pub open spec fn spec_opt_arg(inst: InstModel, j: int) -> Option<ValModel> {
    if 0 <= j < inst.args.len() {
        Some(inst.args[j])
    } else {
        None
    }
}

/// Argument `j` of the current instruction, transitively dereferenced
/// in the store.
pub open spec fn spec_arg_resolved(m: MachineModel, j: int) -> Result<ValModel, VmError> {
    match spec_arg(m.insts[m.pc as int], j) {
        Err(e) => Err(e),
        Ok(a) => resolve_in(m.store, a),
    }
}

/// The machine after the current instruction completed, with the
/// program counter advanced past it.
pub open spec fn advance(m: MachineModel) -> MachineModel {
    MachineModel { pc: (m.pc + 1) as u64, mode: ModeModel::Ready, ..m }
}

/// The arithmetic operation selected by opcodes 2 through 5.
pub open spec fn arith_op_of(opcode: u8) -> ArithOp {
    if opcode == 2 {
        ArithOp::Add
    } else if opcode == 3 {
        ArithOp::Sub
    } else if opcode == 4 {
        ArithOp::Mul
    } else {
        ArithOp::Div
    }
}

/// Opcode 0: append the resolved argument to the store; its address is
/// the prior store length.
pub open spec fn step_declare(m: MachineModel) -> Result<(MachineModel, EffectModel), VmError> {
    match spec_arg_resolved(m, 0) {
        Err(e) => Err(e),
        Ok(v) => Ok((advance(MachineModel { store: m.store.push(v), ..m }), EffectModel::Quiet)),
    }
}

/// Opcode 1: overwrite the store at the address named by argument 0
/// with resolved argument 1.
pub open spec fn step_set(m: MachineModel) -> Result<(MachineModel, EffectModel), VmError> {
    let inst = m.insts[m.pc as int];
    match spec_arg(inst, 0) {
        Err(e) => Err(e),
        Ok(a0) => match want_addr(a0) {
            Err(e) => Err(e),
            Ok(addr) => match spec_arg_resolved(m, 1) {
                Err(e) => Err(e),
                Ok(v) => if addr >= m.store.len() {
                    Err(VmError::OutOfBounds)
                } else {
                    Ok(
                        (
                            advance(MachineModel { store: m.store.update(addr as int, v), ..m }),
                            EffectModel::Quiet,
                        ),
                    )
                },
            },
        },
    }
}

/// Opcodes 2-5: read the current `Number` at the target address and the
/// resolved `Number` argument, then pause for the IEEE-754 result.
pub open spec fn step_arith(m: MachineModel) -> Result<(MachineModel, EffectModel), VmError> {
    let inst = m.insts[m.pc as int];
    match spec_arg(inst, 0) {
        Err(e) => Err(e),
        Ok(a0) => match want_addr(a0) {
            Err(e) => Err(e),
            Ok(addr) => if addr >= m.store.len() {
                Err(VmError::OutOfBounds)
            } else {
                match resolve_in(m.store, m.store[addr as int]) {
                    Err(e) => Err(e),
                    Ok(cur) => match want_num(cur) {
                        Err(e) => Err(e),
                        Ok(x) => match spec_arg_resolved(m, 1) {
                            Err(e) => Err(e),
                            Ok(rhs) => match want_num(rhs) {
                                Err(e) => Err(e),
                                Ok(y) => Ok(
                                    (
                                        MachineModel { mode: ModeModel::AwaitNum { addr }, ..m },
                                        EffectModel::NeedArith {
                                            op: arith_op_of(inst.opcode),
                                            cur: x,
                                            arg: y,
                                        },
                                    ),
                                ),
                            },
                        },
                    },
                }
            },
        },
    }
}

/// Opcode 6: unconditional absolute jump; the raw argument must be a
/// raw `Uint`.
pub open spec fn step_jump(m: MachineModel) -> Result<(MachineModel, EffectModel), VmError> {
    let inst = m.insts[m.pc as int];
    match spec_arg(inst, 0) {
        Err(e) => Err(e),
        Ok(a0) => match want_jump(a0) {
            Err(e) => Err(e),
            Ok(t) => Ok(
                (MachineModel { pc: t, mode: ModeModel::Ready, ..m }, EffectModel::Quiet),
            ),
        },
    }
}

/// The branch outcome shared by the conditional jumps: when taken, the
/// third (raw) argument is the absolute target.
pub open spec fn spec_branch(m: MachineModel, take: bool) -> Result<
    (MachineModel, EffectModel),
    VmError,
> {
    let inst = m.insts[m.pc as int];
    if take {
        match spec_arg(inst, 2) {
            Err(e) => Err(e),
            Ok(t) => match want_jump(t) {
                Err(e) => Err(e),
                Ok(u) => Ok(
                    (MachineModel { pc: u, mode: ModeModel::Ready, ..m }, EffectModel::Quiet),
                ),
            },
        }
    } else {
        Ok((advance(m), EffectModel::Quiet))
    }
}

/// Opcodes 7 and 8: structural equality of the two resolved arguments.
/// When both are `Number`s their bit patterns go to the environment for
/// IEEE-754 equality; every other pairing is decided here.
pub open spec fn step_eq_jump(m: MachineModel) -> Result<(MachineModel, EffectModel), VmError> {
    let inst = m.insts[m.pc as int];
    match spec_arg_resolved(m, 0) {
        Err(e) => Err(e),
        Ok(av) => match spec_arg_resolved(m, 1) {
            Err(e) => Err(e),
            Ok(bv) => match (av, bv) {
                (ValModel::Num(x), ValModel::Num(y)) => Ok(
                    (
                        MachineModel {
                            mode: ModeModel::AwaitCond {
                                negate: inst.opcode == 8,
                                target: spec_opt_arg(inst, 2),
                            },
                            ..m
                        },
                        EffectModel::NeedEq { a: x, b: y },
                    ),
                ),
                (a2, b2) => spec_branch(m, vals_eq(a2, b2) != (inst.opcode == 8)),
            },
        },
    }
}

/// Opcodes 9 and 10: numeric ordering of the two resolved arguments,
/// decided by the environment's IEEE-754 comparison.
pub open spec fn step_cmp_jump(m: MachineModel) -> Result<(MachineModel, EffectModel), VmError> {
    let inst = m.insts[m.pc as int];
    match spec_arg_resolved(m, 0) {
        Err(e) => Err(e),
        Ok(av) => match want_num(av) {
            Err(e) => Err(e),
            Ok(x) => match spec_arg_resolved(m, 1) {
                Err(e) => Err(e),
                Ok(bv) => match want_num(bv) {
                    Err(e) => Err(e),
                    Ok(y) => Ok(
                        (
                            MachineModel {
                                mode: ModeModel::AwaitCond {
                                    negate: false,
                                    target: spec_opt_arg(inst, 2),
                                },
                                ..m
                            },
                            if inst.opcode == 9 {
                                EffectModel::NeedGt { a: x, b: y }
                            } else {
                                EffectModel::NeedLt { a: x, b: y }
                            },
                        ),
                    ),
                },
            },
        },
    }
}

/// Opcode 253: check the five target addresses and pause for the next
/// key event.
pub open spec fn step_read_key(m: MachineModel) -> Result<(MachineModel, EffectModel), VmError> {
    let inst = m.insts[m.pc as int];
    match spec_arg(inst, 0) {
        Err(e) => Err(e),
        Ok(a0) => match want_addr(a0) {
            Err(e) => Err(e),
            Ok(base) => if base + 4 < m.store.len() {
                Ok(
                    (
                        MachineModel { mode: ModeModel::AwaitKey { base }, ..m },
                        EffectModel::NeedKey,
                    ),
                )
            } else {
                Err(VmError::OutOfBounds)
            },
        },
    }
}

/// Opcode 254: append the resolved argument's canonical text to the
/// output buffer; a `Number`'s text comes from the environment.
pub open spec fn step_print(m: MachineModel) -> Result<(MachineModel, EffectModel), VmError> {
    match spec_arg_resolved(m, 0) {
        Err(e) => Err(e),
        Ok(v) => match v {
            ValModel::Num(x) => Ok(
                (
                    MachineModel { mode: ModeModel::AwaitText, ..m },
                    EffectModel::NeedText { bits: x },
                ),
            ),
            other => Ok(
                (advance(MachineModel { out: m.out + text_of(other), ..m }), EffectModel::Quiet),
            ),
        },
    }
}

/// Opcode 255: hand the whole buffered output to the environment for
/// forced delivery; the buffer empties.
pub open spec fn step_flush(m: MachineModel) -> Result<(MachineModel, EffectModel), VmError> {
    Ok(
        (
            advance(MachineModel { out: Seq::empty(), ..m }),
            EffectModel::Flush { text: m.out },
        ),
    )
}

/// One dispatch step of the engine on a ready, non-halted machine:
/// fetch the instruction at the program counter, apply its effect, and
/// either complete it (advancing the counter) or pause for the
/// environment.  Unknown opcodes are explicitly ignored.
pub open spec fn step_spec(m: MachineModel) -> Result<(MachineModel, EffectModel), VmError>
    recommends
        m.mode is Ready,
        !spec_halted(m),
{
    let opcode = m.insts[m.pc as int].opcode;
    if opcode == 0 {
        step_declare(m)
    } else if opcode == 1 {
        step_set(m)
    } else if 2 <= opcode && opcode <= 5 {
        step_arith(m)
    } else if opcode == 6 {
        step_jump(m)
    } else if opcode == 7 || opcode == 8 {
        step_eq_jump(m)
    } else if opcode == 9 || opcode == 10 {
        step_cmp_jump(m)
    } else if opcode == 253 {
        step_read_key(m)
    } else if opcode == 254 {
        step_print(m)
    } else if opcode == 255 {
        step_flush(m)
    } else {
        Ok((advance(m), EffectModel::Quiet))
    }
}

/// The machine after an arithmetic result arrives: the bit pattern is
/// stored as a `Number` at the waiting address and the counter moves on.
pub open spec fn provide_num_spec(m: MachineModel, bits: u64) -> MachineModel {
    match m.mode {
        ModeModel::AwaitNum { addr } => advance(
            MachineModel { store: m.store.update(addr as int, ValModel::Num(bits)), ..m },
        ),
        _ => m,
    }
}

/// The machine after a comparison outcome arrives: a taken branch jumps
/// to the pending raw `Uint` target, otherwise the counter moves on.
pub open spec fn provide_cond_spec(m: MachineModel, c: bool) -> Result<MachineModel, VmError> {
    match m.mode {
        ModeModel::AwaitCond { negate, target } => if c != negate {
            match target {
                None => Err(VmError::MissingArg),
                Some(t) => match want_jump(t) {
                    Err(e) => Err(e),
                    Ok(u) => Ok(MachineModel { pc: u, mode: ModeModel::Ready, ..m }),
                },
            }
        } else {
            Ok(advance(m))
        },
        _ => Ok(m),
    }
}

/// The machine after a `Number`'s text arrives: it joins the output
/// buffer and the counter moves on.
pub open spec fn provide_text_spec(m: MachineModel, text: Seq<char>) -> MachineModel {
    match m.mode {
        ModeModel::AwaitText => advance(MachineModel { out: m.out + text, ..m }),
        _ => m,
    }
}

/// The machine after a key event arrives: the byte count is stored at
/// the waiting base address as a raw `Uint`, the four raw bytes follow
/// it as `Byte` values, and the counter moves on.
pub open spec fn provide_key_spec(
    m: MachineModel,
    count: u64,
    k0: u8,
    k1: u8,
    k2: u8,
    k3: u8,
) -> MachineModel {
    match m.mode {
        ModeModel::AwaitKey { base } => advance(
            MachineModel {
                store: m.store.update(base as int, ValModel::Uint(count)).update(
                    base as int + 1,
                    ValModel::Byte(k0),
                ).update(base as int + 2, ValModel::Byte(k1)).update(
                    base as int + 3,
                    ValModel::Byte(k2),
                ).update(base as int + 4, ValModel::Byte(k3)),
                ..m
            },
        ),
        _ => m,
    }
}

/// The execution engine: the instruction sequence (immutable after
/// loading), the append-only value store, the program counter, the
/// unflushed output buffer, and what the machine is waiting for.
#[derive(Debug)]
pub struct Machine {
    insts: Vec<Inst>,
    store: Vec<Value>,
    pc: u64,
    out: String,
    mode: Mode,
}

impl View for Machine {
    type V = MachineModel;

    closed spec fn view(&self) -> MachineModel {
        MachineModel {
            insts: self.insts.deep_view(),
            store: self.store.deep_view(),
            pc: self.pc,
            out: self.out@,
            mode: self.mode@,
        }
    }
}

impl Machine {
    /// Load an instruction sequence into a fresh machine.
    pub fn new(insts: Vec<Inst>) -> (r: Machine)
        ensures
            r@ == loaded(insts.deep_view()),
            r@.wf(),
    {
        let r = Machine {
            insts,
            store: Vec::new(),
            pc: 0,
            out: String::new(),
            mode: Mode::Ready,
        };
        proof {
            assert(r@ =~~= loaded(r.insts.deep_view()));
        }
        r
    }

    /// The program counter.
    pub fn pc(&self) -> (r: u64)
        ensures
            r == self@.pc,
    {
        self.pc
    }

    /// Whether execution is over: the program counter has reached the
    /// instruction count.
    pub fn halted(&self) -> (r: bool)
        ensures
            r == spec_halted(self@),
    {
        self.pc >= self.insts.len() as u64
    }

    /// Whether the machine is ready to step (not paused on an effect).
    pub fn ready(&self) -> (r: bool)
        ensures
            r == (self@.mode is Ready),
    {
        match &self.mode {
            Mode::Ready => true,
            _ => false,
        }
    }

    /// The value stored at `addr`, if that address has been declared.
    pub fn load(&self, addr: u64) -> (r: Option<Value>)
        ensures
            match r {
                Some(v) => addr < self@.store.len() && v@ == self@.store[addr as int],
                None => addr >= self@.store.len(),
            },
    {
        if addr < self.store.len() as u64 {
            Some(self.store[addr as usize].dup())
        } else {
            None
        }
    }

    /// The output text buffered so far and not yet flushed.
    pub fn pending_out(&self) -> (r: &String)
        ensures
            r@ == self@.out,
    {
        &self.out
    }

    /// Argument `j` of the current instruction.
    fn cur_arg(&self, j: usize) -> (r: Result<Value, VmError>)
        requires
            self@.pc < self@.insts.len(),
        ensures
            match r {
                Ok(v) => spec_arg(self@.insts[self@.pc as int], j as int) == Ok::<
                    ValModel,
                    VmError,
                >(v@),
                Err(e) => spec_arg(self@.insts[self@.pc as int], j as int) == Err::<
                    ValModel,
                    VmError,
                >(e),
            },
    {
        let _n = self.insts.len();
        proof {
            assert(self@.insts[self@.pc as int] == self.insts@[self@.pc as int]@);
        }
        let inst = &self.insts[self.pc as usize];
        if j < inst.args.len() {
            let v = inst.args[j].dup();
            proof {
                assert(inst@.args[j as int] == inst.args@[j as int]@);
            }
            Ok(v)
        } else {
            Err(VmError::MissingArg)
        }
    }

    /// Argument `j` of the current instruction, if present.
    fn cur_arg_opt(&self, j: usize) -> (r: Option<Value>)
        requires
            self@.pc < self@.insts.len(),
        ensures
            r.deep_view() == spec_opt_arg(self@.insts[self@.pc as int], j as int),
    {
        let _n = self.insts.len();
        proof {
            assert(self@.insts[self@.pc as int] == self.insts@[self@.pc as int]@);
        }
        let inst = &self.insts[self.pc as usize];
        if j < inst.args.len() {
            let v = inst.args[j].dup();
            proof {
                assert(inst@.args[j as int] == inst.args@[j as int]@);
            }
            Some(v)
        } else {
            None
        }
    }

    /// Argument `j` of the current instruction, transitively
    /// dereferenced in the store.
    fn cur_arg_resolved(&self, j: usize) -> (r: Result<Value, VmError>)
        requires
            self@.pc < self@.insts.len(),
        ensures
            match r {
                Ok(v) => spec_arg_resolved(self@, j as int) == Ok::<ValModel, VmError>(v@),
                Err(e) => spec_arg_resolved(self@, j as int) == Err::<ValModel, VmError>(e),
            },
    {
        match self.cur_arg(j) {
            Err(e) => Err(e),
            Ok(a) => a.get(&self.store),
        }
    }

    /// One dispatch step; see [`step_spec`].  On an error the machine
    /// is left unchanged, and the caller is expected to abort.
    pub fn step(&mut self) -> (r: Result<Effect, VmError>)
        requires
            old(self)@.wf(),
            old(self)@.mode is Ready,
            !spec_halted(old(self)@),
        ensures
            match step_spec(old(self)@) {
                Ok((m2, eff)) => r matches Ok(e) && e@ == eff && final(self)@ == m2 && final(self)@.wf(),
                Err(er) => r matches Err(e) && e == er && final(self)@ == old(self)@,
            },
    {
        let _n = self.insts.len();
        proof {
            assert(self@.insts[self@.pc as int] == self.insts@[self@.pc as int]@);
        }
        let opcode = self.insts[self.pc as usize].opcode;
        if opcode == 0 {
            let v = match self.cur_arg_resolved(0) {
                Ok(v) => v,
                Err(e) => return Err(e),
            };
            self.store.push(v);
            self.pc = self.pc + 1;
            proof {
                assert(self@ =~~= step_spec(old(self)@)->Ok_0.0);
            }
            Ok(Effect::Quiet)
        } else if opcode == 1 {
            let a0 = match self.cur_arg(0) {
                Ok(v) => v,
                Err(e) => return Err(e),
            };
            let addr = match a0.as_pointer() {
                Ok(a) => a,
                Err(e) => return Err(e),
            };
            let v = match self.cur_arg_resolved(1) {
                Ok(v) => v,
                Err(e) => return Err(e),
            };
            if addr >= self.store.len() as u64 {
                return Err(VmError::OutOfBounds);
            }
            self.store[addr as usize] = v;
            self.pc = self.pc + 1;
            proof {
                assert(self@ =~~= step_spec(old(self)@)->Ok_0.0);
            }
            Ok(Effect::Quiet)
        } else if 2 <= opcode && opcode <= 5 {
            let a0 = match self.cur_arg(0) {
                Ok(v) => v,
                Err(e) => return Err(e),
            };
            let addr = match a0.as_pointer() {
                Ok(a) => a,
                Err(e) => return Err(e),
            };
            if addr >= self.store.len() as u64 {
                return Err(VmError::OutOfBounds);
            }
            let cur = match self.store[addr as usize].get(&self.store) {
                Ok(v) => v,
                Err(e) => return Err(e),
            };
            let x = match cur.as_num() {
                Ok(n) => n,
                Err(e) => return Err(e),
            };
            let rhs = match self.cur_arg_resolved(1) {
                Ok(v) => v,
                Err(e) => return Err(e),
            };
            let y = match rhs.as_num() {
                Ok(n) => n,
                Err(e) => return Err(e),
            };
            let op = if opcode == 2 {
                ArithOp::Add
            } else if opcode == 3 {
                ArithOp::Sub
            } else if opcode == 4 {
                ArithOp::Mul
            } else {
                ArithOp::Div
            };
            self.mode = Mode::AwaitNum { addr };
            proof {
                assert(self@ =~~= step_spec(old(self)@)->Ok_0.0);
            }
            Ok(Effect::NeedArith { op, cur: x, arg: y })
        } else if opcode == 6 {
            let a0 = match self.cur_arg(0) {
                Ok(v) => v,
                Err(e) => return Err(e),
            };
            let t = match a0.as_uint() {
                Ok(t) => t,
                Err(e) => return Err(e),
            };
            self.pc = t;
            proof {
                assert(self@ =~~= step_spec(old(self)@)->Ok_0.0);
            }
            Ok(Effect::Quiet)
        } else if opcode == 7 || opcode == 8 {
            let av = match self.cur_arg_resolved(0) {
                Ok(v) => v,
                Err(e) => return Err(e),
            };
            let bv = match self.cur_arg_resolved(1) {
                Ok(v) => v,
                Err(e) => return Err(e),
            };
            let both_num = match (&av, &bv) {
                (Value::Num(_), Value::Num(_)) => true,
                _ => false,
            };
            if both_num {
                let x = match &av {
                    Value::Num(x) => *x,
                    _ => 0,
                };
                let y = match &bv {
                    Value::Num(y) => *y,
                    _ => 0,
                };
                let target = self.cur_arg_opt(2);
                self.mode = Mode::AwaitCond { negate: opcode == 8, target };
                proof {
                    assert(self@ =~~= step_spec(old(self)@)->Ok_0.0);
                }
                Ok(Effect::NeedEq { a: x, b: y })
            } else {
                let take = value_eq(&av, &bv) != (opcode == 8);
                if take {
                    let a2 = match self.cur_arg(2) {
                        Ok(v) => v,
                        Err(e) => return Err(e),
                    };
                    let t = match a2.as_uint() {
                        Ok(t) => t,
                        Err(e) => return Err(e),
                    };
                    self.pc = t;
                } else {
                    self.pc = self.pc + 1;
                }
                proof {
                    assert(self@ =~~= step_spec(old(self)@)->Ok_0.0);
                }
                Ok(Effect::Quiet)
            }
        } else if opcode == 9 || opcode == 10 {
            let av = match self.cur_arg_resolved(0) {
                Ok(v) => v,
                Err(e) => return Err(e),
            };
            let x = match av.as_num() {
                Ok(n) => n,
                Err(e) => return Err(e),
            };
            let bv = match self.cur_arg_resolved(1) {
                Ok(v) => v,
                Err(e) => return Err(e),
            };
            let y = match bv.as_num() {
                Ok(n) => n,
                Err(e) => return Err(e),
            };
            let target = self.cur_arg_opt(2);
            self.mode = Mode::AwaitCond { negate: false, target };
            proof {
                assert(self@ =~~= step_spec(old(self)@)->Ok_0.0);
            }
            if opcode == 9 {
                Ok(Effect::NeedGt { a: x, b: y })
            } else {
                Ok(Effect::NeedLt { a: x, b: y })
            }
        } else if opcode == 253 {
            let a0 = match self.cur_arg(0) {
                Ok(v) => v,
                Err(e) => return Err(e),
            };
            let base = match a0.as_pointer() {
                Ok(b) => b,
                Err(e) => return Err(e),
            };
            let len = self.store.len() as u64;
            if len < 5 || base > len - 5 {
                return Err(VmError::OutOfBounds);
            }
            self.mode = Mode::AwaitKey { base };
            proof {
                assert(self@ =~~= step_spec(old(self)@)->Ok_0.0);
            }
            Ok(Effect::NeedKey)
        } else if opcode == 254 {
            let v = match self.cur_arg_resolved(0) {
                Ok(v) => v,
                Err(e) => return Err(e),
            };
            match v {
                Value::Num(x) => {
                    self.mode = Mode::AwaitText;
                    proof {
                        assert(self@ =~~= step_spec(old(self)@)->Ok_0.0);
                    }
                    Ok(Effect::NeedText { bits: x })
                },
                other => {
                    let t = other.to_string();
                    self.out.append(t.as_str());
                    self.pc = self.pc + 1;
                    proof {
                        assert(self@ =~~= step_spec(old(self)@)->Ok_0.0);
                    }
                    Ok(Effect::Quiet)
                },
            }
        } else if opcode == 255 {
            let text = self.out.clone();
            self.out = String::new();
            self.pc = self.pc + 1;
            proof {
                assert(self@ =~~= step_spec(old(self)@)->Ok_0.0);
                assert(Effect::Flush { text: text }@ == step_spec(old(self)@)->Ok_0.1);
            }
            Ok(Effect::Flush { text })
        } else {
            self.pc = self.pc + 1;
            proof {
                assert(self@ =~~= step_spec(old(self)@)->Ok_0.0);
            }
            Ok(Effect::Quiet)
        }
    }

    /// Hand back an arithmetic result; see [`provide_num_spec`].
    pub fn provide_num(&mut self, bits: u64)
        requires
            old(self)@.wf(),
            old(self)@.mode is AwaitNum,
        ensures
            final(self)@ == provide_num_spec(old(self)@, bits),
            final(self)@.wf(),
    {
        let addr_opt = match &self.mode {
            Mode::AwaitNum { addr } => Some(*addr),
            _ => None,
        };
        if let Some(addr) = addr_opt {
            let _n = self.insts.len();
            let _sl = self.store.len();
            self.store[addr as usize] = Value::Num(bits);
            self.pc = self.pc + 1;
            self.mode = Mode::Ready;
            proof {
                assert(self@ =~~= provide_num_spec(old(self)@, bits));
            }
        }
    }

    /// Hand back a comparison outcome; see [`provide_cond_spec`].  On
    /// an error the machine is left unchanged.
    pub fn provide_cond(&mut self, c: bool) -> (r: Result<(), VmError>)
        requires
            old(self)@.wf(),
            old(self)@.mode is AwaitCond,
        ensures
            match provide_cond_spec(old(self)@, c) {
                Ok(m2) => r matches Ok(u) && final(self)@ == m2 && final(self)@.wf(),
                Err(er) => r matches Err(e) && e == er && final(self)@ == old(self)@,
            },
    {
        let pending = match &self.mode {
            Mode::AwaitCond { negate, target } => Some(
                (
                    *negate,
                    match target {
                        Some(v) => Some(v.dup()),
                        None => None,
                    },
                ),
            ),
            _ => None,
        };
        if let Some((negate, target)) = pending {
            if c != negate {
                let t = match target {
                    None => {
                        return Err(VmError::MissingArg);
                    },
                    Some(v) => match v.as_uint() {
                        Ok(t) => t,
                        Err(e) => {
                            return Err(e);
                        },
                    },
                };
                self.pc = t;
                self.mode = Mode::Ready;
            } else {
                let _n = self.insts.len();
                self.pc = self.pc + 1;
                self.mode = Mode::Ready;
            }
            proof {
                assert(self@ =~~= provide_cond_spec(old(self)@, c)->Ok_0);
            }
        }
        Ok(())
    }

    /// Hand back a `Number`'s text; see [`provide_text_spec`].
    pub fn provide_text(&mut self, text: &str)
        requires
            old(self)@.wf(),
            old(self)@.mode is AwaitText,
        ensures
            final(self)@ == provide_text_spec(old(self)@, text@),
            final(self)@.wf(),
    {
        let in_text = match &self.mode {
            Mode::AwaitText => true,
            _ => false,
        };
        if in_text {
            let _n = self.insts.len();
            self.out.append(text);
            self.pc = self.pc + 1;
            self.mode = Mode::Ready;
            proof {
                assert(self@ =~~= provide_text_spec(old(self)@, text@));
            }
        }
    }

    /// Hand back a key event: its byte count and its four raw bytes;
    /// see [`provide_key_spec`].
    pub fn provide_key(&mut self, count: u64, k0: u8, k1: u8, k2: u8, k3: u8)
        requires
            old(self)@.wf(),
            old(self)@.mode is AwaitKey,
        ensures
            final(self)@ == provide_key_spec(old(self)@, count, k0, k1, k2, k3),
            final(self)@.wf(),
    {
        let base_opt = match &self.mode {
            Mode::AwaitKey { base } => Some(*base),
            _ => None,
        };
        if let Some(base) = base_opt {
            let _n = self.insts.len();
            let _sl = self.store.len();
            let b = base as usize;
            self.store[b] = Value::Uint(count);
            self.store[b + 1] = Value::Byte(k0);
            self.store[b + 2] = Value::Byte(k1);
            self.store[b + 3] = Value::Byte(k2);
            self.store[b + 4] = Value::Byte(k3);
            self.pc = self.pc + 1;
            self.mode = Mode::Ready;
            proof {
                assert(self@ =~~= provide_key_spec(old(self)@, count, k0, k1, k2, k3));
            }
        }
    }
}

} // verus!
