//! The execution engine: an operand stack, an addressable store, an
//! instruction pointer and a halt flag, driven by a fetch-decode-execute
//! loop that dispatches through the instruction registry.
//!
//! The loop's behaviour is pinned by a small-step specification:
//! [`spec_step`] gives the meaning of one fetch-decode-execute step and
//! [`run_n`] iterates it; [`Machine::run`] and [`Machine::resume`]
//! guarantee that their outcome and final state are reached from the
//! initial state by some number of such steps.
//!
//! Arithmetic on float-tagged operands is not computed here: `run`
//! returns [`Outcome::Pending`] carrying the operator and both operands,
//! the embedding host computes the result from the bit patterns, and
//! [`Machine::resume`] pushes it and continues the loop.

use vstd::prelude::*;

use crate::code::Code;
use crate::error::Fault;
use crate::error::VmError;
use crate::instruction::Instruction;
use crate::instruction::OpKind;
use crate::instruction_table::InstructionTable;
use crate::instruction_table::is_baseline;
use crate::instruction_table::spec_lookup;
use crate::ops;
use crate::ops::Applied;
use crate::ops::BinEval;
use crate::ops::BinOp;
use crate::ops::spec_binop;
use crate::value::Value;

verus! {

/// A snapshot of the engine's mutable state, at the specification level.
pub ghost struct MState {
    pub stack: Seq<Value>,
    pub store: Seq<Value>,
    pub ip: nat,
    pub halted: bool,
    pub output: Seq<Value>,
}

/// How a call of [`Machine::run`] or [`Machine::resume`] ended.
#[derive(Clone, Copy, PartialEq, Eq, Structural, Debug)]
pub enum Outcome {
    /// The engine executed a halt instruction or ran off the end of the
    /// byte sequence.
    Halted,
    /// The engine aborted on a fatal error.
    Fault(Fault),
    /// The engine reached arithmetic on a float-tagged pair: the host
    /// must compute `op` on the two operands' bit patterns and hand the
    /// result to [`Machine::resume`].
    Pending { op: BinOp, lhs: Value, rhs: Value },
    /// The step budget ran out first: the engine is still running, and
    /// another `run_more` call continues it. A caller that keeps
    /// calling until another outcome arrives recovers the unbounded
    /// fetch-decode-execute loop, which cannot itself be a verified
    /// function here: a backward jump need not terminate.
    Running,
}

/// The result of zero or more specification-level steps.
pub ghost enum StepRes {
    /// Still running, in this state.
    Run(MState),
    /// Halted, in this state.
    Done(MState),
    /// Aborted on this fault, in this state.
    Fail(MState, Fault),
    /// Waiting for the host to compute `op` on the two float operands,
    /// in this state (the operands already popped, the pointer already
    /// advanced).
    Need(MState, BinOp, Value, Value),
}

/// The store after writing `v` at index `k`: existing slots keep their
/// values, and a write beyond the current size grows the store, filling
/// the intermediate slots with nulls.
pub open spec fn store_write_grow(store: Seq<Value>, k: int, v: Value) -> Seq<Value> {
    Seq::new(
        if k + 1 > store.len() {
            (k + 1) as nat
        } else {
            store.len()
        },
        |i: int|
            if i == k {
                v
            } else if i < store.len() {
                store[i]
            } else {
                Value::Null
            },
    )
}

/// The store at the start of a run: the container's constant pool seeds
/// the low slots, and any higher slots of the previous store persist.
pub open spec fn seeded(store: Seq<Value>, pool: Seq<Value>) -> Seq<Value> {
    Seq::new(
        if store.len() > pool.len() {
            store.len()
        } else {
            pool.len()
        },
        |i: int|
            if i < pool.len() {
                pool[i]
            } else {
                store[i]
            },
    )
}

/// The meaning of one decoded instruction: `kind` is its behaviour,
/// `args` its operand bytes, `next` the advanced instruction pointer and
/// `line` the recorded source line of the opcode byte.
pub open spec fn spec_exec_kind(
    kind: OpKind,
    args: Seq<u8>,
    next: nat,
    line: usize,
    code: Code,
    m: MState,
) -> StepRes {
    let offset = m.ip as usize;
    match kind {
        OpKind::Halt => StepRes::Run(MState { ip: next, halted: true, ..m }),
        OpKind::Push => if args.len() == 0 {
            StepRes::Fail(m, Fault { offset, line, error: VmError::MissingOperand })
        } else if args[0] as int >= code.const_pool@.len() {
            StepRes::Fail(m, Fault { offset, line, error: VmError::OutOfBounds })
        } else {
            StepRes::Run(
                MState { stack: m.stack.push(code.const_pool@[args[0] as int]), ip: next, ..m },
            )
        },
        OpKind::Pop => if m.stack.len() == 0 {
            StepRes::Fail(m, Fault { offset, line, error: VmError::StackUnderflow })
        } else {
            StepRes::Run(MState { stack: m.stack.drop_last(), ip: next, ..m })
        },
        OpKind::Load => if args.len() == 0 {
            StepRes::Fail(m, Fault { offset, line, error: VmError::MissingOperand })
        } else if args[0] as int >= m.store.len() {
            StepRes::Fail(m, Fault { offset, line, error: VmError::OutOfBounds })
        } else {
            StepRes::Run(MState { stack: m.stack.push(m.store[args[0] as int]), ip: next, ..m })
        },
        OpKind::Store => if args.len() == 0 {
            StepRes::Fail(m, Fault { offset, line, error: VmError::MissingOperand })
        } else if m.stack.len() == 0 {
            StepRes::Fail(m, Fault { offset, line, error: VmError::StackUnderflow })
        } else {
            StepRes::Run(
                MState {
                    stack: m.stack.drop_last(),
                    store: store_write_grow(m.store, args[0] as int, m.stack.last()),
                    ip: next,
                    ..m
                },
            )
        },
        OpKind::Jump => if args.len() == 0 {
            StepRes::Fail(m, Fault { offset, line, error: VmError::MissingOperand })
        } else {
            StepRes::Run(MState { ip: args[0] as nat, ..m })
        },
        OpKind::Print => if m.stack.len() == 0 {
            StepRes::Fail(m, Fault { offset, line, error: VmError::StackUnderflow })
        } else {
            StepRes::Run(
                MState {
                    stack: m.stack.drop_last(),
                    output: m.output.push(m.stack.last()),
                    ip: next,
                    ..m
                },
            )
        },
        OpKind::Binary(op) => if m.stack.len() < 2 {
            StepRes::Fail(m, Fault { offset, line, error: VmError::StackUnderflow })
        } else {
            let lhs = m.stack[m.stack.len() - 2];
            let rhs = m.stack[m.stack.len() - 1];
            let popped = m.stack.take(m.stack.len() - 2);
            match spec_binop(op, lhs, rhs) {
                BinEval::Done(v) => StepRes::Run(MState { stack: popped.push(v), ip: next, ..m }),
                BinEval::Fail(e) => StepRes::Fail(m, Fault { offset, line, error: e }),
                BinEval::Pending => StepRes::Need(
                    MState { stack: popped, ip: next, ..m },
                    op,
                    lhs,
                    rhs,
                ),
            }
        },
    }
}

/// One fetch-decode-execute step: read the opcode byte at the
/// instruction pointer, look it up in the registry, collect its operand
/// bytes, and execute its behaviour. A halted engine, and an engine
/// whose pointer has reached the end of the byte sequence, are done.
pub open spec fn spec_step(tab: Seq<Instruction>, code: Code, m: MState) -> StepRes {
    if m.halted {
        StepRes::Done(m)
    } else if m.ip >= code.raw@.len() {
        StepRes::Done(MState { halted: true, ..m })
    } else {
        let op = code.raw@[m.ip as int];
        let line = code.lines@[m.ip as int];
        match spec_lookup(tab, op) {
            Option::None => StepRes::Fail(
                m,
                Fault {
                    offset: m.ip as usize,
                    line,
                    error: VmError::InvalidOpcode { opcode: op },
                },
            ),
            Option::Some(instr) => {
                if m.ip + 1 + instr.arity as nat > code.raw@.len() {
                    StepRes::Fail(
                        m,
                        Fault { offset: m.ip as usize, line, error: VmError::OutOfBounds },
                    )
                } else {
                    let args = code.raw@.subrange(
                        m.ip + 1 as int,
                        m.ip + 1 + instr.arity as nat as int,
                    );
                    spec_exec_kind(
                        instr.kind,
                        args,
                        m.ip + 1 + instr.arity as nat,
                        line,
                        code,
                        m,
                    )
                }
            },
        }
    }
}

/// `n` iterated steps from `m`: stops early at the first terminal
/// result (done, fault, or pending float arithmetic).
pub open spec fn run_n(tab: Seq<Instruction>, code: Code, m: MState, n: nat) -> StepRes
    decreases n,
{
    if n == 0 {
        StepRes::Run(m)
    } else {
        match run_n(tab, code, m, (n - 1) as nat) {
            StepRes::Run(m2) => spec_step(tab, code, m2),
            r => r,
        }
    }
}

/// Whether some number of specification steps, at most `fuel` and
/// exactly `fuel` when the outcome is [`Outcome::Running`], carries the
/// engine from `m0` to the outcome `r` in the final state `mf`.
pub open spec fn reaches(
    tab: Seq<Instruction>,
    code: Code,
    m0: MState,
    fuel: nat,
    r: Outcome,
    mf: MState,
) -> bool {
    exists|n: nat|
        n <= fuel && #[trigger] run_n(tab, code, m0, n) == outcome_res(r, mf) && (r
            == Outcome::Running ==> n == fuel)
}

/// The step result that an [`Outcome`] together with a final state
/// denotes.
pub open spec fn outcome_res(r: Outcome, m: MState) -> StepRes {
    match r {
        Outcome::Halted => StepRes::Done(m),
        Outcome::Fault(f) => StepRes::Fail(m, f),
        Outcome::Pending { op, lhs, rhs } => StepRes::Need(m, op, lhs, rhs),
        Outcome::Running => StepRes::Run(m),
    }
}

/// The execution engine.
pub struct Machine {
    /// The operand stack, top last.
    pub stack: Vec<Value>,
    /// The addressable store ("heap"), grown only by store instructions.
    pub store: Vec<Value>,
    /// The instruction pointer: a byte offset into the active container.
    pub ip: usize,
    /// The halt flag.
    pub halted: bool,
    /// The print side-channel: the values popped by print instructions.
    pub output: Vec<Value>,
    /// The instruction registry this engine dispatches through.
    pub table: InstructionTable,
}

impl Machine {
    /// This engine's state snapshot at the specification level.
    pub open spec fn mstate(&self) -> MState {
        MState {
            stack: self.stack@,
            store: self.store@,
            ip: self.ip as nat,
            halted: self.halted,
            output: self.output@,
        }
    }

    /// A fresh engine over the default baseline registry.
    pub fn new() -> (r: Machine)
        ensures
            r.stack@.len() == 0,
            r.store@.len() == 0,
            r.output@.len() == 0,
            r.ip == 0,
            !r.halted,
            r.table.wf(),
            is_baseline(r.table@),
    {
        Machine::with_table(InstructionTable::default())
    }

    /// A fresh engine over the given registry.
    pub fn with_table(table: InstructionTable) -> (r: Machine)
        ensures
            r.stack@.len() == 0,
            r.store@.len() == 0,
            r.output@.len() == 0,
            r.ip == 0,
            !r.halted,
            r.table == table,
    {
        Machine {
            stack: Vec::new(),
            store: Vec::new(),
            ip: 0,
            halted: false,
            output: Vec::new(),
            table,
        }
    }

    /// Copies the container's constant pool into the low slots of the
    /// store, growing it as needed; higher slots persist.
    fn seed_store(&mut self, code: &Code)
        ensures
            final(self).store@ == seeded(old(self).store@, code.const_pool@),
            final(self).stack == old(self).stack,
            final(self).output == old(self).output,
            final(self).ip == old(self).ip,
            final(self).halted == old(self).halted,
            final(self).table == old(self).table,
    {
        let ghost store0 = self.store@;
        let n = code.const_pool.len();
        let mut i: usize = 0;
        while i < n
            invariant
                n == code.const_pool@.len(),
                i <= n,
                self.store@.len() == if store0.len() > i { store0.len() } else { i as nat },
                forall|j: int| 0 <= j < i ==> self.store@[j] == code.const_pool@[j],
                forall|j: int| i <= j < store0.len() ==> self.store@[j] == store0[j],
                self.stack == old(self).stack,
                self.output == old(self).output,
                self.ip == old(self).ip,
                self.halted == old(self).halted,
                self.table == old(self).table,
            decreases n - i,
        {
            let v = code.const_pool[i];
            if i < self.store.len() {
                self.store[i] = v;
            } else {
                self.store.push(v);
            }
            i += 1;
        }
        proof {
            assert(self.store@ =~= seeded(store0, code.const_pool@));
        }
    }

    /// Runs the container from instruction pointer zero until the
    /// engine halts, faults, needs the host to compute float
    /// arithmetic, or exhausts the step budget `fuel`. The store is
    /// first seeded from the constant pool; the stack, the rest of the
    /// store and the output persist from any earlier run.
    ///
    /// The outcome and the final state are exactly what some number of
    /// specification steps ([`run_n`]) produces from the initial state,
    /// and [`Outcome::Running`] is returned only after taking all
    /// `fuel` steps.
    pub fn run(&mut self, code: &Code, fuel: usize) -> (r: Outcome)
        requires
            code.wf(),
        ensures
            final(self).table == old(self).table,
            reaches(
                old(self).table@,
                *code,
                MState {
                    stack: old(self).stack@,
                    store: seeded(old(self).store@, code.const_pool@),
                    ip: 0,
                    halted: false,
                    output: old(self).output@,
                },
                fuel as nat,
                r,
                final(self).mstate(),
            ),
    {
        self.ip = 0;
        self.halted = false;
        self.seed_store(code);
        self.run_more(code, fuel)
    }

    /// Pushes the host-computed result of pending float arithmetic and
    /// continues the fetch-decode-execute loop.
    pub fn resume(&mut self, code: &Code, value: Value, fuel: usize) -> (r: Outcome)
        requires
            code.wf(),
        ensures
            final(self).table == old(self).table,
            reaches(
                old(self).table@,
                *code,
                MState { stack: old(self).stack@.push(value), ..old(self).mstate() },
                fuel as nat,
                r,
                final(self).mstate(),
            ),
    {
        self.stack.push(value);
        self.run_more(code, fuel)
    }

    /// The fetch-decode-execute loop, from the current state, for at
    /// most `fuel` steps.
    pub fn run_more(&mut self, code: &Code, fuel: usize) -> (r: Outcome)
        requires
            code.wf(),
        ensures
            final(self).table == old(self).table,
            reaches(
                old(self).table@,
                *code,
                old(self).mstate(),
                fuel as nat,
                r,
                final(self).mstate(),
            ),
    {
        let ghost m0 = self.mstate();
        let ghost tab = self.table@;
        let ghost mut n: nat = 0;
        let mut budget: usize = fuel;
        while budget > 0
            invariant
                code.wf(),
                self.table == old(self).table,
                tab == old(self).table@,
                run_n(tab, *code, m0, n) == StepRes::Run(self.mstate()),
                m0 == old(self).mstate(),
                n + budget == fuel,
            decreases budget,
        {
            let ghost m_pre = self.mstate();
            if self.halted {
                proof {
                    assert(run_n(tab, *code, m0, n + 1) == StepRes::Done(self.mstate()));
                }
                return Outcome::Halted;
            }
            if self.ip >= code.raw.len() {
                self.halted = true;
                proof {
                    assert(run_n(tab, *code, m0, n + 1) == StepRes::Done(self.mstate()));
                }
                return Outcome::Halted;
            }
            let op = code.raw[self.ip];
            let line = code.lines[self.ip];
            let lookup = self.table.get(op);
            let (kind, arity) = match lookup {
                Option::Some(instr) => (instr.kind, instr.arity),
                Option::None => {
                    let f = Fault {
                        offset: self.ip,
                        line,
                        error: VmError::InvalidOpcode { opcode: op },
                    };
                    proof {
                        assert(run_n(tab, *code, m0, n + 1) == StepRes::Fail(self.mstate(), f));
                    }
                    return Outcome::Fault(f);
                },
            };
            let ghost ginstr = spec_lookup(tab, op)->Some_0;
            let argc = arity as usize;
            if argc > code.raw.len() - self.ip - 1 {
                let f = Fault { offset: self.ip, line, error: VmError::OutOfBounds };
                proof {
                    assert(run_n(tab, *code, m0, n + 1) == StepRes::Fail(self.mstate(), f));
                }
                return Outcome::Fault(f);
            }
            let next = self.ip + 1 + argc;
            let args = vstd::slice::slice_subrange(code.raw.as_slice(), self.ip + 1, next);
            let ghost gargs = code.raw@.subrange(m_pre.ip + 1 as int, m_pre.ip + 1 + argc as nat as int);
            proof {
                assert(args@ == gargs);
            }
            match kind {
                OpKind::Halt => {
                    ops::halt(self);
                    self.ip = next;
                    proof {
                        assert(spec_step(tab, *code, m_pre) == StepRes::Run(self.mstate()));
                    }
                },
                OpKind::Push => {
                    let res = ops::push(self, code, args);
                    match res {
                        Result::Ok(_) => {
                            self.ip = next;
                            proof {
                                assert(spec_step(tab, *code, m_pre) == StepRes::Run(self.mstate()));
                            }
                        },
                        Result::Err(e) => {
                            let f = Fault { offset: self.ip, line, error: e };
                            proof {
                                assert(run_n(tab, *code, m0, n + 1) == StepRes::Fail(
                                    self.mstate(),
                                    f,
                                ));
                            }
                            return Outcome::Fault(f);
                        },
                    }
                },
                OpKind::Pop => {
                    let res = ops::pop(self);
                    match res {
                        Result::Ok(_) => {
                            self.ip = next;
                            proof {
                                assert(spec_step(tab, *code, m_pre) == StepRes::Run(self.mstate()));
                            }
                        },
                        Result::Err(e) => {
                            let f = Fault { offset: self.ip, line, error: e };
                            proof {
                                assert(run_n(tab, *code, m0, n + 1) == StepRes::Fail(
                                    self.mstate(),
                                    f,
                                ));
                            }
                            return Outcome::Fault(f);
                        },
                    }
                },
                OpKind::Load => {
                    let res = ops::load(self, args);
                    match res {
                        Result::Ok(_) => {
                            self.ip = next;
                            proof {
                                assert(spec_step(tab, *code, m_pre) == StepRes::Run(self.mstate()));
                            }
                        },
                        Result::Err(e) => {
                            let f = Fault { offset: self.ip, line, error: e };
                            proof {
                                assert(run_n(tab, *code, m0, n + 1) == StepRes::Fail(
                                    self.mstate(),
                                    f,
                                ));
                            }
                            return Outcome::Fault(f);
                        },
                    }
                },
                OpKind::Store => {
                    let res = ops::store(self, args);
                    match res {
                        Result::Ok(_) => {
                            self.ip = next;
                            proof {
                                assert(spec_step(tab, *code, m_pre) == StepRes::Run(self.mstate()));
                            }
                        },
                        Result::Err(e) => {
                            let f = Fault { offset: self.ip, line, error: e };
                            proof {
                                assert(run_n(tab, *code, m0, n + 1) == StepRes::Fail(
                                    self.mstate(),
                                    f,
                                ));
                            }
                            return Outcome::Fault(f);
                        },
                    }
                },
                OpKind::Jump => {
                    if argc == 0 {
                        let f = Fault { offset: self.ip, line, error: VmError::MissingOperand };
                        proof {
                            assert(run_n(tab, *code, m0, n + 1) == StepRes::Fail(self.mstate(), f));
                        }
                        return Outcome::Fault(f);
                    }
                    let target = args[0];
                    self.ip = target as usize;
                    proof {
                        assert(spec_step(tab, *code, m_pre) == StepRes::Run(self.mstate()));
                    }
                },
                OpKind::Print => {
                    let res = ops::pop(self);
                    match res {
                        Result::Ok(v) => {
                            self.output.push(v);
                            self.ip = next;
                            proof {
                                assert(spec_step(tab, *code, m_pre) == StepRes::Run(self.mstate()));
                            }
                        },
                        Result::Err(e) => {
                            let f = Fault { offset: self.ip, line, error: e };
                            proof {
                                assert(run_n(tab, *code, m0, n + 1) == StepRes::Fail(
                                    self.mstate(),
                                    f,
                                ));
                            }
                            return Outcome::Fault(f);
                        },
                    }
                },
                OpKind::Binary(bop) => {
                    let res = ops::apply_binary(self, bop);
                    match res {
                        Result::Ok(Applied::Done) => {
                            self.ip = next;
                            proof {
                                assert(spec_step(tab, *code, m_pre) == StepRes::Run(self.mstate()));
                            }
                        },
                        Result::Ok(Applied::Pending(op2, l, r2)) => {
                            self.ip = next;
                            proof {
                                assert(spec_step(tab, *code, m_pre) == StepRes::Need(
                                    self.mstate(),
                                    op2,
                                    l,
                                    r2,
                                ));
                                assert(run_n(tab, *code, m0, n + 1) == StepRes::Need(
                                    self.mstate(),
                                    op2,
                                    l,
                                    r2,
                                ));
                            }
                            return Outcome::Pending { op: op2, lhs: l, rhs: r2 };
                        },
                        Result::Err(e) => {
                            let f = Fault { offset: self.ip, line, error: e };
                            proof {
                                assert(run_n(tab, *code, m0, n + 1) == StepRes::Fail(
                                    self.mstate(),
                                    f,
                                ));
                            }
                            return Outcome::Fault(f);
                        },
                    }
                },
            }
            proof {
                n = n + 1;
            }
            budget -= 1;
        }
        Outcome::Running
    }
}

/// Pushing any run of values onto any stack and then popping as many
/// restores the stack exactly; a further pop on an initially empty
/// stack fails with a stack underflow, as the contract of
/// [`crate::ops::pop`] states.
pub proof fn lemma_push_pop_round_trip(s: Seq<Value>, vs: Seq<Value>)
    ensures
        (s + vs).take(s.len() as int) == s,
        (s + vs).len() == s.len() + vs.len(),
{
    assert((s + vs).take(s.len() as int) =~= s);
}

/// A store write at any index `k`, even beyond the current size, is
/// read back by a load of `k`: the written slot holds the value, lower
/// slots keep theirs, and the slots a growing write passed over hold
/// null. A load at an index the store was never grown to fails with an
/// out-of-bounds fault, as the contract of [`crate::ops::load`] states.
pub proof fn lemma_store_then_load(store: Seq<Value>, k: int, v: Value)
    requires
        0 <= k,
    ensures
        k < store_write_grow(store, k, v).len(),
        store_write_grow(store, k, v)[k] == v,
        forall|j: int| 0 <= j < store.len() && j != k ==> store_write_grow(store, k, v)[j] == store[j],
        forall|j: int|
            store.len() <= j < store_write_grow(store, k, v).len() && j != k ==> store_write_grow(
                store,
                k,
                v,
            )[j] == Value::Null,
{
}

} // verus!
