//! The instruction registry: a mapping from opcode byte to instruction,
//! unique per opcode, with a derived reverse lookup by mnemonic.
//!
//! Registering a second instruction under an already-used opcode is
//! refused (never a silent overwrite): it is a construction error of the
//! machine's own build, reported as [`RegistryError::OpcodeCollision`].

use vstd::prelude::*;

use crate::instruction::Instruction;
use crate::opcode::Opcode;
use crate::opcode::baseline;

verus! {

/// A failure of registry construction.
#[derive(Clone, Copy, PartialEq, Eq, Structural, Debug)]
pub enum RegistryError {
    /// A second instruction was registered under an opcode already in use.
    OpcodeCollision { opcode: u8 },
}

/// The first instruction of `t`, in registration order, whose opcode is
/// `op`, if any. In a well-formed table it is the only one.
pub open spec fn spec_lookup(t: Seq<Instruction>, op: u8) -> Option<Instruction>
    decreases t.len(),
{
    if t.len() == 0 {
        Option::None
    } else if t[0].op_code == op {
        Option::Some(t[0])
    } else {
        spec_lookup(t.skip(1), op)
    }
}

/// The first instruction of `t`, in registration order, whose mnemonic
/// is `name`, if any.
pub open spec fn spec_lookup_name(t: Seq<Instruction>, name: Seq<char>) -> Option<Instruction>
    decreases t.len(),
{
    if t.len() == 0 {
        Option::None
    } else if t[0].name@ == name {
        Option::Some(t[0])
    } else {
        spec_lookup_name(t.skip(1), name)
    }
}

/// Whether some instruction of `t` uses the opcode `op`.
pub open spec fn has_opcode(t: Seq<Instruction>, op: u8) -> bool {
    spec_lookup(t, op) is Some
}

/// An opcode is found exactly when some entry carries it.
pub proof fn lemma_lookup_some_iff(t: Seq<Instruction>, op: u8)
    ensures
        (spec_lookup(t, op) is Some) <==> (exists|i: int|
            0 <= i < t.len() && t[i].op_code == op),
    decreases t.len(),
{
    if t.len() > 0 {
        lemma_lookup_some_iff(t.skip(1), op);
        if t[0].op_code != op {
            if spec_lookup(t, op) is Some {
                let i = choose|i: int| 0 <= i < t.skip(1).len() && t.skip(1)[i].op_code == op;
                assert(t[i + 1].op_code == op);
            }
            if exists|i: int| 0 <= i < t.len() && t[i].op_code == op {
                let i = choose|i: int| 0 <= i < t.len() && t[i].op_code == op;
                assert(t.skip(1)[i - 1].op_code == op);
            }
        }
    }
}

/// If position `i` carries `op` and no earlier position does, the
/// lookup returns exactly the entry at `i`.
pub proof fn lemma_lookup_at(t: Seq<Instruction>, op: u8, i: int)
    requires
        0 <= i < t.len(),
        t[i].op_code == op,
        forall|j: int| 0 <= j < i ==> t[j].op_code != op,
    ensures
        spec_lookup(t, op) == Option::Some(t[i]),
    decreases i,
{
    if i > 0 {
        lemma_lookup_at(t.skip(1), op, i - 1);
    }
}

/// Same as [`lemma_lookup_at`], for the lookup by mnemonic.
pub proof fn lemma_lookup_name_at(t: Seq<Instruction>, name: Seq<char>, i: int)
    requires
        0 <= i < t.len(),
        t[i].name@ == name,
        forall|j: int| 0 <= j < i ==> t[j].name@ != name,
    ensures
        spec_lookup_name(t, name) == Option::Some(t[i]),
    decreases i,
{
    if i > 0 {
        lemma_lookup_name_at(t.skip(1), name, i - 1);
    }
}

/// A mnemonic is found exactly when some entry carries it.
pub proof fn lemma_lookup_name_some_iff(t: Seq<Instruction>, name: Seq<char>)
    ensures
        (spec_lookup_name(t, name) is Some) <==> (exists|i: int|
            0 <= i < t.len() && t[i].name@ == name),
    decreases t.len(),
{
    if t.len() > 0 {
        lemma_lookup_name_some_iff(t.skip(1), name);
        if t[0].name@ != name {
            if spec_lookup_name(t, name) is Some {
                let i = choose|i: int| 0 <= i < t.skip(1).len() && t.skip(1)[i].name@ == name;
                assert(t[i + 1].name@ == name);
            }
            if exists|i: int| 0 <= i < t.len() && t[i].name@ == name {
                let i = choose|i: int| 0 <= i < t.len() && t[i].name@ == name;
                assert(t.skip(1)[i - 1].name@ == name);
            }
        }
    }
}

/// A successful lookup by mnemonic returns a registered instruction
/// that carries exactly that mnemonic.
pub proof fn lemma_lookup_name_found(t: Seq<Instruction>, name: Seq<char>)
    requires
        spec_lookup_name(t, name) is Some,
    ensures
        (spec_lookup_name(t, name)->Some_0).name@ == name,
        exists|k: int| 0 <= k < t.len() && t[k] == spec_lookup_name(t, name)->Some_0,
    decreases t.len(),
{
    if t.len() > 0 && t[0].name@ != name {
        lemma_lookup_name_found(t.skip(1), name);
        let k = choose|k: int|
            0 <= k < t.skip(1).len() && t.skip(1)[k] == spec_lookup_name(t.skip(1), name)->Some_0;
        assert(t[k + 1] == spec_lookup_name(t, name)->Some_0);
    }
}

/// In a table without duplicate opcodes, resolving a mnemonic to its
/// opcode and looking that opcode up again returns the same
/// instruction — so a listing renders back exactly the mnemonic an
/// assembler source wrote.
pub proof fn lemma_mnemonic_round_trip(t: Seq<Instruction>, name: Seq<char>)
    requires
        unique_opcodes(t),
        spec_lookup_name(t, name) is Some,
    ensures
        spec_lookup(t, (spec_lookup_name(t, name)->Some_0).op_code) == spec_lookup_name(t, name),
        (spec_lookup(t, (spec_lookup_name(t, name)->Some_0).op_code)->Some_0).name@ == name,
{
    lemma_lookup_name_found(t, name);
    let instr = spec_lookup_name(t, name)->Some_0;
    let k = choose|k: int| 0 <= k < t.len() && t[k] == instr;
    lemma_lookup_unique(t, k);
}

/// No two instructions share an opcode.
pub open spec fn unique_opcodes(t: Seq<Instruction>) -> bool {
    forall|i: int, j: int| 0 <= i < j < t.len() ==> t[i].op_code != t[j].op_code
}

/// In a table without duplicate opcodes, the lookup finds exactly the
/// entry that carries the opcode.
pub proof fn lemma_lookup_unique(t: Seq<Instruction>, i: int)
    requires
        unique_opcodes(t),
        0 <= i < t.len(),
    ensures
        spec_lookup(t, t[i].op_code) == Option::Some(t[i]),
{
    lemma_lookup_at(t, t[i].op_code, i);
}

/// The contents of the default registry: the sixteen baseline
/// instructions, in opcode order.
pub open spec fn is_baseline(t: Seq<Instruction>) -> bool {
    t.len() == 16 && forall|i: int|
        0 <= i < 16 ==> (#[trigger] t[i]).op_code == baseline(i).spec_code() && t[i].arity as usize
            == baseline(i).spec_offset() && t[i].kind == baseline(i).spec_kind() && t[i].name@
            == baseline(i).spec_mnemonic()
}

/// The instruction registry.
pub struct InstructionTable {
    instrs: Vec<Instruction>,
}

impl View for InstructionTable {
    type V = Seq<Instruction>;

    closed spec fn view(&self) -> Seq<Instruction> {
        self.instrs@
    }
}

impl InstructionTable {
    /// Well-formed: every registered opcode is unique.
    pub open spec fn wf(&self) -> bool {
        unique_opcodes(self@)
    }

    /// An empty registry.
    pub fn new() -> (r: Self)
        ensures
            r@.len() == 0,
            r.wf(),
    {
        InstructionTable { instrs: Vec::new() }
    }

    /// The registered instruction with opcode `op`, if any.
    pub fn get(&self, op: u8) -> (r: Option<&Instruction>)
        ensures
            match r {
                Option::Some(instr) => spec_lookup(self@, op) == Option::Some(*instr),
                Option::None => spec_lookup(self@, op) is None,
            },
    {
        let n = self.instrs.len();
        let mut i: usize = 0;
        while i < n
            invariant
                n == self.instrs@.len(),
                i <= n,
                forall|j: int| 0 <= j < i ==> self.instrs@[j].op_code != op,
            decreases n - i,
        {
            if self.instrs[i].op_code == op {
                proof {
                    lemma_lookup_at(self.instrs@, op, i as int);
                }
                return Option::Some(&self.instrs[i]);
            }
            i += 1;
        }
        proof {
            lemma_lookup_some_iff(self.instrs@, op);
        }
        Option::None
    }

    /// The registered instruction with mnemonic `name`, if any.
    pub fn instr_by_name(&self, name: &str) -> (r: Option<&Instruction>)
        ensures
            match r {
                Option::Some(instr) => spec_lookup_name(self@, name@) == Option::Some(*instr),
                Option::None => spec_lookup_name(self@, name@) is None,
            },
    {
        let key = String::from_str(name);
        let n = self.instrs.len();
        let mut i: usize = 0;
        while i < n
            invariant
                key@ == name@,
                n == self.instrs@.len(),
                i <= n,
                forall|j: int| 0 <= j < i ==> self.instrs@[j].name@ != name@,
            decreases n - i,
        {
            if self.instrs[i].name == key {
                proof {
                    lemma_lookup_name_at(self.instrs@, name@, i as int);
                }
                return Option::Some(&self.instrs[i]);
            }
            i += 1;
        }
        proof {
            lemma_lookup_name_some_iff(self.instrs@, name@);
        }
        Option::None
    }

    /// Registers an instruction. Fails, leaving the registry unchanged,
    /// exactly when the opcode is already in use.
    pub fn push(&mut self, instr: Instruction) -> (r: Result<(), RegistryError>)
        requires
            old(self).wf(),
        ensures
            final(self).wf(),
            match r {
                Result::Ok(_) => !has_opcode(old(self)@, instr.op_code) && final(self)@ == old(
                    self,
                )@.push(instr),
                Result::Err(e) => has_opcode(old(self)@, instr.op_code) && final(self)@ == old(
                    self,
                )@ && e == (RegistryError::OpcodeCollision { opcode: instr.op_code }),
            },
    {
        let occupied = self.get(instr.op_code).is_some();
        if occupied {
            Result::Err(RegistryError::OpcodeCollision { opcode: instr.op_code })
        } else {
            proof {
                lemma_lookup_some_iff(self.instrs@, instr.op_code);
            }
            self.instrs.push(instr);
            Result::Ok(())
        }
    }

    /// The mnemonic-to-opcode pairs of every registered instruction, in
    /// registration order.
    pub fn symbol_table(&self) -> (r: Vec<(String, u8)>)
        ensures
            r@.len() == self@.len(),
            forall|i: int|
                0 <= i < self@.len() ==> (#[trigger] r@[i]).0@ == self@[i].name@ && r@[i].1
                    == self@[i].op_code,
    {
        let n = self.instrs.len();
        let mut out: Vec<(String, u8)> = Vec::new();
        let mut i: usize = 0;
        while i < n
            invariant
                n == self.instrs@.len(),
                i <= n,
                out@.len() == i,
                forall|j: int|
                    0 <= j < i ==> (#[trigger] out@[j]).0@ == self.instrs@[j].name@ && out@[j].1
                        == self.instrs@[j].op_code,
            decreases n - i,
        {
            out.push((self.instrs[i].name.clone(), self.instrs[i].op_code));
            i += 1;
        }
        out
    }

    /// The default registry: the fixed baseline instruction set, one
    /// instruction per [`Opcode`], registered in opcode order.
    pub fn default() -> (r: Self)
        ensures
            r.wf(),
            is_baseline(r@),
    {
        let mut t = InstructionTable::new();
        let mut i: usize = 0;
        while i < 16
            invariant
                t.wf(),
                t@.len() == i,
                i <= 16,
                forall|j: int|
                    0 <= j < i ==> (#[trigger] t@[j]).op_code == baseline(j).spec_code() && t@[
                        j
                    ].arity as usize == baseline(j).spec_offset() && t@[j].kind == baseline(
                        j,
                    ).spec_kind() && t@[j].name@ == baseline(j).spec_mnemonic(),
            decreases 16 - i,
        {
            let op = baseline_at(i);
            let arity_u8: u8 = if op.get_offset() == 0 {
                0
            } else {
                1
            };
            let instr = Instruction::new(op.code(), op.mnemonic(), arity_u8, op.kind());
            proof {
                lemma_lookup_some_iff(t@, instr.op_code);
                assert(forall|j: int| 0 <= j < 16 ==> (#[trigger] baseline(j)).spec_code() == j);
            }
            let r = t.push(instr);
            match r {
                Result::Ok(_) => {},
                Result::Err(_) => {
                    proof {
                        assert(false);
                    }
                },
            }
            i += 1;
        }
        t
    }
}

/// The baseline opcode at position `i` of the default registry.
fn baseline_at(i: usize) -> (o: Opcode)
    requires
        i < 16,
    ensures
        o == baseline(i as int),
{
    match i {
        0 => Opcode::Halt,
        1 => Opcode::Push,
        2 => Opcode::Pop,
        3 => Opcode::Load,
        4 => Opcode::Store,
        5 => Opcode::Add,
        6 => Opcode::Sub,
        7 => Opcode::Mul,
        8 => Opcode::Div,
        9 => Opcode::Mod,
        10 => Opcode::Eq,
        11 => Opcode::Neq,
        12 => Opcode::Lt,
        13 => Opcode::Lte,
        14 => Opcode::Gt,
        _ => Opcode::Gte,
    }
}

} // verus!
