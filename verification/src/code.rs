//! The bytecode container: the flat instruction byte sequence, a
//! parallel per-byte source-line table used for diagnostics, and the
//! constant pool.
//!
//! Built incrementally by appending bytes and constants; consumed
//! read-only by the execution engine. The invariant [`Code::wf`] ties
//! the byte sequence and the line table to the same length.

use vstd::prelude::*;
use vstd::string::StringExecFns;

use crate::instruction::Instruction;
use crate::instruction::OpKind;
use crate::instruction_table::InstructionTable;
use crate::instruction_table::spec_lookup;
use crate::value::Value;

verus! {

/// A failure of container construction.
#[derive(Clone, Copy, PartialEq, Eq, Structural, Debug)]
pub enum CodeError {
    /// The constant pool is full: indices are encoded in a single
    /// operand byte, so at most 256 constants can be referenced.
    ConstantPoolFull,
}

/// A specification-level snapshot of a container's contents.
pub ghost struct CodeModel {
    pub bytes: Seq<u8>,
    pub lines: Seq<usize>,
    pub consts: Seq<Value>,
}

/// A bytecode container.
#[derive(Debug)]
pub struct Code {
    /// The concatenated instructions: each an opcode byte followed by
    /// its fixed-arity operand bytes.
    pub raw: Vec<u8>,
    /// One source-line entry per byte of `raw`.
    pub lines: Vec<usize>,
    /// The constant pool, referenced by operand bytes encoding an index.
    pub const_pool: Vec<Value>,
}

impl Code {
    /// The byte sequence and the line table have equal length.
    pub open spec fn wf(&self) -> bool {
        self.raw@.len() == self.lines@.len()
    }

    /// This container's contents at the specification level.
    pub open spec fn model(&self) -> CodeModel {
        CodeModel { bytes: self.raw@, lines: self.lines@, consts: self.const_pool@ }
    }

    /// An empty container.
    pub fn new() -> (r: Code)
        ensures
            r.raw@.len() == 0,
            r.lines@.len() == 0,
            r.const_pool@.len() == 0,
            r.wf(),
    {
        Code { raw: Vec::new(), lines: Vec::new(), const_pool: Vec::new() }
    }

    /// Appends a constant to the pool and returns its index. Fails,
    /// leaving the pool unchanged, exactly when the pool already holds
    /// 256 entries, since an operand byte could not reference the new
    /// entry.
    pub fn add_const(&mut self, value: Value) -> (r: Result<u8, CodeError>)
        ensures
            final(self).raw@ == old(self).raw@,
            final(self).lines@ == old(self).lines@,
            match r {
                Result::Ok(idx) => old(self).const_pool@.len() < 256 && idx as int == old(
                    self,
                ).const_pool@.len() && final(self).const_pool@ == old(self).const_pool@.push(value),
                Result::Err(e) => old(self).const_pool@.len() >= 256 && final(self).const_pool@
                    == old(self).const_pool@ && e == CodeError::ConstantPoolFull,
            },
    {
        let n = self.const_pool.len();
        if n >= 256 {
            Result::Err(CodeError::ConstantPoolFull)
        } else {
            self.const_pool.push(value);
            Result::Ok(n as u8)
        }
    }

    /// Appends one byte to the instruction stream, recording its source
    /// line.
    pub fn write_code(&mut self, code: u8, line: usize)
        ensures
            final(self).raw@ == old(self).raw@.push(code),
            final(self).lines@ == old(self).lines@.push(line),
            final(self).const_pool@ == old(self).const_pool@,
    {
        self.raw.push(code);
        self.lines.push(line);
    }

    /// Appends an opcode byte and its operand bytes, recording `line`
    /// for each appended byte.
    pub fn append_instruction(&mut self, opcode: u8, operands: &Vec<u8>, line: usize)
        ensures
            final(self).raw@ == old(self).raw@.push(opcode) + operands@,
            final(self).lines@ == old(self).lines@ + Seq::new(
                1 + operands@.len(),
                |i: int| line,
            ),
            final(self).const_pool@ == old(self).const_pool@,
    {
        self.write_code(opcode, line);
        let n = operands.len();
        let mut i: usize = 0;
        while i < n
            invariant
                n == operands@.len(),
                i <= n,
                self.raw@ == old(self).raw@.push(opcode) + operands@.subrange(0, i as int),
                self.lines@ == old(self).lines@ + Seq::new((i + 1) as nat, |j: int| line),
                self.const_pool@ == old(self).const_pool@,
            decreases n - i,
        {
            self.write_code(operands[i], line);
            proof {
                assert(self.raw@ =~= old(self).raw@.push(opcode) + operands@.subrange(
                    0,
                    (i + 1) as int,
                ));
                assert(self.lines@ =~= old(self).lines@ + Seq::new((i + 2) as nat, |j: int| line));
            }
            i += 1;
        }
        proof {
            assert(operands@.subrange(0, n as int) =~= operands@);
            assert(self.lines@ =~= old(self).lines@ + Seq::new(1 + operands@.len(), |i: int| line));
        }
    }

    /// Decodes the one instruction at `offset`: its entry, and the
    /// offset of the next instruction. Decoding never executes: an
    /// unregistered opcode yields an unknown entry one byte wide, and
    /// operand bytes past the end of the code are simply absent.
    pub fn disassemble_instruction(&self, table: &InstructionTable, offset: usize) -> (r: (
        DisEntry,
        usize,
    ))
        requires
            self.wf(),
            offset < self.raw@.len(),
        ensures
            spec_dis(*self, table@, offset as int) == seq![r.0@] + spec_dis(
                *self,
                table@,
                r.1 as int,
            ),
            offset < r.1 <= self.raw@.len(),
    {
        let n = self.raw.len();
        let op = self.raw[offset];
        let line = self.lines[offset];
        let found = table.get(op);
        match found {
            Option::None => (DisEntry::Unknown { offset, line, opcode: op }, offset + 1),
            Option::Some(instr) => {
                let avail = n - offset - 1;
                let arity = instr.arity as usize;
                let take = if arity <= avail {
                    arity
                } else {
                    avail
                };
                let args = vstd::slice::slice_to_vec(
                    vstd::slice::slice_subrange(self.raw.as_slice(), offset + 1, offset + 1 + take),
                );
                let annot = match instr.kind {
                    OpKind::Push | OpKind::Load | OpKind::Store => {
                        if args.len() >= 1 && (args[0] as usize) < self.const_pool.len() {
                            Option::Some(self.const_pool[args[0] as usize])
                        } else {
                            Option::None
                        }
                    },
                    _ => Option::None,
                };
                let entry = DisEntry::Instr {
                    offset,
                    line,
                    mnemonic: instr.name.clone(),
                    operands: args,
                    annot,
                };
                (entry, offset + 1 + take)
            },
        }
    }

    /// Decodes the whole byte sequence, one entry per instruction; see
    /// [`spec_dis`].
    pub fn disassemble_entries(&self, table: &InstructionTable) -> (r: Vec<DisEntry>)
        requires
            self.wf(),
        ensures
            r.deep_view() == spec_dis(*self, table@, 0),
    {
        let mut out: Vec<DisEntry> = Vec::new();
        let mut ofs: usize = 0;
        let n = self.raw.len();
        while ofs < n
            invariant
                self.wf(),
                n == self.raw@.len(),
                ofs <= n,
                out.deep_view() + spec_dis(*self, table@, ofs as int) == spec_dis(
                    *self,
                    table@,
                    0,
                ),
            decreases n - ofs,
        {
            let step = self.disassemble_instruction(table, ofs);
            out.push(step.0);
            proof {
                assert(out.deep_view() =~= out.deep_view().subrange(
                    0,
                    out.deep_view().len() - 1,
                ).push(step.0@));
                assert(out.deep_view() + spec_dis(*self, table@, step.1 as int) =~= (
                out.deep_view().subrange(0, out.deep_view().len() - 1) + (seq![step.0@] + spec_dis(
                    *self,
                    table@,
                    step.1 as int,
                ))));
            }
            ofs = step.1;
        }
        proof {
            assert(out.deep_view() + spec_dis(*self, table@, ofs as int) =~= out.deep_view());
        }
        out
    }

    /// The deterministic human-readable listing: each decoded entry
    /// rendered on its own line; see [`spec_render_listing`].
    pub fn disassemble(&self, table: &InstructionTable) -> (s: String)
        requires
            self.wf(),
        ensures
            s@ == spec_render_listing(spec_dis(*self, table@, 0)),
    {
        let entries = self.disassemble_entries(table);
        let n = entries.len();
        let mut s = String::new();
        let mut i: usize = 0;
        let ghost all = spec_dis(*self, table@, 0);
        proof {
            assert(all.skip(0) =~= all);
            assert(s@ + spec_render_listing(all) =~= spec_render_listing(all));
        }
        while i < n
            invariant
                n == entries@.len(),
                i <= n,
                entries.deep_view() == all,
                s@ + spec_render_listing(all.skip(i as int)) == spec_render_listing(all),
            decreases n - i,
        {
            proof {
                assert(all.skip(i as int)[0] == all[i as int]);
                assert(all.skip(i as int).skip(1) =~= all.skip(i + 1 as int));
            }
            let rendered = render_entry(&entries[i]);
            s.append(rendered.as_str());
            s.append("\n");
            proof {
                reveal_strlit("\n");
                assert("\n"@ =~= seq!['\n']);
                assert(s@ + spec_render_listing(all.skip(i + 1 as int)) =~= spec_render_listing(
                    all,
                ));
            }
            i += 1;
        }
        proof {
            assert(s@ + spec_render_listing(all.skip(n as int)) =~= s@);
        }
        s
    }
}

/// One decoded instruction of a listing, at the specification level.
pub ghost enum DEntry {
    /// A registered instruction: its mnemonic, the operand bytes
    /// present, and, for a constant-bearing opcode, the referenced
    /// constant-pool value.
    Instr {
        offset: nat,
        line: usize,
        mnemonic: Seq<char>,
        operands: Seq<u8>,
        annot: Option<Value>,
    },
    /// An opcode byte without a registry entry.
    Unknown { offset: nat, line: usize, opcode: u8 },
}

/// One decoded instruction of a listing.
#[derive(Debug)]
pub enum DisEntry {
    /// A registered instruction: its mnemonic, the operand bytes
    /// present, and, for a constant-bearing opcode, the referenced
    /// constant-pool value.
    Instr {
        offset: usize,
        line: usize,
        mnemonic: String,
        operands: Vec<u8>,
        annot: Option<Value>,
    },
    /// An opcode byte without a registry entry.
    Unknown { offset: usize, line: usize, opcode: u8 },
}

impl View for DisEntry {
    type V = DEntry;

    open spec fn view(&self) -> DEntry {
        match self {
            DisEntry::Instr { offset, line, mnemonic, operands, annot } => DEntry::Instr {
                offset: *offset as nat,
                line: *line,
                mnemonic: mnemonic@,
                operands: operands@,
                annot: *annot,
            },
            DisEntry::Unknown { offset, line, opcode } => DEntry::Unknown {
                offset: *offset as nat,
                line: *line,
                opcode: *opcode,
            },
        }
    }
}

impl DeepView for DisEntry {
    type V = DEntry;

    open spec fn deep_view(&self) -> DEntry {
        self.view()
    }
}

/// The constant-pool value an operand references, shown for the
/// constant-bearing opcode kinds when the index is within the pool.
pub open spec fn spec_dis_annot(kind: OpKind, args: Seq<u8>, pool: Seq<Value>) -> Option<Value> {
    match kind {
        OpKind::Push | OpKind::Load | OpKind::Store => if args.len() >= 1 && (args[0] as int)
            < pool.len() {
            Option::Some(pool[args[0] as int])
        } else {
            Option::None
        },
        _ => Option::None,
    }
}

/// The decoded entries from byte offset `ofs` to the end: a registered
/// opcode takes its declared operand bytes (as many as remain) and
/// advances past them; an unregistered one advances a single byte.
/// Decoding is driven by the length alone, so it always terminates.
pub open spec fn spec_dis(code: Code, tab: Seq<Instruction>, ofs: int) -> Seq<DEntry>
    decreases code.raw@.len() - ofs,
    when 0 <= ofs
{
    if ofs >= code.raw@.len() {
        Seq::empty()
    } else {
        let op = code.raw@[ofs];
        let line = code.lines@[ofs];
        match spec_lookup(tab, op) {
            Option::None => seq![DEntry::Unknown { offset: ofs as nat, line, opcode: op }]
                + spec_dis(code, tab, ofs + 1),
            Option::Some(instr) => {
                let avail = code.raw@.len() - ofs - 1;
                let take = if instr.arity as int <= avail {
                    instr.arity as int
                } else {
                    avail
                };
                let args = code.raw@.subrange(ofs + 1, ofs + 1 + take);
                seq![
                    DEntry::Instr {
                        offset: ofs as nat,
                        line,
                        mnemonic: instr.name@,
                        operands: args,
                        annot: spec_dis_annot(instr.kind, args, code.const_pool@),
                    },
                ] + spec_dis(code, tab, ofs + 1 + take)
            },
        }
    }
}

/// The character of a decimal digit.
pub open spec fn digit_char(d: int) -> char {
    if d == 0 {
        '0'
    } else if d == 1 {
        '1'
    } else if d == 2 {
        '2'
    } else if d == 3 {
        '3'
    } else if d == 4 {
        '4'
    } else if d == 5 {
        '5'
    } else if d == 6 {
        '6'
    } else if d == 7 {
        '7'
    } else if d == 8 {
        '8'
    } else {
        '9'
    }
}

/// The decimal numeral of a non-negative number.
pub open spec fn dec_digits(n: int) -> Seq<char>
    recommends
        n >= 0,
    decreases n,
    via dec_digits_decreases
{
    if n < 10 {
        seq![digit_char(n)]
    } else {
        dec_digits(n / 10).push(digit_char(n % 10))
    }
}

#[via_fn]
proof fn dec_digits_decreases(n: int) {
    if n >= 10 {
        vstd::arithmetic::div_mod::lemma_div_is_strictly_smaller(n, 10);
    }
}

/// The decimal numeral of any number, a minus sign ahead of a
/// negative one.
pub open spec fn dec_int(v: int) -> Seq<char> {
    if v < 0 {
        seq!['-'] + dec_digits(-v)
    } else {
        dec_digits(v)
    }
}

/// One digit as a string.
fn digit_str(d: u64) -> (s: &'static str)
    requires
        d < 10,
    ensures
        s@ == seq![digit_char(d as int)],
{
    if d == 0 {
        proof {
            reveal_strlit("0");
            assert("0"@ =~= seq![digit_char(0)]);
        }
        "0"
    } else if d == 1 {
        proof {
            reveal_strlit("1");
            assert("1"@ =~= seq![digit_char(1)]);
        }
        "1"
    } else if d == 2 {
        proof {
            reveal_strlit("2");
            assert("2"@ =~= seq![digit_char(2)]);
        }
        "2"
    } else if d == 3 {
        proof {
            reveal_strlit("3");
            assert("3"@ =~= seq![digit_char(3)]);
        }
        "3"
    } else if d == 4 {
        proof {
            reveal_strlit("4");
            assert("4"@ =~= seq![digit_char(4)]);
        }
        "4"
    } else if d == 5 {
        proof {
            reveal_strlit("5");
            assert("5"@ =~= seq![digit_char(5)]);
        }
        "5"
    } else if d == 6 {
        proof {
            reveal_strlit("6");
            assert("6"@ =~= seq![digit_char(6)]);
        }
        "6"
    } else if d == 7 {
        proof {
            reveal_strlit("7");
            assert("7"@ =~= seq![digit_char(7)]);
        }
        "7"
    } else if d == 8 {
        proof {
            reveal_strlit("8");
            assert("8"@ =~= seq![digit_char(8)]);
        }
        "8"
    } else {
        proof {
            reveal_strlit("9");
            assert("9"@ =~= seq![digit_char(9)]);
        }
        "9"
    }
}

/// The decimal numeral of an unsigned number; see [`dec_digits`].
pub fn u64_dec(x: u64) -> (s: String)
    ensures
        s@ == dec_digits(x as int),
    decreases x,
{
    if x < 10 {
        String::from_str(digit_str(x))
    } else {
        proof {
            vstd::arithmetic::div_mod::lemma_div_is_strictly_smaller(x as int, 10);
        }
        let mut s = u64_dec(x / 10);
        s.append(digit_str(x % 10));
        proof {
            assert(s@ =~= dec_digits((x / 10) as int).push(digit_char((x % 10) as int)));
        }
        s
    }
}

/// The decimal numeral of a signed number; see [`dec_int`].
pub fn i64_dec(x: i64) -> (s: String)
    ensures
        s@ == dec_int(x as int),
{
    if x >= 0 {
        u64_dec(x as u64)
    } else {
        let mag: u64 = if x == i64::MIN {
            9223372036854775808u64
        } else {
            (-x) as u64
        };
        let mut s = String::from_str("-");
        let digits = u64_dec(mag);
        s.append(digits.as_str());
        proof {
            reveal_strlit("-");
            assert("-"@ =~= seq!['-']);
        }
        s
    }
}

/// The rendering of a value in a listing: decimal for the integer
/// shapes, `null`, `true` and `false` for the empty and boolean
/// shapes, and a tagged decimal bit pattern for the float and pointer
/// shapes.
pub open spec fn spec_render_value(v: Value) -> Seq<char> {
    match v {
        Value::Null => "null"@,
        Value::Bool(b) => if b {
            "true"@
        } else {
            "false"@
        },
        Value::I8(x) => dec_int(x as int),
        Value::I16(x) => dec_int(x as int),
        Value::I32(x) => dec_int(x as int),
        Value::I64(x) => dec_int(x as int),
        Value::U8(x) => dec_digits(x as int),
        Value::U16(x) => dec_digits(x as int),
        Value::U32(x) => dec_digits(x as int),
        Value::U64(x) => dec_digits(x as int),
        Value::F32(b) => "f32:"@ + dec_digits(b as int),
        Value::F64(b) => "f64:"@ + dec_digits(b as int),
        Value::Ptr(p) => "ptr:"@ + dec_digits(p as int),
    }
}

/// Renders a value; see [`spec_render_value`].
pub fn render_value(v: &Value) -> (s: String)
    ensures
        s@ == spec_render_value(*v),
{
    match v {
        Value::Null => String::from_str("null"),
        Value::Bool(b) => {
            if *b {
                String::from_str("true")
            } else {
                String::from_str("false")
            }
        },
        Value::I8(x) => i64_dec(*x as i64),
        Value::I16(x) => i64_dec(*x as i64),
        Value::I32(x) => i64_dec(*x as i64),
        Value::I64(x) => i64_dec(*x),
        Value::U8(x) => u64_dec(*x as u64),
        Value::U16(x) => u64_dec(*x as u64),
        Value::U32(x) => u64_dec(*x as u64),
        Value::U64(x) => u64_dec(*x),
        Value::F32(b) => {
            let mut s = String::from_str("f32:");
            let digits = u64_dec(*b as u64);
            s.append(digits.as_str());
            s
        },
        Value::F64(b) => {
            let mut s = String::from_str("f64:");
            let digits = u64_dec(*b);
            s.append(digits.as_str());
            s
        },
        Value::Ptr(p) => {
            let mut s = String::from_str("ptr:");
            let digits = u64_dec(*p);
            s.append(digits.as_str());
            s
        },
    }
}

/// The rendering of a run of operand bytes: each preceded by a space.
pub open spec fn spec_render_ops(ops: Seq<u8>) -> Seq<char>
    decreases ops.len(),
{
    if ops.len() == 0 {
        Seq::empty()
    } else {
        seq![' '] + dec_digits(ops[0] as int) + spec_render_ops(ops.skip(1))
    }
}

/// The rendering of one decoded entry:
/// `<offset> <line> <MNEMONIC> <operands...>`, then the referenced
/// constant for a constant-bearing opcode; an unknown opcode renders
/// as `??? <opcode>`.
pub open spec fn spec_render_entry(e: DEntry) -> Seq<char> {
    match e {
        DEntry::Instr { offset, line, mnemonic, operands, annot } => dec_digits(offset as int)
            + seq![' '] + dec_digits(line as int) + seq![' '] + mnemonic + spec_render_ops(operands)
            + (match annot {
            Option::Some(v) => seq![' '] + spec_render_value(v),
            Option::None => Seq::empty(),
        }),
        DEntry::Unknown { offset, line, opcode } => dec_digits(offset as int) + seq![' ']
            + dec_digits(line as int) + seq![' '] + "???"@ + seq![' '] + dec_digits(opcode as int),
    }
}

/// The rendering of a whole listing: each entry's line ended by a
/// newline.
pub open spec fn spec_render_listing(es: Seq<DEntry>) -> Seq<char>
    decreases es.len(),
{
    if es.len() == 0 {
        Seq::empty()
    } else {
        spec_render_entry(es[0]) + seq!['\n'] + spec_render_listing(es.skip(1))
    }
}

/// A single space as a string.
fn space_str() -> (s: &'static str)
    ensures
        s@ == seq![' '],
{
    proof {
        reveal_strlit(" ");
        assert(" "@ =~= seq![' ']);
    }
    " "
}

/// Renders a run of operand bytes; see [`spec_render_ops`].
fn render_ops(ops: &Vec<u8>) -> (s: String)
    ensures
        s@ == spec_render_ops(ops@),
{
    let n = ops.len();
    let mut s = String::new();
    let mut i: usize = 0;
    proof {
        assert(ops@.skip(0) =~= ops@);
        assert(s@ + spec_render_ops(ops@) =~= spec_render_ops(ops@));
    }
    while i < n
        invariant
            n == ops@.len(),
            i <= n,
            s@ + spec_render_ops(ops@.skip(i as int)) == spec_render_ops(ops@),
        decreases n - i,
    {
        proof {
            assert(ops@.skip(i as int)[0] == ops@[i as int]);
            assert(ops@.skip(i as int).skip(1) =~= ops@.skip(i + 1 as int));
        }
        s.append(space_str());
        let digits = u64_dec(ops[i] as u64);
        s.append(digits.as_str());
        proof {
            assert(s@ + spec_render_ops(ops@.skip(i + 1 as int)) =~= spec_render_ops(ops@));
        }
        i += 1;
    }
    proof {
        assert(s@ + spec_render_ops(ops@.skip(n as int)) =~= s@);
    }
    s
}

/// Renders one decoded entry; see [`spec_render_entry`].
pub fn render_entry(e: &DisEntry) -> (s: String)
    ensures
        s@ == spec_render_entry(e@),
{
    match e {
        DisEntry::Instr { offset, line, mnemonic, operands, annot } => {
            let mut s = u64_dec(*offset as u64);
            s.append(space_str());
            let line_digits = u64_dec(*line as u64);
            s.append(line_digits.as_str());
            s.append(space_str());
            s.append(mnemonic.as_str());
            let ops_str = render_ops(operands);
            s.append(ops_str.as_str());
            match annot {
                Option::Some(v) => {
                    s.append(space_str());
                    let vs = render_value(v);
                    s.append(vs.as_str());
                },
                Option::None => {},
            }
            s
        },
        DisEntry::Unknown { offset, line, opcode } => {
            let mut s = u64_dec(*offset as u64);
            s.append(space_str());
            let line_digits = u64_dec(*line as u64);
            s.append(line_digits.as_str());
            s.append(space_str());
            s.append("???");
            s.append(space_str());
            let op_digits = u64_dec(*opcode as u64);
            s.append(op_digits.as_str());
            s
        },
    }
}

} // verus!
