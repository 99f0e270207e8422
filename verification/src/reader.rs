//! The textual assembler: line-oriented mnemonic source, one
//! instruction per line, tokens separated by whitespace.
//!
//! The first token of a line is a mnemonic, resolved through the
//! instruction registry; the remaining tokens are unsigned byte
//! operands (a raw numeral, or a mnemonic standing for its opcode
//! byte). `CONST <literal>` is a pseudo-instruction consumed entirely
//! by the assembler: it appends the literal to the constant pool and
//! emits no machine instruction. A line without tokens assembles to an
//! implicit halt instruction, except at the very end of the source,
//! where the implicit trailing halt is dropped.

use vstd::prelude::*;
use vstd::string::StrSliceExecFns;
use vstd::string::StringExecFns;

use crate::code::Code;
use crate::code::CodeModel;
use crate::instruction::Instruction;
use crate::instruction_table::InstructionTable;
use crate::instruction_table::spec_lookup_name;
use crate::value::UintScan;
use crate::value::Value;
use crate::value::scan_uint;
use crate::value::spec_parse_uint;
use crate::value::spec_parse_value;

verus! {

/// The whitespace characters that separate tokens: space, tab,
/// carriage return and newline.
pub open spec fn is_ws(c: char) -> bool {
    c == ' ' || c == '\t' || c == '\r' || c == '\n'
}

/// The number of leading non-whitespace characters of `s`.
pub open spec fn word_len(s: Seq<char>) -> nat
    decreases s.len(),
{
    if s.len() == 0 || is_ws(s[0]) {
        0nat
    } else {
        1 + word_len(s.skip(1))
    }
}

/// The number of characters of `s` before its first newline (all of
/// them if it has none).
pub open spec fn line_len(s: Seq<char>) -> nat
    decreases s.len(),
{
    if s.len() == 0 || s[0] == '\n' {
        0nat
    } else {
        1 + line_len(s.skip(1))
    }
}

pub proof fn lemma_word_len_le(s: Seq<char>)
    ensures
        word_len(s) <= s.len(),
    decreases s.len(),
{
    if s.len() > 0 && !is_ws(s[0]) {
        lemma_word_len_le(s.skip(1));
    }
}

pub proof fn lemma_line_len_le(s: Seq<char>)
    ensures
        line_len(s) <= s.len(),
    decreases s.len(),
{
    if s.len() > 0 && s[0] != '\n' {
        lemma_line_len_le(s.skip(1));
    }
}

/// `word_len` is exactly the position of the first whitespace
/// character, where the prefix before it has none.
pub proof fn lemma_word_len_at(s: Seq<char>, k: int)
    requires
        0 <= k <= s.len(),
        forall|j: int| 0 <= j < k ==> !is_ws(s[j]),
        k == s.len() || is_ws(s[k]),
    ensures
        word_len(s) == k,
    decreases k,
{
    if k > 0 {
        lemma_word_len_at(s.skip(1), k - 1);
    }
}

/// `line_len` is exactly the position of the first newline, where the
/// prefix before it has none.
pub proof fn lemma_line_len_at(s: Seq<char>, k: int)
    requires
        0 <= k <= s.len(),
        forall|j: int| 0 <= j < k ==> s[j] != '\n',
        k == s.len() || s[k] == '\n',
    ensures
        line_len(s) == k,
    decreases k,
{
    if k > 0 {
        lemma_line_len_at(s.skip(1), k - 1);
    }
}

/// The source split at newlines: always at least one line, the
/// separators dropped. An empty source is one empty line.
pub open spec fn spec_split_lines(s: Seq<char>) -> Seq<Seq<char>>
    decreases s.len(),
    via spec_split_lines_decreases
{
    let k = line_len(s);
    if k == s.len() {
        seq![s]
    } else {
        seq![s.take(k as int)] + spec_split_lines(s.skip(k + 1 as int))
    }
}

#[via_fn]
proof fn spec_split_lines_decreases(s: Seq<char>) {
    lemma_line_len_le(s);
}

/// The whitespace-separated words of `s`, in order, each non-empty.
pub open spec fn spec_split_words(s: Seq<char>) -> Seq<Seq<char>>
    decreases s.len(),
    via spec_split_words_decreases
{
    if s.len() == 0 {
        Seq::empty()
    } else if is_ws(s[0]) {
        spec_split_words(s.skip(1))
    } else {
        let k = word_len(s);
        seq![s.take(k as int)] + spec_split_words(s.skip(k as int))
    }
}

#[via_fn]
proof fn spec_split_words_decreases(s: Seq<char>) {
    lemma_word_len_le(s);
}

/// Splits the source at newlines; see [`spec_split_lines`].
pub fn split_lines<'a>(src: &'a str) -> (r: Vec<&'a str>)
    ensures
        r.deep_view() == spec_split_lines(src@),
    decreases src@.len(),
{
    let n = src.unicode_len();
    let mut k: usize = 0;
    while k < n
        invariant_except_break
            k <= n,
            n == src@.len(),
            forall|j: int| 0 <= j < k ==> src@[j] != '\n',
        ensures
            k <= n && n == src@.len() && (forall|j: int| 0 <= j < k ==> src@[j] != '\n') && (k == n
                || src@[k as int] == '\n'),
        decreases n - k,
    {
        if src.get_char(k) == '\n' {
            break ;
        }
        k += 1;
    }
    proof {
        lemma_line_len_at(src@, k as int);
    }
    if k == n {
        let mut out: Vec<&str> = Vec::new();
        out.push(src);
        proof {
            assert(out.deep_view() =~= seq![src@]);
        }
        out
    } else {
        let first = src.substring_char(0, k);
        let rest = src.substring_char(k + 1, n);
        let mut tail = split_lines(rest);
        let mut out: Vec<&str> = Vec::new();
        out.push(first);
        out.append(&mut tail);
        proof {
            assert(out.deep_view() =~= seq![src@.take(k as int)] + spec_split_lines(
                src@.skip(k + 1 as int),
            ));
        }
        out
    }
}

/// With a leading whitespace character removed, the words are the same.
proof fn lemma_split_words_ws_head(s: Seq<char>)
    requires
        s.len() > 0,
        is_ws(s[0]),
    ensures
        spec_split_words(s) == spec_split_words(s.skip(1)),
{
}

/// Splits a line (or any text) into whitespace-separated words; see
/// [`spec_split_words`].
pub fn split_words<'a>(line: &'a str) -> (r: Vec<&'a str>)
    ensures
        r.deep_view() == spec_split_words(line@),
    decreases line@.len(),
{
    let n = line.unicode_len();
    if n == 0 {
        let out: Vec<&str> = Vec::new();
        proof {
            assert(out.deep_view() =~= Seq::<Seq<char>>::empty());
        }
        return out;
    }
    if is_ws_char(line.get_char(0)) {
        let rest = line.substring_char(1, n);
        proof {
            lemma_split_words_ws_head(line@);
            assert(rest@ =~= line@.skip(1));
        }
        return split_words(rest);
    }
    let mut k: usize = 1;
    while k < n
        invariant_except_break
            1 <= k <= n,
            n == line@.len(),
            forall|j: int| 0 <= j < k ==> !is_ws(line@[j]),
        ensures
            1 <= k <= n && n == line@.len() && (forall|j: int| 0 <= j < k ==> !is_ws(line@[j])) && (
            k == n || is_ws(line@[k as int])),
        decreases n - k,
    {
        if is_ws_char(line.get_char(k)) {
            break ;
        }
        k += 1;
    }
    proof {
        lemma_word_len_at(line@, k as int);
    }
    let word = line.substring_char(0, k);
    let rest = line.substring_char(k, n);
    let mut tail = split_words(rest);
    let mut out: Vec<&str> = Vec::new();
    out.push(word);
    out.append(&mut tail);
    proof {
        assert(rest@ =~= line@.skip(k as int));
        assert(out.deep_view() =~= seq![line@.take(k as int)] + spec_split_words(
            line@.skip(k as int),
        ));
    }
    out
}

/// Executable form of [`is_ws`].
fn is_ws_char(c: char) -> (r: bool)
    ensures
        r == is_ws(c),
{
    c == ' ' || c == '\t' || c == '\r' || c == '\n'
}

/// What went wrong in a line of assembler source.
#[derive(Clone, Copy, PartialEq, Eq, Structural, Debug)]
pub enum AsmErrorKind {
    /// The first token of the line names no registered instruction.
    UnknownMnemonic,
    /// An operand token is neither a byte numeral nor a mnemonic, or a
    /// constant literal has an unsupported shape.
    BadOperand,
    /// A constant pseudo-instruction without a literal token.
    MissingOperand,
    /// The constant pool reached its 256-entry limit.
    ConstantPoolFull,
}

/// A fatal assembly failure, naming the offending token and line.
#[derive(PartialEq, Eq, Debug)]
pub struct AsmError {
    pub line: usize,
    pub token: String,
    pub kind: AsmErrorKind,
}

/// A parsed source line, at the specification level.
pub ghost enum PLine {
    /// A line without tokens: an implicit halt.
    Empty,
    /// A constant pseudo-instruction carrying its literal's value.
    Const(Value),
    /// A machine instruction: resolved opcode and operand bytes.
    Instr { opcode: u8, operands: Seq<u8> },
}

/// A parsed source line.
pub enum ParsedLine {
    /// A line without tokens: an implicit halt.
    Empty,
    /// A constant pseudo-instruction carrying its literal's value.
    Const(Value),
    /// A machine instruction: resolved opcode and operand bytes.
    Instr { opcode: u8, operands: Vec<u8> },
}

impl View for ParsedLine {
    type V = PLine;

    open spec fn view(&self) -> PLine {
        match self {
            ParsedLine::Empty => PLine::Empty,
            ParsedLine::Const(v) => PLine::Const(*v),
            ParsedLine::Instr { opcode, operands } => PLine::Instr {
                opcode: *opcode,
                operands: operands@,
            },
        }
    }
}

impl DeepView for ParsedLine {
    type V = PLine;

    open spec fn deep_view(&self) -> PLine {
        self.view()
    }
}

/// An operand token denotes the opcode of a registered mnemonic, or a
/// byte numeral.
pub open spec fn spec_parse_chunk(tok: Seq<char>, tab: Seq<Instruction>) -> Option<u8> {
    match spec_lookup_name(tab, tok) {
        Option::Some(instr) => Option::Some(instr.op_code),
        Option::None => match spec_parse_uint(tok) {
            Option::Some(v) => if 0 <= v <= 255 {
                Option::Some(v as u8)
            } else {
                Option::None
            },
            Option::None => Option::None,
        },
    }
}

/// The operand bytes that a run of operand tokens denotes, or nothing
/// if any token is unparseable.
pub open spec fn spec_parse_operands(ws: Seq<Seq<char>>, tab: Seq<Instruction>) -> Option<Seq<u8>>
    decreases ws.len(),
{
    if ws.len() == 0 {
        Option::Some(Seq::empty())
    } else {
        match spec_parse_chunk(ws[0], tab) {
            Option::None => Option::None,
            Option::Some(b) => match spec_parse_operands(ws.skip(1), tab) {
                Option::None => Option::None,
                Option::Some(r) => Option::Some(seq![b] + r),
            },
        }
    }
}

/// The first unparseable operand token of `ws` (meaningful only when
/// [`spec_parse_operands`] fails).
pub open spec fn spec_operands_err(ws: Seq<Seq<char>>, tab: Seq<Instruction>) -> Seq<char>
    decreases ws.len(),
{
    if ws.len() == 0 {
        Seq::empty()
    } else if spec_parse_chunk(ws[0], tab) is None {
        ws[0]
    } else {
        spec_operands_err(ws.skip(1), tab)
    }
}

/// What a source line parses to: nothing for an error; an empty line,
/// a constant pseudo-instruction, or a machine instruction otherwise.
/// The `CONST` pseudo-mnemonic is recognised before the registry is
/// consulted; only the first token after it is read as the literal.
pub open spec fn spec_parse_line(line: Seq<char>, tab: Seq<Instruction>) -> Option<PLine> {
    let ws = spec_split_words(line);
    if ws.len() == 0 {
        Option::Some(PLine::Empty)
    } else if ws[0] == "CONST"@ {
        if ws.len() < 2 {
            Option::None
        } else {
            match spec_parse_value(ws[1]) {
                Option::Some(v) => Option::Some(PLine::Const(v)),
                Option::None => Option::None,
            }
        }
    } else {
        match spec_lookup_name(tab, ws[0]) {
            Option::None => Option::None,
            Option::Some(instr) => match spec_parse_operands(ws.skip(1), tab) {
                Option::None => Option::None,
                Option::Some(ops) => Option::Some(
                    PLine::Instr { opcode: instr.op_code, operands: ops },
                ),
            },
        }
    }
}

/// The failure kind and offending token of a line (meaningful only
/// when [`spec_parse_line`] fails).
pub open spec fn spec_line_err(line: Seq<char>, tab: Seq<Instruction>) -> (AsmErrorKind, Seq<
    char,
>) {
    let ws = spec_split_words(line);
    if ws.len() == 0 {
        (AsmErrorKind::BadOperand, Seq::empty())
    } else if ws[0] == "CONST"@ {
        if ws.len() < 2 {
            (AsmErrorKind::MissingOperand, ws[0])
        } else {
            (AsmErrorKind::BadOperand, ws[1])
        }
    } else if spec_lookup_name(tab, ws[0]) is None {
        (AsmErrorKind::UnknownMnemonic, ws[0])
    } else {
        (AsmErrorKind::BadOperand, spec_operands_err(ws.skip(1), tab))
    }
}

/// Parses one operand token; see [`spec_parse_chunk`].
pub fn parse_chunk(chunk: &str, table: &InstructionTable) -> (r: Option<u8>)
    ensures
        r == spec_parse_chunk(chunk@, table@),
{
    let found = table.instr_by_name(chunk);
    match found {
        Option::Some(instr) => Option::Some(instr.op_code),
        Option::None => match scan_uint(chunk) {
            UintScan::Val(x) => if x <= 255 {
                Option::Some(x as u8)
            } else {
                Option::None
            },
            UintScan::TooBig => Option::None,
            UintScan::NotNumeral => Option::None,
        },
    }
}

/// Parses one source line; see [`spec_parse_line`]. An error names the
/// offending token and carries the given line number.
pub fn parse_line(line: &str, ln: usize, table: &InstructionTable) -> (r: Result<
    ParsedLine,
    AsmError,
>)
    ensures
        match r {
            Result::Ok(pl) => spec_parse_line(line@, table@) == Option::Some(pl@),
            Result::Err(e) => spec_parse_line(line@, table@) is None && e.line == ln && e.kind
                == spec_line_err(line@, table@).0 && e.token@ == spec_line_err(line@, table@).1,
        },
{
    let words = split_words(line);
    let nwords = words.len();
    if nwords == 0 {
        return Result::Ok(ParsedLine::Empty);
    }
    let w0: &str = words[0];
    proof {
        assert(words.deep_view()[0] == w0@);
    }
    if String::from_str(w0) == String::from_str("CONST") {
        if nwords < 2 {
            return Result::Err(
                AsmError {
                    line: ln,
                    token: String::from_str(w0),
                    kind: AsmErrorKind::MissingOperand,
                },
            );
        }
        let w1: &str = words[1];
        proof {
            assert(words.deep_view()[1] == w1@);
        }
        match Value::from_str(w1) {
            Option::Some(v) => Result::Ok(ParsedLine::Const(v)),
            Option::None => Result::Err(
                AsmError { line: ln, token: String::from_str(w1), kind: AsmErrorKind::BadOperand },
            ),
        }
    } else {
        let found = table.instr_by_name(w0);
        let opcode = match found {
            Option::Some(instr) => instr.op_code,
            Option::None => {
                return Result::Err(
                    AsmError {
                        line: ln,
                        token: String::from_str(w0),
                        kind: AsmErrorKind::UnknownMnemonic,
                    },
                );
            },
        };
        let ghost ws = spec_split_words(line@);
        let mut ops: Vec<u8> = Vec::new();
        let mut i: usize = 1;
        while i < nwords
            invariant
                1 <= i <= nwords,
                nwords == words@.len(),
                words.deep_view() == ws,
                ws == spec_split_words(line@),
                ws[0] != "CONST"@,
                spec_lookup_name(table@, ws[0]) matches Option::Some(found_instr)
                    && found_instr.op_code == opcode,
                match spec_parse_operands(ws.skip(i as int), table@) {
                    Option::Some(r) => spec_parse_operands(ws.skip(1), table@)
                        == Option::Some(ops@ + r),
                    Option::None => spec_parse_operands(ws.skip(1), table@) is None
                        && spec_operands_err(ws.skip(1), table@) == spec_operands_err(
                        ws.skip(i as int),
                        table@,
                    ),
                },
            decreases nwords - i,
        {
            let wi: &str = words[i];
            proof {
                assert(words.deep_view()[i as int] == wi@);
                assert(ws.skip(i as int)[0] == ws[i as int]);
            }
            match parse_chunk(wi, table) {
                Option::Some(b) => {
                    ops.push(b);
                    proof {
                        assert(ws.skip(i as int).skip(1) =~= ws.skip(i + 1 as int));
                        if spec_parse_operands(ws.skip(i + 1 as int), table@) is Some {
                            let rest = spec_parse_operands(ws.skip(i + 1 as int), table@)->Some_0;
                            assert(ops@ + rest =~= ops@.drop_last() + (seq![b] + rest));
                        }
                    }
                },
                Option::None => {
                    proof {
                        assert(spec_parse_operands(ws.skip(i as int), table@) is None);
                    }
                    return Result::Err(
                        AsmError {
                            line: ln,
                            token: String::from_str(wi),
                            kind: AsmErrorKind::BadOperand,
                        },
                    );
                },
            }
            i += 1;
        }
        proof {
            assert(ws.skip(nwords as int).len() == 0);
            assert(ops@ + Seq::<u8>::empty() =~= ops@);
        }
        Result::Ok(ParsedLine::Instr { opcode, operands: ops })
    }
}

/// Parses every line, with its index as its line number; an error is
/// the first line that does not parse.
pub fn parse_lines(lines: &Vec<&str>, table: &InstructionTable) -> (r: Result<
    Vec<ParsedLine>,
    AsmError,
>)
    ensures
        match r {
            Result::Ok(pls) => pls@.len() == lines@.len() && forall|j: int|
                0 <= j < lines@.len() ==> spec_parse_line(lines.deep_view()[j], table@)
                    == Option::Some((#[trigger] pls@[j])@),
            Result::Err(e) => e.line < lines@.len() && spec_parse_line(
                lines.deep_view()[e.line as int],
                table@,
            ) is None,
        },
{
    let n = lines.len();
    let mut out: Vec<ParsedLine> = Vec::new();
    let mut i: usize = 0;
    while i < n
        invariant
            n == lines@.len(),
            i <= n,
            out@.len() == i,
            forall|j: int|
                0 <= j < i ==> spec_parse_line(lines.deep_view()[j], table@) == Option::Some(
                    (#[trigger] out@[j])@,
                ),
        decreases n - i,
    {
        let li: &str = lines[i];
        proof {
            assert(lines.deep_view()[i as int] == li@);
        }
        match parse_line(li, i, table) {
            Result::Ok(pl) => {
                out.push(pl);
            },
            Result::Err(e) => {
                return Result::Err(e);
            },
        }
        i += 1;
    }
    Result::Ok(out)
}

/// What one parsed line appends to a container: an empty line emits
/// the registered halt instruction; a constant pseudo-instruction
/// appends to the pool, refusing a 257th entry; an instruction line
/// appends its opcode byte and operand bytes, recording the line
/// number for each appended byte.
pub open spec fn spec_emit_code(
    pl: PLine,
    ln: usize,
    tab: Seq<Instruction>,
    cm: CodeModel,
) -> Option<CodeModel> {
    match pl {
        PLine::Empty => match spec_lookup_name(tab, "HALT"@) {
            Option::None => Option::None,
            Option::Some(instr) => Option::Some(
                CodeModel {
                    bytes: cm.bytes.push(instr.op_code),
                    lines: cm.lines.push(ln),
                    consts: cm.consts,
                },
            ),
        },
        PLine::Const(v) => if cm.consts.len() >= 256 {
            Option::None
        } else {
            Option::Some(CodeModel { consts: cm.consts.push(v), ..cm })
        },
        PLine::Instr { opcode, operands } => Option::Some(
            CodeModel {
                bytes: cm.bytes.push(opcode) + operands,
                lines: cm.lines + Seq::new(1 + operands.len(), |j: int| ln),
                consts: cm.consts,
            },
        ),
    }
}

/// Folds [`spec_emit_code`] over the parsed lines from index `i` on;
/// an empty line at the very end contributes nothing (the implicit
/// trailing halt is dropped).
pub open spec fn spec_emit_all(
    pls: Seq<PLine>,
    i: int,
    tab: Seq<Instruction>,
    cm: CodeModel,
) -> Option<CodeModel>
    decreases pls.len() - i,
    when 0 <= i <= pls.len()
{
    if i >= pls.len() {
        Option::Some(cm)
    } else if i == pls.len() - 1 && pls[i] is Empty {
        Option::Some(cm)
    } else {
        match spec_emit_code(pls[i], i as usize, tab, cm) {
            Option::None => Option::None,
            Option::Some(cm2) => spec_emit_all(pls, i + 1, tab, cm2),
        }
    }
}

/// Parse and emit interleaved, from line `i` on.
pub open spec fn spec_asm(
    lines: Seq<Seq<char>>,
    i: int,
    tab: Seq<Instruction>,
    cm: CodeModel,
) -> Option<CodeModel>
    decreases lines.len() - i,
    when 0 <= i <= lines.len()
{
    if i >= lines.len() {
        Option::Some(cm)
    } else {
        match spec_parse_line(lines[i], tab) {
            Option::None => Option::None,
            Option::Some(pl) => if i == lines.len() - 1 && pl is Empty {
                Option::Some(cm)
            } else {
                match spec_emit_code(pl, i as usize, tab, cm) {
                    Option::None => Option::None,
                    Option::Some(cm2) => spec_asm(lines, i + 1, tab, cm2),
                }
            },
        }
    }
}

/// What a whole source assembles to, if anything: split at newlines,
/// parse each line, emit each into an empty container.
pub open spec fn spec_assemble(src: Seq<char>, tab: Seq<Instruction>) -> Option<CodeModel> {
    spec_asm(
        spec_split_lines(src),
        0,
        tab,
        CodeModel { bytes: Seq::empty(), lines: Seq::empty(), consts: Seq::empty() },
    )
}

/// When every line from `i` on parses to the given parsed lines, the
/// interleaved fold equals the emit-only fold.
pub proof fn lemma_asm_factor(
    lines: Seq<Seq<char>>,
    pls: Seq<PLine>,
    i: int,
    tab: Seq<Instruction>,
    cm: CodeModel,
)
    requires
        pls.len() == lines.len(),
        0 <= i <= lines.len(),
        forall|j: int|
            i <= j < lines.len() ==> spec_parse_line(lines[j], tab) == Option::Some(
                #[trigger] pls[j],
            ),
    ensures
        spec_asm(lines, i, tab, cm) == spec_emit_all(pls, i, tab, cm),
    decreases lines.len() - i,
{
    if i < lines.len() {
        if !(i == lines.len() - 1 && pls[i] is Empty) {
            match spec_emit_code(pls[i], i as usize, tab, cm) {
                Option::None => {},
                Option::Some(cm2) => {
                    lemma_asm_factor(lines, pls, i + 1, tab, cm2);
                },
            }
        }
    }
}

/// If some line at or after `i` does not parse, the whole fold fails.
pub proof fn lemma_asm_parse_fail(
    lines: Seq<Seq<char>>,
    i: int,
    j: int,
    tab: Seq<Instruction>,
    cm: CodeModel,
)
    requires
        0 <= i <= j < lines.len(),
        spec_parse_line(lines[j], tab) is None,
    ensures
        spec_asm(lines, i, tab, cm) is None,
    decreases j - i,
{
    if i < j {
        match spec_parse_line(lines[i], tab) {
            Option::None => {},
            Option::Some(pl) => {
                match spec_emit_code(pl, i as usize, tab, cm) {
                    Option::None => {},
                    Option::Some(cm2) => {
                        lemma_asm_parse_fail(lines, i + 1, j, tab, cm2);
                    },
                }
            },
        }
    }
}

/// Emits one parsed line into the container; see [`spec_emit_code`].
pub fn assemble_line(pl: &ParsedLine, ln: usize, table: &InstructionTable, code: &mut Code) -> (r:
    Result<(), AsmError>)
    requires
        old(code).wf(),
    ensures
        final(code).wf(),
        match r {
            Result::Ok(_) => spec_emit_code(pl@, ln, table@, old(code).model()) == Option::Some(
                final(code).model(),
            ),
            Result::Err(e) => spec_emit_code(pl@, ln, table@, old(code).model()) is None
                && final(code).model() == old(code).model() && e.line == ln,
        },
{
    match pl {
        ParsedLine::Empty => {
            let halt_i = table.instr_by_name("HALT");
            match halt_i {
                Option::Some(instr) => {
                    let op = instr.op_code;
                    code.write_code(op, ln);
                    Result::Ok(())
                },
                Option::None => Result::Err(
                    AsmError {
                        line: ln,
                        token: String::from_str("HALT"),
                        kind: AsmErrorKind::UnknownMnemonic,
                    },
                ),
            }
        },
        ParsedLine::Const(v) => {
            let added = code.add_const(*v);
            match added {
                Result::Ok(_) => Result::Ok(()),
                Result::Err(_) => Result::Err(
                    AsmError {
                        line: ln,
                        token: String::from_str("CONST"),
                        kind: AsmErrorKind::ConstantPoolFull,
                    },
                ),
            }
        },
        ParsedLine::Instr { opcode, operands } => {
            code.append_instruction(*opcode, operands, ln);
            proof {
                assert(code.lines@ =~= old(code).lines@ + Seq::new(
                    1 + operands@.len(),
                    |j: int| ln,
                ));
            }
            Result::Ok(())
        },
    }
}

/// Emits every parsed line, dropping a trailing empty line; see
/// [`spec_emit_all`].
pub fn assemble_lines(pls: &Vec<ParsedLine>, table: &InstructionTable, code: &mut Code) -> (r:
    Result<(), AsmError>)
    requires
        old(code).wf(),
    ensures
        final(code).wf(),
        match r {
            Result::Ok(_) => spec_emit_all(pls.deep_view(), 0, table@, old(code).model())
                == Option::Some(final(code).model()),
            Result::Err(_) => spec_emit_all(pls.deep_view(), 0, table@, old(code).model()) is None,
        },
{
    let n = pls.len();
    let ghost dvs = pls.deep_view();
    let mut i: usize = 0;
    while i < n
        invariant
            n == pls@.len(),
            i <= n,
            dvs == pls.deep_view(),
            dvs.len() == n,
            code.wf(),
            spec_emit_all(dvs, i as int, table@, code.model()) == spec_emit_all(
                dvs,
                0,
                table@,
                old(code).model(),
            ),
        decreases n - i,
    {
        let is_last = i + 1 == n;
        let pli = &pls[i];
        proof {
            assert(dvs[i as int] == pli@);
        }
        let skip_this = is_last && matches!(pli, ParsedLine::Empty);
        if !skip_this {
            let r = assemble_line(pli, i, table, code);
            match r {
                Result::Ok(_) => {},
                Result::Err(e) => {
                    return Result::Err(e);
                },
            }
        }
        i += 1;
    }
    Result::Ok(())
}

/// One machine instruction as the assembler emits it: its opcode
/// byte, its operand bytes, and the source line it came from.
pub ghost struct EmitRec {
    pub opcode: u8,
    pub operands: Seq<u8>,
    pub line: usize,
}

/// The machine instructions that the parsed lines from `i` on emit:
/// an empty line emits the registered halt instruction (none at the
/// very end, and none at all if no halt is registered), a constant
/// pseudo-instruction emits nothing, and an instruction line emits
/// itself.
pub open spec fn spec_emitted(pls: Seq<PLine>, i: int, tab: Seq<Instruction>) -> Seq<EmitRec>
    decreases pls.len() - i,
    when 0 <= i <= pls.len()
{
    if i >= pls.len() {
        Seq::empty()
    } else if i == pls.len() - 1 && pls[i] is Empty {
        Seq::empty()
    } else {
        let head: Seq<EmitRec> = match pls[i] {
            PLine::Empty => match spec_lookup_name(tab, "HALT"@) {
                Option::Some(instr) => seq![
                    EmitRec { opcode: instr.op_code, operands: Seq::empty(), line: i as usize },
                ],
                Option::None => Seq::empty(),
            },
            PLine::Const(_) => Seq::empty(),
            PLine::Instr { opcode, operands } => seq![
                EmitRec { opcode, operands, line: i as usize },
            ],
        };
        head + spec_emitted(pls, i + 1, tab)
    }
}

/// The byte sequence that a run of emitted instructions occupies.
pub open spec fn emit_bytes(recs: Seq<EmitRec>) -> Seq<u8>
    decreases recs.len(),
{
    if recs.len() == 0 {
        Seq::empty()
    } else {
        seq![recs[0].opcode] + recs[0].operands + emit_bytes(recs.skip(1))
    }
}

/// A successful emit fold appends exactly the bytes of the emitted
/// instructions.
pub proof fn lemma_emit_all_bytes(pls: Seq<PLine>, i: int, tab: Seq<Instruction>, cm: CodeModel)
    requires
        0 <= i <= pls.len(),
        spec_emit_all(pls, i, tab, cm) is Some,
    ensures
        (spec_emit_all(pls, i, tab, cm)->Some_0).bytes == cm.bytes + emit_bytes(
            spec_emitted(pls, i, tab),
        ),
    decreases pls.len() - i,
{
    let ems = spec_emitted(pls, i, tab);
    if i >= pls.len() || (i == pls.len() - 1 && pls[i] is Empty) {
        assert(cm.bytes + emit_bytes(ems) =~= cm.bytes);
    } else {
        let cm2 = spec_emit_code(pls[i], i as usize, tab, cm)->Some_0;
        lemma_emit_all_bytes(pls, i + 1, tab, cm2);
        let rest = spec_emitted(pls, i + 1, tab);
        match pls[i] {
            PLine::Empty => {
                let instr = spec_lookup_name(tab, "HALT"@)->Some_0;
                let head = EmitRec { opcode: instr.op_code, operands: Seq::empty(), line: i as usize };
                assert(ems =~= seq![head] + rest);
                assert(ems.skip(1) =~= rest);
                assert(ems[0] == head);
                assert(emit_bytes(ems) =~= seq![instr.op_code] + emit_bytes(rest));
                assert(cm2.bytes + emit_bytes(rest) =~= cm.bytes + emit_bytes(ems));
            },
            PLine::Const(_) => {
                assert(ems =~= rest);
                assert(cm2.bytes == cm.bytes);
            },
            PLine::Instr { opcode, operands } => {
                let head = EmitRec { opcode, operands, line: i as usize };
                assert(ems =~= seq![head] + rest);
                assert(ems.skip(1) =~= rest);
                assert(emit_bytes(ems) =~= seq![opcode] + operands + emit_bytes(rest));
                assert(cm2.bytes + emit_bytes(rest) =~= cm.bytes + emit_bytes(ems));
            },
        }
    }
}

/// A successful interleaved fold means every line from `i` on parses.
pub proof fn lemma_asm_all_parse(lines: Seq<Seq<char>>, i: int, tab: Seq<Instruction>, cm: CodeModel)
    requires
        0 <= i <= lines.len(),
        spec_asm(lines, i, tab, cm) is Some,
    ensures
        forall|j: int| i <= j < lines.len() ==> spec_parse_line(#[trigger] lines[j], tab) is Some,
    decreases lines.len() - i,
{
    if i < lines.len() {
        let pl = spec_parse_line(lines[i], tab)->Some_0;
        if !(i == lines.len() - 1 && pl is Empty) {
            let cm2 = spec_emit_code(pl, i as usize, tab, cm)->Some_0;
            lemma_asm_all_parse(lines, i + 1, tab, cm2);
        } else {
            assert forall|j: int| i <= j < lines.len() implies spec_parse_line(
                #[trigger] lines[j],
                tab,
            ) is Some by {
                assert(j == i);
            }
        }
    }
}

/// What each line of a successfully assembled source parses to.
pub open spec fn spec_plines(src: Seq<char>, tab: Seq<Instruction>) -> Seq<PLine> {
    let lines = spec_split_lines(src);
    Seq::new(lines.len(), |i: int| spec_parse_line(lines[i], tab)->Some_0)
}

/// The decoded entries that a run of emitted instructions must
/// produce, when each opcode is registered with the arity its operand
/// count matches: the registered instruction's mnemonic, the emitted
/// operand bytes, and the annotation its kind and operands call for.
pub open spec fn expected_entries(
    recs: Seq<EmitRec>,
    tab: Seq<Instruction>,
    code: Code,
    ofs: int,
) -> Seq<crate::code::DEntry>
    decreases recs.len(),
{
    if recs.len() == 0 {
        Seq::empty()
    } else {
        let instr = crate::instruction_table::spec_lookup(tab, recs[0].opcode)->Some_0;
        seq![
            crate::code::DEntry::Instr {
                offset: ofs as nat,
                line: code.lines@[ofs],
                mnemonic: instr.name@,
                operands: recs[0].operands,
                annot: crate::code::spec_dis_annot(instr.kind, recs[0].operands, code.const_pool@),
            },
        ] + expected_entries(recs.skip(1), tab, code, ofs + 1 + recs[0].operands.len())
    }
}

/// Every emitted opcode is registered, with the arity matching its
/// operand count.
pub open spec fn recs_match_table(recs: Seq<EmitRec>, tab: Seq<Instruction>) -> bool {
    forall|j: int|
        0 <= j < recs.len() ==> ((#[trigger] crate::instruction_table::spec_lookup(
            tab,
            recs[j].opcode,
        )) matches Option::Some(instr) && instr.arity as int == recs[j].operands.len())
}

/// Decoding a byte sequence laid out by the emitter recovers exactly
/// the expected entries.
pub proof fn lemma_decode_emitted(code: Code, tab: Seq<Instruction>, ofs: int, recs: Seq<EmitRec>)
    requires
        0 <= ofs <= code.raw@.len(),
        code.raw@.skip(ofs) == emit_bytes(recs),
        recs_match_table(recs, tab),
    ensures
        crate::code::spec_dis(code, tab, ofs) == expected_entries(recs, tab, code, ofs),
    decreases recs.len(),
{
    if recs.len() == 0 {
        assert(code.raw@.skip(ofs).len() == 0);
    } else {
        let rec = recs[0];
        let instr = crate::instruction_table::spec_lookup(tab, rec.opcode)->Some_0;
        let width = 1 + rec.operands.len();
        assert(emit_bytes(recs) =~= (seq![rec.opcode] + rec.operands) + emit_bytes(recs.skip(1)));
        assert(emit_bytes(recs).len() == width + emit_bytes(recs.skip(1)).len());
        assert(code.raw@.skip(ofs).len() == emit_bytes(recs).len());
        assert(code.raw@.len() - ofs >= width);
        assert(emit_bytes(recs)[0] == rec.opcode);
        assert(code.raw@.skip(ofs)[0] == code.raw@[ofs + 0]);
        assert(code.raw@[ofs] == rec.opcode);
        assert forall|k: int| 0 <= k < rec.operands.len() implies code.raw@[ofs + 1 + k]
            == rec.operands[k] by {
            assert(code.raw@.skip(ofs)[1 + k] == rec.operands[k]);
        }
        assert(code.raw@.subrange(ofs + 1, ofs + 1 + rec.operands.len() as int)
            =~= rec.operands);
        assert(code.raw@.skip(ofs + width as int) =~= emit_bytes(recs.skip(1))) by {
            assert forall|k: int| 0 <= k < emit_bytes(recs.skip(1)).len() implies code.raw@.skip(
                ofs + width as int,
            )[k] == emit_bytes(recs.skip(1))[k] by {
                assert(code.raw@.skip(ofs)[width + k] == emit_bytes(recs)[width + k]);
                assert(emit_bytes(recs)[width + k] == emit_bytes(recs.skip(1))[k]);
            }
        }
        lemma_decode_emitted(code, tab, ofs + width as int, recs.skip(1));
    }
}

/// Each expected entry, by index: the mnemonic of the registered
/// instruction and the emitted operand bytes.
pub proof fn lemma_expected_entries_index(
    recs: Seq<EmitRec>,
    tab: Seq<Instruction>,
    code: Code,
    ofs: int,
)
    requires
        recs_match_table(recs, tab),
    ensures
        expected_entries(recs, tab, code, ofs).len() == recs.len(),
        forall|j: int|
            0 <= j < recs.len() ==> ((#[trigger] expected_entries(recs, tab, code, ofs)[j])
                matches crate::code::DEntry::Instr { mnemonic, operands, .. } && mnemonic
                == (crate::instruction_table::spec_lookup(tab, recs[j].opcode)->Some_0).name@
                && operands == recs[j].operands),
    decreases recs.len(),
{
    if recs.len() > 0 {
        lemma_expected_entries_index(
            recs.skip(1),
            tab,
            code,
            ofs + 1 + recs[0].operands.len(),
        );
        assert forall|j: int| 0 <= j < recs.len() implies ((#[trigger] expected_entries(
            recs,
            tab,
            code,
            ofs,
        )[j]) matches crate::code::DEntry::Instr { mnemonic, operands, .. } && mnemonic == (
        crate::instruction_table::spec_lookup(tab, recs[j].opcode)->Some_0).name@ && operands
            == recs[j].operands) by {
            if j > 0 {
                assert(expected_entries(recs, tab, code, ofs)[j] == expected_entries(
                    recs.skip(1),
                    tab,
                    code,
                    ofs + 1 + recs[0].operands.len(),
                )[j - 1]);
                assert(recs.skip(1)[j - 1] == recs[j]);
            }
        }
    }
}

/// Disassembling an assembled source reproduces, for every machine
/// instruction the assembler emitted, the mnemonic of its instruction
/// and its operand byte values, in order — the implicit trailing halt
/// of a source ending in a blank line having been dropped by the
/// assembler. The precondition asks, as the bytecode format itself
/// does, that each emitted operand count match the registered arity of
/// its opcode, and that no two instructions share an opcode; since the
/// assembler resolved each written mnemonic to the unique instruction
/// carrying it, the reproduced mnemonic is the one written in the
/// source.
pub proof fn lemma_assemble_disassemble_round_trip(
    src: Seq<char>,
    tab: Seq<Instruction>,
    code: Code,
)
    requires
        crate::instruction_table::unique_opcodes(tab),
        spec_assemble(src, tab) == Option::Some(code.model()),
        recs_match_table(spec_emitted(spec_plines(src, tab), 0, tab), tab),
    ensures
        ({
            let ems = spec_emitted(spec_plines(src, tab), 0, tab);
            let dis = crate::code::spec_dis(code, tab, 0);
            dis.len() == ems.len() && forall|j: int|
                0 <= j < ems.len() ==> ((#[trigger] dis[j]) matches crate::code::DEntry::Instr {
                    mnemonic,
                    operands,
                    ..
                } && mnemonic == (crate::instruction_table::spec_lookup(
                    tab,
                    ems[j].opcode,
                )->Some_0).name@ && operands == ems[j].operands)
        }),
{
    let lines = spec_split_lines(src);
    let pls = spec_plines(src, tab);
    let cm0 = CodeModel { bytes: Seq::empty(), lines: Seq::empty(), consts: Seq::empty() };
    let ems = spec_emitted(pls, 0, tab);
    lemma_asm_all_parse(lines, 0, tab, cm0);
    lemma_asm_factor(lines, pls, 0, tab, cm0);
    lemma_emit_all_bytes(pls, 0, tab, cm0);
    assert(code.raw@ == cm0.bytes + emit_bytes(ems));
    assert(code.raw@.skip(0) =~= emit_bytes(ems)) by {
        assert(cm0.bytes + emit_bytes(ems) =~= emit_bytes(ems));
    }
    lemma_decode_emitted(code, tab, 0, ems);
    lemma_expected_entries_index(ems, tab, code, 0);
}

/// Assembles a whole source text against the registry's mnemonics;
/// see [`spec_assemble`]. An error names the offending token and line.
pub fn assemble(src: &str, table: &InstructionTable) -> (r: Result<Code, AsmError>)
    ensures
        match r {
            Result::Ok(code) => spec_assemble(src@, table@) == Option::Some(code.model())
                && code.wf(),
            Result::Err(_) => spec_assemble(src@, table@) is None,
        },
{
    let lines = split_lines(src);
    let parsed = parse_lines(&lines, table);
    let ghost cm0 = CodeModel { bytes: Seq::empty(), lines: Seq::empty(), consts: Seq::empty() };
    match parsed {
        Result::Err(e) => {
            proof {
                lemma_asm_parse_fail(spec_split_lines(src@), 0, e.line as int, table@, cm0);
            }
            Result::Err(e)
        },
        Result::Ok(pls) => {
            let mut code = Code::new();
            proof {
                assert(code.model().bytes =~= cm0.bytes);
                assert(code.model().lines =~= cm0.lines);
                assert(code.model().consts =~= cm0.consts);
                lemma_asm_factor(spec_split_lines(src@), pls.deep_view(), 0, table@, cm0);
            }
            let r2 = assemble_lines(&pls, table, &mut code);
            match r2 {
                Result::Ok(_) => Result::Ok(code),
                Result::Err(e) => Result::Err(e),
            }
        },
    }
}

} // verus!
