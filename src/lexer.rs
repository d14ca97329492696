use vstd::prelude::*;

use crate::error::AsmError;
use crate::isa::{Instruction, CMP_IMMEDIATE, OP_CMP, OP_DATA, OP_JMPIF};
use crate::parser::{tokenize, tokenize_text};
use crate::text::{dec_text, literal_byte, number_text, parse_byte, same_text};
use crate::token::{models, TokSpec, Token, TokenType};

verus! {

/// What a mnemonic token names.
#[derive(Debug, Clone, Copy, PartialEq, Eq, Structural)]
pub enum Lookup {
    /// An instruction, with the condition selector of a conditional jump.
    Op(Instruction, u8),
    /// A conditional jump with an unknown condition suffix.
    BadFlag,
    /// No instruction.
    Unknown,
}

/// Kinds of operands an instruction takes.
#[derive(Debug, Clone, Copy, PartialEq, Eq, Structural)]
pub enum OperandKind {
    Register,
    Value,
    RegisterOrValue,
    Destination,
}

/// A resolved operand: its byte, whether it is an immediate value rather
/// than a register code, and how the listing shows it.
pub struct OperandSpec {
    pub byte: u8,
    pub immediate: bool,
    pub shown: Seq<char>,
}

/// Code point of the lower-case form of an ASCII letter, or of `c` itself.
pub open spec fn lower(c: char) -> u32 {
    if 'A' <= c && c <= 'Z' {
        (c as u32 + 32) as u32
    } else {
        c as u32
    }
}

/// `t` equals the lower-case `name` when ASCII case is ignored.
pub open spec fn eq_ci(t: Seq<char>, name: Seq<char>) -> bool {
    t.len() == name.len() && forall|i: int| 0 <= i < t.len() ==> lower(#[trigger] t[i]) == name[i] as u32
}

/// Selector of a conditional-jump suffix.
pub open spec fn flag_code(t: Seq<char>) -> Option<u8> {
    if eq_ci(t, "cf"@) {
        Some(0)
    } else if eq_ci(t, "z"@) {
        Some(1)
    } else if eq_ci(t, "e"@) {
        Some(2)
    } else if eq_ci(t, "ez"@) {
        Some(3)
    } else if eq_ci(t, "a"@) {
        Some(4)
    } else if eq_ci(t, "az"@) {
        Some(5)
    } else if eq_ci(t, "ae"@) {
        Some(6)
    } else if eq_ci(t, "aez"@) {
        Some(7)
    } else if eq_ci(t, "c"@) {
        Some(8)
    } else if eq_ci(t, "cz"@) {
        Some(9)
    } else if eq_ci(t, "ce"@) {
        Some(10)
    } else if eq_ci(t, "cez"@) {
        Some(11)
    } else if eq_ci(t, "ca"@) {
        Some(12)
    } else if eq_ci(t, "caz"@) {
        Some(13)
    } else if eq_ci(t, "cae"@) {
        Some(14)
    } else if eq_ci(t, "caez"@) {
        Some(15)
    } else {
        None
    }
}

/// The instruction of a mnemonic other than a conditional jump.
pub open spec fn plain_op(t: Seq<char>) -> Option<Instruction> {
    if eq_ci(t, "data"@) {
        Some(Instruction::DATA)
    } else if eq_ci(t, "ld"@) {
        Some(Instruction::LD)
    } else if eq_ci(t, "st"@) {
        Some(Instruction::ST)
    } else if eq_ci(t, "add"@) {
        Some(Instruction::ADD)
    } else if eq_ci(t, "sub"@) {
        Some(Instruction::SUB)
    } else if eq_ci(t, "cmp"@) {
        Some(Instruction::CMP)
    } else if eq_ci(t, "inc"@) {
        Some(Instruction::INC)
    } else if eq_ci(t, "dec"@) {
        Some(Instruction::DEC)
    } else if eq_ci(t, "push"@) {
        Some(Instruction::PUSH)
    } else if eq_ci(t, "pop"@) {
        Some(Instruction::POP)
    } else if eq_ci(t, "jmpr"@) {
        Some(Instruction::JMPR)
    } else if eq_ci(t, "int"@) {
        Some(Instruction::INT)
    } else if eq_ci(t, "jmp"@) {
        Some(Instruction::JMP)
    } else if eq_ci(t, "cli"@) {
        Some(Instruction::CLI)
    } else if eq_ci(t, "clf"@) {
        Some(Instruction::CLF)
    } else if eq_ci(t, "hlt"@) {
        Some(Instruction::HLT)
    } else {
        None
    }
}

/// What mnemonic `t` names; `JMPIF` followed by a condition suffix is a
/// conditional jump.
pub open spec fn lookup(t: Seq<char>) -> Lookup {
    if t.len() >= 5 && eq_ci(t.subrange(0, 5), "jmpif"@) {
        match flag_code(t.subrange(5, t.len() as int)) {
            Some(c) => Lookup::Op(Instruction::JMPIF, c),
            None => Lookup::BadFlag,
        }
    } else {
        match plain_op(t) {
            Some(i) => Lookup::Op(i, 0),
            None => Lookup::Unknown,
        }
    }
}

/// The 2-bit code of register name `t`.
pub open spec fn reg_code(t: Seq<char>) -> Option<u8> {
    if eq_ci(t, "r1"@) {
        Some(0)
    } else if eq_ci(t, "r2"@) {
        Some(1)
    } else if eq_ci(t, "r3"@) {
        Some(2)
    } else if eq_ci(t, "r4"@) {
        Some(3)
    } else {
        None
    }
}

/// The operands an instruction takes, in source order.
pub open spec fn operand_kinds(i: Instruction) -> Seq<OperandKind> {
    match i {
        Instruction::DATA => seq![OperandKind::Register, OperandKind::Value],
        Instruction::LD | Instruction::ST | Instruction::ADD | Instruction::SUB => seq![
            OperandKind::Register,
            OperandKind::Register,
        ],
        Instruction::CMP => seq![OperandKind::Register, OperandKind::RegisterOrValue],
        Instruction::INC | Instruction::DEC | Instruction::PUSH | Instruction::POP
        | Instruction::JMPR => seq![OperandKind::Register],
        Instruction::INT => seq![OperandKind::Value],
        Instruction::JMP | Instruction::JMPIF => seq![OperandKind::Destination],
        Instruction::CLF | Instruction::CLI | Instruction::HLT => seq![],
    }
}

/// Encoded size of the instruction that token `t` begins, 0 for any
/// token that begins none.
pub open spec fn head_size(t: TokSpec) -> nat {
    if t.kind == TokenType::Identifier {
        match lookup(t.text) {
            Lookup::Op(i, _) => i.spec_size(),
            _ => 0,
        }
    } else {
        0
    }
}

/// Address of the instruction at token `n`: the sizes of the instructions
/// begun before it. Labels occupy no bytes.
pub open spec fn addr_before(toks: Seq<TokSpec>, n: nat) -> nat
    decreases n,
{
    if n == 0 {
        0
    } else {
        addr_before(toks, (n - 1) as nat) + head_size(toks[n - 1])
    }
}

/// Pass 1: each label declaration among the first `n` tokens, as its
/// token index and its address.
pub open spec fn label_entries(toks: Seq<TokSpec>, n: nat) -> Seq<(nat, nat)>
    decreases n,
{
    if n == 0 {
        Seq::empty()
    } else {
        let p = label_entries(toks, (n - 1) as nat);
        if toks[n - 1].kind == TokenType::LabelSrc {
            p.push(((n - 1) as nat, addr_before(toks, (n - 1) as nat)))
        } else {
            p
        }
    }
}

/// Address of label `name` among `entries`; the last declaration wins.
pub open spec fn find_label(toks: Seq<TokSpec>, entries: Seq<(nat, nat)>, name: Seq<char>) -> Option<nat>
    decreases entries.len(),
{
    if entries.len() == 0 {
        None
    } else if toks[entries.last().0 as int].text == name {
        Some(entries.last().1)
    } else {
        find_label(toks, entries.drop_last(), name)
    }
}

/// The address that pass 1 records for label `name`.
pub open spec fn label_addr(toks: Seq<TokSpec>, name: Seq<char>) -> Option<nat> {
    find_label(toks, label_entries(toks, toks.len()), name)
}

pub open spec fn syntax_at(t: TokSpec) -> AsmError {
    AsmError::SyntaxError { line: t.line as usize, column: t.column as usize }
}

/// Resolves token `t` as an operand of kind `k`.
pub open spec fn resolve(toks: Seq<TokSpec>, t: TokSpec, k: OperandKind) -> Result<OperandSpec, AsmError> {
    let line = t.line as usize;
    let column = t.column as usize;
    let as_reg = match reg_code(t.text) {
        Some(r) => Ok(OperandSpec { byte: r, immediate: false, shown: t.text }),
        None => Err(AsmError::UnknownRegister { line, column }),
    };
    let as_value = match literal_byte(t.text) {
        Some(v) => Ok(OperandSpec { byte: v, immediate: true, shown: t.text }),
        None => Err(AsmError::ValueOutOfRange { line, column }),
    };
    let type_error = Err(AsmError::TypeError { line, column });
    match k {
        OperandKind::Register => if t.kind == TokenType::Identifier {
            as_reg
        } else {
            type_error
        },
        OperandKind::Value => if t.kind == TokenType::Value {
            as_value
        } else {
            type_error
        },
        OperandKind::RegisterOrValue => if t.kind == TokenType::Identifier {
            as_reg
        } else if t.kind == TokenType::Value {
            as_value
        } else {
            type_error
        },
        OperandKind::Destination => if t.kind == TokenType::LabelDst {
            match label_addr(toks, t.text) {
                None => Err(AsmError::UndefinedLabel { line, column }),
                Some(a) => if a <= 255 {
                    Ok(OperandSpec { byte: a as u8, immediate: true, shown: "$"@ + t.text })
                } else {
                    Err(AsmError::ValueOutOfRange { line, column })
                },
            }
        } else if t.kind == TokenType::Value {
            match literal_byte(t.text) {
                Some(v) => Ok(OperandSpec { byte: v, immediate: true, shown: "$"@ + t.text }),
                None => Err(AsmError::ValueOutOfRange { line, column }),
            }
        } else {
            type_error
        },
    }
}

/// Name of a condition selector in the listing.
pub open spec fn flag_name(c: u8) -> Seq<char> {
    if c == 0 {
        "CF"@
    } else if c == 1 {
        "Z"@
    } else if c == 2 {
        "E"@
    } else if c == 3 {
        "EZ"@
    } else if c == 4 {
        "A"@
    } else if c == 5 {
        "AZ"@
    } else if c == 6 {
        "AE"@
    } else if c == 7 {
        "AEZ"@
    } else if c == 8 {
        "C"@
    } else if c == 9 {
        "CZ"@
    } else if c == 10 {
        "CE"@
    } else if c == 11 {
        "CEZ"@
    } else if c == 12 {
        "CA"@
    } else if c == 13 {
        "CAZ"@
    } else if c == 14 {
        "CAE"@
    } else {
        "CAEZ"@
    }
}

/// Name of an instruction in the listing.
pub open spec fn op_name(i: Instruction, cond: u8) -> Seq<char> {
    match i {
        Instruction::ADD => "ADD"@,
        Instruction::SUB => "SUB"@,
        Instruction::CMP => "CMP"@,
        Instruction::INC => "INC"@,
        Instruction::DEC => "DEC"@,
        Instruction::PUSH => "PUSH"@,
        Instruction::POP => "POP"@,
        Instruction::LD => "LD"@,
        Instruction::ST => "ST"@,
        Instruction::DATA => "DATA"@,
        Instruction::JMPR => "JMPR"@,
        Instruction::JMP => "JMP"@,
        Instruction::JMPIF => "JMPIF"@ + flag_name(cond),
        Instruction::CLF => "CLF"@,
        Instruction::INT => "INT"@,
        Instruction::CLI => "CLI"@,
        Instruction::HLT => "HLT"@,
    }
}

/// Bytes of an instruction with no operand.
pub open spec fn encode0(i: Instruction) -> Seq<u8> {
    seq![i.spec_opcode()]
}

/// Bytes of an instruction with one operand.
pub open spec fn encode1(i: Instruction, cond: u8, a: OperandSpec) -> Seq<u8> {
    match i {
        Instruction::INT | Instruction::JMP => seq![i.spec_opcode(), a.byte],
        Instruction::JMPIF => seq![(OP_JMPIF + cond) as u8, a.byte],
        _ => seq![(i.spec_opcode() + a.byte * 4) as u8],
    }
}

/// Bytes of an instruction with two operands.
pub open spec fn encode2(i: Instruction, a: OperandSpec, b: OperandSpec) -> Seq<u8> {
    match i {
        Instruction::DATA => seq![(OP_DATA + a.byte * 4) as u8, b.byte],
        Instruction::CMP => seq![(OP_CMP + a.byte * 4 + if b.immediate { CMP_IMMEDIATE } else { 0 }) as u8, b.byte],
        _ => seq![(i.spec_opcode() + a.byte * 4 + b.byte) as u8],
    }
}

/// Listing line `<addr>: <name>`.
pub open spec fn line0(addr: nat, name: Seq<char>) -> Seq<char> {
    dec_text(addr) + ": "@ + name
}

/// Listing line of a label declaration.
pub open spec fn label_line(addr: nat, name: Seq<char>) -> Seq<char> {
    dec_text(addr) + ": "@ + name + ":"@
}

/// Pass 2 on the instruction that begins at token `pos`, placed at `addr`:
/// its bytes, its listing line and the number of operand tokens it takes.
pub open spec fn encode_at(toks: Seq<TokSpec>, pos: nat, addr: nat) -> Result<(Seq<u8>, Seq<char>, nat), AsmError> {
    let t = toks[pos as int];
    if t.kind != TokenType::Identifier {
        Err(syntax_at(t))
    } else {
        match lookup(t.text) {
            Lookup::Unknown => Err(AsmError::UnknownMnemonic { line: t.line as usize, column: t.column as usize }),
            Lookup::BadFlag => Err(
                AsmError::UnknownConditionFlag { line: t.line as usize, column: t.column as usize },
            ),
            Lookup::Op(i, cond) => {
                let kinds = operand_kinds(i);
                let name = op_name(i, cond);
                if kinds.len() == 0 {
                    Ok((encode0(i), line0(addr, name), 0))
                } else if pos + 1 >= toks.len() {
                    Err(syntax_at(t))
                } else {
                    match resolve(toks, toks[pos + 1 as int], kinds[0]) {
                        Err(e) => Err(e),
                        Ok(a) => if kinds.len() == 1 {
                            Ok((encode1(i, cond, a), line0(addr, name) + " "@ + a.shown, 1))
                        } else if pos + 2 >= toks.len() {
                            Err(syntax_at(t))
                        } else if toks[pos + 2 as int].kind != TokenType::Comma {
                            Err(syntax_at(toks[pos + 2 as int]))
                        } else if pos + 3 >= toks.len() {
                            Err(syntax_at(toks[pos + 2 as int]))
                        } else {
                            match resolve(toks, toks[pos + 3 as int], kinds[1]) {
                                Err(e) => Err(e),
                                Ok(b) => Ok(
                                    (
                                        encode2(i, a, b),
                                        line0(addr, name) + " "@ + a.shown + ", "@ + b.shown,
                                        3,
                                    ),
                                ),
                            }
                        },
                    }
                }
            },
        }
    }
}

/// Pass 2 from token `pos` on, with `bytes` and `lines` emitted so far.
pub open spec fn assemble_from(toks: Seq<TokSpec>, pos: nat, bytes: Seq<u8>, lines: Seq<Seq<char>>) -> Result<(Seq<u8>, Seq<Seq<char>>), AsmError>
    decreases toks.len() - pos,
{
    if pos >= toks.len() {
        Ok((bytes, lines))
    } else if toks[pos as int].kind == TokenType::LabelSrc {
        assemble_from(toks, pos + 1, bytes, lines.push(label_line(bytes.len(), toks[pos as int].text)))
    } else {
        match encode_at(toks, pos, bytes.len()) {
            Err(e) => Err(e),
            Ok(r) => assemble_from(toks, pos + 1 + r.2, bytes + r.0, lines.push(r.1)),
        }
    }
}

/// The image and listing of a token sequence, or the first error in it.
pub open spec fn assembled(toks: Seq<TokSpec>) -> Result<(Seq<u8>, Seq<Seq<char>>), AsmError> {
    assemble_from(toks, 0, Seq::empty(), Seq::empty())
}

fn lower_char(c: char) -> (r: u32)
    ensures
        r == lower(c),
{
    if 'A' <= c && c <= 'Z' {
        c as u32 + 32
    } else {
        c as u32
    }
}

/// Whether `t` equals the lower-case `name` when ASCII case is ignored.
fn eq_ci_text(t: &str, name: &str) -> (r: bool)
    ensures
        r == eq_ci(t@, name@),
{
    let n = t.unicode_len();
    if n != name.unicode_len() {
        return false;
    }
    let mut i: usize = 0;
    while i < n
        invariant
            n == t@.len(),
            n == name@.len(),
            i <= n,
            forall|j: int| 0 <= j < i ==> lower(#[trigger] t@[j]) == name@[j] as u32,
        decreases n - i,
    {
        if lower_char(t.get_char(i)) != name.get_char(i) as u32 {
            return false;
        }
        i = i + 1;
    }
    true
}

fn flag_code_of(t: &str) -> (r: Option<u8>)
    ensures
        r == flag_code(t@),
{
    if eq_ci_text(t, "cf") {
        Some(0)
    } else if eq_ci_text(t, "z") {
        Some(1)
    } else if eq_ci_text(t, "e") {
        Some(2)
    } else if eq_ci_text(t, "ez") {
        Some(3)
    } else if eq_ci_text(t, "a") {
        Some(4)
    } else if eq_ci_text(t, "az") {
        Some(5)
    } else if eq_ci_text(t, "ae") {
        Some(6)
    } else if eq_ci_text(t, "aez") {
        Some(7)
    } else if eq_ci_text(t, "c") {
        Some(8)
    } else if eq_ci_text(t, "cz") {
        Some(9)
    } else if eq_ci_text(t, "ce") {
        Some(10)
    } else if eq_ci_text(t, "cez") {
        Some(11)
    } else if eq_ci_text(t, "ca") {
        Some(12)
    } else if eq_ci_text(t, "caz") {
        Some(13)
    } else if eq_ci_text(t, "cae") {
        Some(14)
    } else if eq_ci_text(t, "caez") {
        Some(15)
    } else {
        None
    }
}

fn plain_op_of(t: &str) -> (r: Option<Instruction>)
    ensures
        r == plain_op(t@),
{
    if eq_ci_text(t, "data") {
        Some(Instruction::DATA)
    } else if eq_ci_text(t, "ld") {
        Some(Instruction::LD)
    } else if eq_ci_text(t, "st") {
        Some(Instruction::ST)
    } else if eq_ci_text(t, "add") {
        Some(Instruction::ADD)
    } else if eq_ci_text(t, "sub") {
        Some(Instruction::SUB)
    } else if eq_ci_text(t, "cmp") {
        Some(Instruction::CMP)
    } else if eq_ci_text(t, "inc") {
        Some(Instruction::INC)
    } else if eq_ci_text(t, "dec") {
        Some(Instruction::DEC)
    } else if eq_ci_text(t, "push") {
        Some(Instruction::PUSH)
    } else if eq_ci_text(t, "pop") {
        Some(Instruction::POP)
    } else if eq_ci_text(t, "jmpr") {
        Some(Instruction::JMPR)
    } else if eq_ci_text(t, "int") {
        Some(Instruction::INT)
    } else if eq_ci_text(t, "jmp") {
        Some(Instruction::JMP)
    } else if eq_ci_text(t, "cli") {
        Some(Instruction::CLI)
    } else if eq_ci_text(t, "clf") {
        Some(Instruction::CLF)
    } else if eq_ci_text(t, "hlt") {
        Some(Instruction::HLT)
    } else {
        None
    }
}

/// What mnemonic `op` names, case ignored.
pub fn rule_for_op(op: &str) -> (r: Lookup)
    ensures
        r == lookup(op@),
{
    let n = op.unicode_len();
    if n >= 5 && eq_ci_text(op.substring_char(0, 5), "jmpif") {
        match flag_code_of(op.substring_char(5, n)) {
            Some(c) => Lookup::Op(Instruction::JMPIF, c),
            None => Lookup::BadFlag,
        }
    } else {
        match plain_op_of(op) {
            Some(i) => Lookup::Op(i, 0),
            None => Lookup::Unknown,
        }
    }
}

/// The register code that `token` names.
pub fn get_register(token: &Token) -> (r: Result<u8, AsmError>)
    ensures
        r == match reg_code(token.tvalue@) {
            Some(c) => Ok(c),
            None => Err(AsmError::UnknownRegister { line: token.line, column: token.column }),
        },
{
    let t = token.tvalue.as_str();
    if eq_ci_text(t, "r1") {
        Ok(0)
    } else if eq_ci_text(t, "r2") {
        Ok(1)
    } else if eq_ci_text(t, "r3") {
        Ok(2)
    } else if eq_ci_text(t, "r4") {
        Ok(3)
    } else {
        Err(AsmError::UnknownRegister { line: token.line, column: token.column })
    }
}

/// The byte that numeric `token` denotes.
pub fn get_value(token: &Token) -> (r: Result<u8, AsmError>)
    ensures
        r == match literal_byte(token.tvalue@) {
            Some(v) => Ok(v),
            None => Err(AsmError::ValueOutOfRange { line: token.line, column: token.column }),
        },
{
    match parse_byte(token.tvalue.as_str()) {
        Some(v) => Ok(v),
        None => Err(AsmError::ValueOutOfRange { line: token.line, column: token.column }),
    }
}

/// The label table as plain numbers.
pub open spec fn entries_view(labels: Seq<(usize, usize)>) -> Seq<(nat, nat)> {
    labels.map_values(|e: (usize, usize)| (e.0 as nat, e.1 as nat))
}

proof fn lemma_addr_bound(toks: Seq<TokSpec>, n: nat)
    requires
        n <= toks.len(),
    ensures
        addr_before(toks, n) <= 2 * n,
    decreases n,
{
    if n > 0 {
        lemma_addr_bound(toks, (n - 1) as nat);
    }
}

/// Pass 1: the label table of `toks`.
fn build_labels(toks: &Vec<Token>) -> (r: Vec<(usize, usize)>)
    requires
        toks@.len() <= usize::MAX / 2,
    ensures
        entries_view(r@) == label_entries(models(toks@), toks@.len() as nat),
        forall|j: int| 0 <= j < r@.len() ==> (#[trigger] r@[j]).0 < toks@.len(),
{
    let ghost m = models(toks@);
    let mut labels: Vec<(usize, usize)> = Vec::new();
    let mut addr: usize = 0;
    let mut k: usize = 0;
    while k < toks.len()
        invariant
            m == models(toks@),
            toks@.len() <= usize::MAX / 2,
            k <= toks@.len(),
            addr == addr_before(m, k as nat),
            entries_view(labels@) == label_entries(m, k as nat),
            forall|j: int| 0 <= j < labels@.len() ==> (#[trigger] labels@[j]).0 < k,
        decreases toks@.len() - k,
    {
        proof {
            lemma_addr_bound(m, (k + 1) as nat);
        }
        let t = &toks[k];
        if t.ttype == TokenType::LabelSrc {
            let ghost pre = labels@;
            labels.push((k, addr));
            assert(entries_view(labels@) =~= entries_view(pre).push((k as nat, addr as nat)));
        } else if t.ttype == TokenType::Identifier {
            match rule_for_op(t.tvalue.as_str()) {
                Lookup::Op(i, _) => {
                    addr = addr + i.size();
                },
                _ => {},
            }
        }
        k = k + 1;
    }
    labels
}

/// Address of label `name` in the table, the last declaration winning.
fn find_label_addr(toks: &Vec<Token>, labels: &Vec<(usize, usize)>, name: &str) -> (r: Option<usize>)
    requires
        forall|j: int| 0 <= j < labels@.len() ==> (#[trigger] labels@[j]).0 < toks@.len(),
    ensures
        match find_label(models(toks@), entries_view(labels@), name@) {
            Some(a) => r == Some(a as usize) && a == r->Some_0,
            None => r is None,
        },
{
    let ghost m = models(toks@);
    let mut j: usize = labels.len();
    assert(entries_view(labels@).take(j as int) =~= entries_view(labels@));
    while j > 0
        invariant
            j <= labels@.len(),
            m == models(toks@),
            forall|q: int| 0 <= q < labels@.len() ==> (#[trigger] labels@[q]).0 < toks@.len(),
            find_label(m, entries_view(labels@), name@) == find_label(m, entries_view(labels@).take(j as int), name@),
        decreases j,
    {
        let e = labels[j - 1];
        let ghost es = entries_view(labels@).take(j as int);
        assert(es.last() == (e.0 as nat, e.1 as nat));
        assert(es.drop_last() =~= entries_view(labels@).take(j - 1));
        if same_text(toks[e.0].tvalue.as_str(), name) {
            return Some(e.1);
        }
        j = j - 1;
    }
    None
}

/// How the listing shows a destination operand.
fn dest_text(t: &str) -> (r: String)
    ensures
        r@ == "$"@ + t@,
{
    let mut r = String::from_str("$");
    r.append(t);
    r
}

/// Resolves the token at `k` as an operand of kind `kind`.
fn resolve_operand(toks: &Vec<Token>, labels: &Vec<(usize, usize)>, k: usize, kind: OperandKind) -> (r: Result<(u8, bool, String), AsmError>)
    requires
        k < toks@.len(),
        entries_view(labels@) == label_entries(models(toks@), toks@.len() as nat),
        forall|j: int| 0 <= j < labels@.len() ==> (#[trigger] labels@[j]).0 < toks@.len(),
    ensures
        match resolve(models(toks@), models(toks@)[k as int], kind) {
            Ok(o) => r is Ok && r->Ok_0.0 == o.byte && r->Ok_0.1 == o.immediate && r->Ok_0.2@ == o.shown,
            Err(e) => r == Err::<(u8, bool, String), AsmError>(e),
        },
{
    let t = &toks[k];
    assert(models(toks@)[k as int] == t.model());
    let type_error = AsmError::TypeError { line: t.line, column: t.column };
    let take_reg = kind == OperandKind::Register || kind == OperandKind::RegisterOrValue;
    let take_value = kind == OperandKind::Value || kind == OperandKind::RegisterOrValue;
    if kind == OperandKind::Destination {
        if t.ttype == TokenType::LabelDst {
            match find_label_addr(toks, labels, t.tvalue.as_str()) {
                None => Err(AsmError::UndefinedLabel { line: t.line, column: t.column }),
                Some(a) => if a <= 255 {
                    Ok((a as u8, true, dest_text(t.tvalue.as_str())))
                } else {
                    Err(AsmError::ValueOutOfRange { line: t.line, column: t.column })
                },
            }
        } else if t.ttype == TokenType::Value {
            match get_value(t) {
                Ok(v) => Ok((v, true, dest_text(t.tvalue.as_str()))),
                Err(e) => Err(e),
            }
        } else {
            Err(type_error)
        }
    } else if take_reg && t.ttype == TokenType::Identifier {
        match get_register(t) {
            Ok(c) => Ok((c, false, t.tvalue.clone())),
            Err(e) => Err(e),
        }
    } else if take_value && t.ttype == TokenType::Value {
        match get_value(t) {
            Ok(v) => Ok((v, true, t.tvalue.clone())),
            Err(e) => Err(e),
        }
    } else {
        Err(type_error)
    }
}

fn flag_name_text(c: u8) -> (r: &'static str)
    ensures
        r@ == flag_name(c),
{
    if c == 0 {
        "CF"
    } else if c == 1 {
        "Z"
    } else if c == 2 {
        "E"
    } else if c == 3 {
        "EZ"
    } else if c == 4 {
        "A"
    } else if c == 5 {
        "AZ"
    } else if c == 6 {
        "AE"
    } else if c == 7 {
        "AEZ"
    } else if c == 8 {
        "C"
    } else if c == 9 {
        "CZ"
    } else if c == 10 {
        "CE"
    } else if c == 11 {
        "CEZ"
    } else if c == 12 {
        "CA"
    } else if c == 13 {
        "CAZ"
    } else if c == 14 {
        "CAE"
    } else {
        "CAEZ"
    }
}

fn op_name_text(i: Instruction, cond: u8) -> (r: String)
    ensures
        r@ == op_name(i, cond),
{
    match i {
        Instruction::ADD => String::from_str("ADD"),
        Instruction::SUB => String::from_str("SUB"),
        Instruction::CMP => String::from_str("CMP"),
        Instruction::INC => String::from_str("INC"),
        Instruction::DEC => String::from_str("DEC"),
        Instruction::PUSH => String::from_str("PUSH"),
        Instruction::POP => String::from_str("POP"),
        Instruction::LD => String::from_str("LD"),
        Instruction::ST => String::from_str("ST"),
        Instruction::DATA => String::from_str("DATA"),
        Instruction::JMPR => String::from_str("JMPR"),
        Instruction::JMP => String::from_str("JMP"),
        Instruction::JMPIF => {
            let mut r = String::from_str("JMPIF");
            r.append(flag_name_text(cond));
            r
        },
        Instruction::CLF => String::from_str("CLF"),
        Instruction::INT => String::from_str("INT"),
        Instruction::CLI => String::from_str("CLI"),
        Instruction::HLT => String::from_str("HLT"),
    }
}

fn operand_kinds_of(i: Instruction) -> (r: Vec<OperandKind>)
    ensures
        r@ == operand_kinds(i),
{
    let mut v: Vec<OperandKind> = Vec::new();
    match i {
        Instruction::DATA => {
            v.push(OperandKind::Register);
            v.push(OperandKind::Value);
        },
        Instruction::LD | Instruction::ST | Instruction::ADD | Instruction::SUB => {
            v.push(OperandKind::Register);
            v.push(OperandKind::Register);
        },
        Instruction::CMP => {
            v.push(OperandKind::Register);
            v.push(OperandKind::RegisterOrValue);
        },
        Instruction::INC | Instruction::DEC | Instruction::PUSH | Instruction::POP | Instruction::JMPR => {
            v.push(OperandKind::Register);
        },
        Instruction::INT => {
            v.push(OperandKind::Value);
        },
        Instruction::JMP | Instruction::JMPIF => {
            v.push(OperandKind::Destination);
        },
        Instruction::CLF | Instruction::CLI | Instruction::HLT => {},
    }
    assert(v@ =~= operand_kinds(i));
    v
}

/// Pass 2 on the instruction that begins at token `pos`, placed at `addr`.
fn encode_instruction(toks: &Vec<Token>, labels: &Vec<(usize, usize)>, pos: usize, addr: usize) -> (r: Result<(Vec<u8>, String, usize), AsmError>)
    requires
        pos < toks@.len(),
        toks@.len() <= usize::MAX / 2,
        entries_view(labels@) == label_entries(models(toks@), toks@.len() as nat),
        forall|j: int| 0 <= j < labels@.len() ==> (#[trigger] labels@[j]).0 < toks@.len(),
    ensures
        match encode_at(models(toks@), pos as nat, addr as nat) {
            Ok(o) => r is Ok && r->Ok_0.0@ == o.0 && r->Ok_0.1@ == o.1 && r->Ok_0.2 == o.2,
            Err(e) => r == Err::<(Vec<u8>, String, usize), AsmError>(e),
        },
{
    let ghost m = models(toks@);
    let t = &toks[pos];
    assert(m[pos as int] == t.model());
    if t.ttype != TokenType::Identifier {
        return Err(AsmError::SyntaxError { line: t.line, column: t.column });
    }
    let (i, cond) = match rule_for_op(t.tvalue.as_str()) {
        Lookup::Unknown => {
            return Err(AsmError::UnknownMnemonic { line: t.line, column: t.column });
        },
        Lookup::BadFlag => {
            return Err(AsmError::UnknownConditionFlag { line: t.line, column: t.column });
        },
        Lookup::Op(i, cond) => (i, cond),
    };
    proof {
        if i == Instruction::JMPIF {
            let f = flag_code(t.tvalue@.subrange(5, t.tvalue@.len() as int));
            assert(f is Some ==> f->Some_0 < 16);
        }
    }
    let kinds = operand_kinds_of(i);
    let name = op_name_text(i, cond);
    let mut line = number_text(addr);
    line.append(": ");
    line.append(name.as_str());
    let opcode = i.opcode();
    if kinds.len() == 0 {
        let mut bytes: Vec<u8> = Vec::new();
        bytes.push(opcode);
        assert(bytes@ =~= encode0(i));
        return Ok((bytes, line, 0));
    }
    if pos + 1 >= toks.len() {
        return Err(AsmError::SyntaxError { line: t.line, column: t.column });
    }
    let a = match resolve_operand(toks, labels, pos + 1, kinds[0]) {
        Ok(a) => a,
        Err(e) => {
            return Err(e);
        },
    };
    line.append(" ");
    line.append(a.2.as_str());
    if kinds.len() == 1 {
        let mut bytes: Vec<u8> = Vec::new();
        match i {
            Instruction::INT | Instruction::JMP => {
                bytes.push(opcode);
                bytes.push(a.0);
            },
            Instruction::JMPIF => {
                bytes.push(OP_JMPIF + cond);
                bytes.push(a.0);
            },
            _ => {
                bytes.push(opcode + a.0 * 4);
            },
        }
        assert(bytes@ =~= encode1(i, cond, OperandSpec { byte: a.0, immediate: a.1, shown: a.2@ }));
        return Ok((bytes, line, 1));
    }
    if pos + 2 >= toks.len() {
        return Err(AsmError::SyntaxError { line: t.line, column: t.column });
    }
    let comma = &toks[pos + 2];
    assert(m[pos + 2] == comma.model());
    if comma.ttype != TokenType::Comma {
        return Err(AsmError::SyntaxError { line: comma.line, column: comma.column });
    }
    if pos + 3 >= toks.len() {
        return Err(AsmError::SyntaxError { line: comma.line, column: comma.column });
    }
    let b = match resolve_operand(toks, labels, pos + 3, kinds[1]) {
        Ok(b) => b,
        Err(e) => {
            return Err(e);
        },
    };
    line.append(", ");
    line.append(b.2.as_str());
    let mut bytes: Vec<u8> = Vec::new();
    match i {
        Instruction::DATA => {
            bytes.push(OP_DATA + a.0 * 4);
            bytes.push(b.0);
        },
        Instruction::CMP => {
            let mode: u8 = if b.1 { CMP_IMMEDIATE } else { 0 };
            bytes.push(OP_CMP + a.0 * 4 + mode);
            bytes.push(b.0);
        },
        _ => {
            bytes.push(opcode + a.0 * 4 + b.0);
        },
    }
    assert(bytes@ =~= encode2(
        i,
        OperandSpec { byte: a.0, immediate: a.1, shown: a.2@ },
        OperandSpec { byte: b.0, immediate: b.1, shown: b.2@ },
    ));
    Ok((bytes, line, 3))
}

/// An assembled program: its image and its listing.
pub struct Assembly {
    pub image: Vec<u8>,
    pub listing: Vec<String>,
}

/// The listing lines as character sequences.
pub open spec fn lines_view(lines: Seq<String>) -> Seq<Seq<char>> {
    lines.map_values(|l: String| l@)
}

/// Assembles a token sequence in two passes: pass 1 records the address of
/// each label, pass 2 encodes each instruction. Nothing is emitted unless
/// the whole sequence assembles.
pub fn lex(tokens: &Vec<Token>) -> (r: Result<Assembly, AsmError>)
    requires
        tokens@.len() <= usize::MAX / 2,
    ensures
        match assembled(models(tokens@)) {
            Ok(out) => r is Ok && r->Ok_0.image@ == out.0 && lines_view(r->Ok_0.listing@) == out.1,
            Err(e) => r is Err && r->Err_0 == e,
        },
{
    let ghost m = models(tokens@);
    let labels = build_labels(tokens);
    let mut image: Vec<u8> = Vec::new();
    let mut listing: Vec<String> = Vec::new();
    let mut pos: usize = 0;
    assert(lines_view(listing@) =~= Seq::<Seq<char>>::empty());
    assert(image@ =~= Seq::<u8>::empty());
    while pos < tokens.len()
        invariant
            m == models(tokens@),
            tokens@.len() <= usize::MAX / 2,
            entries_view(labels@) == label_entries(m, tokens@.len() as nat),
            forall|j: int| 0 <= j < labels@.len() ==> (#[trigger] labels@[j]).0 < tokens@.len(),
            image@.len() <= 2 * pos,
            assembled(m) == assemble_from(m, pos as nat, image@, lines_view(listing@)),
        decreases tokens@.len() - pos,
    {
        let t = &tokens[pos];
        assert(m[pos as int] == t.model());
        if t.ttype == TokenType::LabelSrc {
            let mut line = number_text(image.len());
            line.append(": ");
            line.append(t.tvalue.as_str());
            line.append(":");
            let ghost pre = listing@;
            listing.push(line);
            assert(lines_view(listing@) =~= lines_view(pre).push(label_line(image@.len(), t.tvalue@)));
            pos = pos + 1;
        } else {
            match encode_instruction(tokens, &labels, pos, image.len()) {
                Err(e) => {
                    return Err(e);
                },
                Ok((bytes, line, extra)) => {
                    let ghost pre_image = image@;
                    let ghost pre = listing@;
                    let mut k: usize = 0;
                    while k < bytes.len()
                        invariant
                            k <= bytes@.len(),
                            image@ == pre_image + bytes@.take(k as int),
                        decreases bytes@.len() - k,
                    {
                        image.push(bytes[k]);
                        assert(bytes@.take(k + 1) =~= bytes@.take(k as int).push(bytes@[k as int]));
                        k = k + 1;
                    }
                    assert(bytes@.take(bytes@.len() as int) =~= bytes@);
                    listing.push(line);
                    assert(lines_view(listing@) =~= lines_view(pre).push(line@));
                    pos = pos + 1 + extra;
                },
            }
        }
    }
    Ok(Assembly { image, listing })
}

/// Tokenizes and assembles assembly text.
pub fn assemble(text: &str) -> (r: Result<Assembly, AsmError>)
    requires
        text@.len() < usize::MAX / 2,
    ensures
        match tokenize(text@) {
            Err(e) => r is Err && r->Err_0 == e,
            Ok(toks) => match assembled(toks) {
                Ok(out) => r is Ok && r->Ok_0.image@ == out.0 && lines_view(r->Ok_0.listing@) == out.1,
                Err(e) => r is Err && r->Err_0 == e,
            },
        },
{
    match tokenize_text(text) {
        Err(e) => Err(e),
        Ok(toks) => lex(&toks),
    }
}

} // verus!
