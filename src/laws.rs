use vstd::prelude::*;

use crate::alu::{arith, lemma_bitwise_keeps_flags, COND_ZERO, ALU};
use crate::cpu::{get_reg, initial_state, step, wrap, CpuState};
use crate::error::MachineError;
use crate::isa::{OP_CMP, OP_INT, OP_JMPIF, OP_POP, OP_PUSH};
use crate::lexer::{
    addr_before, assemble_from, assembled, encode_at, eq_ci, find_label, head_size, label_addr,
    label_entries, label_line, lookup, lower, operand_kinds, plain_op, reg_code, resolve,
    OperandKind,
};
use crate::motherboard::{boot_effect, reset_effect, zeroed, BOOT_ADDR, KEYBOARD_ADDRESS};
use crate::peripheral::{keyboard_tick, updated_buffer, PeripheralKind, KEYBOARD_INT, MAX_BUFFERED_KEYS};
use crate::ram::MEMORY_SIZE;
use crate::token::{TokSpec, TokenType};

verus! {

proof fn lemma_entries_index(toks: Seq<TokSpec>, n: nat, j: int)
    requires
        n <= toks.len(),
        0 <= j < label_entries(toks, n).len(),
    ensures
        label_entries(toks, n)[j].0 < n,
        toks[label_entries(toks, n)[j].0 as int].kind == TokenType::LabelSrc,
        label_entries(toks, n)[j].1 == addr_before(toks, label_entries(toks, n)[j].0),
    decreases n,
{
    if n > 0 {
        let p = label_entries(toks, (n - 1) as nat);
        if j < p.len() {
            lemma_entries_index(toks, (n - 1) as nat, j);
        }
    }
}

proof fn lemma_entries_contain(toks: Seq<TokSpec>, n: nat, k: nat)
    requires
        k < n <= toks.len(),
        toks[k as int].kind == TokenType::LabelSrc,
    ensures
        exists|j: int| 0 <= j < label_entries(toks, n).len() && #[trigger] label_entries(toks, n)[j] == (k, addr_before(toks, k)),
    decreases n,
{
    if k < n - 1 {
        lemma_entries_contain(toks, (n - 1) as nat, k);
        let p = label_entries(toks, (n - 1) as nat);
        let j = choose|j: int| 0 <= j < p.len() && #[trigger] p[j] == (k, addr_before(toks, k));
        assert(label_entries(toks, n)[j] == p[j]);
    } else {
        let p = label_entries(toks, (n - 1) as nat);
        assert(label_entries(toks, n)[p.len() as int] == (k, addr_before(toks, k)));
    }
}

proof fn lemma_find_unique(toks: Seq<TokSpec>, es: Seq<(nat, nat)>, name: Seq<char>, k: nat, a: nat)
    requires
        exists|j: int| 0 <= j < es.len() && #[trigger] es[j] == (k, a),
        forall|j: int| 0 <= j < es.len() ==> (#[trigger] es[j]).0 < toks.len(),
        forall|j: int| 0 <= j < es.len() && toks[(#[trigger] es[j]).0 as int].text == name ==> es[j] == (k, a),
        toks[k as int].text == name,
    ensures
        find_label(toks, es, name) == Some(a),
    decreases es.len(),
{
    if es.last() != (k, a) {
        let j = choose|j: int| 0 <= j < es.len() && #[trigger] es[j] == (k, a);
        let p = es.drop_last();
        assert(p[j] == es[j]);
        assert forall|q: int| 0 <= q < p.len() && toks[(#[trigger] p[q]).0 as int].text == name implies p[q] == (k, a) by {
            assert(p[q] == es[q]);
        };
        assert forall|q: int| 0 <= q < p.len() implies (#[trigger] p[q]).0 < toks.len() by {
            assert(p[q] == es[q]);
        };
        lemma_find_unique(toks, p, name, k, a);
    }
}

/// Label resolution: when `name` is declared once, at token `k`, pass 1
/// records for it the address of token `k`, which counts only the
/// instructions before the declaration; the declaration itself occupies no
/// bytes; and every reference `$name` resolves to that address as its
/// operand byte.
pub proof fn lemma_label_resolution(toks: Seq<TokSpec>, k: nat, j: nat, name: Seq<char>)
    requires
        k < toks.len(),
        j < toks.len(),
        toks[k as int].kind == TokenType::LabelSrc,
        toks[k as int].text == name,
        forall|q: int| 0 <= q < toks.len() && q != k && (#[trigger] toks[q]).kind == TokenType::LabelSrc ==> toks[q].text != name,
        toks[j as int].kind == TokenType::LabelDst,
        toks[j as int].text == name,
        addr_before(toks, k) <= 255,
    ensures
        label_addr(toks, name) == Some(addr_before(toks, k)),
        head_size(toks[k as int]) == 0,
        addr_before(toks, k + 1) == addr_before(toks, k),
        resolve(toks, toks[j as int], OperandKind::Destination) is Ok,
        resolve(toks, toks[j as int], OperandKind::Destination)->Ok_0.byte == addr_before(toks, k),
{
    let n = toks.len();
    let es = label_entries(toks, n);
    lemma_entries_contain(toks, n, k);
    assert forall|q: int| 0 <= q < es.len() implies (#[trigger] es[q]).0 < toks.len() by {
        lemma_entries_index(toks, n, q);
    };
    assert forall|q: int| 0 <= q < es.len() && toks[(#[trigger] es[q]).0 as int].text == name implies es[q] == (k, addr_before(toks, k)) by {
        lemma_entries_index(toks, n, q);
    };
    lemma_find_unique(toks, es, name, k, addr_before(toks, k));
}

/// Conditional branch: CMP of two registers followed by JMPIFZ jumps to
/// the destination exactly when the two registers hold equal values, and
/// otherwise goes on with the instruction after the jump.
#[verifier::rlimit(40)]
pub proof fn lemma_compare_then_branch_on_zero(s: CpuState, mem: Seq<u8>, ra: u8, rb: u8, dst: u8)
    requires
        mem.len() == MEMORY_SIZE,
        ra < 4,
        rb < 4,
        mem[s.reg_iar as int] == OP_CMP + ra * 4,
        mem[wrap(s.reg_iar + 1) as int] == rb,
        mem[wrap(s.reg_iar + 2) as int] == OP_JMPIF + COND_ZERO,
        mem[wrap(s.reg_iar + 3) as int] == dst,
    ensures
        ({
            let first = step(s, mem);
            let second = step(first.0, first.1);
            &&& first.2 == Ok::<bool, MachineError>(true)
            &&& second.2 == Ok::<bool, MachineError>(true)
            &&& second.0.reg_iar == if get_reg(s, ra) == get_reg(s, rb) {
                wrap(BOOT_ADDR + dst)
            } else {
                wrap(s.reg_iar + 4)
            }
        }),
{
    let ins = (OP_CMP + ra * 4) as u8;
    assert(ins / 16 == 12 && ins % 2 == 0 && (ins / 4) % 4 == ra) by (nonlinear_arith)
        requires
            ins == 0xC0 + ra * 4,
            ra < 4,
    ;
    let first = step(s, mem);
    let x = get_reg(s, ra);
    let y = get_reg(s, rb);
    lemma_bitwise_keeps_flags(arith(ALU { a: x, b: y, ..s.alu }, x - y));
    assert(first.0.reg_iar == wrap(s.reg_iar + 2));
    assert(first.0.alu.zero == (x == y));
    assert(wrap(wrap(s.reg_iar + 2) + 1) == wrap(s.reg_iar + 3));
    assert(wrap(wrap(s.reg_iar + 2) + 2) == wrap(s.reg_iar + 4));
    assert((OP_JMPIF + COND_ZERO) as u8 / 16 == 5);
    assert((OP_JMPIF + COND_ZERO) as u8 % 16 == COND_ZERO);
}

/// Stack discipline: PUSH of one register followed by POP into another
/// leaves the second holding the first's value and the stack pointer
/// where it was. The POP must not sit in the byte that the PUSH writes.
#[verifier::rlimit(40)]
pub proof fn lemma_push_then_pop(s: CpuState, mem: Seq<u8>, ra: u8, rb: u8)
    requires
        mem.len() == MEMORY_SIZE,
        ra < 4,
        rb < 4,
        s.reg_sp != 255,
        s.reg_sp + 1 != wrap(s.reg_iar + 1),
        mem[s.reg_iar as int] == OP_PUSH + ra * 4,
        mem[wrap(s.reg_iar + 1) as int] == OP_POP + rb * 4,
    ensures
        ({
            let first = step(s, mem);
            let second = step(first.0, first.1);
            &&& first.2 == Ok::<bool, MachineError>(true)
            &&& second.2 == Ok::<bool, MachineError>(true)
            &&& get_reg(second.0, rb) == get_reg(s, ra)
            &&& second.0.reg_sp == s.reg_sp
        }),
{
    let push = (OP_PUSH + ra * 4) as u8;
    let pop = (OP_POP + rb * 4) as u8;
    assert(push / 16 == 14 && (push / 4) % 4 == ra) by (nonlinear_arith)
        requires
            push == 0xE0 + ra * 4,
            ra < 4,
    ;
    assert(pop / 16 == 15 && (pop / 4) % 4 == rb) by (nonlinear_arith)
        requires
            pop == 0xF0 + rb * 4,
            rb < 4,
    ;
    let first = step(s, mem);
    assert(first.1[wrap(s.reg_iar + 1) as int] == pop);
    assert(first.0.reg_sp == s.reg_sp + 1);
}

/// Pushing with the stack pointer at the top of the address space fails
/// with a stack overflow and changes no memory.
pub proof fn lemma_push_at_top_overflows(s: CpuState, mem: Seq<u8>, ra: u8)
    requires
        mem.len() == MEMORY_SIZE,
        ra < 4,
        s.reg_sp == 255,
        mem[s.reg_iar as int] == OP_PUSH + ra * 4,
    ensures
        step(s, mem).2 == Err::<bool, MachineError>(MachineError::StackOverflow { iar: s.reg_iar }),
        step(s, mem).1 == mem,
{
    let push = (OP_PUSH + ra * 4) as u8;
    assert(push / 16 == 14) by (nonlinear_arith)
        requires
            push == 0xE0 + ra * 4,
            ra < 4,
    ;
}

/// Reset: whatever state a machine is in, a reset leaves it exactly as a
/// fresh machine is after it boots the same image, so a second reset
/// changes nothing.
pub proof fn lemma_reset_is_fresh_boot(c: CpuState, mem: Seq<u8>, img: Seq<u8>)
    ensures
        reset_effect(c, mem, img) == boot_effect(initial_state(), zeroed(), img),
        ({
            let once = reset_effect(c, mem, img);
            reset_effect(once.0, once.1, img) == once
        }),
{
}

/// Keyboard delivery: a key handed to the keyboard, an `INT 2` step and one
/// keyboard tick put the buffered keys at the keyboard address, their
/// address in R1 and their count in R2. A full buffer ignores further keys
/// and keeps those it holds.
pub proof fn lemma_keyboard_delivery(keys: Seq<u8>, v: u8, s: CpuState, mem: Seq<u8>)
    requires
        keys.len() <= MAX_BUFFERED_KEYS,
        mem.len() == MEMORY_SIZE,
        mem[s.reg_iar as int] == OP_INT,
        mem[wrap(s.reg_iar + 1) as int] == KEYBOARD_INT,
    ensures
        ({
            let buffered = updated_buffer(PeripheralKind::Keyboard, keys, v);
            let run = step(s, mem);
            let t = keyboard_tick(buffered, run.0, run.1);
            &&& buffered.len() <= MAX_BUFFERED_KEYS
            &&& keys.len() < MAX_BUFFERED_KEYS ==> buffered == keys.push(v)
            &&& keys.len() == MAX_BUFFERED_KEYS ==> buffered == keys
            &&& run.2 == Ok::<bool, MachineError>(true)
            &&& t.1.reg_1 == KEYBOARD_ADDRESS
            &&& t.1.reg_2 == buffered.len()
            &&& forall|i: int| 0 <= i < buffered.len() ==> t.2[KEYBOARD_ADDRESS + i] == #[trigger] buffered[i]
            &&& t.0.len() == 0
        }),
{
    assert(OP_INT / 16 == 7);
}

proof fn lemma_register_is_no_mnemonic(t: Seq<char>)
    requires
        reg_code(t) is Some,
    ensures
        !(lookup(t) is Op),
{
    reveal_strlit("r1");
    reveal_strlit("r2");
    reveal_strlit("r3");
    reveal_strlit("r4");
    reveal_strlit("ld");
    reveal_strlit("st");
    reveal_strlit("data");
    reveal_strlit("add");
    reveal_strlit("sub");
    reveal_strlit("cmp");
    reveal_strlit("inc");
    reveal_strlit("dec");
    reveal_strlit("push");
    reveal_strlit("pop");
    reveal_strlit("jmpr");
    reveal_strlit("int");
    reveal_strlit("jmp");
    reveal_strlit("cli");
    reveal_strlit("clf");
    reveal_strlit("hlt");
    assert(t.len() == 2);
    assert(lower(t[0]) == 'r' as u32) by {
        if eq_ci(t, "r1"@) {
            assert("r1"@[0] == 'r');
        } else if eq_ci(t, "r2"@) {
            assert("r2"@[0] == 'r');
        } else if eq_ci(t, "r3"@) {
            assert("r3"@[0] == 'r');
        } else {
            assert("r4"@[0] == 'r');
        }
    };
    assert(!eq_ci(t, "ld"@)) by {
        assert("ld"@[0] == 'l');
    };
    assert(!eq_ci(t, "st"@)) by {
        assert("st"@[0] == 's');
    };
    assert(plain_op(t) is None);
}

/// An operand token that resolves begins no instruction.
proof fn lemma_operand_is_no_head(toks: Seq<TokSpec>, t: TokSpec, k: OperandKind)
    requires
        resolve(toks, t, k) is Ok,
    ensures
        head_size(t) == 0,
{
    if t.kind == TokenType::Identifier {
        lemma_register_is_no_mnemonic(t.text);
    }
}

proof fn lemma_addr_skip(toks: Seq<TokSpec>, pos: nat, extra: nat)
    requires
        pos + extra < toks.len(),
        forall|q: int| pos < q <= pos + extra ==> head_size(#[trigger] toks[q]) == 0,
    ensures
        addr_before(toks, pos + 1 + extra) == addr_before(toks, pos) + head_size(toks[pos as int]),
    decreases extra,
{
    if extra > 0 {
        lemma_addr_skip(toks, pos, (extra - 1) as nat);
    }
}

/// One instruction of pass 2 takes as many bytes as pass 1 counts for it,
/// and its operand tokens are no label declarations.
proof fn lemma_instruction_follows_pass_one(toks: Seq<TokSpec>, pos: nat, addr: nat)
    requires
        pos < toks.len(),
        toks[pos as int].kind != TokenType::LabelSrc,
        encode_at(toks, pos, addr) is Ok,
    ensures
        ({
            let r = encode_at(toks, pos, addr)->Ok_0;
            &&& pos + 1 + r.2 <= toks.len()
            &&& addr_before(toks, pos + 1 + r.2) == addr_before(toks, pos) + r.0.len()
            &&& forall|q: int| pos < q <= pos + r.2 ==> (#[trigger] toks[q]).kind != TokenType::LabelSrc
        }),
{
    let t = toks[pos as int];
    let r = encode_at(toks, pos, addr)->Ok_0;
    assert(lookup(t.text) is Op);
    let i = lookup(t.text)->Op_0;
    let kinds = operand_kinds(i);
    if r.2 >= 1 {
        lemma_operand_is_no_head(toks, toks[pos + 1 as int], kinds[0]);
    }
    if r.2 == 3 {
        lemma_operand_is_no_head(toks, toks[pos + 3 as int], kinds[1]);
    }
    assert(r.0.len() == i.spec_size());
    lemma_addr_skip(toks, pos, r.2);
}

#[verifier::rlimit(40)]
proof fn lemma_pass_two_follows_pass_one(toks: Seq<TokSpec>, pos: nat, bytes: Seq<u8>, lines: Seq<Seq<char>>)
    requires
        pos <= toks.len(),
        assemble_from(toks, pos, bytes, lines) is Ok,
        bytes.len() == addr_before(toks, pos),
    ensures
        ({
            let out = assemble_from(toks, pos, bytes, lines)->Ok_0;
            &&& out.0.len() == addr_before(toks, toks.len())
            &&& lines.len() <= out.1.len()
            &&& forall|i: int| 0 <= i < lines.len() ==> out.1[i] == lines[i]
            &&& forall|k: int|
                pos <= k < toks.len() && (#[trigger] toks[k]).kind == TokenType::LabelSrc ==> out.1.contains(
                    label_line(addr_before(toks, k as nat), toks[k].text),
                )
        }),
    decreases toks.len() - pos,
{
    if pos < toks.len() {
        let t = toks[pos as int];
        if t.kind == TokenType::LabelSrc {
            let l2 = lines.push(label_line(bytes.len(), t.text));
            lemma_pass_two_follows_pass_one(toks, pos + 1, bytes, l2);
            let out = assemble_from(toks, pos + 1, bytes, l2)->Ok_0;
            assert(out.1[lines.len() as int] == l2[lines.len() as int]);
            assert forall|i: int| 0 <= i < lines.len() implies out.1[i] == lines[i] by {
                assert(out.1[i] == l2[i]);
            };
            assert forall|k: int| pos <= k < toks.len() && (#[trigger] toks[k]).kind == TokenType::LabelSrc implies out.1.contains(
                label_line(addr_before(toks, k as nat), toks[k].text),
            ) by {
                if k == pos {
                    assert(out.1[lines.len() as int] == label_line(addr_before(toks, k as nat), toks[k].text));
                }
            };
        } else {
            let r = encode_at(toks, pos, bytes.len())->Ok_0;
            lemma_instruction_follows_pass_one(toks, pos, bytes.len());
            let l2 = lines.push(r.1);
            lemma_pass_two_follows_pass_one(toks, pos + 1 + r.2, bytes + r.0, l2);
            let out = assemble_from(toks, pos + 1 + r.2, bytes + r.0, l2)->Ok_0;
            assert(out.1[lines.len() as int] == l2[lines.len() as int]);
            assert forall|i: int| 0 <= i < lines.len() implies out.1[i] == lines[i] by {
                assert(out.1[i] == l2[i]);
            };
            assert forall|k: int| pos <= k < toks.len() && (#[trigger] toks[k]).kind == TokenType::LabelSrc implies out.1.contains(
                label_line(addr_before(toks, k as nat), toks[k].text),
            ) by {
                assert(k >= pos + 1 + r.2 || k == pos || (pos < k <= pos + r.2));
            };
        }
    }
}

/// Pass 2 places instructions where pass 1 counted them: a program that
/// assembles has exactly as many bytes as pass 1 sums over its
/// instructions, and the listing shows every label at the address pass 1
/// recorded for it.
pub proof fn lemma_image_follows_pass_one(toks: Seq<TokSpec>)
    requires
        assembled(toks) is Ok,
    ensures
        assembled(toks)->Ok_0.0.len() == addr_before(toks, toks.len()),
        forall|k: int|
            0 <= k < toks.len() && (#[trigger] toks[k]).kind == TokenType::LabelSrc ==> assembled(toks)->Ok_0.1.contains(
                label_line(addr_before(toks, k as nat), toks[k].text),
            ),
{
    lemma_pass_two_follows_pass_one(toks, 0, Seq::empty(), Seq::empty());
}

} // verus!
