use vstd::prelude::*;

use crate::alu::{add_result, arith, bitwise, dec_result, flags_cleared, inc_result, sub_result, ALU};
use crate::error::MachineError;
use crate::isa::{decode, decode_instruction, Instruction};
use crate::motherboard::{BOOT_ADDR, STACK_ADDR};
use crate::ram::Ram;

verus! {

/// The registers and flags of the CPU, without its descriptive fields.
#[derive(Debug, Clone, Copy, PartialEq, Eq)]
pub struct CpuState {
    pub reg_1: u8,
    pub reg_2: u8,
    pub reg_3: u8,
    pub reg_4: u8,
    pub reg_iar: u8,
    pub reg_mar: u8,
    pub reg_ir: u8,
    pub reg_out: u8,
    pub reg_sp: u8,
    pub reg_int: u8,
    pub alu: ALU,
    pub clearing: bool,
}

/// `x` wrapped into a byte.
pub open spec fn wrap(x: int) -> u8 {
    (x % 256) as u8
}

/// The general-purpose register with code `r` (low two bits).
pub open spec fn get_reg(s: CpuState, r: u8) -> u8 {
    let k = r % 4;
    if k == 0 {
        s.reg_1
    } else if k == 1 {
        s.reg_2
    } else if k == 2 {
        s.reg_3
    } else {
        s.reg_4
    }
}

/// `s` with the general-purpose register of code `r` set to `v`.
pub open spec fn set_reg(s: CpuState, r: u8, v: u8) -> CpuState {
    let k = r % 4;
    if k == 0 {
        CpuState { reg_1: v, ..s }
    } else if k == 1 {
        CpuState { reg_2: v, ..s }
    } else if k == 2 {
        CpuState { reg_3: v, ..s }
    } else {
        CpuState { reg_4: v, ..s }
    }
}

/// The state of a freshly created or reset CPU.
pub open spec fn initial_state() -> CpuState {
    CpuState {
        reg_1: 0,
        reg_2: 0,
        reg_3: 0,
        reg_4: 0,
        reg_iar: 0,
        reg_mar: 0,
        reg_ir: 0,
        reg_out: 0,
        reg_sp: STACK_ADDR,
        reg_int: 0,
        alu: ALU {
            a: 0,
            b: 0,
            or: 0,
            and: 0,
            not: 0,
            shl: 0,
            shr: 0,
            sum: 0,
            carry: false,
            sign: false,
            zero: false,
            equal: false,
            less: false,
        },
        clearing: false,
    }
}

/// One fetch-decode-execute step from state `s` over memory `mem`: the new
/// state, the new memory and whether the machine runs on (`Ok(false)` after
/// HLT). A fault leaves everything as it was after the fetch.
pub open spec fn step(s: CpuState, mem: Seq<u8>) -> (CpuState, Seq<u8>, Result<bool, MachineError>) {
    let f = fetch(s, mem);
    if f.reg_ir < 128 {
        execute_control(f, mem)
    } else {
        execute_alu(f, mem)
    }
}

/// The fetch: MAR latches IAR and IR takes the byte there.
pub open spec fn fetch(s: CpuState, mem: Seq<u8>) -> CpuState {
    CpuState { reg_mar: s.reg_iar, reg_ir: mem[s.reg_iar as int], ..s }
}

/// Decode and execute of a control-class instruction in fetched state `f`.
pub open spec fn execute_control(f: CpuState, mem: Seq<u8>) -> (CpuState, Seq<u8>, Result<bool, MachineError>) {
    let ins = f.reg_ir;
    let ra = (ins / 4) % 4;
    let rb = ins % 4;
    let next = wrap(f.reg_iar + 1);
    let after = wrap(f.reg_iar + 2);
    let operand = mem[next as int];
    let a = get_reg(f, ra);
    let b = get_reg(f, rb);
    let latched = ALU { a: a, b: b, ..f.alu };
    match decode(ins) {
        None => (f, mem, Err(MachineError::UnknownOpcode { iar: f.reg_iar, opcode: ins })),
        Some(i) => match i {
            Instruction::LD => (CpuState { reg_iar: next, ..set_reg(f, rb, mem[a as int]) }, mem, Ok(true)),
            Instruction::ST => (CpuState { reg_iar: next, ..f }, mem.update(a as int, b), Ok(true)),
            Instruction::DATA => (
                CpuState { reg_iar: after, reg_mar: next, ..set_reg(f, ra, operand) },
                mem,
                Ok(true),
            ),
            Instruction::JMPR => (CpuState { reg_iar: a, reg_mar: a, ..f }, mem, Ok(true)),
            Instruction::JMP => (
                CpuState { reg_iar: wrap(BOOT_ADDR + operand), reg_mar: next, ..f },
                mem,
                Ok(true),
            ),
            Instruction::JMPIF => if f.alu.spec_match_flags(ins % 16) {
                (CpuState { reg_iar: wrap(BOOT_ADDR + operand), reg_mar: next, ..f }, mem, Ok(true))
            } else {
                (CpuState { reg_iar: after, ..f }, mem, Ok(true))
            },
            Instruction::CLF => (
                CpuState { reg_iar: next, alu: flags_cleared(f.alu), ..f },
                mem,
                Ok(true),
            ),
            Instruction::INT => (
                CpuState { reg_iar: after, reg_mar: next, reg_int: operand, ..f },
                mem,
                Ok(true),
            ),
            Instruction::CLI => (CpuState { reg_iar: next, clearing: true, ..f }, mem, Ok(true)),
            Instruction::HLT => (f, mem, Ok(false)),
            _ => (f, mem, Err(MachineError::UnknownOpcode { iar: f.reg_iar, opcode: ins })),
        },
    }
}

/// Decode and execute of an ALU-class instruction in fetched state `f`.
pub open spec fn execute_alu(f: CpuState, mem: Seq<u8>) -> (CpuState, Seq<u8>, Result<bool, MachineError>) {
    let ins = f.reg_ir;
    let ra = (ins / 4) % 4;
    let rb = ins % 4;
    let next = wrap(f.reg_iar + 1);
    let after = wrap(f.reg_iar + 2);
    let operand = mem[next as int];
    let a = get_reg(f, ra);
    let b = get_reg(f, rb);
    let latched = ALU { a: a, b: b, ..f.alu };
    match decode(ins) {
        None => (f, mem, Err(MachineError::UnknownOpcode { iar: f.reg_iar, opcode: ins })),
        Some(i) => match i {
            Instruction::ADD => {
                let r = add_result(a, b);
                (
                    CpuState {
                        reg_iar: next,
                        alu: bitwise(ALU { sum: r, ..arith(latched, a + b) }),
                        ..set_reg(f, rb, r)
                    },
                    mem,
                    Ok(true),
                )
            },
            Instruction::SUB => (
                CpuState {
                    reg_iar: next,
                    alu: bitwise(arith(latched, a - b)),
                    ..set_reg(f, rb, sub_result(a, b))
                },
                mem,
                Ok(true),
            ),
            Instruction::INC => (
                CpuState {
                    reg_iar: next,
                    alu: bitwise(arith(latched, a + 1)),
                    ..set_reg(f, ra, inc_result(a))
                },
                mem,
                Ok(true),
            ),
            Instruction::DEC => (
                CpuState {
                    reg_iar: next,
                    alu: bitwise(arith(latched, a - 1)),
                    ..set_reg(f, ra, dec_result(a))
                },
                mem,
                Ok(true),
            ),
            Instruction::CMP => {
                let v = if ins % 2 == 1 {
                    operand
                } else {
                    get_reg(f, operand)
                };
                (
                    CpuState {
                        reg_iar: after,
                        reg_mar: next,
                        alu: bitwise(arith(ALU { a: a, b: v, ..f.alu }, a - v)),
                        ..f
                    },
                    mem,
                    Ok(true),
                )
            },
            Instruction::PUSH => if f.reg_sp == 255 {
                (f, mem, Err(MachineError::StackOverflow { iar: f.reg_iar }))
            } else {
                let sp = (f.reg_sp + 1) as u8;
                (
                    CpuState { reg_iar: next, reg_sp: sp, alu: bitwise(latched), ..f },
                    mem.update(sp as int, a),
                    Ok(true),
                )
            },
            Instruction::POP => (
                CpuState {
                    reg_iar: next,
                    reg_sp: wrap(f.reg_sp - 1),
                    alu: bitwise(latched),
                    ..set_reg(f, ra, mem[f.reg_sp as int])
                },
                mem,
                Ok(true),
            ),
            _ => (f, mem, Err(MachineError::UnknownOpcode { iar: f.reg_iar, opcode: ins })),
        },
    }
}

/// The CPU: descriptive fields, the register file, the ALU and a short
/// status message.
pub struct CPU {
    pub name: &'static str,
    pub arch: &'static str,
    pub bits: usize,
    pub num_registers: usize,
    pub reg_1: u8,
    pub reg_2: u8,
    pub reg_3: u8,
    pub reg_4: u8,
    /// Address of the next instruction.
    pub reg_iar: u8,
    /// Address latched for the current memory access.
    pub reg_mar: u8,
    /// The instruction byte being executed.
    pub reg_ir: u8,
    pub reg_out: u8,
    /// Stack pointer: address of the last pushed byte.
    pub reg_sp: u8,
    /// Pending interrupt code.
    pub reg_int: u8,
    pub alu: ALU,
    pub dbg_msg: String,
    /// Set by CLI until the board has cleared its peripherals.
    pub clearing: bool,
}

impl CPU {
    /// The register file and flags of this CPU.
    pub open spec fn state(&self) -> CpuState {
        CpuState {
            reg_1: self.reg_1,
            reg_2: self.reg_2,
            reg_3: self.reg_3,
            reg_4: self.reg_4,
            reg_iar: self.reg_iar,
            reg_mar: self.reg_mar,
            reg_ir: self.reg_ir,
            reg_out: self.reg_out,
            reg_sp: self.reg_sp,
            reg_int: self.reg_int,
            alu: self.alu,
            clearing: self.clearing,
        }
    }

    pub fn new() -> (r: CPU)
        ensures
            r.state() == initial_state(),
    {
        CPU {
            name: "jCPU",
            arch: "jx8",
            bits: 8,
            num_registers: 4,
            reg_1: 0,
            reg_2: 0,
            reg_3: 0,
            reg_4: 0,
            reg_iar: 0,
            reg_mar: 0,
            reg_ir: 0,
            reg_out: 0,
            reg_sp: STACK_ADDR,
            reg_int: 0,
            alu: ALU::new(),
            dbg_msg: String::from_str("CPU started"),
            clearing: false,
        }
    }

    /// Puts every register, the stack pointer and the ALU back to their
    /// initial values.
    pub fn reset(&mut self)
        ensures
            final(self).state() == initial_state(),
    {
        self.reg_1 = 0;
        self.reg_2 = 0;
        self.reg_3 = 0;
        self.reg_4 = 0;
        self.reg_iar = 0;
        self.reg_mar = 0;
        self.reg_ir = 0;
        self.reg_out = 0;
        self.reg_sp = STACK_ADDR;
        self.reg_int = 0;
        self.alu = ALU::new();
        self.dbg_msg = String::from_str("CPU reset");
        self.clearing = false;
    }

    fn get_register(&self, reg: u8) -> (r: u8)
        requires
            reg < 4,
        ensures
            r == get_reg(self.state(), reg),
    {
        if reg == 0 {
            self.reg_1
        } else if reg == 1 {
            self.reg_2
        } else if reg == 2 {
            self.reg_3
        } else {
            self.reg_4
        }
    }

    fn set_register(&mut self, reg: u8, value: u8)
        requires
            reg < 4,
        ensures
            final(self).state() == set_reg(old(self).state(), reg, value),
            final(self).dbg_msg == old(self).dbg_msg,
    {
        if reg == 0 {
            self.reg_1 = value;
        } else if reg == 1 {
            self.reg_2 = value;
        } else if reg == 2 {
            self.reg_3 = value;
        } else {
            self.reg_4 = value;
        }
    }

    /// Fetches the instruction at IAR, decodes it and executes it.
    pub fn cycle(&mut self, ram: &mut Ram) -> (r: Result<bool, MachineError>)
        requires
            old(ram).wf(),
        ensures
            final(ram).wf(),
            (final(self).state(), final(ram).view(), r) == step(old(self).state(), old(ram).view()),
    {
        let iar = self.reg_iar;
        self.reg_mar = iar;
        let ins = ram.read(iar);
        self.reg_ir = ins;
        if ins < 128 {
            self.execute_control(ram)
        } else {
            self.execute_alu(ram)
        }
    }

    fn execute_control(&mut self, ram: &mut Ram) -> (r: Result<bool, MachineError>)
        requires
            old(ram).wf(),
            old(self).reg_ir < 128,
        ensures
            final(ram).wf(),
            (final(self).state(), final(ram).view(), r) == execute_control(old(self).state(), old(ram).view()),
    {
        let iar = self.reg_iar;
        let ins = self.reg_ir;
        let ra: u8 = (ins / 4) % 4;
        let rb: u8 = ins % 4;
        let next: u8 = ((iar as u16 + 1) % 256) as u8;
        let after: u8 = ((iar as u16 + 2) % 256) as u8;
        let a = self.get_register(ra);
        let b = self.get_register(rb);
        let decoded = decode_instruction(ins);
        let i = match decoded {
            None => {
                return Err(MachineError::UnknownOpcode { iar, opcode: ins });
            },
            Some(i) => i,
        };
        match i {
            Instruction::LD => {
                let v = ram.read(a);
                self.set_register(rb, v);
                self.reg_iar = next;
            },
            Instruction::ST => {
                ram.write(a, b);
                self.reg_iar = next;
            },
            Instruction::DATA => {
                self.reg_mar = next;
                let v = ram.read(next);
                self.set_register(ra, v);
                self.reg_iar = after;
            },
            Instruction::JMPR => {
                self.reg_iar = a;
                self.reg_mar = a;
            },
            Instruction::JMP => {
                self.reg_mar = next;
                let dst = ram.read(next);
                self.reg_iar = ((BOOT_ADDR as u16 + dst as u16) % 256) as u8;
            },
            Instruction::JMPIF => {
                if self.alu.match_flags(ins % 16) {
                    self.reg_mar = next;
                    let dst = ram.read(next);
                    self.reg_iar = ((BOOT_ADDR as u16 + dst as u16) % 256) as u8;
                } else {
                    self.reg_iar = after;
                }
            },
            Instruction::CLF => {
                self.alu.clear_flags();
                self.reg_iar = next;
            },
            Instruction::INT => {
                self.reg_mar = next;
                self.reg_int = ram.read(next);
                self.reg_iar = after;
            },
            Instruction::CLI => {
                self.clearing = true;
                self.reg_iar = next;
            },
            Instruction::HLT => {
                self.dbg_msg = String::from_str("halting");
                return Ok(false);
            },
            _ => {
                return Err(MachineError::UnknownOpcode { iar, opcode: ins });
            },
        }
        Ok(true)
    }

    #[verifier::rlimit(60)]
    fn execute_alu(&mut self, ram: &mut Ram) -> (r: Result<bool, MachineError>)
        requires
            old(ram).wf(),
            old(self).reg_ir >= 128,
        ensures
            final(ram).wf(),
            (final(self).state(), final(ram).view(), r) == execute_alu(old(self).state(), old(ram).view()),
    {
        let iar = self.reg_iar;
        let ins = self.reg_ir;
        let ra: u8 = (ins / 4) % 4;
        let rb: u8 = ins % 4;
        let next: u8 = ((iar as u16 + 1) % 256) as u8;
        let after: u8 = ((iar as u16 + 2) % 256) as u8;
        let a = self.get_register(ra);
        let b = self.get_register(rb);
        let decoded = decode_instruction(ins);
        let i = match decoded {
            None => {
                return Err(MachineError::UnknownOpcode { iar, opcode: ins });
            },
            Some(i) => i,
        };
        match i {
            Instruction::ADD => {
                self.alu.set_a(a);
                self.alu.set_b(b);
                let res = self.alu.op_add();
                self.set_register(rb, res);
                self.alu.flags();
                self.reg_iar = next;
            },
            Instruction::SUB => {
                self.alu.set_a(a);
                self.alu.set_b(b);
                let res = self.alu.op_sub();
                self.set_register(rb, res);
                self.alu.flags();
                self.reg_iar = next;
            },
            Instruction::INC => {
                self.alu.set_a(a);
                self.alu.set_b(b);
                let res = self.alu.op_inc();
                self.set_register(ra, res);
                self.alu.flags();
                self.reg_iar = next;
            },
            Instruction::DEC => {
                self.alu.set_a(a);
                self.alu.set_b(b);
                let res = self.alu.op_dec();
                self.set_register(ra, res);
                self.alu.flags();
                self.reg_iar = next;
            },
            Instruction::CMP => {
                self.reg_mar = next;
                let operand = ram.read(next);
                let v = if ins % 2 == 1 {
                    operand
                } else {
                    self.get_register(operand % 4)
                };
                self.alu.set_a(a);
                self.alu.set_b(v);
                let _ = self.alu.op_sub();
                self.alu.flags();
                self.reg_iar = after;
            },
            Instruction::PUSH => {
                if self.reg_sp == 255 {
                    return Err(MachineError::StackOverflow { iar });
                }
                self.alu.set_a(a);
                self.alu.set_b(b);
                self.reg_sp = self.reg_sp + 1;
                ram.write(self.reg_sp, a);
                self.alu.flags();
                self.reg_iar = next;
            },
            Instruction::POP => {
                self.alu.set_a(a);
                self.alu.set_b(b);
                let v = ram.read(self.reg_sp);
                self.set_register(ra, v);
                self.reg_sp = ((self.reg_sp as u16 + 255) % 256) as u8;
                self.alu.flags();
                self.reg_iar = next;
            },
            _ => {
                return Err(MachineError::UnknownOpcode { iar, opcode: ins });
            },
        }
        Ok(true)
    }
}

} // verus!
