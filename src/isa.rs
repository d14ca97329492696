use vstd::prelude::*;

verus! {

/// General-purpose register selected by a 2-bit field.
#[derive(Debug, Clone, Copy, PartialEq, Eq, Structural)]
pub enum Register {
    R1,
    R2,
    R3,
    R4,
}

impl Register {
    pub open spec fn spec_code(self) -> u8 {
        match self {
            Register::R1 => 0,
            Register::R2 => 1,
            Register::R3 => 2,
            Register::R4 => 3,
        }
    }

    /// The 2-bit encoding of the register.
    pub fn code(&self) -> (r: u8)
        ensures
            r == self.spec_code(),
            r < 4,
    {
        match self {
            Register::R1 => 0,
            Register::R2 => 1,
            Register::R3 => 2,
            Register::R4 => 3,
        }
    }
}

/// Condition selectors of the conditional jump, in encoding order.
/// Letters: C carry, A above, E equal, Z zero; `CF` is the carry test.
#[derive(Debug, Clone, Copy, PartialEq, Eq, Structural)]
pub enum JumpFlag {
    CF,
    Z,
    E,
    EZ,
    A,
    AZ,
    AE,
    AEZ,
    C,
    CZ,
    CE,
    CEZ,
    CA,
    CAZ,
    CAE,
    CAEZ,
}

impl JumpFlag {
    pub open spec fn spec_code(self) -> u8 {
        match self {
            JumpFlag::CF => 0,
            JumpFlag::Z => 1,
            JumpFlag::E => 2,
            JumpFlag::EZ => 3,
            JumpFlag::A => 4,
            JumpFlag::AZ => 5,
            JumpFlag::AE => 6,
            JumpFlag::AEZ => 7,
            JumpFlag::C => 8,
            JumpFlag::CZ => 9,
            JumpFlag::CE => 10,
            JumpFlag::CEZ => 11,
            JumpFlag::CA => 12,
            JumpFlag::CAZ => 13,
            JumpFlag::CAE => 14,
            JumpFlag::CAEZ => 15,
        }
    }

    /// The 4-bit selector that encodes this condition.
    pub fn code(&self) -> (r: u8)
        ensures
            r == self.spec_code(),
            r < 16,
    {
        match self {
            JumpFlag::CF => 0,
            JumpFlag::Z => 1,
            JumpFlag::E => 2,
            JumpFlag::EZ => 3,
            JumpFlag::A => 4,
            JumpFlag::AZ => 5,
            JumpFlag::AE => 6,
            JumpFlag::AEZ => 7,
            JumpFlag::C => 8,
            JumpFlag::CZ => 9,
            JumpFlag::CE => 10,
            JumpFlag::CEZ => 11,
            JumpFlag::CA => 12,
            JumpFlag::CAZ => 13,
            JumpFlag::CAE => 14,
            JumpFlag::CAEZ => 15,
        }
    }
}

/// The instructions of the machine.
///
/// An instruction byte is `[class:1][opcode:3][ra:2][rb:2]`. Class 1 is
/// the ALU class. The control class uses opcode 7 for the one-byte system
/// instructions INT, CLI and HLT, told apart by their low four bits.
/// CMP carries a second byte holding either a register code or, when
/// bit 0 of the instruction byte is set, an immediate value.
#[derive(Debug, Clone, Copy, PartialEq, Eq, Structural)]
pub enum Instruction {
    ADD,
    SUB,
    CMP,
    INC,
    DEC,
    PUSH,
    POP,
    LD,
    ST,
    DATA,
    JMPR,
    JMP,
    JMPIF,
    CLF,
    INT,
    CLI,
    HLT,
}

/// Opcode bytes of the instructions, operand fields zero.
pub const OP_LD: u8 = 0x00;
pub const OP_ST: u8 = 0x10;
pub const OP_DATA: u8 = 0x20;
pub const OP_JMPR: u8 = 0x30;
pub const OP_JMP: u8 = 0x40;
pub const OP_JMPIF: u8 = 0x50;
pub const OP_CLF: u8 = 0x60;
pub const OP_INT: u8 = 0x70;
pub const OP_CLI: u8 = 0x71;
pub const OP_HLT: u8 = 0x7F;
pub const OP_ADD: u8 = 0x80;
pub const OP_SUB: u8 = 0x90;
pub const OP_DEC: u8 = 0xB0;
pub const OP_CMP: u8 = 0xC0;
pub const OP_INC: u8 = 0xD0;
pub const OP_PUSH: u8 = 0xE0;
pub const OP_POP: u8 = 0xF0;

/// Bit of a CMP instruction byte that marks its second byte as an immediate.
pub const CMP_IMMEDIATE: u8 = 0x01;

impl Instruction {
    pub open spec fn spec_opcode(self) -> u8 {
        match self {
            Instruction::ADD => OP_ADD,
            Instruction::SUB => OP_SUB,
            Instruction::CMP => OP_CMP,
            Instruction::INC => OP_INC,
            Instruction::DEC => OP_DEC,
            Instruction::PUSH => OP_PUSH,
            Instruction::POP => OP_POP,
            Instruction::LD => OP_LD,
            Instruction::ST => OP_ST,
            Instruction::DATA => OP_DATA,
            Instruction::JMPR => OP_JMPR,
            Instruction::JMP => OP_JMP,
            Instruction::JMPIF => OP_JMPIF,
            Instruction::CLF => OP_CLF,
            Instruction::INT => OP_INT,
            Instruction::CLI => OP_CLI,
            Instruction::HLT => OP_HLT,
        }
    }

    /// Encoded size in bytes: the opcode byte plus an optional operand byte.
    pub open spec fn spec_size(self) -> nat {
        match self {
            Instruction::DATA | Instruction::CMP | Instruction::JMP | Instruction::JMPIF
            | Instruction::INT => 2,
            _ => 1,
        }
    }

    /// The instruction byte with all operand fields zero.
    pub fn opcode(&self) -> (r: u8)
        ensures
            r == self.spec_opcode(),
    {
        match self {
            Instruction::ADD => OP_ADD,
            Instruction::SUB => OP_SUB,
            Instruction::CMP => OP_CMP,
            Instruction::INC => OP_INC,
            Instruction::DEC => OP_DEC,
            Instruction::PUSH => OP_PUSH,
            Instruction::POP => OP_POP,
            Instruction::LD => OP_LD,
            Instruction::ST => OP_ST,
            Instruction::DATA => OP_DATA,
            Instruction::JMPR => OP_JMPR,
            Instruction::JMP => OP_JMP,
            Instruction::JMPIF => OP_JMPIF,
            Instruction::CLF => OP_CLF,
            Instruction::INT => OP_INT,
            Instruction::CLI => OP_CLI,
            Instruction::HLT => OP_HLT,
        }
    }

    /// Encoded size in bytes.
    pub fn size(&self) -> (r: usize)
        ensures
            r == self.spec_size(),
    {
        match self {
            Instruction::DATA | Instruction::CMP | Instruction::JMP | Instruction::JMPIF
            | Instruction::INT => 2,
            _ => 1,
        }
    }
}

/// The instruction that an instruction byte executes, if any.
pub open spec fn decode(ins: u8) -> Option<Instruction> {
    let op = ins / 16;
    if op == 0 {
        Some(Instruction::LD)
    } else if op == 1 {
        Some(Instruction::ST)
    } else if op == 2 {
        Some(Instruction::DATA)
    } else if op == 3 {
        Some(Instruction::JMPR)
    } else if op == 4 {
        Some(Instruction::JMP)
    } else if op == 5 {
        Some(Instruction::JMPIF)
    } else if op == 6 {
        Some(Instruction::CLF)
    } else if op == 7 {
        if ins == OP_INT {
            Some(Instruction::INT)
        } else if ins == OP_CLI {
            Some(Instruction::CLI)
        } else if ins == OP_HLT {
            Some(Instruction::HLT)
        } else {
            None
        }
    } else if op == 8 {
        Some(Instruction::ADD)
    } else if op == 9 {
        Some(Instruction::SUB)
    } else if op == 11 {
        Some(Instruction::DEC)
    } else if op == 12 {
        Some(Instruction::CMP)
    } else if op == 13 {
        Some(Instruction::INC)
    } else if op == 14 {
        Some(Instruction::PUSH)
    } else if op == 15 {
        Some(Instruction::POP)
    } else {
        None
    }
}

/// Decodes an instruction byte.
pub fn decode_instruction(ins: u8) -> (r: Option<Instruction>)
    ensures
        r == decode(ins),
{
    let op = ins / 16;
    if op == 0 {
        Some(Instruction::LD)
    } else if op == 1 {
        Some(Instruction::ST)
    } else if op == 2 {
        Some(Instruction::DATA)
    } else if op == 3 {
        Some(Instruction::JMPR)
    } else if op == 4 {
        Some(Instruction::JMP)
    } else if op == 5 {
        Some(Instruction::JMPIF)
    } else if op == 6 {
        Some(Instruction::CLF)
    } else if op == 7 {
        if ins == OP_INT {
            Some(Instruction::INT)
        } else if ins == OP_CLI {
            Some(Instruction::CLI)
        } else if ins == OP_HLT {
            Some(Instruction::HLT)
        } else {
            None
        }
    } else if op == 8 {
        Some(Instruction::ADD)
    } else if op == 9 {
        Some(Instruction::SUB)
    } else if op == 11 {
        Some(Instruction::DEC)
    } else if op == 12 {
        Some(Instruction::CMP)
    } else if op == 13 {
        Some(Instruction::INC)
    } else if op == 14 {
        Some(Instruction::PUSH)
    } else if op == 15 {
        Some(Instruction::POP)
    } else {
        None
    }
}

} // verus!
