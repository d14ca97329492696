use vstd::prelude::*;

verus! {

/// Why an assembly run failed. Each variant carries the 1-based line and
/// column of the offending source text.
#[derive(Debug, Clone, Copy, PartialEq, Eq, Structural)]
pub enum AsmError {
    /// A character run that is no token, an empty or misplaced reference,
    /// a missing operand or a missing comma.
    SyntaxError { line: usize, column: usize },
    /// A token in mnemonic position that names no instruction.
    UnknownMnemonic { line: usize, column: usize },
    /// A register operand other than R1 to R4.
    UnknownRegister { line: usize, column: usize },
    /// A conditional jump whose suffix names no condition.
    UnknownConditionFlag { line: usize, column: usize },
    /// A numeric operand that is not a byte.
    ValueOutOfRange { line: usize, column: usize },
    /// A label reference with no matching declaration.
    UndefinedLabel { line: usize, column: usize },
    /// An operand of a kind that the instruction does not take there.
    TypeError { line: usize, column: usize },
}

/// Why the machine stopped with a fault.
#[derive(Debug, Clone, Copy, PartialEq, Eq, Structural)]
pub enum MachineError {
    /// The image does not fit in the program region.
    ImageTooLarge { len: usize },
    /// PUSH with the stack pointer at the top of the address space.
    StackOverflow { iar: u8 },
    /// An instruction byte that encodes no instruction.
    UnknownOpcode { iar: u8, opcode: u8 },
}

} // verus!
