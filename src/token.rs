use vstd::prelude::*;

verus! {

/// Kinds of assembly tokens.
#[derive(Debug, Clone, Copy, PartialEq, Eq, Structural)]
pub enum TokenType {
    /// A mnemonic or register name.
    Identifier,
    /// The comma between two operands.
    Comma,
    /// A numeric literal; its text is the value in decimal.
    Value,
    /// A label declaration `name:`.
    LabelSrc,
    /// A label reference `$name`.
    LabelDst,
}

/// One token with its 1-based source position.
#[derive(Debug, Clone)]
pub struct Token {
    pub ttype: TokenType,
    pub tvalue: String,
    pub line: usize,
    pub column: usize,
}

/// The mathematical content of a token.
pub struct TokSpec {
    pub kind: TokenType,
    pub text: Seq<char>,
    pub line: nat,
    pub column: nat,
}

impl Token {
    pub open spec fn model(self) -> TokSpec {
        TokSpec { kind: self.ttype, text: self.tvalue@, line: self.line as nat, column: self.column as nat }
    }
}

/// The models of a sequence of tokens.
pub open spec fn models(toks: Seq<Token>) -> Seq<TokSpec> {
    toks.map_values(|t: Token| t.model())
}

} // verus!
