use vstd::prelude::*;

use crate::error::AsmError;
use crate::text::{dec_text, identifier, is_identifier, literal_byte, number_text, parse_byte};
use crate::token::{models, TokSpec, Token, TokenType};

verus! {

/// State of the tokenizer between two characters.
pub struct Scan {
    /// Line and column of the last character read.
    pub line: nat,
    pub col: nat,
    /// The character run being collected and where its token starts.
    pub run: Seq<char>,
    pub run_line: nat,
    pub run_col: nat,
    /// The run follows a `$`.
    pub reference: bool,
    /// Inside a `;` comment.
    pub comment: bool,
    pub toks: Seq<TokSpec>,
}

pub open spec fn scan_start() -> Scan {
    Scan {
        line: 1,
        col: 0,
        run: Seq::empty(),
        run_line: 1,
        run_col: 1,
        reference: false,
        comment: false,
        toks: Seq::empty(),
    }
}

/// The token that a finished run becomes: an identifier (a label
/// reference after `$`), or a numeric literal with its value in decimal.
pub open spec fn classify(t: Seq<char>, reference: bool) -> Option<(TokenType, Seq<char>)> {
    if is_identifier(t) {
        Some((if reference { TokenType::LabelDst } else { TokenType::Identifier }, t))
    } else {
        match literal_byte(t) {
            Some(v) => Some((TokenType::Value, dec_text(v as nat))),
            None => None,
        }
    }
}

/// Ends the current run, if any, by emitting its token.
pub open spec fn flush(st: Scan) -> Result<Scan, AsmError> {
    if st.run.len() == 0 {
        if st.reference {
            Err(AsmError::SyntaxError { line: st.run_line as usize, column: st.run_col as usize })
        } else {
            Ok(st)
        }
    } else {
        match classify(st.run, st.reference) {
            None => Err(AsmError::SyntaxError { line: st.run_line as usize, column: st.run_col as usize }),
            Some(kt) => Ok(
                Scan {
                    run: Seq::empty(),
                    reference: false,
                    toks: st.toks.push(TokSpec { kind: kt.0, text: kt.1, line: st.run_line, column: st.run_col }),
                    ..st
                },
            ),
        }
    }
}

/// Delimiters besides the newline.
pub open spec fn is_blank(c: char) -> bool {
    c == ',' || c == ' ' || c == '\t' || c == '\r'
}

/// Reads one character.
pub open spec fn scan_step(st: Scan, c: char) -> Result<Scan, AsmError> {
    let col = st.col + 1;
    if st.comment && c != '\n' {
        Ok(Scan { col, ..st })
    } else if c == '\n' {
        match flush(st) {
            Err(e) => Err(e),
            Ok(s2) => Ok(Scan { line: st.line + 1, col: 0, comment: false, ..s2 }),
        }
    } else if c == ';' {
        Ok(Scan { col, comment: true, ..st })
    } else if is_blank(c) {
        match flush(st) {
            Err(e) => Err(e),
            Ok(s2) => Ok(
                Scan {
                    col,
                    toks: if c == ',' {
                        s2.toks.push(TokSpec { kind: TokenType::Comma, text: seq![','], line: st.line, column: col })
                    } else {
                        s2.toks
                    },
                    ..s2
                },
            ),
        }
    } else if c == ':' {
        if st.reference || !is_identifier(st.run) {
            Err(AsmError::SyntaxError { line: st.line as usize, column: col as usize })
        } else {
            Ok(
                Scan {
                    col,
                    run: Seq::empty(),
                    toks: st.toks.push(
                        TokSpec { kind: TokenType::LabelSrc, text: st.run, line: st.run_line, column: st.run_col },
                    ),
                    ..st
                },
            )
        }
    } else if c == '$' {
        if st.run.len() > 0 || st.reference {
            Err(AsmError::SyntaxError { line: st.line as usize, column: col as usize })
        } else {
            Ok(Scan { col, reference: true, run_line: st.line, run_col: col, ..st })
        }
    } else if st.run.len() == 0 && !st.reference {
        Ok(Scan { col, run: seq![c], run_line: st.line, run_col: col, ..st })
    } else {
        Ok(Scan { col, run: st.run.push(c), ..st })
    }
}

/// The tokenizer state after the first `i` characters of `s`.
pub open spec fn scan(s: Seq<char>, i: nat) -> Result<Scan, AsmError>
    decreases i,
{
    if i == 0 {
        Ok(scan_start())
    } else {
        match scan(s, (i - 1) as nat) {
            Err(e) => Err(e),
            Ok(st) => scan_step(st, s[i - 1]),
        }
    }
}

/// The tokens of assembly text `s`, or the first error in it.
pub open spec fn tokenize(s: Seq<char>) -> Result<Seq<TokSpec>, AsmError> {
    match scan(s, s.len()) {
        Err(e) => Err(e),
        Ok(st) => match flush(st) {
            Err(e) => Err(e),
            Ok(f) => Ok(f.toks),
        },
    }
}

proof fn lemma_scan_err(s: Seq<char>, i: nat, j: nat)
    requires
        i <= j,
        scan(s, i) is Err,
    ensures
        scan(s, j) == scan(s, i),
    decreases j - i,
{
    if i < j {
        lemma_scan_err(s, i, (j - 1) as nat);
    }
}

/// Tokenizer state in executable form; the run is `input[run_start..run_end]`.
struct Scanner {
    line: usize,
    col: usize,
    run_start: usize,
    run_end: usize,
    run_line: usize,
    run_col: usize,
    reference: bool,
    comment: bool,
    toks: Vec<Token>,
}

impl Scanner {
    spec fn view(&self, s: Seq<char>) -> Scan {
        Scan {
            line: self.line as nat,
            col: self.col as nat,
            run: s.subrange(self.run_start as int, self.run_end as int),
            run_line: self.run_line as nat,
            run_col: self.run_col as nat,
            reference: self.reference,
            comment: self.comment,
            toks: models(self.toks@),
        }
    }

    /// Bounds that hold after `i` characters.
    spec fn inv(&self, s: Seq<char>, i: nat) -> bool {
        &&& i <= s.len()
        &&& 1 <= self.line <= i + 1
        &&& self.col <= i
        &&& self.run_start <= self.run_end <= i
        &&& 1 <= self.run_line <= i + 1
        &&& self.run_col <= i + 1
        &&& (!self.comment && (self.run_end > self.run_start || self.reference)) ==> self.run_end == i
    }

    fn flush(&mut self, input: &str) -> (r: Result<(), AsmError>)
        requires
            old(self).run_start <= old(self).run_end <= input@.len(),
        ensures
            match flush(old(self).view(input@)) {
                Ok(st) => r is Ok && final(self).view(input@) == st,
                Err(e) => r == Err::<(), AsmError>(e),
            },
            r is Ok ==> final(self).line == old(self).line && final(self).col == old(self).col
                && final(self).comment == old(self).comment && final(self).run_line == old(self).run_line
                && final(self).run_col == old(self).run_col && final(self).run_start <= final(self).run_end
                && final(self).run_end == old(self).run_end,
            r is Ok ==> final(self).toks@.len() + (if final(self).run_end > final(self).run_start { 1int } else { 0 })
                <= old(self).toks@.len() + (if old(self).run_end > old(self).run_start { 1int } else { 0 }),
    {
        let ghost s = input@;
        if self.run_start == self.run_end {
            if self.reference {
                return Err(AsmError::SyntaxError { line: self.run_line, column: self.run_col });
            }
            return Ok(());
        }
        let text = input.substring_char(self.run_start, self.run_end);
        let kind: TokenType;
        let value: String;
        if identifier(text) {
            kind = if self.reference { TokenType::LabelDst } else { TokenType::Identifier };
            value = String::from_str(text);
        } else {
            match parse_byte(text) {
                Some(v) => {
                    kind = TokenType::Value;
                    value = number_text(v as usize);
                },
                None => {
                    return Err(AsmError::SyntaxError { line: self.run_line, column: self.run_col });
                },
            }
        }
        let tok = Token { ttype: kind, tvalue: value, line: self.run_line, column: self.run_col };
        self.toks.push(tok);
        self.run_start = self.run_end;
        self.reference = false;
        proof {
            assert(models(self.toks@) =~= models(old(self).toks@).push(tok.model()));
            assert(s.subrange(self.run_start as int, self.run_end as int) =~= Seq::<char>::empty());
        }
        Ok(())
    }
}

/// Splits assembly text into tokens.
pub fn tokenize_text(input: &str) -> (r: Result<Vec<Token>, AsmError>)
    requires
        input@.len() < usize::MAX,
    ensures
        match tokenize(input@) {
            Ok(ts) => r is Ok && models(r->Ok_0@) == ts,
            Err(e) => r == Err::<Vec<Token>, AsmError>(e),
        },
        r is Ok ==> r->Ok_0@.len() <= input@.len(),
{
    let ghost s = input@;
    let n = input.unicode_len();
    let mut sc = Scanner {
        line: 1,
        col: 0,
        run_start: 0,
        run_end: 0,
        run_line: 1,
        run_col: 1,
        reference: false,
        comment: false,
        toks: Vec::new(),
    };
    assert(sc.view(s) == scan_start()) by {
        assert(s.subrange(0, 0) =~= Seq::<char>::empty());
        assert(models(sc.toks@) =~= Seq::<TokSpec>::empty());
    };
    let mut i: usize = 0;
    while i < n
        invariant
            n == s.len(),
            n < usize::MAX,
            s == input@,
            i <= n,
            sc.inv(s, i as nat),
            scan(s, i as nat) == Ok::<Scan, AsmError>(sc.view(s)),
            sc.toks@.len() + (if sc.run_end > sc.run_start { 1int } else { 0 }) <= i,
        decreases n - i,
    {
        let c = input.get_char(i);
        let ghost before = sc.view(s);
        proof {
            if before.run.len() == 0 {
                assert(before.run =~= Seq::<char>::empty());
            }
        }
        assert(scan(s, (i + 1) as nat) == scan_step(before, c));
        if sc.comment && c != '\n' {
            sc.col = sc.col + 1;
        } else if c == '\n' {
            let f = sc.flush(input);
            match f {
                Err(e) => {
                    proof { lemma_scan_err(s, (i + 1) as nat, n as nat); }
                    return Err(e);
                },
                Ok(()) => {},
            }
            sc.line = sc.line + 1;
            sc.col = 0;
            sc.comment = false;
            sc.run_start = i + 1;
            sc.run_end = i + 1;
            proof {
                assert(s.subrange(i + 1, i + 1) =~= Seq::<char>::empty());
            }
        } else if c == ';' {
            sc.col = sc.col + 1;
            sc.comment = true;
        } else if c == ',' || c == ' ' || c == '\t' || c == '\r' {
            let f = sc.flush(input);
            match f {
                Err(e) => {
                    proof { lemma_scan_err(s, (i + 1) as nat, n as nat); }
                    return Err(e);
                },
                Ok(()) => {},
            }
            sc.col = sc.col + 1;
            if c == ',' {
                proof { reveal_strlit(","); }
                let t = Token { ttype: TokenType::Comma, tvalue: String::from_str(","), line: sc.line, column: sc.col };
                assert(t.tvalue@ =~= seq![',']);
                let ghost pre = sc.toks@;
                sc.toks.push(t);
                assert(models(sc.toks@) =~= models(pre).push(t.model()));
            }
            sc.run_start = i + 1;
            sc.run_end = i + 1;
            proof {
                assert(s.subrange(i + 1, i + 1) =~= Seq::<char>::empty());
            }
        } else if c == ':' {
            let text = input.substring_char(sc.run_start, sc.run_end);
            if sc.reference || !identifier(text) {
                proof { lemma_scan_err(s, (i + 1) as nat, n as nat); }
                return Err(AsmError::SyntaxError { line: sc.line, column: sc.col + 1 });
            }
            let t = Token { ttype: TokenType::LabelSrc, tvalue: String::from_str(text), line: sc.run_line, column: sc.run_col };
            let ghost pre = sc.toks@;
            sc.toks.push(t);
            assert(models(sc.toks@) =~= models(pre).push(t.model()));
            sc.col = sc.col + 1;
            sc.run_start = i + 1;
            sc.run_end = i + 1;
            proof {
                assert(s.subrange(i + 1, i + 1) =~= Seq::<char>::empty());
            }
        } else if c == '$' {
            if sc.run_start < sc.run_end || sc.reference {
                proof { lemma_scan_err(s, (i + 1) as nat, n as nat); }
                return Err(AsmError::SyntaxError { line: sc.line, column: sc.col + 1 });
            }
            sc.col = sc.col + 1;
            sc.reference = true;
            sc.run_line = sc.line;
            sc.run_col = sc.col;
            sc.run_start = i + 1;
            sc.run_end = i + 1;
            proof {
                assert(s.subrange(i + 1, i + 1) =~= Seq::<char>::empty());
            }
        } else if sc.run_start == sc.run_end && !sc.reference {
            sc.col = sc.col + 1;
            sc.run_line = sc.line;
            sc.run_col = sc.col;
            sc.run_start = i;
            sc.run_end = i + 1;
            proof {
                assert(s.subrange(i as int, i + 1) =~= seq![c]);
            }
        } else {
            sc.col = sc.col + 1;
            sc.run_end = i + 1;
            proof {
                assert(s.subrange(sc.run_start as int, i + 1) =~= before.run.push(c));
            }
        }
        assert(Ok::<Scan, AsmError>(sc.view(s)) == scan_step(before, c));
        i = i + 1;
    }
    let f = sc.flush(input);
    match f {
        Err(e) => Err(e),
        Ok(()) => Ok(sc.toks),
    }
}

/// Tokenizer over one piece of assembly text.
pub struct Parser {
    input: String,
    pub tokens: Vec<Token>,
}

impl Parser {
    pub closed spec fn text(&self) -> Seq<char> {
        self.input@
    }

    pub closed spec fn token_models(&self) -> Seq<TokSpec> {
        models(self.tokens@)
    }

    /// A parser holding `input`, with no tokens yet.
    pub fn new(input: &str) -> (r: Parser)
        ensures
            r.text() == input@,
            r.token_models() == Seq::<TokSpec>::empty(),
    {
        let r = Parser { input: String::from_str(input), tokens: Vec::new() };
        assert(r.token_models() =~= Seq::<TokSpec>::empty());
        r
    }

    /// Tokenizes the input. On success the tokens are those of `tokenize`;
    /// on failure they are left as they were.
    pub fn parse(&mut self) -> (r: Result<(), AsmError>)
        requires
            old(self).text().len() < usize::MAX,
        ensures
            final(self).text() == old(self).text(),
            match tokenize(old(self).text()) {
                Ok(ts) => r is Ok && final(self).token_models() == ts,
                Err(e) => r == Err::<(), AsmError>(e) && final(self).token_models() == old(self).token_models(),
            },
    {
        match tokenize_text(self.input.as_str()) {
            Ok(ts) => {
                self.tokens = ts;
                Ok(())
            },
            Err(e) => Err(e),
        }
    }
}

} // verus!
