use jcpu::error::AsmError;
use jcpu::lexer::{assemble, lex, rule_for_op, Lookup};
use jcpu::isa::Instruction;
use jcpu::parser::{tokenize_text, Parser};
use jcpu::token::{Token, TokenType};

fn image_of(text: &str) -> Vec<u8> {
    assemble(text).expect("assembles").image
}

#[test]
fn tokenizer_kinds_and_positions() {
    let toks = tokenize_text("start: DATA R1,0x0F ; note\nJMP $start\n").unwrap();
    let kinds: Vec<TokenType> = toks.iter().map(|t| t.ttype).collect();
    assert_eq!(
        kinds,
        vec![
            TokenType::LabelSrc,
            TokenType::Identifier,
            TokenType::Identifier,
            TokenType::Comma,
            TokenType::Value,
            TokenType::Identifier,
            TokenType::LabelDst,
        ]
    );
    assert_eq!(toks[0].tvalue, "start");
    assert_eq!(toks[4].tvalue, "15");
    assert_eq!(toks[6].tvalue, "start");
    assert_eq!((toks[1].line, toks[1].column), (1, 8));
    assert_eq!((toks[5].line, toks[5].column), (2, 1));
    assert_eq!((toks[6].line, toks[6].column), (2, 5));
}

#[test]
fn tokenizer_flushes_last_run_without_newline() {
    let toks = tokenize_text("HLT").unwrap();
    assert_eq!(toks.len(), 1);
    assert_eq!(toks[0].tvalue, "HLT");
}

#[test]
fn tokenizer_rejects_bad_runs() {
    assert!(matches!(tokenize_text("DATA R1, 256"), Err(AsmError::SyntaxError { line: 1, column: 10 })));
    assert!(matches!(tokenize_text("0xZZ"), Err(AsmError::SyntaxError { line: 1, column: 1 })));
    assert!(matches!(tokenize_text("a$b"), Err(AsmError::SyntaxError { line: 1, column: 2 })));
    assert!(matches!(tokenize_text("JMP $"), Err(AsmError::SyntaxError { line: 1, column: 5 })));
}

#[test]
fn parser_struct_tokenizes() {
    let mut p = Parser::new("hlt\n");
    assert_eq!(p.parse(), Ok(()));
    assert_eq!(p.tokens.len(), 1);
    assert_eq!(p.tokens[0].ttype, TokenType::Identifier);
}

#[test]
fn arithmetic_program_encoding() {
    assert_eq!(image_of("DATA R1,2\nDATA R2,3\nADD R1,R2\nHLT\n"), vec![0x20, 2, 0x24, 3, 0x81, 0x7F]);
}

#[test]
fn backward_label_resolves_to_pass_one_offset() {
    let a = assemble("start:\nDATA R1, 1\nloop:\nINC R1\nJMP $loop\n").unwrap();
    assert_eq!(a.image, vec![0x20, 1, 0xD0, 0x40, 2]);
    assert_eq!(
        a.listing,
        vec!["0: start:", "0: DATA R1, 1", "2: loop:", "2: INC R1", "3: JMP $loop"]
    );
}

#[test]
fn forward_label_and_numeric_destination() {
    assert_eq!(image_of("JMP $end\nHLT\nend:\nHLT\n"), vec![0x40, 3, 0x7F, 0x7F]);
    assert_eq!(image_of("JMP $0x04\n"), vec![0x40, 4]);
    assert_eq!(image_of("JMP 7\n"), vec![0x40, 7]);
}

#[test]
fn conditional_jump_encoding_and_listing() {
    let a = assemble("DATA R1,2\nDATA R2,2\nCMP R1,R2\nJMPIFZ $end\nend:\nHLT\n").unwrap();
    assert_eq!(a.image, vec![0x20, 2, 0x24, 2, 0xC0, 1, 0x51, 8, 0x7F]);
    assert_eq!(a.listing[3], "6: JMPIFZ $end");
    assert_eq!(image_of("jmpifcaez 0\n"), vec![0x5F, 0]);
}

#[test]
fn compare_with_immediate_sets_mode_bit() {
    assert_eq!(image_of("CMP R2, 5\n"), vec![0xC5, 5]);
    assert_eq!(image_of("CMP R2, R4\n"), vec![0xC4, 3]);
}

#[test]
fn every_register_form_encodes() {
    assert_eq!(
        image_of("LD R1,R2\nST R3,R4\nSUB R2,R1\nDEC R3\nPUSH R4\nPOP R1\nJMPR R2\nINT 2\nCLI\nCLF\n"),
        vec![0x01, 0x1B, 0x94, 0xB8, 0xEC, 0xF0, 0x34, 0x70, 2, 0x71, 0x60]
    );
}

#[test]
fn mnemonics_ignore_case() {
    assert_eq!(image_of("hLt\n"), vec![0x7F]);
    assert_eq!(rule_for_op("JmPiFz"), Lookup::Op(Instruction::JMPIF, 1));
    assert_eq!(rule_for_op("jmpifq"), Lookup::BadFlag);
    assert_eq!(rule_for_op("nop"), Lookup::Unknown);
}

#[test]
fn assembly_errors_carry_positions() {
    assert_eq!(assemble("NOP\n").err(), Some(AsmError::UnknownMnemonic { line: 1, column: 1 }));
    assert_eq!(assemble("INC R9\n").err(), Some(AsmError::UnknownRegister { line: 1, column: 5 }));
    assert_eq!(assemble("JMPIFX $a\n").err(), Some(AsmError::UnknownConditionFlag { line: 1, column: 1 }));
    assert_eq!(assemble("JMP $nowhere\n").err(), Some(AsmError::UndefinedLabel { line: 1, column: 5 }));
    assert_eq!(assemble("DATA 5, 5\n").err(), Some(AsmError::TypeError { line: 1, column: 6 }));
    assert_eq!(assemble("ADD R1 R2\n").err(), Some(AsmError::SyntaxError { line: 1, column: 8 }));
    assert_eq!(assemble("ADD R1\n").err(), Some(AsmError::SyntaxError { line: 1, column: 1 }));
    assert_eq!(assemble(", HLT\n").err(), Some(AsmError::SyntaxError { line: 1, column: 1 }));
}

#[test]
fn value_out_of_range_from_hand_built_token() {
    let toks = vec![
        Token { ttype: TokenType::Identifier, tvalue: "INT".to_string(), line: 3, column: 1 },
        Token { ttype: TokenType::Value, tvalue: "300".to_string(), line: 3, column: 5 },
    ];
    assert_eq!(lex(&toks).err(), Some(AsmError::ValueOutOfRange { line: 3, column: 5 }));
}

#[test]
fn label_past_last_byte_is_out_of_range() {
    let mut text = String::new();
    for _ in 0..128 {
        text.push_str("INT 1\n");
    }
    text.push_str("far:\nJMP $far\n");
    assert_eq!(assemble(&text).err(), Some(AsmError::ValueOutOfRange { line: 130, column: 5 }));
}

#[test]
fn duplicate_label_last_declaration_wins() {
    assert_eq!(image_of("x:\nHLT\nx:\nJMP $x\n"), vec![0x7F, 0x40, 1]);
}

#[test]
fn empty_text_assembles_to_nothing() {
    let a = assemble("; only a comment\n\n").unwrap();
    assert!(a.image.is_empty());
    assert!(a.listing.is_empty());
}
