use regvm::assembler::token::{is_digit, is_letter, is_whitespace, Lexer, Token, END, REGISTER, VALUE};
use regvm::instructions::Opcode;

fn tokens(text: &str) -> Vec<Token> {
    let text = text.to_string();
    let mut lexer = Lexer::new(&text);
    let mut found = Vec::new();
    loop {
        let token = lexer.next_token();
        found.push(token);
        if token == Token::EOF {
            break;
        }
        assert!(found.len() <= text.chars().count() + 1);
    }
    assert_eq!(lexer.next_token(), Token::EOF);
    assert_eq!(lexer.next(), None);
    found
}

#[test]
fn test_lex_load_instruction() {
    assert_eq!(
        tokens("load $0 #500"),
        vec![Token::Operator(Opcode::LOAD), Token::Register(0), Token::Integer(500), Token::EOF]
    );
}

#[test]
fn test_lex_without_blanks() {
    assert_eq!(
        tokens("add$1$22$3#4hlt"),
        vec![
            Token::Operator(Opcode::ADD),
            Token::Register(1),
            Token::Register(22),
            Token::Register(3),
            Token::Integer(4),
            Token::Operator(Opcode::HLT),
            Token::EOF
        ]
    );
}

#[test]
fn test_lex_skips_blanks() {
    assert_eq!(tokens(""), vec![Token::EOF]);
    assert_eq!(tokens(" \t\r\n"), vec![Token::EOF]);
    assert_eq!(
        tokens(" \t hlt \r\n\n  $3\t"),
        vec![Token::Operator(Opcode::HLT), Token::Register(3), Token::EOF]
    );
}

#[test]
fn test_lex_every_mnemonic() {
    assert_eq!(
        tokens("hlt load add sub mul div jmp jmpf jmpb eq neq gt lt gteq lteq jeq"),
        vec![
            Token::Operator(Opcode::HLT),
            Token::Operator(Opcode::LOAD),
            Token::Operator(Opcode::ADD),
            Token::Operator(Opcode::SUB),
            Token::Operator(Opcode::MUL),
            Token::Operator(Opcode::DIV),
            Token::Operator(Opcode::JMP),
            Token::Operator(Opcode::JMPF),
            Token::Operator(Opcode::JMPB),
            Token::Operator(Opcode::EQ),
            Token::Operator(Opcode::NEQ),
            Token::Operator(Opcode::GT),
            Token::Operator(Opcode::LT),
            Token::Operator(Opcode::GTEQ),
            Token::Operator(Opcode::LTEQ),
            Token::Operator(Opcode::JEQ),
            Token::EOF
        ]
    );
}

#[test]
fn test_lex_unknown_words_are_illegal() {
    let illegal = Token::Operator(Opcode::ILGL);
    assert_eq!(tokens("alloc ilgl LOAD hlt_ _ x"), vec![illegal, illegal, illegal, illegal, illegal, illegal, Token::EOF]);
}

#[test]
fn test_lex_other_characters_are_illegal_one_by_one() {
    let illegal = Token::Operator(Opcode::ILGL);
    assert_eq!(tokens("?"), vec![illegal, Token::EOF]);
    assert_eq!(tokens("12"), vec![illegal, illegal, Token::EOF]);
    assert_eq!(tokens("-5"), vec![illegal, illegal, Token::EOF]);
    assert_eq!(tokens("é,\u{b}"), vec![illegal, illegal, illegal, Token::EOF]);
    assert_eq!(tokens("$1;hlt"), vec![Token::Register(1), illegal, Token::Operator(Opcode::HLT), Token::EOF]);
}

#[test]
fn test_lex_register_values() {
    assert_eq!(tokens("$0"), vec![Token::Register(0), Token::EOF]);
    assert_eq!(tokens("$31"), vec![Token::Register(31), Token::EOF]);
    assert_eq!(tokens("$255"), vec![Token::Register(255), Token::EOF]);
    assert_eq!(tokens("$007"), vec![Token::Register(7), Token::EOF]);
    assert_eq!(tokens("$0000000000000000000000255"), vec![Token::Register(255), Token::EOF]);
    assert_eq!(tokens("$256"), vec![Token::Register(0), Token::EOF]);
    assert_eq!(tokens("$99999999999999999999999"), vec![Token::Register(0), Token::EOF]);
    assert_eq!(tokens("$"), vec![Token::Register(0), Token::EOF]);
    assert_eq!(tokens("$ 5"), vec![Token::Register(0), Token::Operator(Opcode::ILGL), Token::EOF]);
    assert_eq!(tokens("$$1"), vec![Token::Register(0), Token::Register(1), Token::EOF]);
}

#[test]
fn test_lex_integer_values() {
    assert_eq!(tokens("#0"), vec![Token::Integer(0), Token::EOF]);
    assert_eq!(tokens("#500"), vec![Token::Integer(500), Token::EOF]);
    assert_eq!(tokens("#65535"), vec![Token::Integer(65535), Token::EOF]);
    assert_eq!(tokens("#2147483647"), vec![Token::Integer(i32::MAX), Token::EOF]);
    assert_eq!(tokens("#02147483647"), vec![Token::Integer(i32::MAX), Token::EOF]);
    assert_eq!(tokens("#2147483648"), vec![Token::Integer(0), Token::EOF]);
    assert_eq!(tokens("#4294967296"), vec![Token::Integer(0), Token::EOF]);
    assert_eq!(tokens("#18446744073709551616"), vec![Token::Integer(0), Token::EOF]);
    assert_eq!(tokens("#"), vec![Token::Integer(0), Token::EOF]);
    assert_eq!(tokens("#-1"), vec![Token::Integer(0), Token::Operator(Opcode::ILGL), Token::Operator(Opcode::ILGL), Token::EOF]);
}

#[test]
fn test_lex_values_agree_with_parse() {
    for digits in ["0", "1", "9", "10", "31", "32", "99", "100", "199", "249", "250", "255", "256", "260", "999", "0255", "2550", "32767", "32768", "65535", "65536", "999999999", "2147483639", "2147483640", "2147483647", "2147483648", "2147483650", "3000000000", "9999999999"] {
        let register: u8 = digits.parse().unwrap_or(0);
        let integer: i32 = digits.parse().unwrap_or(0);
        assert_eq!(tokens(&format!("${}", digits)), vec![Token::Register(register), Token::EOF]);
        assert_eq!(tokens(&format!("#{}", digits)), vec![Token::Integer(integer), Token::EOF]);
    }
}

#[test]
fn test_lex_ends_at_end_character() {
    assert_eq!(tokens("hlt\0load"), vec![Token::Operator(Opcode::HLT), Token::EOF]);
    assert_eq!(tokens("\0"), vec![Token::EOF]);
    assert_eq!(tokens("$1\0"), vec![Token::Register(1), Token::EOF]);
}

#[test]
fn test_next_gives_none_at_the_end() {
    let text = "sub $9".to_string();
    let mut lexer = Lexer::new(&text);
    assert_eq!(lexer.next(), Some(Token::Operator(Opcode::SUB)));
    assert_eq!(lexer.next(), Some(Token::Register(9)));
    assert_eq!(lexer.next(), None);
    assert_eq!(lexer.next(), None);
}

#[test]
fn test_clone_reads_on_from_the_same_place() {
    let text = "mul $1 $2".to_string();
    let mut lexer = Lexer::new(&text);
    assert_eq!(lexer.next_token(), Token::Operator(Opcode::MUL));
    let mut copy = lexer.clone();
    assert_eq!(lexer.next_token(), Token::Register(1));
    assert_eq!(copy.next_token(), Token::Register(1));
    assert_eq!(copy.next_token(), Token::Register(2));
    assert_eq!(lexer.next_token(), Token::Register(2));
}

#[test]
fn test_token_from_word() {
    assert_eq!(Token::from("jmpb"), Token::Operator(Opcode::JMPB));
    assert_eq!(Token::from("$1"), Token::Operator(Opcode::ILGL));
}

#[test]
fn test_character_classes() {
    for code in 0..=0x10FFFFu32 {
        if let Some(ch) = char::from_u32(code) {
            assert_eq!(is_letter(ch), ch.is_ascii_alphabetic() || ch == '_');
            assert_eq!(is_digit(ch), ch.is_ascii_digit());
            assert_eq!(is_whitespace(ch), ch == ' ' || ch == '\t' || ch == '\n' || ch == '\r');
        }
    }
    assert_eq!(REGISTER, '$');
    assert_eq!(VALUE, '#');
    assert_eq!(END, '\0');
}
