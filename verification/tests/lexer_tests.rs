use ibc_pseudocode::lexer::{LexError, Lexer, Token, TokenInfo};

fn next(lexer: &mut Lexer) -> TokenInfo {
    match lexer.get_next_token() {
        Ok(info) => info,
        Err(error) => panic!("unexpected lexical error: {:?}", error),
    }
}

fn tokens_of(source: &str) -> Vec<Token> {
    let mut lexer = Lexer::new(source);
    let mut tokens = Vec::new();
    loop {
        let info = next(&mut lexer);
        let done = info.token == Token::Eof;
        tokens.push(info.token);
        if done {
            return tokens;
        }
    }
}

#[test]
fn empty_input_is_eof_at_the_start() {
    let mut lexer = Lexer::new("");
    let info = next(&mut lexer);
    assert_eq!(info.token, Token::Eof);
    assert_eq!(info.line, 1);
    assert_eq!(info.column, 0);
}

#[test]
fn eof_is_given_forever() {
    let mut lexer = Lexer::new("x  ");
    assert_eq!(next(&mut lexer).token, Token::Identifier("x".to_string()));
    for _ in 0..5 {
        let info = next(&mut lexer);
        assert_eq!(info.token, Token::Eof);
        assert_eq!(info.line, 1);
        assert_eq!(info.column, 3);
    }
}

#[test]
fn assignment_tokens_with_positions() {
    let mut lexer = Lexer::new("x = 5");
    let name = next(&mut lexer);
    assert_eq!(name.token, Token::Identifier("x".to_string()));
    assert_eq!((name.line, name.column), (1, 1));
    let sign = next(&mut lexer);
    assert_eq!(sign.token, Token::Assign);
    assert_eq!((sign.line, sign.column), (1, 3));
    let value = next(&mut lexer);
    assert_eq!(value.token, Token::Number(5));
    assert_eq!((value.line, value.column), (1, 5));
    let end = next(&mut lexer);
    assert_eq!(end.token, Token::Eof);
    assert_eq!((end.line, end.column), (1, 5));
}

#[test]
fn newline_counts_a_line_and_resets_the_column() {
    let mut lexer = Lexer::new("a\n\n  bc\r\n\td");
    let a = next(&mut lexer);
    assert_eq!((a.line, a.column), (1, 1));
    let bc = next(&mut lexer);
    assert_eq!(bc.token, Token::Identifier("bc".to_string()));
    assert_eq!((bc.line, bc.column), (3, 4));
    let d = next(&mut lexer);
    assert_eq!(d.token, Token::Identifier("d".to_string()));
    assert_eq!((d.line, d.column), (4, 2));
}

#[test]
fn every_keyword_has_its_token() {
    assert_eq!(
        tokens_of("output if then else endif loop endloop while and or not mod div"),
        vec![
            Token::Output,
            Token::If,
            Token::Then,
            Token::Else,
            Token::EndIf,
            Token::Loop,
            Token::EndLoop,
            Token::While,
            Token::And,
            Token::Or,
            Token::Not,
            Token::Mod,
            Token::Div,
            Token::Eof,
        ]
    );
}

#[test]
fn keywords_are_case_sensitive_and_whole_words() {
    assert_eq!(
        tokens_of("Output iff endifx IF"),
        vec![
            Token::Identifier("Output".to_string()),
            Token::Identifier("iff".to_string()),
            Token::Identifier("endifx".to_string()),
            Token::Identifier("IF".to_string()),
            Token::Eof,
        ]
    );
}

#[test]
fn punctuation_and_operators() {
    assert_eq!(
        tokens_of("= + - * / ( ) , > >= < <= !="),
        vec![
            Token::Assign,
            Token::Plus,
            Token::Minus,
            Token::Star,
            Token::Slash,
            Token::LParen,
            Token::RParen,
            Token::Comma,
            Token::GreaterThan,
            Token::GreaterThanOrEqual,
            Token::LessThan,
            Token::LessThanOrEqual,
            Token::NotEqual,
            Token::Eof,
        ]
    );
}

#[test]
fn operators_need_no_blanks_between_them() {
    assert_eq!(
        tokens_of("a>=b<c>d<=e!=f==g"),
        vec![
            Token::Identifier("a".to_string()),
            Token::GreaterThanOrEqual,
            Token::Identifier("b".to_string()),
            Token::LessThan,
            Token::Identifier("c".to_string()),
            Token::GreaterThan,
            Token::Identifier("d".to_string()),
            Token::LessThanOrEqual,
            Token::Identifier("e".to_string()),
            Token::NotEqual,
            Token::Identifier("f".to_string()),
            Token::Assign,
            Token::Assign,
            Token::Identifier("g".to_string()),
            Token::Eof,
        ]
    );
}

#[test]
fn greater_than_at_the_end_of_input() {
    assert_eq!(tokens_of("<"), vec![Token::LessThan, Token::Eof]);
    assert_eq!(tokens_of(">"), vec![Token::GreaterThan, Token::Eof]);
}

#[test]
fn bare_exclamation_mark_is_an_error() {
    let mut lexer = Lexer::new("a ! b");
    assert_eq!(next(&mut lexer).token, Token::Identifier("a".to_string()));
    assert_eq!(lexer.get_next_token().unwrap_err(), LexError::UnexpectedCharacter('!'));
}

#[test]
fn exclamation_mark_at_the_end_is_an_error() {
    let mut lexer = Lexer::new("!");
    assert_eq!(lexer.get_next_token().unwrap_err(), LexError::UnexpectedCharacter('!'));
}

#[test]
fn unknown_character_is_an_error() {
    let mut lexer = Lexer::new("  @");
    assert_eq!(lexer.get_next_token().unwrap_err(), LexError::UnexpectedCharacter('@'));
    let mut lexer = Lexer::new("_x");
    assert_eq!(lexer.get_next_token().unwrap_err(), LexError::UnexpectedCharacter('_'));
}

#[test]
fn string_literal_is_taken_as_written() {
    let mut lexer = Lexer::new("output \"hello, world\\n\" 1");
    assert_eq!(next(&mut lexer).token, Token::Output);
    let text = next(&mut lexer);
    assert_eq!(text.token, Token::String("hello, world\\n".to_string()));
    assert_eq!((text.line, text.column), (1, 23));
    assert_eq!(next(&mut lexer).token, Token::Number(1));
}

#[test]
fn empty_string_literal() {
    assert_eq!(tokens_of("\"\""), vec![Token::String(String::new()), Token::Eof]);
}

#[test]
fn string_literal_may_span_lines() {
    let mut lexer = Lexer::new("\"a\nb\" c");
    let text = next(&mut lexer);
    assert_eq!(text.token, Token::String("a\nb".to_string()));
    assert_eq!((text.line, text.column), (2, 2));
}

#[test]
fn unterminated_string_runs_to_the_end() {
    let mut lexer = Lexer::new("\"abc def");
    let text = next(&mut lexer);
    assert_eq!(text.token, Token::String("abc def".to_string()));
    assert_eq!((text.line, text.column), (1, 8));
    assert_eq!(next(&mut lexer).token, Token::Eof);
}

#[test]
fn numbers_are_read_by_value() {
    assert_eq!(
        tokens_of("0 7 42 007 9223372036854775807"),
        vec![
            Token::Number(0),
            Token::Number(7),
            Token::Number(42),
            Token::Number(7),
            Token::Number(i64::MAX),
            Token::Eof,
        ]
    );
}

#[test]
fn number_beyond_64_bits_is_an_error() {
    let mut lexer = Lexer::new("9223372036854775808");
    assert_eq!(lexer.get_next_token().unwrap_err(), LexError::NumberTooLarge);
    let mut lexer = Lexer::new("x = 123456789012345678901234567890");
    assert_eq!(next(&mut lexer).token, Token::Identifier("x".to_string()));
    assert_eq!(next(&mut lexer).token, Token::Assign);
    assert_eq!(lexer.get_next_token().unwrap_err(), LexError::NumberTooLarge);
}

#[test]
fn minus_is_never_part_of_a_number() {
    assert_eq!(tokens_of("-5"), vec![Token::Minus, Token::Number(5), Token::Eof]);
}

#[test]
fn digits_end_a_number_and_letters_start_a_word() {
    assert_eq!(
        tokens_of("123abc abc123"),
        vec![
            Token::Number(123),
            Token::Identifier("abc".to_string()),
            Token::Identifier("abc123".to_string()),
            Token::Eof,
        ]
    );
}

#[test]
fn letters_of_other_scripts_make_identifiers() {
    assert_eq!(
        tokens_of("été = ß2"),
        vec![
            Token::Identifier("été".to_string()),
            Token::Assign,
            Token::Identifier("ß2".to_string()),
            Token::Eof,
        ]
    );
}

#[test]
fn tokens_compare_by_kind_and_content() {
    assert_eq!(Token::Identifier("a".to_string()), Token::Identifier("a".to_string()));
    assert_ne!(Token::Identifier("a".to_string()), Token::Identifier("b".to_string()));
    assert_ne!(Token::Identifier("a".to_string()), Token::String("a".to_string()));
    assert_ne!(Token::Number(1), Token::Number(2));
    assert_eq!(Token::Number(3), Token::Number(3));
    assert_ne!(Token::Plus, Token::Minus);
    assert_eq!(Token::Eof.clone(), Token::Eof);
    assert_eq!(Token::String("s".to_string()).clone(), Token::String("s".to_string()));
}
