use ibc_pseudocode::decimal::decimal_string;
use ibc_pseudocode::interpreter::Interpreter;
use ibc_pseudocode::lexer::{Lexer, Token};
use ibc_pseudocode::program::{parse_source, run_source};

#[test]
fn larger_loop_limit_changes_nothing_for_a_run_within_the_smaller_one() {
    let source = "i = 0 loop while i < 3 j = 0 loop while j < 3 output i + j j = j + 1 endloop \
                  i = i + 1 endloop output i / 0";
    let smallest = run_source(source, 3);
    assert_eq!(smallest.output.len(), 9);
    for limit in [4, 5, 1000, u64::MAX] {
        let larger = run_source(source, limit);
        assert_eq!(larger.output, smallest.output);
        assert_eq!(format!("{:?}", larger.failure), format!("{:?}", smallest.failure));
    }
}

#[test]
fn earlier_output_stays_in_front() {
    let first = match parse_source("output 1 x = 2") {
        Ok(tree) => tree,
        Err(error) => panic!("unexpected parse error: {:?}", error),
    };
    let second = match parse_source("output x output y output 3") {
        Ok(tree) => tree,
        Err(error) => panic!("unexpected parse error: {:?}", error),
    };
    let mut interpreter = Interpreter::new();
    assert!(interpreter.interpret(&first).is_ok());
    assert!(interpreter.interpret(&second).is_err());
    assert_eq!(interpreter.output(), &vec!["1".to_string(), "2".to_string()]);
}

#[test]
fn printed_number_is_read_back() {
    for value in [0, 1, 9, 10, 99, 100, 12345, 9_007_199_254_740_993, i64::MAX] {
        let text = decimal_string(value);
        let mut lexer = Lexer::new(&text);
        match lexer.get_next_token() {
            Ok(info) => {
                assert_eq!(info.token, Token::Number(value));
                assert_eq!((info.line, info.column), (1, text.len()));
            }
            Err(error) => panic!("unexpected lexical error: {:?}", error),
        }
        match lexer.get_next_token() {
            Ok(info) => assert_eq!(info.token, Token::Eof),
            Err(error) => panic!("unexpected lexical error: {:?}", error),
        }
    }
}

#[test]
fn stream_ends_once() {
    for source in ["", "a b c", "a ! b", "1 2 99999999999999999999 3", "\"open"] {
        let mut lexer = Lexer::new(source);
        let mut ended = false;
        for _ in 0..10 {
            match lexer.get_next_token() {
                Ok(info) => {
                    if ended {
                        assert_eq!(info.token, Token::Eof);
                    }
                    if info.token == Token::Eof {
                        ended = true;
                    }
                }
                Err(_) => break,
            }
        }
    }
}

#[test]
fn parsed_programs_without_div_fail_for_no_internal_reason() {
    let sources = [
        "x = 1 + 2 * 3 - 4 / 5 mod 6 output x",
        "if 1 = 1 and 2 != 3 or 4 < 5 then output 1 else output 2 endif",
        "x = 3 loop while x >= 1 if x <= 2 then output x endif x = x - 1 endloop",
        "output \"text\" output (1 + (2 * (3)))",
        "output y",
        "output 1 / 0",
        "x = \"a\" + 1",
        "loop while 1 endloop",
        "if 2 > 1 > 0 then output 9223372036854775807 + 1 endif",
    ];
    for source in sources {
        let report = run_source(source, 5);
        let failure = format!("{:?}", report.failure);
        assert!(!failure.contains("Syntax"), "{:?} should parse", source);
        assert!(!failure.contains("Unknown"), "{:?} gave {}", source, failure);
    }
    let report = run_source("output 7 div 2", 5);
    assert!(format!("{:?}", report.failure).contains("UnknownOperator"));
}
