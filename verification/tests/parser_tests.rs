use ibc_pseudocode::ast::AstNode;
use ibc_pseudocode::lexer::{LexError, Lexer, Token};
use ibc_pseudocode::parser::{ParseError, Parser};

fn parse(source: &str) -> Result<AstNode, ParseError> {
    let mut parser = Parser::new(Lexer::new(source));
    parser.parse()
}

fn tree(source: &str) -> String {
    match parse(source) {
        Ok(node) => format!("{:?}", node),
        Err(error) => panic!("unexpected parse error: {:?}", error),
    }
}

fn error(source: &str) -> ParseError {
    match parse(source) {
        Ok(node) => panic!("unexpected success: {:?}", node),
        Err(error) => error,
    }
}

#[test]
fn empty_program() {
    assert_eq!(tree(""), "Program([])");
    assert_eq!(tree(" \n\t "), "Program([])");
}

#[test]
fn assignment_of_a_number() {
    assert_eq!(tree("x = 5"), "Program([Assignment(\"x\", Number(5))])");
}

#[test]
fn multiplication_binds_tighter_than_addition() {
    assert_eq!(
        tree("x = 2 + 3 * 4"),
        "Program([Assignment(\"x\", BinOp(Number(2), Plus, BinOp(Number(3), Star, Number(4))))])"
    );
}

#[test]
fn subtraction_associates_to_the_left() {
    assert_eq!(
        tree("output 10 - 3 - 2"),
        "Program([Output(BinOp(BinOp(Number(10), Minus, Number(3)), Minus, Number(2)))])"
    );
}

#[test]
fn term_operators_associate_to_the_left() {
    assert_eq!(
        tree("output a * b / c mod d div e"),
        "Program([Output(BinOp(BinOp(BinOp(BinOp(Identifier(\"a\"), Star, Identifier(\"b\")), Slash, \
         Identifier(\"c\")), Mod, Identifier(\"d\")), Div, Identifier(\"e\")))])"
    );
}

#[test]
fn parentheses_override_precedence() {
    assert_eq!(
        tree("x = (2 + 3) * 4"),
        "Program([Assignment(\"x\", BinOp(BinOp(Number(2), Plus, Number(3)), Star, Number(4)))])"
    );
}

#[test]
fn output_of_a_string_literal() {
    assert_eq!(tree("output \"hello\""), "Program([Output(String(\"hello\"))])");
}

#[test]
fn if_without_else_has_an_empty_false_branch() {
    assert_eq!(
        tree("if x > 1 then output x endif"),
        "Program([If(BinOp(Identifier(\"x\"), GreaterThan, Number(1)), [Output(Identifier(\"x\"))], [])])"
    );
}

#[test]
fn if_with_else() {
    assert_eq!(
        tree("if x = 5 then output 1 else output 0 endif"),
        "Program([If(BinOp(Identifier(\"x\"), Assign, Number(5)), [Output(Number(1))], [Output(Number(0))])])"
    );
}

#[test]
fn if_with_empty_branches() {
    assert_eq!(tree("if 1 then else endif"), "Program([If(Number(1), [], [])])");
    assert_eq!(tree("if 1 then endif"), "Program([If(Number(1), [], [])])");
}

#[test]
fn condition_chain_associates_to_the_left() {
    assert_eq!(
        tree("if a < b and c != d or e then endif"),
        "Program([If(BinOp(BinOp(BinOp(BinOp(Identifier(\"a\"), LessThan, Identifier(\"b\")), And, \
         Identifier(\"c\")), NotEqual, Identifier(\"d\")), Or, Identifier(\"e\")), [], [])])"
    );
}

#[test]
fn arithmetic_binds_tighter_than_comparison() {
    assert_eq!(
        tree("if a + 1 >= b * 2 then endif"),
        "Program([If(BinOp(BinOp(Identifier(\"a\"), Plus, Number(1)), GreaterThanOrEqual, \
         BinOp(Identifier(\"b\"), Star, Number(2))), [], [])])"
    );
}

#[test]
fn loop_with_a_body() {
    assert_eq!(
        tree("loop while x > 0 x = x - 1 endloop"),
        "Program([Loop(BinOp(Identifier(\"x\"), GreaterThan, Number(0)), \
         [Assignment(\"x\", BinOp(Identifier(\"x\"), Minus, Number(1)))])])"
    );
}

#[test]
fn nested_statements() {
    assert_eq!(
        tree("loop while a if b then loop while c endloop else x = 1 endif output a endloop output 2"),
        "Program([Loop(Identifier(\"a\"), [If(Identifier(\"b\"), [Loop(Identifier(\"c\"), [])], \
         [Assignment(\"x\", Number(1))]), Output(Identifier(\"a\"))]), Output(Number(2))])"
    );
}

#[test]
fn statements_follow_each_other_without_separators() {
    assert_eq!(
        tree("a = 1 b = 2\noutput a"),
        "Program([Assignment(\"a\", Number(1)), Assignment(\"b\", Number(2)), Output(Identifier(\"a\"))])"
    );
}

#[test]
fn assignment_without_equals_sign() {
    match error("x 5") {
        ParseError::Expected { expected, found } => {
            assert_eq!(expected, Token::Assign);
            assert_eq!(found.token, Token::Number(5));
            assert_eq!((found.line, found.column), (1, 3));
        }
        other => panic!("wrong error: {:?}", other),
    }
}

#[test]
fn equals_sign_is_no_operator_outside_a_condition() {
    match error("x = 1 = 2") {
        ParseError::Unexpected { found } => {
            assert_eq!(found.token, Token::Assign);
            assert_eq!((found.line, found.column), (1, 7));
        }
        other => panic!("wrong error: {:?}", other),
    }
}

#[test]
fn equals_sign_is_no_operator_inside_parentheses() {
    match error("if (x = 5) then endif") {
        ParseError::Expected { expected, found } => {
            assert_eq!(expected, Token::RParen);
            assert_eq!(found.token, Token::Assign);
        }
        other => panic!("wrong error: {:?}", other),
    }
}

#[test]
fn output_without_an_expression() {
    match error("output") {
        ParseError::Unexpected { found } => {
            assert_eq!(found.token, Token::Eof);
            assert_eq!((found.line, found.column), (1, 6));
        }
        other => panic!("wrong error: {:?}", other),
    }
}

#[test]
fn statement_cannot_start_with_a_number() {
    match error("a = 1\n2 = a") {
        ParseError::Unexpected { found } => {
            assert_eq!(found.token, Token::Number(2));
            assert_eq!((found.line, found.column), (2, 1));
        }
        other => panic!("wrong error: {:?}", other),
    }
}

#[test]
fn if_without_then() {
    match error("if x = 1 output 1 endif") {
        ParseError::Expected { expected, found } => {
            assert_eq!(expected, Token::Then);
            assert_eq!(found.token, Token::Output);
        }
        other => panic!("wrong error: {:?}", other),
    }
}

#[test]
fn if_without_endif() {
    match error("if x then output 1") {
        ParseError::Unexpected { found } => assert_eq!(found.token, Token::Eof),
        other => panic!("wrong error: {:?}", other),
    }
}

#[test]
fn second_else_is_refused() {
    match error("if x then else else endif") {
        ParseError::Unexpected { found } => assert_eq!(found.token, Token::Else),
        other => panic!("wrong error: {:?}", other),
    }
}

#[test]
fn loop_without_while() {
    match error("loop x > 0 endloop") {
        ParseError::Expected { expected, found } => {
            assert_eq!(expected, Token::While);
            assert_eq!(found.token, Token::Identifier("x".to_string()));
        }
        other => panic!("wrong error: {:?}", other),
    }
}

#[test]
fn loop_without_endloop() {
    match error("loop while x x = 1 endif") {
        ParseError::Unexpected { found } => assert_eq!(found.token, Token::EndIf),
        other => panic!("wrong error: {:?}", other),
    }
}

#[test]
fn missing_closing_parenthesis() {
    match error("x = (1 + 2") {
        ParseError::Expected { expected, found } => {
            assert_eq!(expected, Token::RParen);
            assert_eq!(found.token, Token::Eof);
        }
        other => panic!("wrong error: {:?}", other),
    }
}

#[test]
fn keyword_where_an_operand_is_due() {
    match error("x = 1 + then") {
        ParseError::Unexpected { found } => assert_eq!(found.token, Token::Then),
        other => panic!("wrong error: {:?}", other),
    }
    match error("x = not 1") {
        ParseError::Unexpected { found } => assert_eq!(found.token, Token::Not),
        other => panic!("wrong error: {:?}", other),
    }
}

#[test]
fn lexical_error_stops_the_parser_where_the_token_was_due() {
    match error("x = 1 @ 2") {
        ParseError::Lexical(lexical) => assert_eq!(lexical, LexError::UnexpectedCharacter('@')),
        other => panic!("wrong error: {:?}", other),
    }
    match error("!") {
        ParseError::Lexical(lexical) => assert_eq!(lexical, LexError::UnexpectedCharacter('!')),
        other => panic!("wrong error: {:?}", other),
    }
    match error("x = 99999999999999999999") {
        ParseError::Lexical(lexical) => assert_eq!(lexical, LexError::NumberTooLarge),
        other => panic!("wrong error: {:?}", other),
    }
}

#[test]
fn syntax_error_comes_before_a_later_lexical_error() {
    match error("x = 1 ) @") {
        ParseError::Unexpected { found } => assert_eq!(found.token, Token::RParen),
        other => panic!("wrong error: {:?}", other),
    }
}

#[test]
fn parser_starts_where_the_lexer_stands() {
    let mut lexer = Lexer::new("x = 1 output 2");
    for _ in 0..3 {
        assert!(lexer.get_next_token().is_ok());
    }
    let mut parser = Parser::new(lexer);
    match parser.parse() {
        Ok(node) => assert_eq!(format!("{:?}", node), "Program([Output(Number(2))])"),
        Err(error) => panic!("unexpected parse error: {:?}", error),
    }
}

#[test]
fn parsing_again_after_the_end_gives_an_empty_program() {
    let mut parser = Parser::new(Lexer::new("x = 1"));
    assert!(parser.parse().is_ok());
    match parser.parse() {
        Ok(node) => assert_eq!(format!("{:?}", node), "Program([])"),
        Err(error) => panic!("unexpected parse error: {:?}", error),
    }
}
