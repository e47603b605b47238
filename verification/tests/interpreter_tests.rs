use ibc_pseudocode::ast::AstNode;
use ibc_pseudocode::interpreter::{apply_operator, Interpreter};
use ibc_pseudocode::lexer::{Lexer, Token};
use ibc_pseudocode::parser::Parser;
use ibc_pseudocode::semantics::RuntimeError;

fn parse(source: &str) -> AstNode {
    let mut parser = Parser::new(Lexer::new(source));
    match parser.parse() {
        Ok(node) => node,
        Err(error) => panic!("unexpected parse error: {:?}", error),
    }
}

fn run(source: &str) -> (Vec<String>, Result<(), RuntimeError>) {
    let tree = parse(source);
    let mut interpreter = Interpreter::new();
    let result = interpreter.interpret(&tree);
    (interpreter.into_output(), result)
}

fn lines(source: &str) -> Vec<String> {
    let (output, result) = run(source);
    assert_eq!(result, Ok(()));
    output
}

fn number(value: i64) -> Box<AstNode> {
    Box::new(AstNode::Number(value))
}

#[test]
fn subtraction_is_left_associative() {
    assert_eq!(lines("output 10 - 3 - 2"), vec!["5"]);
}

#[test]
fn multiplication_comes_before_addition() {
    assert_eq!(lines("output 2 + 3 * 4"), vec!["14"]);
}

#[test]
fn division_truncates() {
    assert_eq!(lines("a = 7\nb = 2\noutput a / b"), vec!["3"]);
}

#[test]
fn division_truncates_towards_zero_for_negative_operands() {
    assert_eq!(lines("output (0 - 7) / 2"), vec!["-3"]);
    assert_eq!(lines("output 7 / (0 - 2)"), vec!["-3"]);
    assert_eq!(lines("output (0 - 7) / (0 - 2)"), vec!["3"]);
}

#[test]
fn remainder_has_the_sign_of_the_dividend() {
    assert_eq!(lines("output 7 mod 3"), vec!["1"]);
    assert_eq!(lines("output (0 - 7) mod 3"), vec!["-1"]);
    assert_eq!(lines("output 7 mod (0 - 3)"), vec!["1"]);
    assert_eq!(lines("output (0 - 7) mod (0 - 3)"), vec!["-1"]);
}

#[test]
fn equals_sign_compares_inside_a_condition() {
    assert_eq!(lines("x = 5\nif x = 5 then output 1 else output 0 endif"), vec!["1"]);
    assert_eq!(lines("x = 4\nif x = 5 then output 1 else output 0 endif"), vec!["0"]);
}

#[test]
fn loop_ends_and_its_assignments_stay_visible() {
    assert_eq!(lines("x = 10\nloop while x > 0 x = x - 1 endloop\noutput x"), vec!["0"]);
}

#[test]
fn variable_first_assigned_in_a_branch_is_visible_afterwards() {
    assert_eq!(lines("if 1 then y = 7 endif output y"), vec!["7"]);
}

#[test]
fn string_literal_is_put_out_unchanged() {
    let tree = parse("output \"hello\"");
    let mut interpreter = Interpreter::new();
    assert_eq!(interpreter.interpret(&tree), Ok(()));
    assert_eq!(interpreter.output(), &vec!["hello".to_string()]);
    assert_eq!(interpreter.variable("hello"), None);
}

#[test]
fn string_literal_keeps_blanks_and_backslashes() {
    assert_eq!(lines("output \"  a\\n b  \""), vec!["  a\\n b  "]);
    assert_eq!(lines("output \"\""), vec![""]);
}

#[test]
fn undefined_variable_stops_the_run_without_output() {
    let (output, result) = run("output y");
    assert_eq!(result, Err(RuntimeError::UndefinedVariable));
    assert!(output.is_empty());
}

#[test]
fn division_by_zero_stops_the_run() {
    let (output, result) = run("a = 1\nb = 0\noutput a / b\noutput 5");
    assert_eq!(result, Err(RuntimeError::DivisionByZero));
    assert!(output.is_empty());
}

#[test]
fn remainder_by_zero_stops_the_run() {
    let (output, result) = run("output 1 output 1 mod 0 output 2");
    assert_eq!(result, Err(RuntimeError::DivisionByZero));
    assert_eq!(output, vec!["1"]);
}

#[test]
fn output_before_an_error_stays() {
    let (output, result) = run("output 1\noutput 2\noutput z\noutput 3");
    assert_eq!(result, Err(RuntimeError::UndefinedVariable));
    assert_eq!(output, vec!["1", "2"]);
}

#[test]
fn and_evaluates_its_right_operand_even_when_the_left_is_false() {
    let (_, result) = run("if 0 and (1 / 0) then output 1 endif");
    assert_eq!(result, Err(RuntimeError::DivisionByZero));
    let (_, result) = run("if 0 and y then output 1 endif");
    assert_eq!(result, Err(RuntimeError::UndefinedVariable));
}

#[test]
fn or_evaluates_its_right_operand_even_when_the_left_is_true() {
    let (_, result) = run("if 1 or (1 / 0) then output 1 endif");
    assert_eq!(result, Err(RuntimeError::DivisionByZero));
    let (_, result) = run("if 1 or y then output 1 endif");
    assert_eq!(result, Err(RuntimeError::UndefinedVariable));
}

#[test]
fn left_operand_fails_before_the_right_one() {
    let (_, result) = run("output y + 1 / 0");
    assert_eq!(result, Err(RuntimeError::UndefinedVariable));
    let (_, result) = run("output 1 / 0 + y");
    assert_eq!(result, Err(RuntimeError::DivisionByZero));
}

#[test]
fn connectives_give_one_or_zero() {
    assert_eq!(
        lines(
            "if 2 and 3 then output 1 else output 0 endif \
             if 2 and 0 then output 1 else output 0 endif \
             if 0 or 0 then output 1 else output 0 endif \
             if 0 or 5 then output 1 else output 0 endif"
        ),
        vec!["1", "0", "0", "1"]
    );
    assert_eq!(apply_operator(&Token::And, false, 7, -7), Ok(1));
    assert_eq!(apply_operator(&Token::And, false, 0, 7), Ok(0));
    assert_eq!(apply_operator(&Token::Or, false, 0, 0), Ok(0));
    assert_eq!(apply_operator(&Token::Or, false, 0, -1), Ok(1));
}

#[test]
fn comparisons_give_one_or_zero() {
    assert_eq!(apply_operator(&Token::NotEqual, false, 1, 2), Ok(1));
    assert_eq!(apply_operator(&Token::NotEqual, false, 2, 2), Ok(0));
    assert_eq!(apply_operator(&Token::GreaterThan, false, 3, 2), Ok(1));
    assert_eq!(apply_operator(&Token::GreaterThan, false, 2, 2), Ok(0));
    assert_eq!(apply_operator(&Token::GreaterThanOrEqual, false, 2, 2), Ok(1));
    assert_eq!(apply_operator(&Token::GreaterThanOrEqual, false, 1, 2), Ok(0));
    assert_eq!(apply_operator(&Token::LessThan, false, -3, 2), Ok(1));
    assert_eq!(apply_operator(&Token::LessThan, false, 2, 2), Ok(0));
    assert_eq!(apply_operator(&Token::LessThanOrEqual, false, 2, 2), Ok(1));
    assert_eq!(apply_operator(&Token::LessThanOrEqual, false, 3, 2), Ok(0));
    assert_eq!(apply_operator(&Token::Assign, true, 2, 2), Ok(1));
    assert_eq!(apply_operator(&Token::Assign, true, 2, 3), Ok(0));
}

#[test]
fn arithmetic_on_known_values() {
    assert_eq!(apply_operator(&Token::Plus, false, 2, 3), Ok(5));
    assert_eq!(apply_operator(&Token::Minus, false, 2, 3), Ok(-1));
    assert_eq!(apply_operator(&Token::Star, false, -2, 3), Ok(-6));
    assert_eq!(apply_operator(&Token::Slash, false, -9, 2), Ok(-4));
    assert_eq!(apply_operator(&Token::Mod, false, -9, 2), Ok(-1));
    assert_eq!(apply_operator(&Token::Slash, false, 9, 0), Err(RuntimeError::DivisionByZero));
    assert_eq!(apply_operator(&Token::Mod, false, 9, 0), Err(RuntimeError::DivisionByZero));
}

#[test]
fn results_outside_64_bits_are_errors() {
    assert_eq!(apply_operator(&Token::Plus, false, i64::MAX, 1), Err(RuntimeError::Overflow));
    assert_eq!(apply_operator(&Token::Minus, false, i64::MIN, 1), Err(RuntimeError::Overflow));
    assert_eq!(apply_operator(&Token::Star, false, i64::MAX, 2), Err(RuntimeError::Overflow));
    assert_eq!(apply_operator(&Token::Slash, false, i64::MIN, -1), Err(RuntimeError::Overflow));
    assert_eq!(apply_operator(&Token::Mod, false, i64::MIN, -1), Err(RuntimeError::Overflow));
    let (output, result) = run("x = 9223372036854775807 output x x = x + 1 output x");
    assert_eq!(result, Err(RuntimeError::Overflow));
    assert_eq!(output, vec!["9223372036854775807"]);
}

#[test]
fn smallest_integer_is_printed_whole() {
    assert_eq!(lines("output 0 - 9223372036854775807 - 1"), vec!["-9223372036854775808"]);
    assert_eq!(lines("output 0"), vec!["0"]);
    assert_eq!(lines("output 0 - 10"), vec!["-10"]);
    assert_eq!(lines("output 1000000"), vec!["1000000"]);
}

#[test]
fn equals_sign_outside_a_condition_is_no_operator() {
    assert_eq!(apply_operator(&Token::Assign, false, 1, 1), Err(RuntimeError::UnknownOperator));
    let sum = AstNode::BinOp(number(1), Token::Assign, number(1));
    assert_eq!(Interpreter::new().eval_expr(&sum), Err(RuntimeError::UnknownOperator));
    let statement = AstNode::Assignment("x".to_string(), Box::new(sum));
    let mut interpreter = Interpreter::new();
    assert_eq!(interpreter.interpret(&statement), Err(RuntimeError::UnknownOperator));
    assert_eq!(interpreter.variable("x"), None);
}

#[test]
fn div_and_other_tokens_are_no_operators() {
    let (_, result) = run("output 7 div 2");
    assert_eq!(result, Err(RuntimeError::UnknownOperator));
    assert_eq!(apply_operator(&Token::Not, true, 1, 1), Err(RuntimeError::UnknownOperator));
    assert_eq!(apply_operator(&Token::Comma, true, 1, 1), Err(RuntimeError::UnknownOperator));
    assert_eq!(apply_operator(&Token::Number(1), true, 1, 1), Err(RuntimeError::UnknownOperator));
}

#[test]
fn operand_errors_come_before_operator_errors() {
    let (_, result) = run("output y div 2");
    assert_eq!(result, Err(RuntimeError::UndefinedVariable));
    let (_, result) = run("output 1 div (1 / 0)");
    assert_eq!(result, Err(RuntimeError::DivisionByZero));
}

#[test]
fn string_as_an_operand_is_a_type_error() {
    let (_, result) = run("x = \"a\" + 1");
    assert_eq!(result, Err(RuntimeError::StringAsNumber));
    let (_, result) = run("x = \"a\"");
    assert_eq!(result, Err(RuntimeError::StringAsNumber));
    let (_, result) = run("if \"a\" then endif");
    assert_eq!(result, Err(RuntimeError::StringAsNumber));
    let (_, result) = run("output (\"a\")");
    assert_eq!(result, Ok(()));
}

#[test]
fn statement_where_an_expression_is_due() {
    let misplaced = AstNode::Output(Box::new(AstNode::Output(number(1))));
    assert_eq!(Interpreter::new().eval_expr(&misplaced), Err(RuntimeError::UnknownExpression));
    let mut interpreter = Interpreter::new();
    assert_eq!(interpreter.interpret(&misplaced), Err(RuntimeError::UnknownExpression));
    assert!(interpreter.output().is_empty());
}

#[test]
fn expression_where_a_statement_is_due() {
    let mut interpreter = Interpreter::new();
    assert_eq!(interpreter.interpret(&AstNode::Number(1)), Err(RuntimeError::UnknownStatement));
    assert_eq!(
        interpreter.interpret(&AstNode::Program(vec![AstNode::Identifier("x".to_string())])),
        Err(RuntimeError::UnknownStatement)
    );
}

#[test]
fn condition_is_evaluated_before_either_branch() {
    let (output, result) = run("if y then output 1 else output 2 endif");
    assert_eq!(result, Err(RuntimeError::UndefinedVariable));
    assert!(output.is_empty());
}

#[test]
fn zero_is_false_and_everything_else_is_true() {
    assert_eq!(
        lines(
            "if 0 then output 1 else output 2 endif \
             if 0 - 3 then output 1 else output 2 endif \
             if 0 then output 3 endif"
        ),
        vec!["2", "1"]
    );
}

#[test]
fn loop_that_never_holds_runs_nothing() {
    assert_eq!(lines("loop while 0 output 1 endloop output 2"), vec!["2"]);
}

#[test]
fn loop_puts_out_one_line_each_round() {
    assert_eq!(
        lines("i = 1 loop while i <= 3 output i * i i = i + 1 endloop"),
        vec!["1", "4", "9"]
    );
}

#[test]
fn nested_loops() {
    assert_eq!(
        lines(
            "i = 0 loop while i < 2 j = 0 loop while j < 2 output i * 10 + j j = j + 1 endloop \
             i = i + 1 endloop"
        ),
        vec!["0", "1", "10", "11"]
    );
}

#[test]
fn loop_limit_stops_an_endless_loop() {
    let tree = parse("output 0 loop while 1 output 1 endloop output 2");
    let mut interpreter = Interpreter::with_loop_limit(3);
    assert_eq!(interpreter.interpret(&tree), Err(RuntimeError::LoopLimitReached));
    assert_eq!(interpreter.into_output(), vec!["0", "1", "1", "1"]);
}

#[test]
fn loop_limit_allows_as_many_rounds_as_it_says() {
    let tree = parse("x = 3 loop while x > 0 x = x - 1 endloop output x");
    let mut interpreter = Interpreter::with_loop_limit(3);
    assert_eq!(interpreter.interpret(&tree), Ok(()));
    assert_eq!(interpreter.output(), &vec!["0".to_string()]);
    let mut interpreter = Interpreter::with_loop_limit(2);
    assert_eq!(interpreter.interpret(&tree), Err(RuntimeError::LoopLimitReached));
    assert_eq!(interpreter.variable("x"), Some(1));
}

#[test]
fn loop_limit_counts_each_run_of_a_loop_anew() {
    let tree = parse(
        "i = 0 loop while i < 2 j = 0 loop while j < 2 output j j = j + 1 endloop i = i + 1 endloop",
    );
    let mut interpreter = Interpreter::with_loop_limit(2);
    assert_eq!(interpreter.interpret(&tree), Ok(()));
    assert_eq!(interpreter.into_output(), vec!["0", "1", "0", "1"]);
}

#[test]
fn loop_limit_of_zero_refuses_every_round() {
    let mut interpreter = Interpreter::with_loop_limit(0);
    assert_eq!(interpreter.interpret(&parse("loop while 0 endloop")), Ok(()));
    assert_eq!(
        interpreter.interpret(&parse("loop while 1 endloop")),
        Err(RuntimeError::LoopLimitReached)
    );
}

#[test]
fn assignment_overwrites() {
    let mut interpreter = Interpreter::new();
    assert_eq!(interpreter.variable("x"), None);
    assert_eq!(interpreter.interpret(&parse("x = 1")), Ok(()));
    assert_eq!(interpreter.variable("x"), Some(1));
    assert_eq!(interpreter.interpret(&parse("x = x + 41")), Ok(()));
    assert_eq!(interpreter.variable("x"), Some(42));
    assert_eq!(interpreter.variable("X"), None);
}

#[test]
fn failed_assignment_binds_nothing() {
    let mut interpreter = Interpreter::new();
    assert_eq!(interpreter.interpret(&parse("x = 1 / 0")), Err(RuntimeError::DivisionByZero));
    assert_eq!(interpreter.variable("x"), None);
}

#[test]
fn eval_expr_reads_the_present_variables() {
    let mut interpreter = Interpreter::new();
    assert_eq!(interpreter.interpret(&parse("a = 6 b = 7")), Ok(()));
    let product = AstNode::BinOp(
        Box::new(AstNode::Identifier("a".to_string())),
        Token::Star,
        Box::new(AstNode::Identifier("b".to_string())),
    );
    assert_eq!(interpreter.eval_expr(&product), Ok(42));
    assert_eq!(interpreter.eval_expr(&AstNode::Number(-3)), Ok(-3));
    assert_eq!(
        interpreter.eval_expr(&AstNode::String("a".to_string())),
        Err(RuntimeError::StringAsNumber)
    );
    assert_eq!(
        interpreter.eval_expr(&AstNode::Identifier("c".to_string())),
        Err(RuntimeError::UndefinedVariable)
    );
}

#[test]
fn same_program_twice_gives_the_same_output() {
    let source = "x = 3 loop while x > 0 output x * x x = x - 1 endloop output \"end\" output y";
    let first = run(source);
    let second = run(source);
    assert_eq!(first, second);
    assert_eq!(first.0, vec!["9", "4", "1", "end"]);
    assert_eq!(first.1, Err(RuntimeError::UndefinedVariable));
}

#[test]
fn printing_a_tree_does_not_change_how_it_runs() {
    let tree = parse("x = 2 if x = 2 then output x * 21 else output 0 endif");
    let mut plain = Interpreter::new();
    let plain_result = plain.interpret(&tree);
    let mut printed = Interpreter::new();
    let first = printed.print_ast(&tree, 0);
    assert!(printed.output().is_empty());
    assert_eq!(printed.variable("x"), None);
    let printed_result = printed.interpret(&tree);
    let second = printed.print_ast(&tree, 0);
    assert_eq!(first, second);
    assert_eq!(plain_result, printed_result);
    assert_eq!(plain.output(), printed.output());
    assert_eq!(plain.into_output(), vec!["42"]);
}

#[test]
fn new_interpreter_is_empty() {
    let interpreter = Interpreter::new();
    assert!(interpreter.output().is_empty());
    assert_eq!(interpreter.variable("x"), None);
}
