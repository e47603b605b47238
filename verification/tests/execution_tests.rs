use ibc_pseudocode::ast::AstNode;
use ibc_pseudocode::execution::{Event, Execution};
use ibc_pseudocode::interpreter::Interpreter;
use ibc_pseudocode::program::parse_source;
use ibc_pseudocode::semantics::RuntimeError;

fn parse(source: &str) -> AstNode {
    match parse_source(source) {
        Ok(node) => node,
        Err(error) => panic!("unexpected parse error: {:?}", error),
    }
}

fn run_in_steps(tree: &AstNode, budget: u64) -> (Vec<String>, Event) {
    let mut execution = Execution::new(Interpreter::new(), tree);
    let mut lines = Vec::new();
    for _ in 0..100_000 {
        let event = execution.resume(budget);
        let taken = execution.take_output();
        match event {
            Event::Line => assert_eq!(taken.len(), 1),
            _ => assert!(taken.is_empty()),
        }
        lines.extend(taken);
        match event {
            Event::Finished | Event::Failed(_) => return (lines, event),
            _ => {}
        }
    }
    panic!("the program did not end");
}

fn run_at_once(tree: &AstNode) -> (Vec<String>, Result<(), RuntimeError>) {
    let mut interpreter = Interpreter::new();
    let result = interpreter.interpret(tree);
    (interpreter.into_output(), result)
}

const PROGRAMS: [&str; 8] = [
    "",
    "output 10 - 3 - 2",
    "x = 10\nloop while x > 0 x = x - 1 endloop\noutput x",
    "x = 5\nif x = 5 then output 1 else output 0 endif",
    "i = 0 loop while i < 3 j = 0 loop while j < i output i * 10 + j j = j + 1 endloop i = i + 1 endloop output \"end\"",
    "output 1 output \"two\" output y output 4",
    "a = 1 b = 0 if a then if b then output 1 else output a / b endif endif output 9",
    "loop while 1 or z output 1 endloop",
];

#[test]
fn steps_give_what_one_run_gives() {
    for source in PROGRAMS {
        let tree = parse(source);
        let (lines, result) = run_at_once(&tree);
        for budget in [1, 2, 3, 7, 1000] {
            let (stepped_lines, event) = run_in_steps(&tree, budget);
            assert_eq!(stepped_lines, lines, "lines of {:?}", source);
            match result {
                Ok(()) => assert_eq!(event, Event::Finished, "end of {:?}", source),
                Err(error) => assert_eq!(event, Event::Failed(error), "end of {:?}", source),
            }
        }
    }
}

#[test]
fn steps_leave_the_variables_that_one_run_leaves() {
    let tree = parse("a = 2 b = a * 21 loop while a > 0 a = a - 1 endloop");
    let mut execution = Execution::new(Interpreter::new(), &tree);
    assert_eq!(execution.resume(1000), Event::Finished);
    assert_eq!(execution.interpreter().variable("a"), Some(0));
    assert_eq!(execution.interpreter().variable("b"), Some(42));
    let interpreter = execution.into_interpreter();
    assert_eq!(interpreter.variable("b"), Some(42));
    assert!(interpreter.output().is_empty());
}

#[test]
fn no_budget_no_step() {
    let tree = parse("output 1");
    let mut execution = Execution::new(Interpreter::new(), &tree);
    assert_eq!(execution.resume(0), Event::Paused);
    assert!(execution.take_output().is_empty());
    assert_eq!(execution.resume(1), Event::Paused);
    assert_eq!(execution.resume(1), Event::Line);
    assert_eq!(execution.take_output(), vec!["1"]);
    assert_eq!(execution.resume(1), Event::Paused);
    assert_eq!(execution.resume(1), Event::Finished);
    assert_eq!(execution.resume(5), Event::Finished);
}

#[test]
fn single_steps_of_a_small_program() {
    let tree = parse("x = 1 if x then output x endif");
    let mut execution = Execution::new(Interpreter::new(), &tree);
    assert_eq!(execution.step(), Event::Stepped);
    assert_eq!(execution.interpreter().variable("x"), None);
    assert_eq!(execution.step(), Event::Stepped);
    assert_eq!(execution.interpreter().variable("x"), Some(1));
    assert_eq!(execution.step(), Event::Stepped);
    assert_eq!(execution.step(), Event::Line);
    assert_eq!(execution.interpreter().output(), &vec!["1".to_string()]);
    assert_eq!(execution.step(), Event::Stepped);
    assert_eq!(execution.step(), Event::Stepped);
    assert_eq!(execution.step(), Event::Finished);
    assert_eq!(execution.step(), Event::Finished);
}

#[test]
fn endless_loop_gives_its_lines_one_by_one_and_can_be_left() {
    let tree = parse("n = 0 loop while 1 n = n + 1 output n endloop");
    let mut execution = Execution::new(Interpreter::new(), &tree);
    for expected in 1..=50 {
        let mut event = execution.resume(2);
        while event == Event::Paused {
            event = execution.resume(2);
        }
        assert_eq!(event, Event::Line);
        assert_eq!(execution.take_output(), vec![expected.to_string()]);
    }
    assert_eq!(execution.interpreter().variable("n"), Some(50));
}

#[test]
fn silent_endless_loop_pauses() {
    let tree = parse("loop while 1 endloop");
    let mut execution = Execution::new(Interpreter::new(), &tree);
    for _ in 0..20 {
        assert_eq!(execution.resume(1000), Event::Paused);
    }
}

#[test]
fn failure_ends_the_execution() {
    let tree = parse("output 1 output 1 / 0 output 2");
    let mut execution = Execution::new(Interpreter::new(), &tree);
    assert_eq!(execution.resume(100), Event::Line);
    assert_eq!(execution.resume(100), Event::Failed(RuntimeError::DivisionByZero));
    assert_eq!(execution.resume(100), Event::Finished);
    assert_eq!(execution.take_output(), vec!["1"]);
}

#[test]
fn loop_limit_holds_in_steps_too() {
    let tree = parse("loop while 1 output 7 endloop");
    let mut execution = Execution::new(Interpreter::with_loop_limit(2), &tree);
    assert_eq!(execution.resume(100), Event::Line);
    assert_eq!(execution.resume(100), Event::Line);
    assert_eq!(execution.resume(100), Event::Failed(RuntimeError::LoopLimitReached));
    assert_eq!(execution.take_output(), vec!["7", "7"]);
}

#[test]
fn single_statement_can_be_run_in_steps() {
    let node = AstNode::Output(Box::new(AstNode::String("hi".to_string())));
    let mut execution = Execution::new(Interpreter::new(), &node);
    assert_eq!(execution.step(), Event::Line);
    assert_eq!(execution.step(), Event::Finished);
    assert_eq!(execution.take_output(), vec!["hi"]);
    let node = AstNode::Number(1);
    let mut execution = Execution::new(Interpreter::new(), &node);
    assert_eq!(execution.step(), Event::Failed(RuntimeError::UnknownStatement));
}

#[test]
fn taking_output_forgets_it() {
    let tree = parse("output 1 output 2");
    let mut interpreter = Interpreter::new();
    assert_eq!(interpreter.interpret(&tree), Ok(()));
    assert_eq!(interpreter.take_output(), vec!["1", "2"]);
    assert!(interpreter.output().is_empty());
    assert!(interpreter.take_output().is_empty());
    assert_eq!(interpreter.interpret(&tree), Ok(()));
    assert_eq!(interpreter.take_output(), vec!["1", "2"]);
}

#[test]
fn loop_limit_can_be_read() {
    assert_eq!(Interpreter::new().loop_limit(), u64::MAX);
    assert_eq!(Interpreter::with_loop_limit(12).loop_limit(), 12);
}
