//! What a program means: the value of an expression, and the effect of a
//! statement on the variables and on the output.

use vstd::prelude::*;
use crate::ast::AstView;
use crate::decimal::decimal_text;
use crate::lexer::TokenView;

verus! {

/// Why a program stopped before its end.
#[derive(Debug, Clone, Copy, PartialEq, Eq, Structural)]
pub enum RuntimeError {
    /// A type error: a text literal stood where a number was needed.
    StringAsNumber,
    /// A variable was read before anything was assigned to it.
    UndefinedVariable,
    /// An arithmetic error: a division or a remainder by zero.
    DivisionByZero,
    /// An arithmetic error: a result outside the 64-bit signed integers.
    Overflow,
    /// An internal error: an operator that the evaluator does not know. These
    /// are `div`, every token that is no operator, and `=` outside a condition.
    UnknownOperator,
    /// An internal error: a statement node where an expression was due.
    UnknownExpression,
    /// An internal error: an expression node where a statement was due.
    UnknownStatement,
    /// A loop was still running after as many rounds as the interpreter allows.
    LoopLimitReached,
}

impl RuntimeError {
    /// The diagnostic for this error.
    pub open spec fn text(self) -> Seq<char> {
        match self {
            RuntimeError::StringAsNumber => "Cannot evaluate string as number"@,
            RuntimeError::UndefinedVariable => "Undefined variable"@,
            RuntimeError::DivisionByZero => "Division by zero"@,
            RuntimeError::Overflow => "Arithmetic overflow"@,
            RuntimeError::UnknownOperator => "Unknown binary operator"@,
            RuntimeError::UnknownExpression => "Unknown expression"@,
            RuntimeError::UnknownStatement => "Unknown AST node"@,
            RuntimeError::LoopLimitReached => "Loop limit reached"@,
        }
    }

    /// The diagnostic for this error.
    pub fn message(&self) -> (message: String)
        ensures
            message@ == self.text(),
    {
        match self {
            RuntimeError::StringAsNumber => "Cannot evaluate string as number".to_owned(),
            RuntimeError::UndefinedVariable => "Undefined variable".to_owned(),
            RuntimeError::DivisionByZero => "Division by zero".to_owned(),
            RuntimeError::Overflow => "Arithmetic overflow".to_owned(),
            RuntimeError::UnknownOperator => "Unknown binary operator".to_owned(),
            RuntimeError::UnknownExpression => "Unknown expression".to_owned(),
            RuntimeError::UnknownStatement => "Unknown AST node".to_owned(),
            RuntimeError::LoopLimitReached => "Loop limit reached".to_owned(),
        }
    }
}

/// `value` if it is a 64-bit signed integer, and an overflow otherwise.
pub open spec fn in_range(value: int) -> Result<i64, RuntimeError> {
    if i64::MIN <= value <= i64::MAX {
        Ok(value as i64)
    } else {
        Err(RuntimeError::Overflow)
    }
}

/// 1 for true and 0 for false.
pub open spec fn truth(holds: bool) -> Result<i64, RuntimeError> {
    if holds {
        Ok(1i64)
    } else {
        Ok(0i64)
    }
}

/// The quotient of `a` by `b` rounded towards zero.
pub open spec fn truncated_quotient(a: int, b: int) -> int
    recommends
        b != 0,
{
    if a >= 0 && b > 0 {
        a / b
    } else if a < 0 && b < 0 {
        (-a) / (-b)
    } else if a < 0 {
        -((-a) / b)
    } else {
        -(a / (-b))
    }
}

/// The remainder that goes with [`truncated_quotient`]: it has the sign of `a`.
pub open spec fn truncated_remainder(a: int, b: int) -> int
    recommends
        b != 0,
{
    if a >= 0 && b > 0 {
        a % b
    } else if a < 0 && b < 0 {
        -((-a) % (-b))
    } else if a < 0 {
        -((-a) % b)
    } else {
        a % (-b)
    }
}

/// The result of a binary operator on two values that are already known.
///
/// `=` is a comparison only while a condition is being evaluated. Comparisons
/// and the connectives `and`, `or` give 1 or 0; the connectives take any
/// nonzero value for true.
pub open spec fn apply(op: TokenView, in_condition: bool, left: i64, right: i64) -> Result<
    i64,
    RuntimeError,
> {
    match op {
        TokenView::Plus => in_range(left + right),
        TokenView::Minus => in_range(left - right),
        TokenView::Star => in_range(left * right),
        TokenView::Slash => if right == 0 {
            Err(RuntimeError::DivisionByZero)
        } else {
            in_range(truncated_quotient(left as int, right as int))
        },
        TokenView::Mod => if right == 0 {
            Err(RuntimeError::DivisionByZero)
        } else if left == i64::MIN && right == -1 {
            Err(RuntimeError::Overflow)
        } else {
            in_range(truncated_remainder(left as int, right as int))
        },
        TokenView::Assign => if in_condition {
            truth(left == right)
        } else {
            Err(RuntimeError::UnknownOperator)
        },
        TokenView::NotEqual => truth(left != right),
        TokenView::GreaterThan => truth(left > right),
        TokenView::GreaterThanOrEqual => truth(left >= right),
        TokenView::LessThan => truth(left < right),
        TokenView::LessThanOrEqual => truth(left <= right),
        TokenView::And => truth(left != 0 && right != 0),
        TokenView::Or => truth(left != 0 || right != 0),
        _ => Err(RuntimeError::UnknownOperator),
    }
}

/// The value of an expression.
///
/// Both operands of an operator are evaluated, the left one first, before the
/// operator is looked at: an error in either comes before any error of the
/// operator, and no operator skips its right operand.
pub open spec fn eval(vars: Map<Seq<char>, i64>, in_condition: bool, node: AstView) -> Result<
    i64,
    RuntimeError,
>
    decreases node,
{
    match node {
        AstView::Number(value) => Ok(value),
        AstView::String(_) => Err(RuntimeError::StringAsNumber),
        AstView::Identifier(name) => if vars.contains_key(name) {
            Ok(vars[name])
        } else {
            Err(RuntimeError::UndefinedVariable)
        },
        AstView::BinOp(left, op, right) => match eval(vars, in_condition, *left) {
            Ok(a) => match eval(vars, in_condition, *right) {
                Ok(b) => apply(op, in_condition, a, b),
                Err(error) => Err(error),
            },
            Err(error) => Err(error),
        },
        _ => Err(RuntimeError::UnknownExpression),
    }
}

/// The mathematical state of an interpreter.
pub struct State {
    /// The variables that have a value.
    pub vars: Map<Seq<char>, i64>,
    /// Whether a condition is being evaluated.
    pub in_condition: bool,
    /// The lines put out so far, oldest first.
    pub output: Seq<Seq<char>>,
    /// How many rounds one run of a loop may take.
    pub loop_limit: nat,
}

impl State {
    /// The state before anything has run.
    pub open spec fn fresh(loop_limit: nat) -> State {
        State { vars: Map::empty(), in_condition: false, output: Seq::empty(), loop_limit }
    }

    /// This state with `name` bound to `value`.
    pub open spec fn assign(self, name: Seq<char>, value: i64) -> State {
        State { vars: self.vars.insert(name, value), ..self }
    }

    /// This state with one more line of output.
    pub open spec fn emit(self, line: Seq<char>) -> State {
        State { output: self.output.push(line), ..self }
    }

    /// This state with its output handed out: no lines are left in it.
    pub open spec fn forget_output(self) -> State {
        State { output: Seq::empty(), ..self }
    }

    /// This state inside or outside a condition.
    pub open spec fn condition(self, inside: bool) -> State {
        State { in_condition: inside, ..self }
    }

    /// The value of a condition: `node` evaluated with the flag set.
    pub open spec fn test(self, node: AstView) -> Result<i64, RuntimeError> {
        eval(self.vars, true, node)
    }
}

/// Where a run ended and how.
pub struct Outcome {
    pub state: State,
    pub result: Result<(), RuntimeError>,
}

/// A run that came to its end in `state`.
pub open spec fn finished(state: State) -> Outcome {
    Outcome { state, result: Ok(()) }
}

/// A run that stopped in `state` with `error`.
pub open spec fn stopped(state: State, error: RuntimeError) -> Outcome {
    Outcome { state, result: Err(error) }
}

/// The effect of one statement.
///
/// An assignment binds the value of its expression. An output of a text
/// literal puts out the text as it is, and any other output the decimal text
/// of the value. An `if` evaluates its condition as a condition and runs one
/// branch. A loop is [`run_loop`]. After the first error nothing more runs.
pub open spec fn run(state: State, node: AstView) -> Outcome
    decreases node, 0nat, 0nat,
{
    match node {
        AstView::Program(statements) => run_from(state, statements, 0),
        AstView::Assignment(name, value) => match eval(state.vars, state.in_condition, *value) {
            Ok(v) => finished(state.assign(name, v)),
            Err(error) => stopped(state, error),
        },
        AstView::Output(value) => match *value {
            AstView::String(text) => finished(state.emit(text)),
            _ => match eval(state.vars, state.in_condition, *value) {
                Ok(v) => finished(state.emit(decimal_text(v as int))),
                Err(error) => stopped(state, error),
            },
        },
        AstView::If(test, then_branch, else_branch) => match state.test(*test) {
            Ok(v) => if v != 0 {
                run_from(state.condition(false), then_branch, 0)
            } else {
                run_from(state.condition(false), else_branch, 0)
            },
            Err(error) => stopped(state.condition(false), error),
        },
        AstView::Loop(test, body) => run_loop(state, *test, body, state.loop_limit),
        _ => stopped(state, RuntimeError::UnknownStatement),
    }
}

/// The effect of the statements from index `from` on, in order.
pub open spec fn run_from(state: State, statements: Seq<AstView>, from: nat) -> Outcome
    decreases statements, 0nat, statements.len() - from,
{
    if from >= statements.len() {
        finished(state)
    } else {
        let first = run(state, statements[from as int]);
        match first.result {
            Ok(_) => run_from(first.state, statements, from + 1),
            Err(_) => first,
        }
    }
}

/// The effect of a loop that may take `budget` more rounds: the condition is
/// evaluated as a condition before each round, and the loop ends when it
/// gives zero. A loop whose condition still holds when the budget is used up
/// stops with an error.
pub open spec fn run_loop(state: State, test: AstView, body: Seq<AstView>, budget: nat) -> Outcome
    decreases body, budget + 1, 0nat,
{
    match state.test(test) {
        Ok(v) => if v == 0 {
            finished(state.condition(false))
        } else if budget == 0 {
            stopped(state.condition(false), RuntimeError::LoopLimitReached)
        } else {
            let round = run_from(state.condition(false), body, 0);
            match round.result {
                Ok(_) => run_loop(round.state, test, body, (budget - 1) as nat),
                Err(_) => round,
            }
        },
        Err(error) => stopped(state.condition(false), error),
    }
}

} // verus!
