//! The tree-walking interpreter.

use vstd::prelude::*;
use vstd::hash_map::StringHashMap;
use crate::ast::{models, AstNode, AstView};
use crate::chars::texts;
use crate::decimal::decimal_string;
use crate::lexer::Token;
use crate::render::{printed, render_tree};
use crate::semantics::{apply, eval, run, run_from, run_loop, RuntimeError, State};

verus! {

/// Runs programs: holds the variables, the lines put out so far, and the
/// flag that tells a comparison `=` from a misplaced one.
pub struct Interpreter {
    variables: StringHashMap<i64>,
    in_condition: bool,
    output: Vec<String>,
    loop_limit: u64,
}

impl View for Interpreter {
    type V = State;

    closed spec fn view(&self) -> State {
        State {
            vars: self.variables@,
            in_condition: self.in_condition,
            output: texts(self.output@),
            loop_limit: self.loop_limit as nat,
        }
    }
}

/// The result of a binary operator on two values that are already known.
pub fn apply_operator(op: &Token, in_condition: bool, left: i64, right: i64) -> (value: Result<
    i64,
    RuntimeError,
>)
    ensures
        value == apply(op@, in_condition, left, right),
{
    match op {
        Token::Plus => match left.checked_add(right) {
            Some(sum) => Ok(sum),
            None => Err(RuntimeError::Overflow),
        },
        Token::Minus => match left.checked_sub(right) {
            Some(difference) => Ok(difference),
            None => Err(RuntimeError::Overflow),
        },
        Token::Star => match left.checked_mul(right) {
            Some(product) => Ok(product),
            None => Err(RuntimeError::Overflow),
        },
        Token::Slash => if right == 0 {
            Err(RuntimeError::DivisionByZero)
        } else {
            match left.checked_div(right) {
                Some(quotient) => Ok(quotient),
                None => Err(RuntimeError::Overflow),
            }
        },
        Token::Mod => if right == 0 {
            Err(RuntimeError::DivisionByZero)
        } else {
            match left.checked_rem(right) {
                Some(remainder) => Ok(remainder),
                None => Err(RuntimeError::Overflow),
            }
        },
        Token::Assign => if in_condition {
            Ok(if left == right { 1 } else { 0 })
        } else {
            Err(RuntimeError::UnknownOperator)
        },
        Token::NotEqual => Ok(if left != right { 1 } else { 0 }),
        Token::GreaterThan => Ok(if left > right { 1 } else { 0 }),
        Token::GreaterThanOrEqual => Ok(if left >= right { 1 } else { 0 }),
        Token::LessThan => Ok(if left < right { 1 } else { 0 }),
        Token::LessThanOrEqual => Ok(if left <= right { 1 } else { 0 }),
        Token::And => Ok(if left != 0 && right != 0 { 1 } else { 0 }),
        Token::Or => Ok(if left != 0 || right != 0 { 1 } else { 0 }),
        _ => Err(RuntimeError::UnknownOperator),
    }
}

impl Interpreter {
    /// An interpreter with no variables and no output, outside any
    /// condition, whose loops may run as long as a 64-bit counter can count.
    pub fn new() -> (interpreter: Interpreter)
        ensures
            interpreter@ == State::fresh(u64::MAX as nat),
    {
        Interpreter::with_loop_limit(u64::MAX)
    }

    /// As [`Interpreter::new`], but a loop that is still running after
    /// `loop_limit` rounds stops with an error.
    pub fn with_loop_limit(loop_limit: u64) -> (interpreter: Interpreter)
        ensures
            interpreter@ == State::fresh(loop_limit as nat),
    {
        let interpreter = Interpreter {
            variables: StringHashMap::new(),
            in_condition: false,
            output: Vec::new(),
            loop_limit,
        };
        assert(texts(interpreter.output@) =~= Seq::<Seq<char>>::empty());
        interpreter
    }

    /// The lines put out so far, oldest first.
    pub fn output(&self) -> (lines: &Vec<String>)
        ensures
            texts(lines@) == self@.output,
    {
        &self.output
    }

    /// Gives up the interpreter for the lines that it put out.
    pub fn into_output(self) -> (lines: Vec<String>)
        ensures
            texts(lines@) == self@.output,
    {
        self.output
    }

    /// The value of a variable, if it has one.
    pub fn variable(&self, name: &str) -> (value: Option<i64>)
        ensures
            value == if self@.vars.contains_key(name@) {
                Some(self@.vars[name@])
            } else {
                None
            },
    {
        match self.variables.get(name) {
            Some(value) => Some(*value),
            None => None,
        }
    }

    /// The value of an expression in the present state.
    pub fn eval_expr(&self, node: &AstNode) -> (value: Result<i64, RuntimeError>)
        ensures
            value == eval(self@.vars, self@.in_condition, node@),
        decreases node,
    {
        match node {
            AstNode::Number(value) => Ok(*value),
            AstNode::String(_) => Err(RuntimeError::StringAsNumber),
            AstNode::Identifier(name) => match self.variables.get(name.as_str()) {
                Some(value) => Ok(*value),
                None => Err(RuntimeError::UndefinedVariable),
            },
            AstNode::BinOp(left, op, right) => {
                let left_value = match self.eval_expr(left) {
                    Ok(value) => value,
                    Err(error) => {
                        return Err(error);
                    },
                };
                let right_value = match self.eval_expr(right) {
                    Ok(value) => value,
                    Err(error) => {
                        return Err(error);
                    },
                };
                apply_operator(op, self.in_condition, left_value, right_value)
            },
            _ => Err(RuntimeError::UnknownExpression),
        }
    }

    /// The tree under `node` as indented lines, the root at depth `indent`.
    ///
    /// Nothing is evaluated and nothing changes: the lines depend on the tree
    /// and the depth alone.
    pub fn print_ast(&self, node: &AstNode, indent: usize) -> (lines: Vec<String>)
        ensures
            texts(lines@) == printed(self@, node@, indent as nat).lines,
    {
        render_tree(node, indent)
    }

    /// The value of a condition: the flag is set while it is evaluated and
    /// cleared afterwards, whatever came of it.
    pub(crate) fn test(&mut self, node: &AstNode) -> (value: Result<i64, RuntimeError>)
        ensures
            value == old(self)@.test(node@),
            final(self)@ == old(self)@.condition(false),
    {
        self.in_condition = true;
        let value = self.eval_expr(node);
        self.in_condition = false;
        value
    }

    /// Binds `name` to `value`.
    pub(crate) fn assign(&mut self, name: String, value: i64)
        ensures
            final(self)@ == old(self)@.assign(name@, value),
    {
        self.variables.insert(name, value);
    }

    /// How many rounds one run of a loop may take.
    pub fn loop_limit(&self) -> (limit: u64)
        ensures
            limit == self@.loop_limit,
    {
        self.loop_limit
    }

    /// Hands out the lines put out so far and forgets them.
    pub fn take_output(&mut self) -> (lines: Vec<String>)
        ensures
            texts(lines@) == old(self)@.output,
            final(self)@ == old(self)@.forget_output(),
    {
        let mut lines: Vec<String> = Vec::new();
        std::mem::swap(&mut lines, &mut self.output);
        assert(texts(self.output@) =~= Seq::<Seq<char>>::empty());
        lines
    }

    /// Puts out one line.
    pub(crate) fn emit(&mut self, line: String)
        ensures
            final(self)@ == old(self)@.emit(line@),
    {
        self.output.push(line);
        assert(texts(self.output@) =~= texts(old(self).output@).push(line@));
    }

    /// Runs statements in order and stops at the first error.
    fn run_statements(&mut self, statements: &Vec<AstNode>) -> (result: Result<(), RuntimeError>)
        ensures
            final(self)@ == run_from(old(self)@, models(statements@), 0).state,
            result == run_from(old(self)@, models(statements@), 0).result,
        decreases statements, 0nat,
    {
        let mut i: usize = 0;
        while i < statements.len()
            invariant
                i <= statements.len(),
                run_from(old(self)@, models(statements@), 0) == run_from(
                    self@,
                    models(statements@),
                    i as nat,
                ),
            decreases statements.len() - i,
        {
            match self.interpret(&statements[i]) {
                Ok(_) => {},
                Err(error) => {
                    return Err(error);
                },
            }
            i = i + 1;
        }
        Ok(())
    }

    /// Runs a loop: the condition is evaluated as a condition before each
    /// round, and the loop ends when it gives zero.
    fn run_while(&mut self, test: &AstNode, body: &Vec<AstNode>) -> (result: Result<
        (),
        RuntimeError,
    >)
        ensures
            final(self)@ == run_loop(
                old(self)@,
                test@,
                models(body@),
                old(self)@.loop_limit,
            ).state,
            result == run_loop(old(self)@, test@, models(body@), old(self)@.loop_limit).result,
        decreases body, 1nat,
    {
        let limit = self.loop_limit;
        let mut rounds: u64 = 0;
        loop
            invariant
                rounds <= limit,
                limit == old(self).loop_limit,
                run_loop(old(self)@, test@, models(body@), limit as nat) == run_loop(
                    self@,
                    test@,
                    models(body@),
                    (limit - rounds) as nat,
                ),
            decreases limit - rounds,
        {
            match self.test(test) {
                Ok(v) => {
                    if v == 0 {
                        return Ok(());
                    }
                    if rounds == limit {
                        return Err(RuntimeError::LoopLimitReached);
                    }
                    match self.run_statements(body) {
                        Ok(_) => {},
                        Err(error) => {
                            return Err(error);
                        },
                    }
                    rounds = rounds + 1;
                },
                Err(error) => {
                    return Err(error);
                },
            }
        }
    }

    /// Runs a program or a statement.
    ///
    /// The variables and the output are changed as the statements say, in
    /// program order, up to the end or to the first error; what was put out
    /// before an error stays.
    pub fn interpret(&mut self, node: &AstNode) -> (result: Result<(), RuntimeError>)
        ensures
            final(self)@ == run(old(self)@, node@).state,
            result == run(old(self)@, node@).result,
        decreases node, 0nat,
    {
        match node {
            AstNode::Program(statements) => self.run_statements(statements),
            AstNode::Assignment(name, value) => match self.eval_expr(value) {
                Ok(v) => {
                    self.assign(name.clone(), v);
                    Ok(())
                },
                Err(error) => Err(error),
            },
            AstNode::Output(value) => match &**value {
                AstNode::String(text) => {
                    assert(value@ == AstView::String(text@));
                    self.emit(text.clone());
                    Ok(())
                },
                _ => match self.eval_expr(value) {
                    Ok(v) => {
                        self.emit(decimal_string(v));
                        Ok(())
                    },
                    Err(error) => Err(error),
                },
            },
            AstNode::If(test, then_branch, else_branch) => match self.test(test) {
                Ok(v) => if v != 0 {
                    self.run_statements(then_branch)
                } else {
                    self.run_statements(else_branch)
                },
                Err(error) => Err(error),
            },
            AstNode::Loop(test, body) => self.run_while(test, body),
            _ => Err(RuntimeError::UnknownStatement),
        }
    }
}

} // verus!
