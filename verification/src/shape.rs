//! The shape of the trees that the parser builds, and what it buys: a parsed
//! program never fails for a reason that lies in the shape of its tree.

use vstd::prelude::*;
use crate::ast::AstView;
use crate::grammar::{
    assignment_rest, block, condition, condition_chain, expr, expr_chain, factor, if_rest, if_tail,
    is_condition_op, is_expr_op, is_term_op, left, loop_rest, output_rest, peek, program,
    statement, statement_rest, term, term_chain, BlockEnd,
};
use crate::lexer::{Scanned, TokenView};
use crate::semantics::{eval, run, run_from, run_loop, RuntimeError, State};

verus! {

/// The operators of arithmetic that the evaluator knows.
pub open spec fn is_arithmetic_op(op: TokenView) -> bool {
    op is Plus || op is Minus || op is Star || op is Slash || op is Mod
}

/// An arithmetic expression: numbers, texts and variables under operators of
/// arithmetic that the evaluator knows.
pub open spec fn is_arithmetic(node: AstView) -> bool
    decreases node,
{
    match node {
        AstView::Number(_) => true,
        AstView::String(_) => true,
        AstView::Identifier(_) => true,
        AstView::BinOp(left, op, right) => is_arithmetic_op(op) && is_arithmetic(*left)
            && is_arithmetic(*right),
        _ => false,
    }
}

/// A condition: an arithmetic expression, or a condition and an arithmetic
/// expression under a comparison or a connective.
pub open spec fn is_condition(node: AstView) -> bool
    decreases node,
{
    is_arithmetic(node) || match node {
        AstView::BinOp(left, op, right) => is_condition_op(op) && is_condition(*left)
            && is_arithmetic(*right),
        _ => false,
    }
}

/// A statement: an assignment or an output of an arithmetic expression, or an
/// `if` or a loop of a condition and of statements.
pub open spec fn is_statement(node: AstView) -> bool
    decreases node, 0nat,
{
    match node {
        AstView::Assignment(_, value) => is_arithmetic(*value),
        AstView::Output(value) => is_arithmetic(*value),
        AstView::If(test, then_branch, else_branch) => is_condition(*test) && are_statements(
            then_branch,
            0,
        ) && are_statements(else_branch, 0),
        AstView::Loop(test, body) => is_condition(*test) && are_statements(body, 0),
        _ => false,
    }
}

/// Whether the nodes from index `from` on are statements.
pub open spec fn are_statements(nodes: Seq<AstView>, from: nat) -> bool
    decreases nodes, nodes.len() - from,
{
    from >= nodes.len() || (is_statement(nodes[from as int]) && are_statements(nodes, from + 1))
}

/// A program: statements under one root.
pub open spec fn is_program(node: AstView) -> bool {
    node matches AstView::Program(statements) && are_statements(statements, 0)
}

/// The errors that lie in the shape of a tree: an operator that the
/// evaluator does not know, a statement in the place of an expression, an
/// expression in the place of a statement.
pub open spec fn is_internal(error: RuntimeError) -> bool {
    error == RuntimeError::UnknownOperator || error == RuntimeError::UnknownExpression || error
        == RuntimeError::UnknownStatement
}

/// Whether the keyword `div` stands nowhere in the stream. The grammar takes it
/// for an operator, and the evaluator does not know it.
pub open spec fn without_div(tokens: Seq<Scanned>) -> bool {
    forall|i: int| 0 <= i < tokens.len() ==> !(#[trigger] tokens[i] matches Ok(info)
        && info.token is Div)
}

/// An arithmetic expression has a value or fails for a reason of its own:
/// whatever the flag says.
pub proof fn lemma_arithmetic_is_evaluated(
    vars: Map<Seq<char>, i64>,
    in_condition: bool,
    node: AstView,
)
    requires
        is_arithmetic(node),
    ensures
        eval(vars, in_condition, node) matches Err(error) ==> !is_internal(error),
        eval(vars, in_condition, node) == eval(vars, !in_condition, node),
    decreases node,
{
    if let AstView::BinOp(left, op, right) = node {
        lemma_arithmetic_is_evaluated(vars, in_condition, *left);
        lemma_arithmetic_is_evaluated(vars, in_condition, *right);
    }
}

/// A condition that is evaluated as a condition has a value or fails for a
/// reason of its own.
pub proof fn lemma_condition_is_evaluated(vars: Map<Seq<char>, i64>, node: AstView)
    requires
        is_condition(node),
    ensures
        eval(vars, true, node) matches Err(error) ==> !is_internal(error),
    decreases node,
{
    if is_arithmetic(node) {
        lemma_arithmetic_is_evaluated(vars, true, node);
    } else if let AstView::BinOp(left, op, right) = node {
        lemma_condition_is_evaluated(vars, *left);
        lemma_arithmetic_is_evaluated(vars, true, *right);
    }
}

/// A statement that is run outside a condition ends well or fails for a
/// reason of its own, and ends outside a condition.
pub proof fn lemma_statement_is_run(state: State, node: AstView)
    requires
        is_statement(node),
        !state.in_condition,
    ensures
        run(state, node).result matches Err(error) ==> !is_internal(error),
        !run(state, node).state.in_condition,
    decreases node, 0nat, 0nat,
{
    match node {
        AstView::Assignment(_, value) => {
            lemma_arithmetic_is_evaluated(state.vars, false, *value);
        },
        AstView::Output(value) => {
            lemma_arithmetic_is_evaluated(state.vars, false, *value);
        },
        AstView::If(test, then_branch, else_branch) => {
            lemma_condition_is_evaluated(state.vars, *test);
            lemma_statements_are_run(state.condition(false), then_branch, 0);
            lemma_statements_are_run(state.condition(false), else_branch, 0);
        },
        AstView::Loop(test, body) => {
            lemma_loop_is_run(state, *test, body, state.loop_limit);
        },
        _ => {},
    }
}

/// [`lemma_statement_is_run`] for the statements from `from` on.
pub proof fn lemma_statements_are_run(state: State, statements: Seq<AstView>, from: nat)
    requires
        are_statements(statements, from),
        !state.in_condition,
    ensures
        run_from(state, statements, from).result matches Err(error) ==> !is_internal(error),
        !run_from(state, statements, from).state.in_condition,
    decreases statements, 0nat, statements.len() - from,
{
    if from < statements.len() {
        lemma_statement_is_run(state, statements[from as int]);
        let first = run(state, statements[from as int]);
        if first.result is Ok {
            lemma_statements_are_run(first.state, statements, from + 1);
        }
    }
}

/// [`lemma_statement_is_run`] for a loop.
pub proof fn lemma_loop_is_run(state: State, test: AstView, body: Seq<AstView>, budget: nat)
    requires
        is_condition(test),
        are_statements(body, 0),
    ensures
        run_loop(state, test, body, budget).result matches Err(error) ==> !is_internal(error),
        !run_loop(state, test, body, budget).state.in_condition,
    decreases body, budget + 1, 0nat,
{
    lemma_condition_is_evaluated(state.vars, test);
    if state.test(test) is Ok && state.test(test)->Ok_0 != 0 && budget > 0 {
        lemma_statements_are_run(state.condition(false), body, 0);
        let round = run_from(state.condition(false), body, 0);
        if round.result is Ok {
            lemma_loop_is_run(round.state, test, body, (budget - 1) as nat);
        }
    }
}

/// A program that is run from outside a condition ends well or fails for a
/// reason of its own.
pub proof fn lemma_program_is_run(state: State, node: AstView)
    requires
        is_program(node),
        !state.in_condition,
    ensures
        run(state, node).result matches Err(error) ==> !is_internal(error),
{
    if let AstView::Program(statements) = node {
        lemma_statements_are_run(state, statements, 0);
    }
}

/// Nodes from an index on are statements when each of them is one.
pub proof fn lemma_are_statements_each(nodes: Seq<AstView>, from: nat)
    ensures
        are_statements(nodes, from) <==> forall|i: int|
            from <= i < nodes.len() ==> is_statement(#[trigger] nodes[i]),
    decreases nodes.len() - from,
{
    if from < nodes.len() {
        lemma_are_statements_each(nodes, from + 1);
    }
}

/// In a stream without `div`, a `factor` is an arithmetic expression.
pub proof fn lemma_factor_is_arithmetic(tokens: Seq<Scanned>, at: nat)
    requires
        without_div(tokens),
    ensures
        factor(tokens, at).result matches Ok(node) ==> is_arithmetic(node),
    decreases left(tokens, at), 0nat,
{
    if peek(tokens, at) matches Ok(info) && info.token is LParen {
        lemma_expr_is_arithmetic(tokens, at + 1);
    }
}

/// In a stream without `div`, a chain of factors is an arithmetic expression.
pub proof fn lemma_term_chain_is_arithmetic(tokens: Seq<Scanned>, at: nat, so_far: AstView)
    requires
        without_div(tokens),
        is_arithmetic(so_far),
    ensures
        term_chain(tokens, at, so_far).result matches Ok(node) ==> is_arithmetic(node),
    decreases left(tokens, at), 0nat,
{
    if peek(tokens, at) matches Ok(info) && is_term_op(info.token) {
        let op = peek(tokens, at)->Ok_0.token;
        let operand = factor(tokens, at + 1);
        lemma_factor_is_arithmetic(tokens, at + 1);
        if operand.result is Ok {
            assert(tokens[at as int] == peek(tokens, at));
            lemma_term_chain_is_arithmetic(
                tokens,
                at + 1 + operand.used,
                AstView::BinOp(Box::new(so_far), op, Box::new(operand.result->Ok_0)),
            );
        }
    }
}

/// In a stream without `div`, a `term` is an arithmetic expression.
pub proof fn lemma_term_is_arithmetic(tokens: Seq<Scanned>, at: nat)
    requires
        without_div(tokens),
    ensures
        term(tokens, at).result matches Ok(node) ==> is_arithmetic(node),
    decreases left(tokens, at), 1nat,
{
    let first = factor(tokens, at);
    lemma_factor_is_arithmetic(tokens, at);
    if first.result is Ok {
        lemma_term_chain_is_arithmetic(tokens, at + first.used, first.result->Ok_0);
    }
}

/// In a stream without `div`, a chain of terms is an arithmetic expression.
pub proof fn lemma_expr_chain_is_arithmetic(tokens: Seq<Scanned>, at: nat, so_far: AstView)
    requires
        without_div(tokens),
        is_arithmetic(so_far),
    ensures
        expr_chain(tokens, at, so_far).result matches Ok(node) ==> is_arithmetic(node),
    decreases left(tokens, at), 0nat,
{
    if peek(tokens, at) matches Ok(info) && is_expr_op(info.token) {
        let op = peek(tokens, at)->Ok_0.token;
        let operand = term(tokens, at + 1);
        lemma_term_is_arithmetic(tokens, at + 1);
        if operand.result is Ok {
            lemma_expr_chain_is_arithmetic(
                tokens,
                at + 1 + operand.used,
                AstView::BinOp(Box::new(so_far), op, Box::new(operand.result->Ok_0)),
            );
        }
    }
}

/// In a stream without `div`, an `expr` is an arithmetic expression.
pub proof fn lemma_expr_is_arithmetic(tokens: Seq<Scanned>, at: nat)
    requires
        without_div(tokens),
    ensures
        expr(tokens, at).result matches Ok(node) ==> is_arithmetic(node),
    decreases left(tokens, at), 2nat,
{
    let first = term(tokens, at);
    lemma_term_is_arithmetic(tokens, at);
    if first.result is Ok {
        lemma_expr_chain_is_arithmetic(tokens, at + first.used, first.result->Ok_0);
    }
}

/// In a stream without `div`, a chain of comparisons is a condition.
pub proof fn lemma_condition_chain_is_a_condition(tokens: Seq<Scanned>, at: nat, so_far: AstView)
    requires
        without_div(tokens),
        is_condition(so_far),
    ensures
        condition_chain(tokens, at, so_far).result matches Ok(node) ==> is_condition(node),
    decreases left(tokens, at), 0nat,
{
    if peek(tokens, at) matches Ok(info) && is_condition_op(info.token) {
        let op = peek(tokens, at)->Ok_0.token;
        let operand = expr(tokens, at + 1);
        lemma_expr_is_arithmetic(tokens, at + 1);
        if operand.result is Ok {
            lemma_condition_chain_is_a_condition(
                tokens,
                at + 1 + operand.used,
                AstView::BinOp(Box::new(so_far), op, Box::new(operand.result->Ok_0)),
            );
        }
    }
}

/// In a stream without `div`, a `condition` is a condition.
pub proof fn lemma_condition_is_a_condition(tokens: Seq<Scanned>, at: nat)
    requires
        without_div(tokens),
    ensures
        condition(tokens, at).result matches Ok(node) ==> is_condition(node),
    decreases left(tokens, at), 3nat,
{
    let first = expr(tokens, at);
    lemma_expr_is_arithmetic(tokens, at);
    if first.result is Ok {
        lemma_condition_chain_is_a_condition(tokens, at + first.used, first.result->Ok_0);
    }
}

/// In a stream without `div`, the end of an `if` makes a statement of a
/// condition and statements.
pub proof fn lemma_if_tail_is_a_statement(
    tokens: Seq<Scanned>,
    at: nat,
    test: AstView,
    then_nodes: Seq<AstView>,
)
    requires
        without_div(tokens),
        is_condition(test),
        are_statements(then_nodes, 0),
    ensures
        if_tail(tokens, at, test, then_nodes).result matches Ok(node) ==> is_statement(node),
    decreases left(tokens, at), 1nat,
{
    if peek(tokens, at) matches Ok(info) && info.token is Else {
        lemma_block_is_statements(tokens, at + 1, BlockEnd::ElseBranch);
    }
}

/// In a stream without `div`, what follows the first token of a statement
/// makes a statement.
pub proof fn lemma_statement_rest_is_a_statement(tokens: Seq<Scanned>, at: nat, head: TokenView)
    requires
        without_div(tokens),
    ensures
        statement_rest(tokens, at, head).result matches Ok(node) ==> is_statement(node),
    decreases left(tokens, at), 5nat,
{
    match head {
        TokenView::Identifier(name) => {
            lemma_expr_is_arithmetic(tokens, at + 1);
        },
        TokenView::Output => {
            lemma_expr_is_arithmetic(tokens, at);
        },
        TokenView::If => {
            let test = condition(tokens, at);
            lemma_condition_is_a_condition(tokens, at);
            if test.result is Ok && (peek(tokens, at + test.used) matches Ok(info)
                && info.token is Then) {
                let then_at = at + test.used + 1;
                let then_branch = block(tokens, then_at, BlockEnd::ThenBranch);
                lemma_block_is_statements(tokens, then_at, BlockEnd::ThenBranch);
                if then_branch.result is Ok {
                    lemma_if_tail_is_a_statement(
                        tokens,
                        then_at + then_branch.used,
                        test.result->Ok_0,
                        then_branch.result->Ok_0,
                    );
                }
            }
        },
        _ => {
            if peek(tokens, at) matches Ok(info) && info.token is While {
                let test = condition(tokens, at + 1);
                lemma_condition_is_a_condition(tokens, at + 1);
                if test.result is Ok {
                    lemma_block_is_statements(tokens, at + 1 + test.used, BlockEnd::LoopBody);
                }
            }
        },
    }
}

/// In a stream without `div`, a run of statements is made of statements.
pub proof fn lemma_block_is_statements(tokens: Seq<Scanned>, at: nat, end: BlockEnd)
    requires
        without_div(tokens),
    ensures
        block(tokens, at, end).result matches Ok(nodes) ==> are_statements(nodes, 0),
    decreases left(tokens, at), 0nat,
{
    if block(tokens, at, end).result is Ok {
        let nodes = block(tokens, at, end).result->Ok_0;
        let head = peek(tokens, at)->Ok_0.token;
        if !end.closes(head) {
            let first = statement_rest(tokens, at + 1, head);
            lemma_statement_rest_is_a_statement(tokens, at + 1, head);
            let others = block(tokens, at + 1 + first.used, end);
            lemma_block_is_statements(tokens, at + 1 + first.used, end);
            lemma_are_statements_each(others.result->Ok_0, 0);
            assert forall|i: int| 0 <= i < nodes.len() implies is_statement(#[trigger] nodes[i]) by {
                if i > 0 {
                    assert(nodes[i] == others.result->Ok_0[i - 1]);
                }
            }
        }
        lemma_are_statements_each(nodes, 0);
    }
}

/// The parser and the interpreter agree on the shape of a program: a program
/// that was parsed from a stream without `div`, run from outside a condition,
/// never stops with an unknown operator, an unknown expression or an unknown
/// statement.
pub proof fn lemma_parsed_program_fails_for_no_internal_reason(
    tokens: Seq<Scanned>,
    at: nat,
    state: State,
)
    requires
        without_div(tokens),
        program(tokens, at).result is Ok,
        !state.in_condition,
    ensures
        is_program(program(tokens, at).result->Ok_0),
        run(state, program(tokens, at).result->Ok_0).result matches Err(error) ==> !is_internal(
            error,
        ),
{
    lemma_block_is_statements(tokens, at, BlockEnd::Program);
    lemma_program_is_run(state, program(tokens, at).result->Ok_0);
}

} // verus!
