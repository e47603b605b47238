//! The grammar of the language, as functions from a token stream to the tree
//! that it spells.
//!
//! ```text
//! program    := statement* Eof
//! statement  := Identifier '=' expr
//!             | 'output' expr
//!             | 'if' condition 'then' statement* ('else' statement*)? 'endif'
//!             | 'loop' 'while' condition statement* 'endloop'
//! condition  := expr (relop expr)*        relop: = != > >= < <= and or
//! expr       := term (('+' | '-') term)*
//! term       := factor (('*' | '/' | 'mod' | 'div') factor)*
//! factor     := Number | String | Identifier | '(' expr ')'
//! ```
//!
//! All chains associate to the left. Each function reads from a position of the
//! stream and says what it found and how many tokens it used, also when it
//! fails: parsing stops at the first token that fits no rule.

use vstd::prelude::*;
use crate::ast::AstView;
use crate::decimal::digits_of;
use crate::lexer::{token_name, LexError, Scanned, TokenInfoView, TokenView};

verus! {

/// Why a token stream is not a program, as a mathematical value.
pub enum ParseErrorView {
    /// The lexer failed where the next token was due.
    Lexical(LexError),
    /// The rule in hand wanted `expected` and `found` stood there instead.
    Expected { expected: TokenView, found: TokenInfoView },
    /// No rule starts with the token found.
    Unexpected { found: TokenInfoView },
}

/// The words that say where a token was found.
pub open spec fn place(found: TokenInfoView) -> Seq<char> {
    " at line "@ + digits_of(found.line) + ", column "@ + digits_of(found.column)
}

impl ParseErrorView {
    /// The diagnostic for this error: the tokens by their names, and the line
    /// and column of the token found.
    pub open spec fn text(self) -> Seq<char> {
        match self {
            ParseErrorView::Lexical(error) => error.text(),
            ParseErrorView::Expected { expected, found } => "Expected "@ + token_name(expected)
                + ", got "@ + token_name(found.token) + place(found),
            ParseErrorView::Unexpected { found } => "Unexpected token: "@ + token_name(found.token)
                + place(found),
        }
    }
}

/// What one rule of the grammar makes of the stream from some position on:
/// the value or the error, and the number of tokens used up to there.
pub struct Parsed<T> {
    pub result: Result<T, ParseErrorView>,
    pub used: nat,
}

/// A rule that succeeded with `value` after `used` tokens.
pub open spec fn found<T>(value: T, used: nat) -> Parsed<T> {
    Parsed { result: Ok(value), used }
}

/// A rule that failed with `error` after `used` tokens.
pub open spec fn failed<T>(error: ParseErrorView, used: nat) -> Parsed<T> {
    Parsed { result: Err(error), used }
}

/// The outcome `parsed` of a rule that started `before` tokens later.
pub open spec fn after<T>(before: nat, parsed: Parsed<T>) -> Parsed<T> {
    Parsed { result: parsed.result, used: before + parsed.used }
}

/// What stands at position `at`. A stream holds `Eof` from its end on.
pub open spec fn peek(tokens: Seq<Scanned>, at: nat) -> Scanned {
    if at < tokens.len() {
        tokens[at as int]
    } else {
        Ok(TokenInfoView { token: TokenView::Eof, line: 0, column: 0 })
    }
}

/// How many tokens stand at position `at` and after it.
pub open spec fn left(tokens: Seq<Scanned>, at: nat) -> nat {
    if at < tokens.len() {
        (tokens.len() - at) as nat
    } else {
        0
    }
}

/// The failure of a rule that cannot start with what stands at `at`.
pub open spec fn refuse<T>(tokens: Seq<Scanned>, at: nat) -> Parsed<T> {
    match peek(tokens, at) {
        Ok(found) => failed(ParseErrorView::Unexpected { found }, 0),
        Err(error) => failed(ParseErrorView::Lexical(error), 0),
    }
}

/// Takes the token at `at` if it is `expected`. `Eof` is matched without
/// being used up: the stream never moves past it.
pub open spec fn expect(tokens: Seq<Scanned>, at: nat, expected: TokenView) -> Parsed<()> {
    match peek(tokens, at) {
        Ok(found) => if found.token == expected {
            if expected == TokenView::Eof {
                self::found((), 0)
            } else {
                self::found((), 1)
            }
        } else {
            failed(ParseErrorView::Expected { expected, found }, 0)
        },
        Err(error) => failed(ParseErrorView::Lexical(error), 0),
    }
}

/// The operators of a `term`: `*`, `/`, `mod`, `div`.
pub open spec fn is_term_op(token: TokenView) -> bool {
    token is Star || token is Slash || token is Mod || token is Div
}

/// The operators of an `expr`: `+`, `-`.
pub open spec fn is_expr_op(token: TokenView) -> bool {
    token is Plus || token is Minus
}

/// The operators of a `condition`. The token `=` is one of them: in a
/// condition it compares, and nowhere else in an expression is it accepted.
pub open spec fn is_condition_op(token: TokenView) -> bool {
    token is Assign || token is NotEqual || token is GreaterThan || token is GreaterThanOrEqual
        || token is LessThan || token is LessThanOrEqual || token is And || token is Or
}

/// The tokens that a statement can start with.
pub open spec fn starts_statement(token: TokenView) -> bool {
    token is Identifier || token is Output || token is If || token is Loop
}

/// The places where a run of statements ends.
#[derive(Debug, Clone, Copy, PartialEq, Eq, Structural)]
pub enum BlockEnd {
    /// The whole program: ends at `Eof`.
    Program,
    /// The statements after `then`: end at `else` or `endif`.
    ThenBranch,
    /// The statements after `else`: end at `endif`.
    ElseBranch,
    /// The body of a loop: ends at `endloop`.
    LoopBody,
}

impl BlockEnd {
    /// Whether `token` ends a run of statements of this kind.
    pub open spec fn closes(self, token: TokenView) -> bool {
        match self {
            BlockEnd::Program => token is Eof,
            BlockEnd::ThenBranch => token is Else || token is EndIf,
            BlockEnd::ElseBranch => token is EndIf,
            BlockEnd::LoopBody => token is EndLoop,
        }
    }
}

/// `factor := Number | String | Identifier | '(' expr ')'`
pub open spec fn factor(tokens: Seq<Scanned>, at: nat) -> Parsed<AstView>
    decreases left(tokens, at), 0nat,
{
    match peek(tokens, at) {
        Ok(info) => match info.token {
            TokenView::Number(value) => found(AstView::Number(value), 1),
            TokenView::String(text) => found(AstView::String(text), 1),
            TokenView::Identifier(name) => found(AstView::Identifier(name), 1),
            TokenView::LParen => {
                let inner = expr(tokens, at + 1);
                match inner.result {
                    Ok(node) => {
                        let close = expect(tokens, at + 1 + inner.used, TokenView::RParen);
                        match close.result {
                            Ok(_) => found(node, 1 + inner.used + close.used),
                            Err(error) => failed(error, 1 + inner.used + close.used),
                        }
                    },
                    Err(error) => failed(error, 1 + inner.used),
                }
            },
            _ => refuse(tokens, at),
        },
        Err(_) => refuse(tokens, at),
    }
}

/// `term := factor (('*' | '/' | 'mod' | 'div') factor)*`
pub open spec fn term(tokens: Seq<Scanned>, at: nat) -> Parsed<AstView>
    decreases left(tokens, at), 1nat,
{
    let first = factor(tokens, at);
    match first.result {
        Ok(node) => after(first.used, term_chain(tokens, at + first.used, node)),
        Err(_) => first,
    }
}

/// The rest of a `term` whose operands so far make up `so_far`.
pub open spec fn term_chain(tokens: Seq<Scanned>, at: nat, so_far: AstView) -> Parsed<AstView>
    decreases left(tokens, at), 0nat,
{
    match peek(tokens, at) {
        Ok(info) => if is_term_op(info.token) {
            let operand = factor(tokens, at + 1);
            match operand.result {
                Ok(node) => after(
                    1 + operand.used,
                    term_chain(
                        tokens,
                        at + 1 + operand.used,
                        AstView::BinOp(Box::new(so_far), info.token, Box::new(node)),
                    ),
                ),
                Err(error) => failed(error, 1 + operand.used),
            }
        } else {
            found(so_far, 0)
        },
        Err(_) => refuse(tokens, at),
    }
}

/// `expr := term (('+' | '-') term)*`
pub open spec fn expr(tokens: Seq<Scanned>, at: nat) -> Parsed<AstView>
    decreases left(tokens, at), 2nat,
{
    let first = term(tokens, at);
    match first.result {
        Ok(node) => after(first.used, expr_chain(tokens, at + first.used, node)),
        Err(_) => first,
    }
}

/// The rest of an `expr` whose operands so far make up `so_far`.
pub open spec fn expr_chain(tokens: Seq<Scanned>, at: nat, so_far: AstView) -> Parsed<AstView>
    decreases left(tokens, at), 0nat,
{
    match peek(tokens, at) {
        Ok(info) => if is_expr_op(info.token) {
            let operand = term(tokens, at + 1);
            match operand.result {
                Ok(node) => after(
                    1 + operand.used,
                    expr_chain(
                        tokens,
                        at + 1 + operand.used,
                        AstView::BinOp(Box::new(so_far), info.token, Box::new(node)),
                    ),
                ),
                Err(error) => failed(error, 1 + operand.used),
            }
        } else {
            found(so_far, 0)
        },
        Err(_) => refuse(tokens, at),
    }
}

/// `condition := expr (relop expr)*`
pub open spec fn condition(tokens: Seq<Scanned>, at: nat) -> Parsed<AstView>
    decreases left(tokens, at), 3nat,
{
    let first = expr(tokens, at);
    match first.result {
        Ok(node) => after(first.used, condition_chain(tokens, at + first.used, node)),
        Err(_) => first,
    }
}

/// The rest of a `condition` whose operands so far make up `so_far`.
pub open spec fn condition_chain(tokens: Seq<Scanned>, at: nat, so_far: AstView) -> Parsed<
    AstView,
>
    decreases left(tokens, at), 0nat,
{
    match peek(tokens, at) {
        Ok(info) => if is_condition_op(info.token) {
            let operand = expr(tokens, at + 1);
            match operand.result {
                Ok(node) => after(
                    1 + operand.used,
                    condition_chain(
                        tokens,
                        at + 1 + operand.used,
                        AstView::BinOp(Box::new(so_far), info.token, Box::new(node)),
                    ),
                ),
                Err(error) => failed(error, 1 + operand.used),
            }
        } else {
            found(so_far, 0)
        },
        Err(_) => refuse(tokens, at),
    }
}

/// What follows the name of an assignment: `'=' expr`.
pub open spec fn assignment_rest(tokens: Seq<Scanned>, at: nat, name: Seq<char>) -> Parsed<
    AstView,
>
    decreases left(tokens, at), 4nat,
{
    let sign = expect(tokens, at, TokenView::Assign);
    match sign.result {
        Ok(_) => {
            let value = expr(tokens, at + 1);
            match value.result {
                Ok(node) => found(AstView::Assignment(name, Box::new(node)), 1 + value.used),
                Err(error) => failed(error, 1 + value.used),
            }
        },
        Err(error) => failed(error, 0),
    }
}

/// What follows `output`: `expr`.
pub open spec fn output_rest(tokens: Seq<Scanned>, at: nat) -> Parsed<AstView>
    decreases left(tokens, at), 4nat,
{
    let value = expr(tokens, at);
    match value.result {
        Ok(node) => found(AstView::Output(Box::new(node)), value.used),
        Err(_) => value,
    }
}

/// What follows `if`: `condition 'then' statement* ('else' statement*)? 'endif'`.
pub open spec fn if_rest(tokens: Seq<Scanned>, at: nat) -> Parsed<AstView>
    decreases left(tokens, at), 4nat,
{
    let test = condition(tokens, at);
    match test.result {
        Ok(test_node) => {
            let then_word = expect(tokens, at + test.used, TokenView::Then);
            match then_word.result {
                Ok(_) => {
                    let then_at = at + test.used + 1;
                    let then_branch = block(tokens, then_at, BlockEnd::ThenBranch);
                    match then_branch.result {
                        Ok(then_nodes) => after(
                            test.used + 1 + then_branch.used,
                            if_tail(tokens, then_at + then_branch.used, test_node, then_nodes),
                        ),
                        Err(error) => failed(error, test.used + 1 + then_branch.used),
                    }
                },
                Err(error) => failed(error, test.used),
            }
        },
        Err(_) => test,
    }
}

/// The end of an `if` after its first branch: `('else' statement*)? 'endif'`.
pub open spec fn if_tail(
    tokens: Seq<Scanned>,
    at: nat,
    test: AstView,
    then_nodes: Seq<AstView>,
) -> Parsed<AstView>
    decreases left(tokens, at), 1nat,
{
    match peek(tokens, at) {
        Ok(info) => if info.token is Else {
            let else_branch = block(tokens, at + 1, BlockEnd::ElseBranch);
            match else_branch.result {
                Ok(else_nodes) => {
                    let close = expect(tokens, at + 1 + else_branch.used, TokenView::EndIf);
                    match close.result {
                        Ok(_) => found(
                            AstView::If(Box::new(test), then_nodes, else_nodes),
                            1 + else_branch.used + 1,
                        ),
                        Err(error) => failed(error, 1 + else_branch.used),
                    }
                },
                Err(error) => failed(error, 1 + else_branch.used),
            }
        } else {
            let close = expect(tokens, at, TokenView::EndIf);
            match close.result {
                Ok(_) => found(AstView::If(Box::new(test), then_nodes, Seq::empty()), 1),
                Err(error) => failed(error, 0),
            }
        },
        Err(_) => refuse(tokens, at),
    }
}

/// What follows `loop`: `'while' condition statement* 'endloop'`.
pub open spec fn loop_rest(tokens: Seq<Scanned>, at: nat) -> Parsed<AstView>
    decreases left(tokens, at), 4nat,
{
    let while_word = expect(tokens, at, TokenView::While);
    match while_word.result {
        Ok(_) => {
            let test = condition(tokens, at + 1);
            match test.result {
                Ok(test_node) => {
                    let body_at = at + 1 + test.used;
                    let body = block(tokens, body_at, BlockEnd::LoopBody);
                    match body.result {
                        Ok(body_nodes) => {
                            let close = expect(tokens, body_at + body.used, TokenView::EndLoop);
                            match close.result {
                                Ok(_) => found(
                                    AstView::Loop(Box::new(test_node), body_nodes),
                                    1 + test.used + body.used + 1,
                                ),
                                Err(error) => failed(error, 1 + test.used + body.used),
                            }
                        },
                        Err(error) => failed(error, 1 + test.used + body.used),
                    }
                },
                Err(error) => failed(error, 1 + test.used),
            }
        },
        Err(error) => failed(error, 0),
    }
}

/// What follows the first token of a statement, which was `head`.
pub open spec fn statement_rest(tokens: Seq<Scanned>, at: nat, head: TokenView) -> Parsed<
    AstView,
>
    decreases left(tokens, at), 5nat,
{
    match head {
        TokenView::Identifier(name) => assignment_rest(tokens, at, name),
        TokenView::Output => output_rest(tokens, at),
        TokenView::If => if_rest(tokens, at),
        _ => loop_rest(tokens, at),
    }
}

/// `statement := assignment | output | if | loop`, told apart by the first token.
pub open spec fn statement(tokens: Seq<Scanned>, at: nat) -> Parsed<AstView> {
    match peek(tokens, at) {
        Ok(info) => if starts_statement(info.token) {
            after(1, statement_rest(tokens, at + 1, info.token))
        } else {
            refuse(tokens, at)
        },
        Err(_) => refuse(tokens, at),
    }
}

/// `statement*` up to a token that ends the run, which is left in place.
pub open spec fn block(tokens: Seq<Scanned>, at: nat, end: BlockEnd) -> Parsed<Seq<AstView>>
    decreases left(tokens, at), 0nat,
{
    match peek(tokens, at) {
        Ok(info) => if end.closes(info.token) {
            found(Seq::empty(), 0)
        } else if starts_statement(info.token) {
            let first = statement_rest(tokens, at + 1, info.token);
            match first.result {
                Ok(node) => {
                    let others = block(tokens, at + 1 + first.used, end);
                    match others.result {
                        Ok(nodes) => found(seq![node] + nodes, 1 + first.used + others.used),
                        Err(error) => failed(error, 1 + first.used + others.used),
                    }
                },
                Err(error) => failed(error, 1 + first.used),
            }
        } else {
            refuse(tokens, at)
        },
        Err(_) => refuse(tokens, at),
    }
}

/// `program := statement* Eof`
pub open spec fn program(tokens: Seq<Scanned>, at: nat) -> Parsed<AstView> {
    let statements = block(tokens, at, BlockEnd::Program);
    match statements.result {
        Ok(nodes) => found(AstView::Program(nodes), statements.used),
        Err(error) => failed(error, statements.used),
    }
}

} // verus!
