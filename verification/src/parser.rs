//! The recursive-descent parser: one pass over the tokens, one token of
//! lookahead, one tree or the first error.

use vstd::prelude::*;
use vstd::string::StringExecFns;
use crate::ast::{lemma_models_push, models, AstNode, AstView};
use crate::grammar;
use crate::decimal::natural_string;
use crate::grammar::{after, left, peek, place, BlockEnd, ParseErrorView, Parsed};
use crate::lexer::{
    lexed_view, more_after, name_of, tokens_from, LexError, Lexer, Scanned, Token, TokenInfo,
};

verus! {

/// Why a token stream is not a program.
#[derive(Debug)]
pub enum ParseError {
    /// The lexer failed where the next token was due.
    Lexical(LexError),
    /// The rule in hand wanted `expected` and `found` stood there instead.
    Expected { expected: Token, found: TokenInfo },
    /// No rule starts with the token found.
    Unexpected { found: TokenInfo },
}

impl View for ParseError {
    type V = ParseErrorView;

    open spec fn view(&self) -> ParseErrorView {
        match self {
            ParseError::Lexical(error) => ParseErrorView::Lexical(*error),
            ParseError::Expected { expected, found } => ParseErrorView::Expected {
                expected: expected@,
                found: found@,
            },
            ParseError::Unexpected { found } => ParseErrorView::Unexpected { found: found@ },
        }
    }
}

/// Appends to `message` the words that say where `found` was found.
fn push_place(message: &mut String, found: &TokenInfo)
    ensures
        final(message)@ == old(message)@ + place(found@),
{
    let ghost start = message@;
    message.append(" at line ");
    message.append(natural_string(found.line as u64).as_str());
    message.append(", column ");
    message.append(natural_string(found.column as u64).as_str());
    assert(message@ =~= start + place(found@));
}

impl ParseError {
    /// The diagnostic for this error.
    pub fn message(&self) -> (message: String)
        ensures
            message@ == self@.text(),
    {
        match self {
            ParseError::Lexical(error) => error.message(),
            ParseError::Expected { expected, found } => {
                let mut message = "Expected ".to_owned();
                message.append(name_of(expected).as_str());
                message.append(", got ");
                message.append(name_of(&found.token).as_str());
                push_place(&mut message, found);
                message
            },
            ParseError::Unexpected { found } => {
                let mut message = "Unexpected token: ".to_owned();
                message.append(name_of(&found.token).as_str());
                push_place(&mut message, found);
                message
            },
        }
    }
}

/// The outcome of parsing one node, as a mathematical value.
pub open spec fn node_view(parsed: Result<AstNode, ParseError>) -> Result<AstView, ParseErrorView> {
    match parsed {
        Ok(node) => Ok(node@),
        Err(error) => Err(error@),
    }
}

/// The outcome of parsing a run of nodes, as a mathematical value.
pub open spec fn nodes_view(parsed: Result<Vec<AstNode>, ParseError>) -> Result<
    Seq<AstView>,
    ParseErrorView,
> {
    match parsed {
        Ok(nodes) => Ok(models(nodes@)),
        Err(error) => Err(error@),
    }
}

/// The outcome of taking one token, as a mathematical value.
pub open spec fn unit_view(parsed: Result<(), ParseError>) -> Result<(), ParseErrorView> {
    match parsed {
        Ok(_) => Ok(()),
        Err(error) => Err(error@),
    }
}

/// The mathematical state of a [`Parser`]: the token stream that its lexer
/// gives, and how many tokens of it are behind the parser.
pub struct ParserView {
    pub tokens: Seq<Scanned>,
    pub at: nat,
}

/// A parser that went from `before` to `now` with `result` did what `rule` says:
/// same stream, `rule.used` tokens further, the same value or error.
pub open spec fn follows<T>(
    before: ParserView,
    now: ParserView,
    result: Result<T, ParseErrorView>,
    rule: Parsed<T>,
) -> bool {
    &&& now.tokens == before.tokens
    &&& now.at == before.at + rule.used
    &&& result == rule.result
}

/// Builds the syntax tree of a program from the tokens of a lexer.
pub struct Parser {
    lexer: Lexer,
    /// The lookahead: what the lexer gave last, be it a token or an error. An
    /// error is kept here until a rule looks at it.
    current: Result<TokenInfo, LexError>,
    /// Set while the condition of an `if` or a `loop` is being parsed.
    in_condition: bool,
    tokens: Ghost<Seq<Scanned>>,
    at: Ghost<nat>,
}

impl View for Parser {
    type V = ParserView;

    closed spec fn view(&self) -> ParserView {
        ParserView { tokens: self.tokens@, at: self.at@ }
    }
}

/// Whether `token` ends a run of statements of the kind `end`.
fn ends_block(end: BlockEnd, token: &Token) -> (closes: bool)
    ensures
        closes == end.closes(token@),
{
    match end {
        BlockEnd::Program => matches!(token, Token::Eof),
        BlockEnd::ThenBranch => matches!(token, Token::Else) || matches!(token, Token::EndIf),
        BlockEnd::ElseBranch => matches!(token, Token::EndIf),
        BlockEnd::LoopBody => matches!(token, Token::EndLoop),
    }
}

impl Parser {
    /// The parser stands between two statements: it is [`reading`](Self::reading)
    /// and not inside a condition.
    pub closed spec fn well_formed(&self) -> bool {
        self.reading() && !self.in_condition
    }

    /// The lookahead is the token at the parser's position, and the lexer
    /// stands ready to give the tokens after it.
    pub closed spec fn reading(&self) -> bool {
        &&& self.at@ < self.tokens@.len()
        &&& self.tokens@[self.at@ as int] == lexed_view(self.current)
        &&& if more_after(lexed_view(self.current)) {
            self.tokens@.skip(self.at@ as int + 1) == tokens_from(self.lexer@)
        } else {
            self.at@ + 1 == self.tokens@.len()
        }
    }

    /// A parser at the first token of what `lexer` still has to give.
    pub fn new(lexer: Lexer) -> (parser: Parser)
        ensures
            parser.well_formed(),
            parser@.tokens == tokens_from(lexer@),
            parser@.at == 0,
    {
        let mut lexer = lexer;
        let ghost stream = tokens_from(lexer@);
        let current = lexer.get_next_token();
        proof {
            assert(stream.skip(1) =~= if more_after(lexed_view(current)) {
                tokens_from(lexer@)
            } else {
                Seq::empty()
            });
        }
        Parser { lexer, current, in_condition: false, tokens: Ghost(stream), at: Ghost(0) }
    }

    /// Moves to the next token. At `Eof`, and at an error, the parser stays.
    fn advance(&mut self)
        requires
            old(self).reading(),
        ensures
            final(self).reading(),
            final(self).in_condition == old(self).in_condition,
            final(self)@.tokens == old(self)@.tokens,
            final(self)@.at == old(self)@.at + if more_after(peek(old(self)@.tokens, old(self)@.at)) {
                1nat
            } else {
                0nat
            },
    {
        let more = match &self.current {
            Ok(info) => !matches!(info.token, Token::Eof),
            Err(_) => false,
        };
        if more {
            let ghost earlier = self.lexer@;
            let next = self.lexer.get_next_token();
            proof {
                let rest = self.tokens@.skip(self.at@ as int + 1);
                assert(rest == tokens_from(earlier));
                assert(rest[0] == lexed_view(next));
                assert(self.tokens@[self.at@ as int + 1] == rest[0]);
                assert(self.tokens@.skip(self.at@ as int + 2) =~= rest.skip(1));
                assert(rest.skip(1) =~= if more_after(lexed_view(next)) {
                    tokens_from(self.lexer@)
                } else {
                    Seq::empty()
                });
            }
            self.current = next;
            self.at = Ghost((self.at@ + 1) as nat);
        }
    }

    /// The error for a lookahead that no rule can start with.
    fn refuse(&self) -> (error: ParseError)
        requires
            self.reading(),
        ensures
            Err::<AstView, ParseErrorView>(error@) == grammar::refuse::<AstView>(
                self@.tokens,
                self@.at,
            ).result,
    {
        match &self.current {
            Ok(info) => ParseError::Unexpected { found: info.clone() },
            Err(error) => ParseError::Lexical(*error),
        }
    }

    /// Takes the lookahead if it is `token`, and fails otherwise.
    fn eat(&mut self, token: Token) -> (taken: Result<(), ParseError>)
        requires
            old(self).reading(),
        ensures
            final(self).reading(),
            final(self).in_condition == old(self).in_condition,
            follows(
                old(self)@,
                final(self)@,
                unit_view(taken),
                grammar::expect(old(self)@.tokens, old(self)@.at, token@),
            ),
    {
        match &self.current {
            Ok(info) => {
                if info.token == token {
                    self.advance();
                    Ok(())
                } else {
                    Err(ParseError::Expected { expected: token, found: info.clone() })
                }
            },
            Err(error) => Err(ParseError::Lexical(*error)),
        }
    }
    /// `factor := Number | String | Identifier | '(' expr ')'`
    fn factor(&mut self) -> (parsed: Result<AstNode, ParseError>)
        requires
            old(self).reading(),
        ensures
            final(self).reading(),
            final(self).in_condition == old(self).in_condition,
            follows(
                old(self)@,
                final(self)@,
                node_view(parsed),
                grammar::factor(old(self)@.tokens, old(self)@.at),
            ),
        decreases left(old(self)@.tokens, old(self)@.at), 0nat,
    {
        match &self.current {
            Ok(info) => match &info.token {
                Token::Number(value) => {
                    let value = *value;
                    self.advance();
                    Ok(AstNode::Number(value))
                },
                Token::String(text) => {
                    let text = text.clone();
                    self.advance();
                    Ok(AstNode::String(text))
                },
                Token::Identifier(name) => {
                    let name = name.clone();
                    self.advance();
                    Ok(AstNode::Identifier(name))
                },
                Token::LParen => {
                    self.advance();
                    match self.expr() {
                        Ok(node) => match self.eat(Token::RParen) {
                            Ok(_) => Ok(node),
                            Err(error) => Err(error),
                        },
                        Err(error) => Err(error),
                    }
                },
                _ => Err(self.refuse()),
            },
            Err(_) => Err(self.refuse()),
        }
    }

    /// `term := factor (('*' | '/' | 'mod' | 'div') factor)*`, associating to the left.
    fn term(&mut self) -> (parsed: Result<AstNode, ParseError>)
        requires
            old(self).reading(),
        ensures
            final(self).reading(),
            final(self).in_condition == old(self).in_condition,
            follows(
                old(self)@,
                final(self)@,
                node_view(parsed),
                grammar::term(old(self)@.tokens, old(self)@.at),
            ),
        decreases left(old(self)@.tokens, old(self)@.at), 1nat,
    {
        let mut node = match self.factor() {
            Ok(node) => node,
            Err(error) => {
                return Err(error);
            },
        };
        loop
            invariant
                self.reading(),
                self.in_condition == old(self).in_condition,
                self@.tokens == old(self)@.tokens,
                self@.at >= old(self)@.at,
                grammar::term(old(self)@.tokens, old(self)@.at) == after(
                    (self@.at - old(self)@.at) as nat,
                    grammar::term_chain(self@.tokens, self@.at, node@),
                ),
            decreases left(self@.tokens, self@.at),
        {
            let op = match &self.current {
                Ok(info) => match &info.token {
                    Token::Star => Token::Star,
                    Token::Slash => Token::Slash,
                    Token::Mod => Token::Mod,
                    Token::Div => Token::Div,
                    _ => {
                        return Ok(node);
                    },
                },
                Err(_) => {
                    return Err(self.refuse());
                },
            };
            self.advance();
            match self.factor() {
                Ok(right) => {
                    node = AstNode::BinOp(Box::new(node), op, Box::new(right));
                },
                Err(error) => {
                    return Err(error);
                },
            }
        }
    }

    /// `expr := term (('+' | '-') term)*`, associating to the left.
    fn expr(&mut self) -> (parsed: Result<AstNode, ParseError>)
        requires
            old(self).reading(),
        ensures
            final(self).reading(),
            final(self).in_condition == old(self).in_condition,
            follows(
                old(self)@,
                final(self)@,
                node_view(parsed),
                grammar::expr(old(self)@.tokens, old(self)@.at),
            ),
        decreases left(old(self)@.tokens, old(self)@.at), 2nat,
    {
        let mut node = match self.term() {
            Ok(node) => node,
            Err(error) => {
                return Err(error);
            },
        };
        loop
            invariant
                self.reading(),
                self.in_condition == old(self).in_condition,
                self@.tokens == old(self)@.tokens,
                self@.at >= old(self)@.at,
                grammar::expr(old(self)@.tokens, old(self)@.at) == after(
                    (self@.at - old(self)@.at) as nat,
                    grammar::expr_chain(self@.tokens, self@.at, node@),
                ),
            decreases left(self@.tokens, self@.at),
        {
            let op = match &self.current {
                Ok(info) => match &info.token {
                    Token::Plus => Token::Plus,
                    Token::Minus => Token::Minus,
                    _ => {
                        return Ok(node);
                    },
                },
                Err(_) => {
                    return Err(self.refuse());
                },
            };
            self.advance();
            match self.term() {
                Ok(right) => {
                    node = AstNode::BinOp(Box::new(node), op, Box::new(right));
                },
                Err(error) => {
                    return Err(error);
                },
            }
        }
    }

    /// `condition := expr (relop expr)*`, associating to the left. Here, and
    /// only here, the token `=` is an operator: it compares. The parser is
    /// inside a condition whenever this rule is at work.
    fn boolean_expr(&mut self) -> (parsed: Result<AstNode, ParseError>)
        requires
            old(self).reading(),
            old(self).in_condition,
        ensures
            final(self).reading(),
            final(self).in_condition,
            follows(
                old(self)@,
                final(self)@,
                node_view(parsed),
                grammar::condition(old(self)@.tokens, old(self)@.at),
            ),
        decreases left(old(self)@.tokens, old(self)@.at), 3nat,
    {
        let mut node = match self.expr() {
            Ok(node) => node,
            Err(error) => {
                return Err(error);
            },
        };
        loop
            invariant
                self.reading(),
                self.in_condition,
                self@.tokens == old(self)@.tokens,
                self@.at >= old(self)@.at,
                grammar::condition(old(self)@.tokens, old(self)@.at) == after(
                    (self@.at - old(self)@.at) as nat,
                    grammar::condition_chain(self@.tokens, self@.at, node@),
                ),
            decreases left(self@.tokens, self@.at),
        {
            let op = match &self.current {
                Ok(info) => match &info.token {
                    Token::Assign => Token::Assign,
                    Token::NotEqual => Token::NotEqual,
                    Token::GreaterThan => Token::GreaterThan,
                    Token::GreaterThanOrEqual => Token::GreaterThanOrEqual,
                    Token::LessThan => Token::LessThan,
                    Token::LessThanOrEqual => Token::LessThanOrEqual,
                    Token::And => Token::And,
                    Token::Or => Token::Or,
                    _ => {
                        return Ok(node);
                    },
                },
                Err(_) => {
                    return Err(self.refuse());
                },
            };
            self.advance();
            match self.expr() {
                Ok(right) => {
                    node = AstNode::BinOp(Box::new(node), op, Box::new(right));
                },
                Err(error) => {
                    return Err(error);
                },
            }
        }
    }
    /// `statement*` up to a token that ends the run, which is left in place.
    fn statements_until(&mut self, end: BlockEnd) -> (parsed: Result<Vec<AstNode>, ParseError>)
        requires
            old(self).well_formed(),
        ensures
            final(self).well_formed(),
            follows(
                old(self)@,
                final(self)@,
                nodes_view(parsed),
                grammar::block(old(self)@.tokens, old(self)@.at, end),
            ),
        decreases left(old(self)@.tokens, old(self)@.at), 7nat,
    {
        let mut nodes: Vec<AstNode> = Vec::new();
        loop
            invariant
                self.well_formed(),
                self@.tokens == old(self)@.tokens,
                self@.at >= old(self)@.at,
                ({
                    let whole = grammar::block(old(self)@.tokens, old(self)@.at, end);
                    let rest = grammar::block(self@.tokens, self@.at, end);
                    &&& whole.used == (self@.at - old(self)@.at) + rest.used
                    &&& whole.result == match rest.result {
                        Ok(others) => Ok(models(nodes@) + others),
                        Err(error) => Err(error),
                    }
                }),
            decreases left(self@.tokens, self@.at),
        {
            match &self.current {
                Ok(info) => {
                    if ends_block(end, &info.token) {
                        assert(models(nodes@) + Seq::<AstView>::empty() =~= models(nodes@));
                        return Ok(nodes);
                    }
                },
                Err(_) => {
                    return Err(self.refuse());
                },
            }
            match self.statement() {
                Ok(node) => {
                    proof {
                        lemma_models_push(nodes@, node);
                        let rest = grammar::block(self@.tokens, self@.at, end);
                        if rest.result is Ok {
                            assert(models(nodes@) + (seq![node@] + rest.result->Ok_0) =~= models(
                                nodes@,
                            ).push(node@) + rest.result->Ok_0);
                        }
                    }
                    nodes.push(node);
                },
                Err(error) => {
                    return Err(error);
                },
            }
        }
    }

    /// `statement := assignment | output | if | loop`, told apart by the first token.
    fn statement(&mut self) -> (parsed: Result<AstNode, ParseError>)
        requires
            old(self).well_formed(),
        ensures
            final(self).well_formed(),
            follows(
                old(self)@,
                final(self)@,
                node_view(parsed),
                grammar::statement(old(self)@.tokens, old(self)@.at),
            ),
        decreases left(old(self)@.tokens, old(self)@.at), 6nat,
    {
        match &self.current {
            Ok(info) => match &info.token {
                Token::Identifier(_) => self.assignment_statement(),
                Token::Output => self.output_statement(),
                Token::If => self.if_statement(),
                Token::Loop => self.loop_statement(),
                _ => Err(self.refuse()),
            },
            Err(_) => Err(self.refuse()),
        }
    }

    /// `Identifier '=' expr`
    fn assignment_statement(&mut self) -> (parsed: Result<AstNode, ParseError>)
        requires
            old(self).well_formed(),
            peek(old(self)@.tokens, old(self)@.at) matches Ok(info) && info.token is Identifier,
        ensures
            final(self).well_formed(),
            follows(
                old(self)@,
                final(self)@,
                node_view(parsed),
                grammar::statement(old(self)@.tokens, old(self)@.at),
            ),
        decreases left(old(self)@.tokens, old(self)@.at), 5nat,
    {
        let name = match &self.current {
            Ok(info) => match &info.token {
                Token::Identifier(name) => name.clone(),
                _ => {
                    return Err(self.refuse());
                },
            },
            Err(_) => {
                return Err(self.refuse());
            },
        };
        self.advance();
        match self.eat(Token::Assign) {
            Ok(_) => match self.expr() {
                Ok(value) => Ok(AstNode::Assignment(name, Box::new(value))),
                Err(error) => Err(error),
            },
            Err(error) => Err(error),
        }
    }

    /// `'output' expr`
    fn output_statement(&mut self) -> (parsed: Result<AstNode, ParseError>)
        requires
            old(self).well_formed(),
            peek(old(self)@.tokens, old(self)@.at) matches Ok(info) && info.token is Output,
        ensures
            final(self).well_formed(),
            follows(
                old(self)@,
                final(self)@,
                node_view(parsed),
                grammar::statement(old(self)@.tokens, old(self)@.at),
            ),
        decreases left(old(self)@.tokens, old(self)@.at), 5nat,
    {
        match self.eat(Token::Output) {
            Ok(_) => match self.expr() {
                Ok(value) => Ok(AstNode::Output(Box::new(value))),
                Err(error) => Err(error),
            },
            Err(error) => Err(error),
        }
    }

    /// `'if' condition 'then' statement* ('else' statement*)? 'endif'`
    fn if_statement(&mut self) -> (parsed: Result<AstNode, ParseError>)
        requires
            old(self).well_formed(),
            peek(old(self)@.tokens, old(self)@.at) matches Ok(info) && info.token is If,
        ensures
            final(self).well_formed(),
            follows(
                old(self)@,
                final(self)@,
                node_view(parsed),
                grammar::statement(old(self)@.tokens, old(self)@.at),
            ),
        decreases left(old(self)@.tokens, old(self)@.at), 5nat,
    {
        match self.eat(Token::If) {
            Ok(_) => {},
            Err(error) => {
                return Err(error);
            },
        }
        self.in_condition = true;
        let test = self.boolean_expr();
        self.in_condition = false;
        let test = match test {
            Ok(node) => node,
            Err(error) => {
                return Err(error);
            },
        };
        match self.eat(Token::Then) {
            Ok(_) => {},
            Err(error) => {
                return Err(error);
            },
        }
        let then_branch = match self.statements_until(BlockEnd::ThenBranch) {
            Ok(nodes) => nodes,
            Err(error) => {
                return Err(error);
            },
        };
        let has_else = match &self.current {
            Ok(info) => matches!(info.token, Token::Else),
            Err(_) => {
                return Err(self.refuse());
            },
        };
        let else_branch = if has_else {
            self.advance();
            match self.statements_until(BlockEnd::ElseBranch) {
                Ok(nodes) => nodes,
                Err(error) => {
                    return Err(error);
                },
            }
        } else {
            Vec::new()
        };
        match self.eat(Token::EndIf) {
            Ok(_) => {
                assert(models(else_branch@) =~= if has_else {
                    models(else_branch@)
                } else {
                    Seq::empty()
                });
                Ok(AstNode::If(Box::new(test), then_branch, else_branch))
            },
            Err(error) => Err(error),
        }
    }

    /// `'loop' 'while' condition statement* 'endloop'`
    fn loop_statement(&mut self) -> (parsed: Result<AstNode, ParseError>)
        requires
            old(self).well_formed(),
            peek(old(self)@.tokens, old(self)@.at) matches Ok(info) && info.token is Loop,
        ensures
            final(self).well_formed(),
            follows(
                old(self)@,
                final(self)@,
                node_view(parsed),
                grammar::statement(old(self)@.tokens, old(self)@.at),
            ),
        decreases left(old(self)@.tokens, old(self)@.at), 5nat,
    {
        match self.eat(Token::Loop) {
            Ok(_) => {},
            Err(error) => {
                return Err(error);
            },
        }
        match self.eat(Token::While) {
            Ok(_) => {},
            Err(error) => {
                return Err(error);
            },
        }
        self.in_condition = true;
        let test = self.boolean_expr();
        self.in_condition = false;
        let test = match test {
            Ok(node) => node,
            Err(error) => {
                return Err(error);
            },
        };
        let body = match self.statements_until(BlockEnd::LoopBody) {
            Ok(nodes) => nodes,
            Err(error) => {
                return Err(error);
            },
        };
        match self.eat(Token::EndLoop) {
            Ok(_) => Ok(AstNode::Loop(Box::new(test), body)),
            Err(error) => Err(error),
        }
    }

    /// Parses a whole program: `statement* Eof`.
    ///
    /// Gives the tree that the grammar assigns to the tokens from the parser's
    /// position on, or the first error, and leaves the parser where the grammar
    /// stopped reading.
    pub fn parse(&mut self) -> (parsed: Result<AstNode, ParseError>)
        requires
            old(self).well_formed(),
        ensures
            final(self).well_formed(),
            follows(
                old(self)@,
                final(self)@,
                node_view(parsed),
                grammar::program(old(self)@.tokens, old(self)@.at),
            ),
    {
        match self.statements_until(BlockEnd::Program) {
            Ok(nodes) => Ok(AstNode::Program(nodes)),
            Err(error) => Err(error),
        }
    }
}

} // verus!
