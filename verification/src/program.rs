//! From source text to a tree, to output, or to an outline: the pipeline of
//! lexer, parser and interpreter in one call.

use vstd::prelude::*;
use crate::ast::{AstNode, AstView};
use crate::chars::texts;
use crate::grammar;
use crate::grammar::ParseErrorView;
use crate::interpreter::Interpreter;
use crate::lexer::{tokens_from, Lexer, LexerView};
use crate::parser::{node_view, ParseError, Parser};
use crate::render::{indentation, render};
use crate::semantics::{run, RuntimeError, State};

verus! {

/// Why a source text gave no output, or not all of it.
#[derive(Debug)]
pub enum Failure {
    /// The text is not a program.
    Syntax(ParseError),
    /// The program stopped before its end.
    Runtime(RuntimeError),
}

/// The mathematical value of a [`Failure`].
pub enum FailureView {
    Syntax(ParseErrorView),
    Runtime(RuntimeError),
}

impl FailureView {
    /// The diagnostic for this failure.
    pub open spec fn text(self) -> Seq<char> {
        match self {
            FailureView::Syntax(error) => error.text(),
            FailureView::Runtime(error) => error.text(),
        }
    }
}

impl Failure {
    /// The diagnostic for this failure.
    pub fn message(&self) -> (message: String)
        ensures
            message@ == self@.text(),
    {
        match self {
            Failure::Syntax(error) => error.message(),
            Failure::Runtime(error) => error.message(),
        }
    }
}

impl View for Failure {
    type V = FailureView;

    open spec fn view(&self) -> FailureView {
        match self {
            Failure::Syntax(error) => FailureView::Syntax(error@),
            Failure::Runtime(error) => FailureView::Runtime(*error),
        }
    }
}

/// What running a source text gave: the lines put out, oldest first, and the
/// failure that ended the run, if one did.
#[derive(Debug)]
pub struct Report {
    pub output: Vec<String>,
    pub failure: Option<Failure>,
}

/// The mathematical value of a [`Report`].
pub struct ReportView {
    pub output: Seq<Seq<char>>,
    pub failure: Option<FailureView>,
}

impl View for Report {
    type V = ReportView;

    open spec fn view(&self) -> ReportView {
        ReportView {
            output: texts(self.output@),
            failure: match self.failure {
                Some(failure) => Some(failure@),
                None => None,
            },
        }
    }
}

/// The tree that a source text spells, or the first error in it.
pub open spec fn syntax_tree(source: Seq<char>) -> Result<AstView, ParseErrorView> {
    grammar::program(tokens_from(LexerView::start(source)), 0).result
}

/// What a source text does when it is run from a fresh state. A text that
/// is not a program puts out nothing.
pub open spec fn report_of(source: Seq<char>, loop_limit: nat) -> ReportView {
    match syntax_tree(source) {
        Ok(tree) => {
            let outcome = run(State::fresh(loop_limit), tree);
            ReportView {
                output: outcome.state.output,
                failure: match outcome.result {
                    Ok(_) => None,
                    Err(error) => Some(FailureView::Runtime(error)),
                },
            }
        },
        Err(error) => ReportView { output: Seq::empty(), failure: Some(FailureView::Syntax(error)) },
    }
}

/// The outline of a source text: the lines of its tree, the root unindented.
pub open spec fn outline(source: Seq<char>) -> Result<Seq<Seq<char>>, ParseErrorView> {
    match syntax_tree(source) {
        Ok(tree) => Ok(render(tree, indentation(0))),
        Err(error) => Err(error),
    }
}

/// Parses a source text.
pub fn parse_source(source: &str) -> (parsed: Result<AstNode, ParseError>)
    ensures
        node_view(parsed) == syntax_tree(source@),
{
    let lexer = Lexer::new(source);
    let mut parser = Parser::new(lexer);
    parser.parse()
}

/// Parses a source text and runs it from a fresh state, in which a loop may
/// take `loop_limit` rounds.
///
/// The report depends on the text and the limit alone: the same text gives the
/// same lines and the same end, however often it is run.
pub fn run_source(source: &str, loop_limit: u64) -> (report: Report)
    ensures
        report@ == report_of(source@, loop_limit as nat),
{
    match parse_source(source) {
        Ok(tree) => {
            let mut interpreter = Interpreter::with_loop_limit(loop_limit);
            let result = interpreter.interpret(&tree);
            let failure = match result {
                Ok(_) => None,
                Err(error) => Some(Failure::Runtime(error)),
            };
            Report { output: interpreter.into_output(), failure }
        },
        Err(error) => {
            let output: Vec<String> = Vec::new();
            assert(texts(output@) =~= Seq::<Seq<char>>::empty());
            Report { output, failure: Some(Failure::Syntax(error)) }
        },
    }
}

/// Parses a source text and prints its tree, running nothing.
pub fn print_source(source: &str) -> (printed: Result<Vec<String>, ParseError>)
    ensures
        match printed {
            Ok(lines) => outline(source@) == Ok::<Seq<Seq<char>>, ParseErrorView>(texts(lines@)),
            Err(error) => outline(source@) == Err::<Seq<Seq<char>>, ParseErrorView>(error@),
        },
{
    match parse_source(source) {
        Ok(tree) => Ok(Interpreter::new().print_ast(&tree, 0)),
        Err(error) => Err(error),
    }
}

} // verus!
