//! What holds of every program: theorems about the lexer, the grammar and the
//! meaning of programs, proved from their definitions.

use vstd::prelude::*;
use crate::ast::AstView;
use crate::chars::is_digit;
use crate::decimal::{digits_of, lemma_decimal_round_trip, lemma_digits_of_are_digits};
use crate::execution::{finish, finish_frame, FrameView};
use crate::grammar::{block, left, peek, program, BlockEnd};
use crate::lexer::{
    lemma_next_token_progress, more_after, tokens_from, LexError, LexerView, Run, Scanned,
    TokenInfoView, TokenView,
};
use crate::program::{report_of, ReportView};
use crate::render::printed;
use crate::semantics::{apply, eval, run, run_from, run_loop, Outcome, RuntimeError, State};

verus! {

/// Running is deterministic: two runs of the same source text, each from a
/// fresh state with the same loop limit, put out the same lines and end in
/// the same way.
pub proof fn lemma_same_text_same_output(
    source: Seq<char>,
    loop_limit: nat,
    first: ReportView,
    second: ReportView,
)
    requires
        first == report_of(source, loop_limit),
        second == report_of(source, loop_limit),
    ensures
        first.output == second.output,
        first.failure == second.failure,
{
}

/// Printing has no side effect: it leaves the state of the interpreter as it
/// was, so a tree runs after it was printed exactly as it runs unprinted.
pub proof fn lemma_printing_changes_nothing(state: State, tree: AstView, depth: nat)
    ensures
        printed(state, tree, depth).state == state,
        run(printed(state, tree, depth).state, tree) == run(state, tree),
{
}

/// No operator skips an operand, `and` and `or` included: a binary operation
/// has a value only if both operands have one, the error of the left operand
/// comes before that of the right, and the right operand's error comes out
/// whatever value the left one has.
pub proof fn lemma_both_operands_are_evaluated(
    vars: Map<Seq<char>, i64>,
    in_condition: bool,
    left: AstView,
    op: TokenView,
    right: AstView,
)
    ensures
        ({
            let whole = eval(
                vars,
                in_condition,
                AstView::BinOp(Box::new(left), op, Box::new(right)),
            );
            let a = eval(vars, in_condition, left);
            let b = eval(vars, in_condition, right);
            &&& whole is Ok ==> a is Ok && b is Ok
            &&& a is Err ==> whole == a
            &&& a is Ok && b is Err ==> whole == b
            &&& a is Ok && b is Ok ==> whole == apply(op, in_condition, a->Ok_0, b->Ok_0)
        }),
{
}

/// Once the lexer has given `Eof` it gives the same `Eof` at every later
/// request, and stays where it is.
pub proof fn lemma_eof_is_final(lexer: LexerView)
    requires
        lexer.next_token().result matches Ok(info) && info.token == TokenView::Eof,
    ensures
        lexer.next_token().rest.next_token() == lexer.next_token(),
{
    let at = lexer.advance_while(Run::Blanks);
    assert(at.current() is None);
    assert(at.advance_while(Run::Blanks) == at);
}

/// A stream of tokens has one end: its last element is `Eof` or an error, and
/// every element before the last is a token other than `Eof`.
pub proof fn lemma_stream_has_one_end(lexer: LexerView)
    ensures
        tokens_from(lexer).len() >= 1,
        !more_after(tokens_from(lexer).last()),
        forall|i: int|
            0 <= i < tokens_from(lexer).len() - 1 ==> more_after(#[trigger] tokens_from(lexer)[i]),
    decreases lexer.remaining(),
{
    let lexed = lexer.next_token();
    if more_after(lexed.result) {
        lemma_next_token_progress(lexer);
        lemma_stream_has_one_end(lexed.rest);
        let tail = tokens_from(lexed.rest);
        let whole = tokens_from(lexer);
        assert(whole =~= seq![lexed.result] + tail);
        assert(whole.last() == tail.last());
        assert forall|i: int| 0 <= i < whole.len() - 1 implies more_after(#[trigger] whole[i]) by {
            if i > 0 {
                assert(whole[i] == tail[i - 1]);
            }
        }
    }
}

/// A run of statements that was parsed stops in front of a token that ends it.
pub proof fn lemma_block_stops_at_its_end(tokens: Seq<Scanned>, at: nat, end: BlockEnd)
    requires
        block(tokens, at, end).result is Ok,
    ensures
        peek(tokens, at + block(tokens, at, end).used) matches Ok(info) && end.closes(info.token),
    decreases left(tokens, at),
{
    let here = peek(tokens, at);
    if here matches Ok(info) && !end.closes(info.token) {
        let first = crate::grammar::statement_rest(tokens, at + 1, here->Ok_0.token);
        lemma_block_stops_at_its_end(tokens, at + 1 + first.used, end);
    }
}

/// A program that was parsed was read to its end: the token after it is `Eof`.
pub proof fn lemma_program_is_read_to_the_end(tokens: Seq<Scanned>, at: nat)
    requires
        program(tokens, at).result is Ok,
    ensures
        peek(tokens, at + program(tokens, at).used) matches Ok(info) && info.token is Eof,
{
    lemma_block_stops_at_its_end(tokens, at, BlockEnd::Program);
}

/// The first error ends a run: when a statement fails, the statements after
/// it leave no trace, and the run ends as that statement did.
pub proof fn lemma_first_error_ends_the_run(state: State, statements: Seq<AstView>, from: nat)
    requires
        from < statements.len(),
        run(state, statements[from as int]).result is Err,
    ensures
        run_from(state, statements, from) == run(state, statements[from as int]),
{
}

/// `state` with another loop limit.
pub open spec fn with_limit(state: State, limit: nat) -> State {
    State { loop_limit: limit, ..state }
}

/// `outcome` with another loop limit in its state.
pub open spec fn lifted(outcome: Outcome, limit: nat) -> Outcome {
    Outcome { state: with_limit(outcome.state, limit), result: outcome.result }
}

/// The loop limit is only a limit: a run that does not reach it goes the same
/// way under every larger one, and no run changes the limit.
pub proof fn lemma_larger_limit_changes_nothing(state: State, node: AstView, limit: nat)
    requires
        limit >= state.loop_limit,
        run(state, node).result != Err::<(), RuntimeError>(RuntimeError::LoopLimitReached),
    ensures
        run(with_limit(state, limit), node) == lifted(run(state, node), limit),
        run(state, node).state.loop_limit == state.loop_limit,
    decreases node, 0nat, 0nat,
{
    match node {
        AstView::Program(statements) => {
            lemma_larger_limit_changes_nothing_for_statements(state, statements, 0, limit);
        },
        AstView::If(test, then_branch, else_branch) => {
            if state.test(*test) is Ok {
                let inner = state.condition(false);
                assert(with_limit(state, limit).condition(false) == with_limit(inner, limit));
                if state.test(*test)->Ok_0 != 0 {
                    lemma_larger_limit_changes_nothing_for_statements(inner, then_branch, 0, limit);
                } else {
                    lemma_larger_limit_changes_nothing_for_statements(inner, else_branch, 0, limit);
                }
            }
        },
        AstView::Loop(test, body) => {
            lemma_larger_limit_changes_nothing_for_loops(
                state,
                *test,
                body,
                state.loop_limit,
                limit,
                limit,
            );
        },
        _ => {},
    }
}

/// [`lemma_larger_limit_changes_nothing`] for the statements from `from` on.
pub proof fn lemma_larger_limit_changes_nothing_for_statements(
    state: State,
    statements: Seq<AstView>,
    from: nat,
    limit: nat,
)
    requires
        limit >= state.loop_limit,
        run_from(state, statements, from).result != Err::<(), RuntimeError>(
            RuntimeError::LoopLimitReached,
        ),
    ensures
        run_from(with_limit(state, limit), statements, from) == lifted(
            run_from(state, statements, from),
            limit,
        ),
        run_from(state, statements, from).state.loop_limit == state.loop_limit,
    decreases statements, 0nat, statements.len() - from,
{
    if from < statements.len() {
        let first = run(state, statements[from as int]);
        lemma_larger_limit_changes_nothing(state, statements[from as int], limit);
        if first.result is Ok {
            lemma_larger_limit_changes_nothing_for_statements(
                first.state,
                statements,
                from + 1,
                limit,
            );
        }
    }
}

/// [`lemma_larger_limit_changes_nothing`] for a loop: neither a larger limit
/// for the loops inside it nor a larger budget for the loop itself changes a
/// run that stays within the smaller ones.
pub proof fn lemma_larger_limit_changes_nothing_for_loops(
    state: State,
    test: AstView,
    body: Seq<AstView>,
    budget: nat,
    limit: nat,
    larger_budget: nat,
)
    requires
        limit >= state.loop_limit,
        larger_budget >= budget,
        run_loop(state, test, body, budget).result != Err::<(), RuntimeError>(
            RuntimeError::LoopLimitReached,
        ),
    ensures
        run_loop(with_limit(state, limit), test, body, larger_budget) == lifted(
            run_loop(state, test, body, budget),
            limit,
        ),
        run_loop(state, test, body, budget).state.loop_limit == state.loop_limit,
    decreases body, budget + 1, 0nat,
{
    let inner = state.condition(false);
    assert(with_limit(state, limit).condition(false) == with_limit(inner, limit));
    if state.test(test) is Ok && state.test(test)->Ok_0 != 0 && budget > 0 {
        let round = run_from(inner, body, 0);
        lemma_larger_limit_changes_nothing_for_statements(inner, body, 0, limit);
        if round.result is Ok {
            lemma_larger_limit_changes_nothing_for_loops(
                round.state,
                test,
                body,
                (budget - 1) as nat,
                limit,
                (larger_budget - 1) as nat,
            );
        }
    }
}

/// A run that fills the rest of one line is stepped over whole: the lexer
/// ends at the end of the input, as many columns on as there were characters.
pub proof fn lemma_run_to_the_end(from: LexerView, run: Run)
    requires
        from.pos <= from.input.len(),
        forall|i: int|
            from.pos <= i < from.input.len() ==> run.holds(#[trigger] from.input[i])
                && from.input[i] != '\n',
    ensures
        from.advance_while(run) == (LexerView {
            pos: from.input.len(),
            column: from.column + from.remaining(),
            ..from
        }),
    decreases from.remaining(),
{
    if from.pos < from.input.len() {
        assert(run.holds(from.input[from.pos as int]));
        lemma_run_to_the_end(from.advance(), run);
    }
}

/// What is printed for a number that is not negative is read back as that
/// number: its decimal text is one token, the number itself.
pub proof fn lemma_printed_number_reads_back(n: nat)
    requires
        n <= i64::MAX,
    ensures
        LexerView::start(digits_of(n)).next_token().result == Ok::<TokenInfoView, LexError>(
            TokenInfoView {
                token: TokenView::Number(n as i64),
                line: 1,
                column: digits_of(n).len(),
            },
        ),
        LexerView::start(digits_of(n)).next_token().rest.remaining() == 0,
{
    let text = digits_of(n);
    let start = LexerView::start(text);
    lemma_digits_of_are_digits(n);
    lemma_decimal_round_trip(n);
    assert(is_digit(text[0]));
    assert(start.advance_while(Run::Blanks) == start);
    assert forall|i: int| 0 <= i < text.len() implies Run::Digits.holds(#[trigger] text[i])
        && text[i] != '\n' by {
        assert(is_digit(text[i]));
    }
    lemma_run_to_the_end(start, Run::Digits);
    let end = start.advance_while(Run::Digits);
    assert(end.text_since(start) =~= text);
}

/// `state` with the lines `earlier` before its own.
pub open spec fn after_lines(earlier: Seq<Seq<char>>, state: State) -> State {
    State { output: earlier + state.output, ..state }
}

/// `outcome` with the lines `earlier` before its own.
pub open spec fn outcome_after_lines(earlier: Seq<Seq<char>>, outcome: Outcome) -> Outcome {
    Outcome { state: after_lines(earlier, outcome.state), result: outcome.result }
}

/// Output is only ever added to: a run does not look at the lines put out
/// before it, and leaves them in front of its own.
pub proof fn lemma_earlier_output_is_kept(earlier: Seq<Seq<char>>, state: State, node: AstView)
    ensures
        run(after_lines(earlier, state), node) == outcome_after_lines(earlier, run(state, node)),
    decreases node, 0nat, 0nat,
{
    let before = after_lines(earlier, state);
    assert forall|line: Seq<char>| #[trigger]
        before.emit(line) == after_lines(earlier, state.emit(line)) by {
        assert(earlier + state.output.push(line) =~= (earlier + state.output).push(line));
    }
    assert(before.condition(false) == after_lines(earlier, state.condition(false)));
    match node {
        AstView::Program(statements) => {
            lemma_earlier_output_is_kept_by_statements(earlier, state, statements, 0);
        },
        AstView::If(test, then_branch, else_branch) => {
            let inner = state.condition(false);
            lemma_earlier_output_is_kept_by_statements(earlier, inner, then_branch, 0);
            lemma_earlier_output_is_kept_by_statements(earlier, inner, else_branch, 0);
        },
        AstView::Loop(test, body) => {
            lemma_earlier_output_is_kept_by_loops(earlier, state, *test, body, state.loop_limit);
        },
        _ => {},
    }
}

/// [`lemma_earlier_output_is_kept`] for the statements from `from` on.
pub proof fn lemma_earlier_output_is_kept_by_statements(
    earlier: Seq<Seq<char>>,
    state: State,
    statements: Seq<AstView>,
    from: nat,
)
    ensures
        run_from(after_lines(earlier, state), statements, from) == outcome_after_lines(
            earlier,
            run_from(state, statements, from),
        ),
    decreases statements, 0nat, statements.len() - from,
{
    if from < statements.len() {
        lemma_earlier_output_is_kept(earlier, state, statements[from as int]);
        let first = run(state, statements[from as int]);
        lemma_earlier_output_is_kept_by_statements(earlier, first.state, statements, from + 1);
    }
}

/// [`lemma_earlier_output_is_kept`] for a loop.
pub proof fn lemma_earlier_output_is_kept_by_loops(
    earlier: Seq<Seq<char>>,
    state: State,
    test: AstView,
    body: Seq<AstView>,
    budget: nat,
)
    ensures
        run_loop(after_lines(earlier, state), test, body, budget) == outcome_after_lines(
            earlier,
            run_loop(state, test, body, budget),
        ),
    decreases body, budget + 1, 0nat,
{
    let inner = state.condition(false);
    assert(after_lines(earlier, state).condition(false) == after_lines(earlier, inner));
    if budget > 0 {
        lemma_earlier_output_is_kept_by_statements(earlier, inner, body, 0);
        let round = run_from(inner, body, 0);
        lemma_earlier_output_is_kept_by_loops(
            earlier,
            round.state,
            test,
            body,
            (budget - 1) as nat,
        );
    }
}

/// [`lemma_earlier_output_is_kept`] for work begun: when the lines put out
/// so far are handed out in the middle of a run, the rest of the run puts out
/// the lines that were still to come, and ends as it would have ended.
pub proof fn lemma_earlier_output_is_kept_by_work_begun(
    earlier: Seq<Seq<char>>,
    state: State,
    frames: Seq<FrameView>,
)
    ensures
        finish(after_lines(earlier, state), frames) == outcome_after_lines(
            earlier,
            finish(state, frames),
        ),
    decreases frames.len(),
{
    if frames.len() > 0 {
        match frames.last() {
            FrameView::Single { node } => {
                lemma_earlier_output_is_kept(earlier, state, node);
            },
            FrameView::Block { statements, next } => {
                lemma_earlier_output_is_kept_by_statements(earlier, state, statements, next);
            },
            FrameView::Round { test, body, next, rounds } => {
                lemma_earlier_output_is_kept_by_statements(earlier, state, body, next);
                lemma_earlier_output_is_kept_by_loops(
                    earlier,
                    run_from(state, body, next).state,
                    test,
                    body,
                    rounds,
                );
            },
        }
        let inner = finish_frame(state, frames.last());
        lemma_earlier_output_is_kept_by_work_begun(earlier, inner.state, frames.drop_last());
    } else {
        assert(after_lines(earlier, state).output =~= earlier + state.output);
    }
}

} // verus!
