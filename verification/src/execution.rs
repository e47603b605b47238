//! Running a program in steps, so that a caller can put out each line as it
//! comes and can leave a program that does not end.

use vstd::prelude::*;
use crate::ast::{models, AstNode, AstView};
use crate::chars::texts;
use crate::decimal::{decimal_string, decimal_text};
use crate::interpreter::Interpreter;
use crate::semantics::{eval, finished, run, run_from, run_loop, stopped, Outcome, RuntimeError, State};

verus! {

/// Work that an execution has begun and not finished.
pub enum Frame<'a> {
    /// One node, not yet begun.
    Single { node: &'a AstNode },
    /// The statements of a program or of a branch, from index `next` on.
    Block { statements: &'a Vec<AstNode>, next: usize },
    /// A round of a loop: the body from index `next` on, and then the loop
    /// again, which may take `rounds` more rounds.
    Round { test: &'a AstNode, body: &'a Vec<AstNode>, next: usize, rounds: u64 },
}

/// The mathematical value of a [`Frame`].
pub enum FrameView {
    Single { node: AstView },
    Block { statements: Seq<AstView>, next: nat },
    Round { test: AstView, body: Seq<AstView>, next: nat, rounds: nat },
}

impl<'a> View for Frame<'a> {
    type V = FrameView;

    open spec fn view(&self) -> FrameView {
        match self {
            Frame::Single { node } => FrameView::Single { node: node@ },
            Frame::Block { statements, next } => FrameView::Block {
                statements: models(statements@),
                next: *next as nat,
            },
            Frame::Round { test, body, next, rounds } => FrameView::Round {
                test: test@,
                body: models(body@),
                next: *next as nat,
                rounds: *rounds as nat,
            },
        }
    }
}

/// The values of a stack of frames, in the same order.
pub open spec fn frame_views(frames: Seq<Frame<'_>>) -> Seq<FrameView> {
    Seq::new(frames.len(), |i: int| frames[i]@)
}

/// What one step of an execution did.
#[derive(Debug, Clone, Copy, PartialEq, Eq, Structural)]
pub enum Event {
    /// Work was done that put out nothing.
    Stepped,
    /// One line was put out.
    Line,
    /// Nothing was left to do.
    Finished,
    /// The program stopped with an error. The work begun was dropped: nothing
    /// is left to do.
    Failed(RuntimeError),
    /// The steps allowed were used up before anything else happened.
    Paused,
}

/// The mathematical state of an [`Execution`]: the state of its
/// interpreter and the work begun, the innermost last.
pub struct ExecutionView {
    pub state: State,
    pub frames: Seq<FrameView>,
}

/// An execution after a step, and what the step did.
pub struct Turn {
    pub after: ExecutionView,
    pub event: Event,
}

/// A step that did work without output.
pub open spec fn go(state: State, frames: Seq<FrameView>) -> Turn {
    Turn { after: ExecutionView { state, frames }, event: Event::Stepped }
}

/// A step that put out `line`.
pub open spec fn say(state: State, line: Seq<char>, frames: Seq<FrameView>) -> Turn {
    Turn { after: ExecutionView { state: state.emit(line), frames }, event: Event::Line }
}

/// A step that failed: all work begun is dropped.
pub open spec fn halt(state: State, error: RuntimeError) -> Turn {
    Turn { after: ExecutionView { state, frames: Seq::empty() }, event: Event::Failed(error) }
}

/// The step that stands before a round of a loop: the condition is
/// evaluated, and a round is begun if it holds and `rounds` allows one.
pub open spec fn enter_loop(
    state: State,
    below: Seq<FrameView>,
    test: AstView,
    body: Seq<AstView>,
    rounds: nat,
) -> Turn {
    match state.test(test) {
        Ok(v) => if v == 0 {
            go(state.condition(false), below)
        } else if rounds == 0 {
            halt(state.condition(false), RuntimeError::LoopLimitReached)
        } else {
            go(
                state.condition(false),
                below.push(FrameView::Round { test, body, next: 0, rounds: (rounds - 1) as nat }),
            )
        },
        Err(error) => halt(state.condition(false), error),
    }
}

/// The step that begins `node` on top of the work `below`. A statement
/// without statements inside it is done in this one step; of any other only
/// the head is done, and the statements inside it become work begun.
pub open spec fn execute(state: State, below: Seq<FrameView>, node: AstView) -> Turn {
    match node {
        AstView::Program(statements) => go(
            state,
            below.push(FrameView::Block { statements, next: 0 }),
        ),
        AstView::Assignment(name, value) => match eval(state.vars, state.in_condition, *value) {
            Ok(v) => go(state.assign(name, v), below),
            Err(error) => halt(state, error),
        },
        AstView::Output(value) => match *value {
            AstView::String(text) => say(state, text, below),
            _ => match eval(state.vars, state.in_condition, *value) {
                Ok(v) => say(state, decimal_text(v as int), below),
                Err(error) => halt(state, error),
            },
        },
        AstView::If(test, then_branch, else_branch) => match state.test(*test) {
            Ok(v) => go(
                state.condition(false),
                below.push(
                    FrameView::Block {
                        statements: if v != 0 {
                            then_branch
                        } else {
                            else_branch
                        },
                        next: 0,
                    },
                ),
            ),
            Err(error) => halt(state.condition(false), error),
        },
        AstView::Loop(test, body) => enter_loop(state, below, *test, body, state.loop_limit),
        _ => halt(state, RuntimeError::UnknownStatement),
    }
}

/// One step: the next piece of the innermost work begun.
pub open spec fn step(execution: ExecutionView) -> Turn {
    if execution.frames.len() == 0 {
        Turn { after: execution, event: Event::Finished }
    } else {
        let state = execution.state;
        let below = execution.frames.drop_last();
        match execution.frames.last() {
            FrameView::Single { node } => execute(state, below, node),
            FrameView::Block { statements, next } => if next < statements.len() {
                execute(
                    state,
                    below.push(FrameView::Block { statements, next: next + 1 }),
                    statements[next as int],
                )
            } else {
                go(state, below)
            },
            FrameView::Round { test, body, next, rounds } => if next < body.len() {
                execute(
                    state,
                    below.push(FrameView::Round { test, body, next: next + 1, rounds }),
                    body[next as int],
                )
            } else {
                enter_loop(state, below, test, body, rounds)
            },
        }
    }
}

/// Steps until a line is put out, the program ends or fails, or `budget`
/// steps are done.
pub open spec fn resume(execution: ExecutionView, budget: nat) -> Turn
    decreases budget,
{
    if budget == 0 {
        Turn { after: execution, event: Event::Paused }
    } else {
        let turn = step(execution);
        if turn.event == Event::Stepped {
            resume(turn.after, (budget - 1) as nat)
        } else {
            turn
        }
    }
}

/// What is left of a run when `frame` is the work begun.
pub open spec fn finish_frame(state: State, frame: FrameView) -> Outcome {
    match frame {
        FrameView::Single { node } => run(state, node),
        FrameView::Block { statements, next } => run_from(state, statements, next),
        FrameView::Round { test, body, next, rounds } => {
            let round = run_from(state, body, next);
            match round.result {
                Ok(_) => run_loop(round.state, test, body, rounds),
                Err(_) => round,
            }
        },
    }
}

/// What is left of a run when `frames` are the work begun: each frame is
/// finished, the innermost first, up to the first error.
pub open spec fn finish(state: State, frames: Seq<FrameView>) -> Outcome
    decreases frames.len(),
{
    if frames.len() == 0 {
        finished(state)
    } else {
        let inner = finish_frame(state, frames.last());
        match inner.result {
            Ok(_) => finish(inner.state, frames.drop_last()),
            Err(_) => inner,
        }
    }
}

/// What is left of a run after a step: after a failure nothing, otherwise
/// what the work begun still has to do.
pub open spec fn rest(turn: Turn) -> Outcome {
    match turn.event {
        Event::Failed(error) => stopped(turn.after.state, error),
        _ => finish(turn.after.state, turn.after.frames),
    }
}

/// What is left of a run after `outcome` when `below` is the work begun:
/// nothing after an error, otherwise what `below` still has to do.
pub open spec fn then_finish(outcome: Outcome, below: Seq<FrameView>) -> Outcome {
    match outcome.result {
        Ok(_) => finish(outcome.state, below),
        Err(_) => outcome,
    }
}

/// Work begun is finished from the inside out.
pub proof fn lemma_finish_innermost_first(state: State, below: Seq<FrameView>, frame: FrameView)
    ensures
        finish(state, below.push(frame)) == then_finish(finish_frame(state, frame), below),
{
    assert(below.push(frame).drop_last() =~= below);
}

/// The step before a round of a loop leaves what the loop had to do.
pub proof fn lemma_enter_loop_keeps_what_is_left(
    state: State,
    below: Seq<FrameView>,
    test: AstView,
    body: Seq<AstView>,
    rounds: nat,
)
    ensures
        rest(enter_loop(state, below, test, body, rounds)) == then_finish(
            run_loop(state, test, body, rounds),
            below,
        ),
{
    if state.test(test) is Ok && state.test(test)->Ok_0 != 0 && rounds > 0 {
        lemma_finish_innermost_first(
            state.condition(false),
            below,
            FrameView::Round { test, body, next: 0, rounds: (rounds - 1) as nat },
        );
    }
}

/// The step that begins a node leaves what the node had to do.
pub proof fn lemma_execute_keeps_what_is_left(state: State, below: Seq<FrameView>, node: AstView)
    ensures
        rest(execute(state, below, node)) == then_finish(run(state, node), below),
{
    match node {
        AstView::Program(statements) => {
            lemma_finish_innermost_first(state, below, FrameView::Block { statements, next: 0 });
        },
        AstView::If(test, then_branch, else_branch) => {
            if state.test(*test) is Ok {
                let statements = if state.test(*test)->Ok_0 != 0 {
                    then_branch
                } else {
                    else_branch
                };
                lemma_finish_innermost_first(
                    state.condition(false),
                    below,
                    FrameView::Block { statements, next: 0 },
                );
            }
        },
        AstView::Loop(test, body) => {
            lemma_enter_loop_keeps_what_is_left(state, below, *test, body, state.loop_limit);
        },
        _ => {},
    }
}

/// A step changes nothing in what the whole run gives: what was left to do
/// before the step is what the step did and what is left after it.
pub proof fn lemma_step_keeps_what_is_left(execution: ExecutionView)
    ensures
        rest(step(execution)) == finish(execution.state, execution.frames),
{
    if execution.frames.len() > 0 {
        let state = execution.state;
        let below = execution.frames.drop_last();
        assert(execution.frames =~= below.push(execution.frames.last()));
        lemma_finish_innermost_first(state, below, execution.frames.last());
        match execution.frames.last() {
            FrameView::Single { node } => {
                lemma_execute_keeps_what_is_left(state, below, node);
            },
            FrameView::Block { statements, next } => {
                if next < statements.len() {
                    let later = FrameView::Block { statements, next: next + 1 };
                    lemma_execute_keeps_what_is_left(
                        state,
                        below.push(later),
                        statements[next as int],
                    );
                    lemma_finish_innermost_first(
                        run(state, statements[next as int]).state,
                        below,
                        later,
                    );
                }
            },
            FrameView::Round { test, body, next, rounds } => {
                if next < body.len() {
                    let later = FrameView::Round { test, body, next: next + 1, rounds };
                    lemma_execute_keeps_what_is_left(state, below.push(later), body[next as int]);
                    lemma_finish_innermost_first(run(state, body[next as int]).state, below, later);
                } else {
                    lemma_enter_loop_keeps_what_is_left(state, below, test, body, rounds);
                }
            },
        }
    }
}

/// Any number of steps changes nothing in what the whole run gives.
pub proof fn lemma_resume_keeps_what_is_left(execution: ExecutionView, budget: nat)
    ensures
        rest(resume(execution, budget)) == finish(execution.state, execution.frames),
    decreases budget,
{
    if budget > 0 {
        lemma_step_keeps_what_is_left(execution);
        if step(execution).event == Event::Stepped {
            lemma_resume_keeps_what_is_left(step(execution).after, (budget - 1) as nat);
        }
    }
}

/// The events tell the end of the run: when the steps report that nothing
/// is left, the whole run has ended well in the state reached, and when they
/// report a failure, the whole run has stopped with it in the state reached.
pub proof fn lemma_events_tell_the_end(execution: ExecutionView, budget: nat)
    ensures
        resume(execution, budget).event == Event::Finished ==> finish(
            execution.state,
            execution.frames,
        ) == finished(resume(execution, budget).after.state),
        resume(execution, budget).event matches Event::Failed(error) ==> finish(
            execution.state,
            execution.frames,
        ) == stopped(resume(execution, budget).after.state, error),
    decreases budget,
{
    if budget > 0 {
        lemma_step_keeps_what_is_left(execution);
        if step(execution).event == Event::Stepped {
            lemma_events_tell_the_end(step(execution).after, (budget - 1) as nat);
        }
    }
}

/// Each line comes with its own event: a step that reports a line has
/// added one line to the output, and any other step has left the output alone.
pub proof fn lemma_step_reports_each_line(execution: ExecutionView)
    ensures
        step(execution).event == Event::Line ==> step(execution).after.state.output.drop_last()
            == execution.state.output && step(execution).after.state.output.len() > 0,
        step(execution).event != Event::Line ==> step(execution).after.state.output
            == execution.state.output,
{
    assert forall|state: State, line: Seq<char>| #[trigger]
        state.emit(line).output.drop_last() == state.output by {
        assert(state.emit(line).output.drop_last() =~= state.output);
    }
}

/// As [`lemma_step_reports_each_line`], for any number of steps.
pub proof fn lemma_resume_reports_each_line(execution: ExecutionView, budget: nat)
    ensures
        resume(execution, budget).event == Event::Line ==> resume(
            execution,
            budget,
        ).after.state.output.drop_last() == execution.state.output && resume(
            execution,
            budget,
        ).after.state.output.len() > 0,
        resume(execution, budget).event != Event::Line ==> resume(
            execution,
            budget,
        ).after.state.output == execution.state.output,
    decreases budget,
{
    if budget > 0 {
        lemma_step_reports_each_line(execution);
        if step(execution).event == Event::Stepped {
            lemma_resume_reports_each_line(step(execution).after, (budget - 1) as nat);
        }
    }
}

/// A program that is being run in steps.
pub struct Execution<'a> {
    interpreter: Interpreter,
    frames: Vec<Frame<'a>>,
}

impl<'a> View for Execution<'a> {
    type V = ExecutionView;

    closed spec fn view(&self) -> ExecutionView {
        ExecutionView { state: self.interpreter@, frames: frame_views(self.frames@) }
    }
}

impl<'a> Execution<'a> {
    /// An execution that has all of `node` to do, from the state of `interpreter`.
    pub fn new(interpreter: Interpreter, node: &'a AstNode) -> (execution: Execution<'a>)
        ensures
            execution@ == (ExecutionView {
                state: interpreter@,
                frames: seq![FrameView::Single { node: node@ }],
            }),
    {
        let mut frames: Vec<Frame<'a>> = Vec::new();
        frames.push(Frame::Single { node });
        assert(frame_views(frames@) =~= seq![FrameView::Single { node: node@ }]);
        Execution { interpreter, frames }
    }

    /// The interpreter as it stands.
    pub fn interpreter(&self) -> (interpreter: &Interpreter)
        ensures
            interpreter@ == self@.state,
    {
        &self.interpreter
    }

    /// Gives up the execution for its interpreter.
    pub fn into_interpreter(self) -> (interpreter: Interpreter)
        ensures
            interpreter@ == self@.state,
    {
        self.interpreter
    }

    /// Hands out the lines put out since they were last taken. The work
    /// begun stays as it is.
    pub fn take_output(&mut self) -> (lines: Vec<String>)
        ensures
            texts(lines@) == old(self)@.state.output,
            final(self)@ == (ExecutionView {
                state: old(self)@.state.forget_output(),
                frames: old(self)@.frames,
            }),
    {
        self.interpreter.take_output()
    }

    /// Adds `frame` as the innermost work begun.
    fn begin(&mut self, frame: Frame<'a>)
        ensures
            final(self)@ == (ExecutionView {
                state: old(self)@.state,
                frames: old(self)@.frames.push(frame@),
            }),
    {
        self.frames.push(frame);
        assert(frame_views(self.frames@) =~= frame_views(old(self).frames@).push(frame@));
    }

    /// Drops all work begun and reports `error`.
    fn fail(&mut self, error: RuntimeError) -> (event: Event)
        ensures
            (Turn { after: final(self)@, event }) == halt(old(self)@.state, error),
    {
        self.frames.clear();
        assert(frame_views(self.frames@) =~= Seq::<FrameView>::empty());
        Event::Failed(error)
    }

    /// The step that stands before a round of a loop.
    fn enter_loop(&mut self, test: &'a AstNode, body: &'a Vec<AstNode>, rounds: u64) -> (event:
        Event)
        ensures
            (Turn { after: final(self)@, event }) == enter_loop(
                old(self)@.state,
                old(self)@.frames,
                test@,
                models(body@),
                rounds as nat,
            ),
    {
        match self.interpreter.test(test) {
            Ok(v) => {
                if v == 0 {
                    Event::Stepped
                } else if rounds == 0 {
                    self.fail(RuntimeError::LoopLimitReached)
                } else {
                    self.begin(Frame::Round { test, body, next: 0, rounds: rounds - 1 });
                    Event::Stepped
                }
            },
            Err(error) => self.fail(error),
        }
    }

    /// The step that begins `node`.
    fn execute(&mut self, node: &'a AstNode) -> (event: Event)
        ensures
            (Turn { after: final(self)@, event }) == execute(
                old(self)@.state,
                old(self)@.frames,
                node@,
            ),
    {
        match node {
            AstNode::Program(statements) => {
                self.begin(Frame::Block { statements, next: 0 });
                Event::Stepped
            },
            AstNode::Assignment(name, value) => match self.interpreter.eval_expr(value) {
                Ok(v) => {
                    self.interpreter.assign(name.clone(), v);
                    Event::Stepped
                },
                Err(error) => self.fail(error),
            },
            AstNode::Output(value) => match &**value {
                AstNode::String(text) => {
                    assert(value@ == AstView::String(text@));
                    self.interpreter.emit(text.clone());
                    Event::Line
                },
                _ => match self.interpreter.eval_expr(value) {
                    Ok(v) => {
                        self.interpreter.emit(decimal_string(v));
                        Event::Line
                    },
                    Err(error) => self.fail(error),
                },
            },
            AstNode::If(test, then_branch, else_branch) => match self.interpreter.test(test) {
                Ok(v) => {
                    if v != 0 {
                        self.begin(Frame::Block { statements: then_branch, next: 0 });
                    } else {
                        self.begin(Frame::Block { statements: else_branch, next: 0 });
                    }
                    Event::Stepped
                },
                Err(error) => self.fail(error),
            },
            AstNode::Loop(test, body) => {
                let rounds = self.interpreter.loop_limit();
                self.enter_loop(test, body, rounds)
            },
            _ => self.fail(RuntimeError::UnknownStatement),
        }
    }

    /// Does one step: the next piece of the innermost work begun.
    pub fn step(&mut self) -> (event: Event)
        ensures
            (Turn { after: final(self)@, event }) == step(old(self)@),
    {
        let ghost before = self@;
        match self.frames.pop() {
            Some(frame) => {
                proof {
                    assert(frame_views(self.frames@) =~= before.frames.drop_last());
                    assert(before.frames.last() == frame@);
                }
                match frame {
                    Frame::Single { node } => self.execute(node),
                    Frame::Block { statements, next } => {
                        if next < statements.len() {
                            self.begin(Frame::Block { statements, next: next + 1 });
                            self.execute(&statements[next])
                        } else {
                            Event::Stepped
                        }
                    },
                    Frame::Round { test, body, next, rounds } => {
                        if next < body.len() {
                            self.begin(Frame::Round { test, body, next: next + 1, rounds });
                            self.execute(&body[next])
                        } else {
                            self.enter_loop(test, body, rounds)
                        }
                    },
                }
            },
            None => Event::Finished,
        }
    }

    /// Steps until a line is put out, the program ends or fails, or `budget`
    /// steps are done.
    pub fn resume(&mut self, budget: u64) -> (event: Event)
        ensures
            (Turn { after: final(self)@, event }) == resume(old(self)@, budget as nat),
    {
        let mut left = budget;
        while left > 0
            invariant
                resume(old(self)@, budget as nat) == resume(self@, left as nat),
            decreases left,
        {
            let event = self.step();
            if event != Event::Stepped {
                return event;
            }
            left = left - 1;
        }
        Event::Paused
    }
}

} // verus!
