//! Control flow between the statements of a running program: the flag that a
//! statement hands back, and what a loop does on each flag.

use vstd::prelude::*;
use crate::expr::{Expr, ExprView, expr_view};

verus! {

/// The control state that a statement hands back to the code that runs it.
#[derive(Debug, Clone, Copy, PartialEq, Eq, Structural)]
pub enum JSTypeFlag {
    NoFlag,
    Continue,
    Break,
    Return,
    Ref,
}

/// What the body of a loop does after one of its statements gave a flag.
#[derive(Debug, Clone, Copy, PartialEq, Eq, Structural)]
pub enum LoopAction {
    /// Go on with the next statement of the body.
    NextStatement,
    /// Skip the rest of the body, run the update, and test again.
    EndIteration,
    /// Leave the loop at once, without the update.
    EndLoop,
    /// Leave the loop at once, handing `Return` to the caller.
    Return,
}

/// `break` ends the loop, `continue` the iteration, `return` leaves at once;
/// the other flags change nothing.
pub open spec fn spec_loop_action(flag: JSTypeFlag) -> LoopAction {
    match flag {
        JSTypeFlag::Break => LoopAction::EndLoop,
        JSTypeFlag::Continue => LoopAction::EndIteration,
        JSTypeFlag::Return => LoopAction::Return,
        JSTypeFlag::NoFlag | JSTypeFlag::Ref => LoopAction::NextStatement,
    }
}

/// What a loop body does after a statement that gave `flag`.
pub fn loop_action(flag: JSTypeFlag) -> (a: LoopAction)
    ensures
        a == spec_loop_action(flag),
{
    match flag {
        JSTypeFlag::Break => LoopAction::EndLoop,
        JSTypeFlag::Continue => LoopAction::EndIteration,
        JSTypeFlag::Return => LoopAction::Return,
        JSTypeFlag::NoFlag => LoopAction::NextStatement,
        JSTypeFlag::Ref => LoopAction::NextStatement,
    }
}

/// Whether a flag ends the block that holds the statement: `break` and
/// `return` do, and are handed on to the code around the block.
pub fn ends_block(flag: JSTypeFlag) -> (r: bool)
    ensures
        r <==> (flag == JSTypeFlag::Break || flag == JSTypeFlag::Return),
{
    match flag {
        JSTypeFlag::Break => true,
        JSTypeFlag::Return => true,
        _ => false,
    }
}


/// How a statement of a block is run, before its value is looked at.
#[derive(Debug, Clone, Copy, PartialEq, Eq, Structural)]
pub enum BodyStep {
    /// The statement hands back this flag without being evaluated.
    Flag(JSTypeFlag),
    /// `return function ..`: the function itself is handed back.
    ReturnFunction,
    /// `return <expr>` with an identifier, call, literal or infix expression:
    /// its value is handed back.
    EvaluateReturned,
    /// `return` with any other expression, which is not supported.
    Unsupported,
    /// Any other statement: it is evaluated, and must give a flag or null.
    Evaluate,
}

/// How the statement `e` is run.
pub open spec fn spec_body_step(e: ExprView) -> BodyStep {
    match e {
        ExprView::Break => BodyStep::Flag(JSTypeFlag::Break),
        ExprView::Continue => BodyStep::Flag(JSTypeFlag::Continue),
        ExprView::Return(x) => match *x {
            ExprView::Function(_, _, _) => BodyStep::ReturnFunction,
            ExprView::Empty => BodyStep::Flag(JSTypeFlag::Return),
            ExprView::Identifier(_) | ExprView::Call(_, _) | ExprView::Literal(_)
            | ExprView::Infix(_, _, _) => BodyStep::EvaluateReturned,
            _ => BodyStep::Unsupported,
        },
        _ => BodyStep::Evaluate,
    }
}

/// How the statement `e` is run.
pub fn body_step(e: &Expr) -> (r: BodyStep)
    ensures
        r == spec_body_step(e@),
{
    proof { reveal_with_fuel(expr_view, 2); }
    match e {
        Expr::Break => BodyStep::Flag(JSTypeFlag::Break),
        Expr::Continue => BodyStep::Flag(JSTypeFlag::Continue),
        Expr::Return(x) => match &**x {
            Expr::Function(_, _, _) => BodyStep::ReturnFunction,
            Expr::Empty => BodyStep::Flag(JSTypeFlag::Return),
            Expr::Identifier(_) | Expr::Call(_, _) | Expr::Literal(_) | Expr::Infix(_, _, _) => {
                BodyStep::EvaluateReturned
            },
            _ => BodyStep::Unsupported,
        },
        _ => BodyStep::Evaluate,
    }
}

/// The body of a loop as the loop runs it.
#[derive(Debug, Clone, Copy, PartialEq, Eq, Structural)]
pub enum BodyShape {
    /// A block of this many statements, run in order.
    Block(usize),
    /// A single call; the flag it gives is not looked at.
    Single,
    /// Any other body, which the loop cannot run.
    Unsupported,
}

/// Where a running loop stands.
#[derive(Debug, Clone, Copy, PartialEq, Eq, Structural)]
pub enum LoopPhase {
    /// Before an iteration.
    Start,
    /// Waiting for the value of the test.
    Testing,
    /// Running the statement at this position of the body.
    Statement(usize),
    /// Running the update.
    Updating,
    /// The loop is over.
    Over,
}

/// A running `for`, `while` or `do .. while` loop.
#[derive(Debug, Clone, Copy, PartialEq, Eq, Structural)]
pub struct LoopState {
    /// The body runs once before the test is looked at (`do .. while`).
    pub is_do: bool,
    /// The loop has a test (a `for(;;)` has none).
    pub has_test: bool,
    /// The loop has an update to run after each pass of the body.
    pub has_update: bool,
    pub body: BodyShape,
    pub phase: LoopPhase,
    /// No test value has been looked at yet.
    pub first_pass: bool,
}

/// What the test of a loop evaluated to.
#[derive(Debug, Clone, Copy, PartialEq, Eq, Structural)]
pub enum TestOutcome {
    True,
    False,
    /// A value that is not a boolean.
    NotBool,
}

/// What happened since the loop last gave a command.
#[derive(Debug, Clone, Copy, PartialEq, Eq, Structural)]
pub enum LoopEvent {
    /// Start an iteration (at first, and after `Again`).
    Begin,
    /// The test was evaluated.
    Tested(TestOutcome),
    /// The statement ran and gave this flag (`NoFlag` for a value).
    StatementDone(JSTypeFlag),
    /// The statement failed; the failure is dropped and the iteration ends
    /// without the update.
    StatementFailed,
    /// The update ran (a failure of it is dropped).
    UpdateDone,
}

/// How a loop ended.
#[derive(Debug, Clone, Copy, PartialEq, Eq, Structural)]
pub enum LoopExit {
    /// Normally: the loop gives null.
    Normal,
    /// On a `return`, which is handed to the caller.
    Return,
}

/// Why a loop failed.
#[derive(Debug, Clone, Copy, PartialEq, Eq, Structural)]
pub enum LoopFailure {
    /// The test gave a value that is not a boolean.
    NotBool,
    /// The body would run but is not a block or a call.
    Unsupported,
    /// An event came that the last command did not ask for.
    OutOfTurn,
}

/// What the code that runs a loop does next.
#[derive(Debug, Clone, Copy, PartialEq, Eq, Structural)]
pub enum LoopCommand {
    EvaluateTest,
    RunStatement(usize),
    RunUpdate,
    /// Nothing is left to run in this iteration: start the next one.
    Again,
    Finish(LoopExit),
    Fail(LoopFailure),
}

/// A loop that has not started: `first_pass` is set for a `do .. while`.
pub open spec fn spec_loop_start(is_do: bool, has_test: bool, has_update: bool, body: BodyShape) -> LoopState {
    LoopState { is_do, has_test, has_update, body, phase: LoopPhase::Start, first_pass: is_do }
}

/// The state in `phase`.
pub open spec fn at(s: LoopState, phase: LoopPhase) -> LoopState {
    LoopState { phase, ..s }
}

/// After a pass of the body: the update if there is one; else the test
/// again, or (without a test) the body again.
pub open spec fn after_body(s: LoopState) -> (LoopState, LoopCommand) {
    if s.has_update {
        (at(s, LoopPhase::Updating), LoopCommand::RunUpdate)
    } else if s.has_test {
        (at(s, LoopPhase::Testing), LoopCommand::EvaluateTest)
    } else {
        (at(s, LoopPhase::Start), LoopCommand::Again)
    }
}

/// Running the body from its first statement.
pub open spec fn enter_body(s: LoopState) -> (LoopState, LoopCommand) {
    match s.body {
        BodyShape::Block(n) => if n > 0 {
            (at(s, LoopPhase::Statement(0)), LoopCommand::RunStatement(0))
        } else {
            after_body(s)
        },
        BodyShape::Single => (at(s, LoopPhase::Statement(0)), LoopCommand::RunStatement(0)),
        BodyShape::Unsupported => (at(s, LoopPhase::Over), LoopCommand::Fail(LoopFailure::Unsupported)),
    }
}

/// An iteration from its start: the test is evaluated, or without a test
/// the body runs.
pub open spec fn next_iteration(s: LoopState) -> (LoopState, LoopCommand) {
    if s.has_test {
        (at(s, LoopPhase::Testing), LoopCommand::EvaluateTest)
    } else {
        enter_body(s)
    }
}

/// One step of a running loop: from its state and what just happened, the
/// next state and what to do.
///
/// A true test runs the body; a false one ends the loop, except on the first
/// pass of a `do .. while`; a value that is not a boolean fails. In a block,
/// `continue` ends the pass (the update runs), `break` leaves the loop
/// without the update, and `return` leaves at once.
pub open spec fn spec_loop_step(s: LoopState, e: LoopEvent) -> (LoopState, LoopCommand) {
    match (s.phase, e) {
        (LoopPhase::Start, LoopEvent::Begin) => next_iteration(s),
        (LoopPhase::Testing, LoopEvent::Tested(o)) => match o {
            TestOutcome::NotBool => (at(s, LoopPhase::Over), LoopCommand::Fail(LoopFailure::NotBool)),
            TestOutcome::False => if s.first_pass {
                enter_body(LoopState { first_pass: false, ..s })
            } else {
                (at(s, LoopPhase::Over), LoopCommand::Finish(LoopExit::Normal))
            },
            TestOutcome::True => enter_body(LoopState { first_pass: false, ..s }),
        },
        (LoopPhase::Statement(i), LoopEvent::StatementDone(flag)) => match s.body {
            BodyShape::Block(n) => match spec_loop_action(flag) {
                LoopAction::NextStatement => if i + 1 < n {
                    (at(s, LoopPhase::Statement((i + 1) as usize)), LoopCommand::RunStatement((i + 1) as usize))
                } else {
                    after_body(s)
                },
                LoopAction::EndIteration => after_body(s),
                LoopAction::EndLoop => (at(s, LoopPhase::Over), LoopCommand::Finish(LoopExit::Normal)),
                LoopAction::Return => (at(s, LoopPhase::Over), LoopCommand::Finish(LoopExit::Return)),
            },
            _ => after_body(s),
        },
        (LoopPhase::Statement(_), LoopEvent::StatementFailed) => next_iteration(s),
        (LoopPhase::Updating, LoopEvent::UpdateDone) => next_iteration(s),
        _ => (at(s, LoopPhase::Over), LoopCommand::Fail(LoopFailure::OutOfTurn)),
    }
}

/// A loop that has not started.
pub fn loop_start(is_do: bool, has_test: bool, has_update: bool, body: BodyShape) -> (s: LoopState)
    ensures
        s == spec_loop_start(is_do, has_test, has_update, body),
{
    LoopState { is_do, has_test, has_update, body, phase: LoopPhase::Start, first_pass: is_do }
}

fn exec_at(s: LoopState, phase: LoopPhase) -> (r: LoopState)
    ensures
        r == at(s, phase),
{
    LoopState { phase, ..s }
}

fn exec_after_body(s: LoopState) -> (r: (LoopState, LoopCommand))
    ensures
        r == after_body(s),
{
    if s.has_update {
        (exec_at(s, LoopPhase::Updating), LoopCommand::RunUpdate)
    } else if s.has_test {
        (exec_at(s, LoopPhase::Testing), LoopCommand::EvaluateTest)
    } else {
        (exec_at(s, LoopPhase::Start), LoopCommand::Again)
    }
}

fn exec_enter_body(s: LoopState) -> (r: (LoopState, LoopCommand))
    ensures
        r == enter_body(s),
{
    match s.body {
        BodyShape::Block(n) => if n > 0 {
            (exec_at(s, LoopPhase::Statement(0)), LoopCommand::RunStatement(0))
        } else {
            exec_after_body(s)
        },
        BodyShape::Single => (exec_at(s, LoopPhase::Statement(0)), LoopCommand::RunStatement(0)),
        BodyShape::Unsupported => (exec_at(s, LoopPhase::Over), LoopCommand::Fail(LoopFailure::Unsupported)),
    }
}

fn exec_next_iteration(s: LoopState) -> (r: (LoopState, LoopCommand))
    ensures
        r == next_iteration(s),
{
    if s.has_test {
        (exec_at(s, LoopPhase::Testing), LoopCommand::EvaluateTest)
    } else {
        exec_enter_body(s)
    }
}

/// One step of a running loop, as `spec_loop_step` says.
pub fn loop_step(s: LoopState, e: LoopEvent) -> (r: (LoopState, LoopCommand))
    ensures
        r == spec_loop_step(s, e),
{
    match (s.phase, e) {
        (LoopPhase::Start, LoopEvent::Begin) => exec_next_iteration(s),
        (LoopPhase::Testing, LoopEvent::Tested(o)) => match o {
            TestOutcome::NotBool => (exec_at(s, LoopPhase::Over), LoopCommand::Fail(LoopFailure::NotBool)),
            TestOutcome::False => if s.first_pass {
                exec_enter_body(LoopState { first_pass: false, ..s })
            } else {
                (exec_at(s, LoopPhase::Over), LoopCommand::Finish(LoopExit::Normal))
            },
            TestOutcome::True => exec_enter_body(LoopState { first_pass: false, ..s }),
        },
        (LoopPhase::Statement(i), LoopEvent::StatementDone(flag)) => match s.body {
            BodyShape::Block(n) => match loop_action(flag) {
                LoopAction::NextStatement => if n > 0 && i < n - 1 {
                    (exec_at(s, LoopPhase::Statement(i + 1)), LoopCommand::RunStatement(i + 1))
                } else {
                    exec_after_body(s)
                },
                LoopAction::EndIteration => exec_after_body(s),
                LoopAction::EndLoop => (exec_at(s, LoopPhase::Over), LoopCommand::Finish(LoopExit::Normal)),
                LoopAction::Return => (exec_at(s, LoopPhase::Over), LoopCommand::Finish(LoopExit::Return)),
            },
            _ => exec_after_body(s),
        },
        (LoopPhase::Statement(_), LoopEvent::StatementFailed) => exec_next_iteration(s),
        (LoopPhase::Updating, LoopEvent::UpdateDone) => exec_next_iteration(s),
        _ => (exec_at(s, LoopPhase::Over), LoopCommand::Fail(LoopFailure::OutOfTurn)),
    }
}

} // verus!

verus! {

/// A `while` or `for` loop whose test is false at once runs nothing and ends
/// normally; a `do .. while` runs its body once all the same.
pub proof fn law_false_test_first(is_do: bool, has_update: bool, body: BodyShape)
    ensures
        spec_loop_step(spec_loop_start(is_do, true, has_update, body), LoopEvent::Begin).1
            == LoopCommand::EvaluateTest,
        !is_do ==> spec_loop_step(
            spec_loop_step(spec_loop_start(is_do, true, has_update, body), LoopEvent::Begin).0,
            LoopEvent::Tested(TestOutcome::False),
        ).1 == LoopCommand::Finish(LoopExit::Normal),
        is_do && body == BodyShape::Block(1) ==> spec_loop_step(
            spec_loop_step(spec_loop_start(is_do, true, has_update, body), LoopEvent::Begin).0,
            LoopEvent::Tested(TestOutcome::False),
        ).1 == LoopCommand::RunStatement(0),
{
}

/// `break` in a block leaves the loop at once, without the update;
/// `continue` runs the update and then tests again.
pub proof fn law_break_and_continue(s: LoopState, i: usize, n: usize)
    requires
        s.phase == LoopPhase::Statement(i),
        s.body == BodyShape::Block(n),
        s.has_update,
        s.has_test,
    ensures
        spec_loop_step(s, LoopEvent::StatementDone(JSTypeFlag::Break)).1 == LoopCommand::Finish(LoopExit::Normal),
        spec_loop_step(s, LoopEvent::StatementDone(JSTypeFlag::Continue)).1 == LoopCommand::RunUpdate,
        spec_loop_step(spec_loop_step(s, LoopEvent::StatementDone(JSTypeFlag::Continue)).0,
            LoopEvent::UpdateDone).1 == LoopCommand::EvaluateTest,
{
}

/// `return` in a block leaves the loop at once, without the update.
pub proof fn law_return_leaves_at_once(s: LoopState, i: usize, n: usize)
    requires
        s.phase == LoopPhase::Statement(i),
        s.body == BodyShape::Block(n),
    ensures
        spec_loop_step(s, LoopEvent::StatementDone(JSTypeFlag::Return)).1 == LoopCommand::Finish(LoopExit::Return),
{
}

/// The statements of a block run in order: after statement `i` gives no flag,
/// statement `i + 1` runs, if there is one.
pub proof fn law_statements_in_order(s: LoopState, i: usize, n: usize)
    requires
        s.phase == LoopPhase::Statement(i),
        s.body == BodyShape::Block(n),
        i + 1 < n,
    ensures
        spec_loop_step(s, LoopEvent::StatementDone(JSTypeFlag::NoFlag)).1 == LoopCommand::RunStatement((i + 1) as usize),
{
}


/// A loop whose body is a single call runs it like a block of one statement:
/// after the call, whatever it gave, comes the update if there is one, else the
/// test, else (with neither) the call again; the call never ends the loop.
pub proof fn law_single_call_body(s: LoopState, i: usize, flag: JSTypeFlag)
    requires
        s.phase == LoopPhase::Statement(i),
        s.body == BodyShape::Single,
    ensures
        spec_loop_step(s, LoopEvent::StatementDone(flag)).1 == (if s.has_update {
            LoopCommand::RunUpdate
        } else if s.has_test {
            LoopCommand::EvaluateTest
        } else {
            LoopCommand::Again
        }),
        !(spec_loop_step(s, LoopEvent::StatementDone(flag)).1 is Finish),
        !(spec_loop_step(s, LoopEvent::StatementDone(flag)).1 is Fail),
{
}

/// After the last statement of a block gives no flag, the pass is over: the
/// update comes if there is one, else the test, else the body again.
pub proof fn law_pass_ends_after_last_statement(s: LoopState, n: usize)
    requires
        n > 0,
        s.phase == LoopPhase::Statement((n - 1) as usize),
        s.body == BodyShape::Block(n),
    ensures
        spec_loop_step(s, LoopEvent::StatementDone(JSTypeFlag::NoFlag)).1 == (if s.has_update {
            LoopCommand::RunUpdate
        } else if s.has_test {
            LoopCommand::EvaluateTest
        } else {
            LoopCommand::Again
        }),
{
}

/// After the update the test comes again (or, without a test, the body).
pub proof fn law_update_then_test(s: LoopState)
    requires
        s.phase == LoopPhase::Updating,
        s.has_test,
    ensures
        spec_loop_step(s, LoopEvent::UpdateDone).1 == LoopCommand::EvaluateTest,
{
}

/// `return` with an identifier, a call, a literal or an infix expression
/// hands back the value of that expression; `return` alone, `break` and
/// `continue` hand back their flags.
pub proof fn law_return_evaluates_its_value(e: ExprView)
    ensures
        (e is Identifier || e is Call || e is Literal || e is Infix)
            ==> spec_body_step(ExprView::Return(Box::new(e))) == BodyStep::EvaluateReturned,
        spec_body_step(ExprView::Return(Box::new(ExprView::Empty))) == BodyStep::Flag(JSTypeFlag::Return),
        spec_body_step(ExprView::Break) == BodyStep::Flag(JSTypeFlag::Break),
        spec_body_step(ExprView::Continue) == BodyStep::Flag(JSTypeFlag::Continue),
        (e is Function) ==> spec_body_step(ExprView::Return(Box::new(e))) == BodyStep::ReturnFunction,
{
}


/// A true test runs the body from its first statement; a test that is not a
/// boolean makes the loop fail.
pub proof fn law_test_outcomes(s: LoopState, n: usize)
    requires
        s.phase == LoopPhase::Testing,
    ensures
        s.body == BodyShape::Block(n) && n > 0
            ==> spec_loop_step(s, LoopEvent::Tested(TestOutcome::True)).1 == LoopCommand::RunStatement(0),
        s.body == BodyShape::Single
            ==> spec_loop_step(s, LoopEvent::Tested(TestOutcome::True)).1 == LoopCommand::RunStatement(0),
        spec_loop_step(s, LoopEvent::Tested(TestOutcome::NotBool)).1 == LoopCommand::Fail(LoopFailure::NotBool),
        !s.first_pass ==> spec_loop_step(s, LoopEvent::Tested(TestOutcome::False)).1
            == LoopCommand::Finish(LoopExit::Normal),
{
}

} // verus!
