use jsparser::flow::{ends_block, loop_action, JSTypeFlag, LoopAction};

#[test]
fn loop_actions_of_each_flag() {
    assert_eq!(loop_action(JSTypeFlag::Break), LoopAction::EndLoop);
    assert_eq!(loop_action(JSTypeFlag::Continue), LoopAction::EndIteration);
    assert_eq!(loop_action(JSTypeFlag::Return), LoopAction::Return);
    assert_eq!(loop_action(JSTypeFlag::NoFlag), LoopAction::NextStatement);
    assert_eq!(loop_action(JSTypeFlag::Ref), LoopAction::NextStatement);
}

#[test]
fn only_break_and_return_end_a_block() {
    assert!(ends_block(JSTypeFlag::Break));
    assert!(ends_block(JSTypeFlag::Return));
    assert!(!ends_block(JSTypeFlag::Continue));
    assert!(!ends_block(JSTypeFlag::NoFlag));
    assert!(!ends_block(JSTypeFlag::Ref));
}

use jsparser::expr::Expr;
use jsparser::flow::{
    body_step, loop_start, loop_step, BodyShape, BodyStep, LoopCommand, LoopEvent, LoopExit,
    LoopFailure, TestOutcome,
};

#[test]
fn for_loop_runs_body_and_update_until_the_test_fails() {
    // for(..; test; update) { s0; s1 } with the test true twice.
    let mut s = loop_start(false, true, true, BodyShape::Block(2));
    let mut log = Vec::new();
    let mut tests = vec![TestOutcome::True, TestOutcome::True, TestOutcome::False].into_iter();
    let mut e = LoopEvent::Begin;
    loop {
        let (n, c) = loop_step(s, e);
        s = n;
        log.push(c);
        e = match c {
            LoopCommand::EvaluateTest => LoopEvent::Tested(tests.next().unwrap()),
            LoopCommand::RunStatement(_) => LoopEvent::StatementDone(JSTypeFlag::NoFlag),
            LoopCommand::RunUpdate => LoopEvent::UpdateDone,
            LoopCommand::Again => LoopEvent::Begin,
            _ => break,
        };
    }
    assert_eq!(
        log,
        vec![
            LoopCommand::EvaluateTest, LoopCommand::RunStatement(0), LoopCommand::RunStatement(1), LoopCommand::RunUpdate,
            LoopCommand::EvaluateTest, LoopCommand::RunStatement(0), LoopCommand::RunStatement(1), LoopCommand::RunUpdate,
            LoopCommand::EvaluateTest, LoopCommand::Finish(LoopExit::Normal)
        ]
    );
}

#[test]
fn do_while_runs_once_on_a_false_test() {
    let s = loop_start(true, true, false, BodyShape::Block(1));
    let (s, c) = loop_step(s, LoopEvent::Begin);
    assert_eq!(c, LoopCommand::EvaluateTest);
    let (s, c) = loop_step(s, LoopEvent::Tested(TestOutcome::False));
    assert_eq!(c, LoopCommand::RunStatement(0));
    let (s, c) = loop_step(s, LoopEvent::StatementDone(JSTypeFlag::NoFlag));
    assert_eq!(c, LoopCommand::EvaluateTest);
    let (_, c) = loop_step(s, LoopEvent::Tested(TestOutcome::False));
    assert_eq!(c, LoopCommand::Finish(LoopExit::Normal));
}

#[test]
fn break_ends_the_loop_without_the_update() {
    let s = loop_start(false, true, true, BodyShape::Block(3));
    let (s, _) = loop_step(s, LoopEvent::Begin);
    let (s, c) = loop_step(s, LoopEvent::Tested(TestOutcome::True));
    assert_eq!(c, LoopCommand::RunStatement(0));
    let (_, c) = loop_step(s, LoopEvent::StatementDone(JSTypeFlag::Break));
    assert_eq!(c, LoopCommand::Finish(LoopExit::Normal));
}

#[test]
fn for_without_test_stops_at_break() {
    // for(;; i++) { if (i >= 3) break; } from i = 0: the update runs three
    // times, and the fourth pass breaks without it.
    let mut s = loop_start(false, false, true, BodyShape::Block(1));
    let mut i = 0;
    let mut e = LoopEvent::Begin;
    loop {
        let (n, c) = loop_step(s, e);
        s = n;
        e = match c {
            LoopCommand::RunStatement(0) => {
                if i >= 3 {
                    LoopEvent::StatementDone(JSTypeFlag::Break)
                } else {
                    LoopEvent::StatementDone(JSTypeFlag::NoFlag)
                }
            }
            LoopCommand::RunUpdate => {
                i += 1;
                LoopEvent::UpdateDone
            }
            LoopCommand::Again => LoopEvent::Begin,
            LoopCommand::Finish(x) => {
                assert_eq!(x, LoopExit::Normal);
                break;
            }
            other => panic!("{:?}", other),
        };
    }
    assert_eq!(i, 3);
}

#[test]
fn return_leaves_at_once_and_failures() {
    let s = loop_start(false, true, true, BodyShape::Block(2));
    let (s, _) = loop_step(s, LoopEvent::Begin);
    let (s1, _) = loop_step(s, LoopEvent::Tested(TestOutcome::True));
    let (_, c) = loop_step(s1, LoopEvent::StatementDone(JSTypeFlag::Return));
    assert_eq!(c, LoopCommand::Finish(LoopExit::Return));
    let (_, c) = loop_step(s, LoopEvent::Tested(TestOutcome::NotBool));
    assert_eq!(c, LoopCommand::Fail(LoopFailure::NotBool));
    let (_, c) = loop_step(s, LoopEvent::UpdateDone);
    assert_eq!(c, LoopCommand::Fail(LoopFailure::OutOfTurn));
    let u = loop_start(false, true, false, BodyShape::Unsupported);
    let (u, _) = loop_step(u, LoopEvent::Begin);
    let (_, c) = loop_step(u, LoopEvent::Tested(TestOutcome::True));
    assert_eq!(c, LoopCommand::Fail(LoopFailure::Unsupported));
}

#[test]
fn a_failed_statement_skips_the_update() {
    let s = loop_start(false, true, true, BodyShape::Block(2));
    let (s, _) = loop_step(s, LoopEvent::Begin);
    let (s, _) = loop_step(s, LoopEvent::Tested(TestOutcome::True));
    let (_, c) = loop_step(s, LoopEvent::StatementFailed);
    assert_eq!(c, LoopCommand::EvaluateTest);
}

#[test]
fn body_steps_of_statements() {
    assert_eq!(body_step(&Expr::Break), BodyStep::Flag(JSTypeFlag::Break));
    assert_eq!(body_step(&Expr::Continue), BodyStep::Flag(JSTypeFlag::Continue));
    assert_eq!(body_step(&Expr::Return(Box::new(Expr::Empty))), BodyStep::Flag(JSTypeFlag::Return));
    assert_eq!(
        body_step(&Expr::Return(Box::new(Expr::Identifier("a".to_string())))),
        BodyStep::EvaluateReturned
    );
    assert_eq!(
        body_step(&Expr::Return(Box::new(Expr::Function(
            Box::new(Expr::Empty),
            vec![],
            Box::new(Expr::Block(vec![]))
        )))),
        BodyStep::ReturnFunction
    );
    assert_eq!(body_step(&Expr::Return(Box::new(Expr::Array(vec![])))), BodyStep::Unsupported);
    assert_eq!(body_step(&Expr::Identifier("a".to_string())), BodyStep::Evaluate);
}
