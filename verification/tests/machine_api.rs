//! Tests of the evaluator, the operand stack, and the value flattener
//! through their own public interfaces.

use stackeval::machine::{EvalError, Evaluator};
use stackeval::value::{flatten, to_numeric, Value};

#[test]
fn run_reports_syntax_error() {
    let mut e = Evaluator::new_sandboxed();
    let r = e.run(b"no such word");
    assert_eq!(r, Err(EvalError::Syntax));
}

#[test]
fn run_reports_permission_denied() {
    let mut e = Evaluator::new_sandboxed();
    let r = e.run(b"fsread");
    assert_eq!(r, Err(EvalError::PermissionDenied));
}

#[test]
fn pop_top_on_empty_stack_is_none() {
    let mut e = Evaluator::new_sandboxed();
    assert!(e.pop_top().is_none());
}

#[test]
fn push_scalar_then_pop_top() {
    let mut e = Evaluator::new_sandboxed();
    e.push_scalar(41);
    let v = e.pop_top().expect("one value was pushed");
    assert_eq!(flatten(&v), vec![41]);
    assert!(e.pop_top().is_none());
}

#[test]
fn pop_named_takes_most_recent_binding() {
    let mut e = Evaluator::new_sandboxed();
    let r = e.run(b"push 1 bind x push 2 bind x");
    assert_eq!(r, Ok(()));
    let newest = e.pop_named(b"x").expect("x is bound");
    assert_eq!(flatten(&newest), vec![2]);
    let older = e.pop_named(b"x").expect("x was bound twice");
    assert_eq!(flatten(&older), vec![1]);
    assert!(e.pop_named(b"x").is_none());
}

#[test]
fn pop_named_unbound_is_none() {
    let mut e = Evaluator::new_sandboxed();
    let r = e.run(b"push 1 bind x");
    assert_eq!(r, Ok(()));
    assert!(e.pop_named(b"y").is_none());
}

#[test]
fn run_leaves_stack_for_positional_pop() {
    let mut e = Evaluator::new_sandboxed();
    e.push_scalar(10);
    let r = e.run(b"push 32 add");
    assert_eq!(r, Ok(()));
    let v = e.pop_top().expect("the sum is on the stack");
    assert_eq!(flatten(&v), vec![42]);
}

#[test]
fn flatten_keeps_numeric_order() {
    let v = Value::Num(vec![3, 1, 2]);
    assert_eq!(flatten(&v), vec![3, 1, 2]);
}

#[test]
fn flatten_widens_bytes() {
    let v = Value::Byte(vec![0, 7, 255]);
    assert_eq!(flatten(&v), vec![0, 7, 255]);
}

#[test]
fn flatten_of_text_is_empty() {
    let v = Value::Other(vec![104, 105]);
    assert_eq!(flatten(&v), Vec::<i64>::new());
}

#[test]
fn to_numeric_rejects_text() {
    let v = Value::Other(vec![104, 105]);
    assert!(to_numeric(&v).is_none());
}

#[test]
fn to_numeric_widens_bytes() {
    let v = Value::Byte(vec![9, 200]);
    assert_eq!(to_numeric(&v), Some(vec![9, 200]));
}
