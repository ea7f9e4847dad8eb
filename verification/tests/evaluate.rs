//! End-to-end tests of the evaluation facade.

use stackeval::facade::{evaluate, evaluate_with_diagnostic};
use stackeval::machine::EvalError;

fn as_floats(out: &[i64]) -> Vec<f64> {
    out.iter().map(|&n| n as f64).collect()
}

#[test]
fn add_scenario() {
    let out = evaluate(b"push 3 push 4 add bind result", 3, 4);
    assert_eq!(out, vec![7]);
    assert_eq!(as_floats(&out), vec![7.0]);
}

#[test]
fn syntax_error_scenario() {
    let out = evaluate(b"syntax!!error", 0, 0);
    assert_eq!(out, Vec::<i64>::new());
}

#[test]
fn syntax_error_diagnostic() {
    let (out, diag) = evaluate_with_diagnostic(b"syntax!!error", 0, 0);
    assert_eq!(out, Vec::<i64>::new());
    assert_eq!(diag, Some(EvalError::Syntax));
}

#[test]
fn text_result_scenario() {
    let (out, diag) = evaluate_with_diagnostic(b"text hello bind result", 0, 0);
    assert_eq!(out, Vec::<i64>::new());
    assert_eq!(diag, Some(EvalError::UnsupportedResultType));
}

#[test]
fn fsread_denied_scenario() {
    let (out, diag) = evaluate_with_diagnostic(b"fsread", 0, 0);
    assert_eq!(out, Vec::<i64>::new());
    assert_eq!(diag, Some(EvalError::PermissionDenied));
}

#[test]
fn fsread_denied_mid_program() {
    let (out, diag) = evaluate_with_diagnostic(b"push 1 fsread push 2", 0, 0);
    assert_eq!(out, Vec::<i64>::new());
    assert_eq!(diag, Some(EvalError::PermissionDenied));
}

#[test]
fn idempotent_calls() {
    let first = evaluate(b"push 3 push 4 add bind result", 3, 4);
    let second = evaluate(b"push 3 push 4 add bind result", 3, 4);
    assert_eq!(first, second);
}

#[test]
fn empty_source_takes_first_argument() {
    let out = evaluate(b"", 2, 3);
    assert_eq!(out, vec![2]);
    assert_eq!(as_floats(&out), vec![2.0]);
}

#[test]
fn swap_takes_second_argument() {
    let out = evaluate(b"swap", 2, 3);
    assert_eq!(out, vec![3]);
    assert_eq!(as_floats(&out), vec![3.0]);
}

#[test]
fn byte_array_widens_exactly() {
    let out = evaluate(b"byte 0 byte 255 cat bind result", 0, 0);
    assert_eq!(out, vec![0, 255]);
    assert_eq!(as_floats(&out), vec![0.0, 255.0]);
}

#[test]
fn cat_concatenates_in_order() {
    let out = evaluate(b"push 1 push 2 cat bind result", 0, 0);
    assert_eq!(out, vec![1, 2]);
}

#[test]
fn add_is_element_wise() {
    let out = evaluate(b"push 1 push 2 cat push 10 push 20 cat add bind result", 0, 0);
    assert_eq!(out, vec![11, 22]);
}

#[test]
fn add_mixes_bytes_and_numbers() {
    let out = evaluate(b"byte 200 push 58 add bind result", 0, 0);
    assert_eq!(out, vec![258]);
}

#[test]
fn named_result_wins_over_top_of_stack() {
    let out = evaluate(b"push 5 bind result push 9", 0, 0);
    assert_eq!(out, vec![5]);
}

#[test]
fn missing_result_reported() {
    let (out, diag) = evaluate_with_diagnostic(b"bind a bind b", 0, 0);
    assert_eq!(out, Vec::<i64>::new());
    assert_eq!(diag, Some(EvalError::MissingResult));
}

#[test]
fn add_on_text_is_runtime_error() {
    let (out, diag) = evaluate_with_diagnostic(b"text x add", 0, 0);
    assert_eq!(out, Vec::<i64>::new());
    assert_eq!(diag, Some(EvalError::Runtime));
}

#[test]
fn add_underflow_is_runtime_error() {
    let (out, diag) = evaluate_with_diagnostic(b"bind a bind b add", 0, 0);
    assert_eq!(out, Vec::<i64>::new());
    assert_eq!(diag, Some(EvalError::Runtime));
}

#[test]
fn add_length_mismatch_is_runtime_error() {
    let (out, diag) = evaluate_with_diagnostic(b"push 1 push 2 cat add", 0, 0);
    assert_eq!(out, Vec::<i64>::new());
    assert_eq!(diag, Some(EvalError::Runtime));
}

#[test]
fn add_out_of_range_is_runtime_error() {
    let (out, diag) = evaluate_with_diagnostic(b"add", 9007199254740992, 9007199254740992);
    assert_eq!(out, Vec::<i64>::new());
    assert_eq!(diag, Some(EvalError::Runtime));
}

#[test]
fn add_at_range_boundary_succeeds() {
    let out = evaluate(b"add bind result", 9007199254740991, 1);
    assert_eq!(out, vec![9007199254740992]);
}

#[test]
fn negative_literal() {
    let out = evaluate(b"push -12 bind result", 0, 0);
    assert_eq!(out, vec![-12]);
    assert_eq!(as_floats(&out), vec![-12.0]);
}

#[test]
fn literal_too_long_is_syntax_error() {
    let (out, diag) = evaluate_with_diagnostic(b"push 1234567890123456", 0, 0);
    assert_eq!(out, Vec::<i64>::new());
    assert_eq!(diag, Some(EvalError::Syntax));
}

#[test]
fn longest_literal_accepted() {
    let out = evaluate(b"push 999999999999999 bind result", 0, 0);
    assert_eq!(out, vec![999_999_999_999_999]);
}

#[test]
fn byte_out_of_range_is_syntax_error() {
    let (out, diag) = evaluate_with_diagnostic(b"byte 256", 0, 0);
    assert_eq!(out, Vec::<i64>::new());
    assert_eq!(diag, Some(EvalError::Syntax));
}

#[test]
fn missing_operand_is_syntax_error() {
    let (out, diag) = evaluate_with_diagnostic(b"push", 0, 0);
    assert_eq!(out, Vec::<i64>::new());
    assert_eq!(diag, Some(EvalError::Syntax));
}

#[test]
fn whitespace_is_insignificant() {
    let out = evaluate(b"  push   7\n\tbind\rresult  ", 0, 0);
    assert_eq!(out, vec![7]);
}

#[test]
fn arguments_pass_through_bit_for_bit() {
    let out = evaluate(b"", -9007199254740992, 0);
    assert_eq!(out, vec![-9007199254740992]);
    assert_eq!(as_floats(&out), vec![-9007199254740992.0]);
}
