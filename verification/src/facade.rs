//! The externally callable entry point: evaluate source text against a
//! fresh sandboxed machine and degrade to an empty result on any failure.

use vstd::prelude::*;

use crate::machine::{last_bound, run_spec, EvalError, Evaluator, StateModel};
use crate::value::{flatten, flatten_spec, ValModel, Value};

verus! {

/// The bytes of the selector name `result`, under which a program may
/// bind its result.
pub open spec fn result_name() -> Seq<u8> {
    seq![114u8, 101u8, 115u8, 117u8, 108u8, 116u8]
}

/// The stack an evaluation starts from: the second argument is pushed
/// first, so the first argument ends on top.
pub open spec fn init_state(arg1: i64, arg2: i64) -> StateModel {
    StateModel {
        stack: seq![ValModel::Num(seq![arg2]), ValModel::Num(seq![arg1])],
        binds: Seq::empty(),
    }
}

/// The value an evaluation hands to the flattener: the most recent binding
/// under `result` when the program made one, else the top of the stack,
/// else nothing.
pub open spec fn select_spec(st: StateModel) -> Option<ValModel> {
    match last_bound(st.binds, result_name()) {
        Some(j) => Some(st.binds[j].1),
        None => if st.stack.len() > 0 {
            Some(st.stack.last())
        } else {
            None
        },
    }
}

/// The full evaluation pipeline: the flat numeric sequence handed to the
/// caller, and the failure that emptied it, if one did.
pub open spec fn eval_outcome(src: Seq<u8>, arg1: i64, arg2: i64) -> (Seq<i64>, Option<
    EvalError,
>) {
    let r = run_spec(init_state(arg1, arg2), src);
    match r.1 {
        Some(e) => (Seq::empty(), Some(e)),
        None => match select_spec(r.0) {
            None => (Seq::empty(), Some(EvalError::MissingResult)),
            Some(v) => match v {
                ValModel::Other(_) => (Seq::empty(), Some(EvalError::UnsupportedResultType)),
                _ => (flatten_spec(v), None),
            },
        },
    }
}

/// The flat numeric sequence an evaluation yields; empty on any failure.
pub open spec fn eval_spec(src: Seq<u8>, arg1: i64, arg2: i64) -> Seq<i64> {
    eval_outcome(src, arg1, arg2).0
}

/// The binding name `result` as an executable byte vector.
fn result_name_bytes() -> (v: Vec<u8>)
    ensures
        v@ == result_name(),
{
    let mut v: Vec<u8> = Vec::new();
    v.push(114);
    v.push(101);
    v.push(115);
    v.push(117);
    v.push(108);
    v.push(116);
    proof {
        assert(v@ =~= result_name());
    }
    v
}

/// Evaluates source text with the two positional arguments and reports,
/// beside the flat numeric result, the failure that emptied it, if one
/// did: the result is empty exactly when a failure is reported, except for
/// a successfully computed empty array.
///
/// The second argument is pushed before the first, so the first argument
/// is on top of the stack when the program starts.
pub fn evaluate_with_diagnostic(source: &[u8], arg1: i64, arg2: i64) -> (r: (
    Vec<i64>,
    Option<EvalError>,
))
    ensures
        (r.0@, r.1) == eval_outcome(source@, arg1, arg2),
{
    let mut e = Evaluator::new_sandboxed();
    e.push_scalar(arg2);
    e.push_scalar(arg1);
    proof {
        assert(e@.stack =~= init_state(arg1, arg2).stack);
        assert(e@ =~= init_state(arg1, arg2));
    }
    match e.run(source) {
        Err(err) => (Vec::new(), Some(err)),
        Ok(_) => {
            let name = result_name_bytes();
            let named = e.pop_named(name.as_slice());
            let got = match named {
                Some(v) => Some(v),
                None => e.pop_top(),
            };
            match got {
                None => (Vec::new(), Some(EvalError::MissingResult)),
                Some(v) => match &v {
                    Value::Other(_) => (Vec::new(), Some(EvalError::UnsupportedResultType)),
                    _ => (flatten(&v), None),
                },
            }
        }
    }
}

/// Evaluates source text with the two positional arguments and returns the
/// flat numeric result, empty on any failure: syntax error, runtime error,
/// refused capability, missing result, or a non-numeric result.
pub fn evaluate(source: &[u8], arg1: i64, arg2: i64) -> (r: Vec<i64>)
    ensures
        r@ == eval_spec(source@, arg1, arg2),
{
    let (out, _) = evaluate_with_diagnostic(source, arg1, arg2);
    out
}

} // verus!
