//! The library's laws: what holds of every evaluation, proved once over
//! the specification pipeline that `evaluate`'s contract pins its result
//! to.

use vstd::prelude::*;

use crate::facade::{eval_outcome, eval_spec, init_state, result_name, select_spec};
use crate::lexer::{tok_scan, tokenize_spec};
use crate::machine::{exec_from, last_bound, run_spec, step_spec, EvalError};
use crate::parser::{kw_swap, parse_from, parse_spec, InstrModel};
use crate::value::{as_num, widen_byte, ValModel};

verus! {

/// Syntactically invalid source always evaluates to the empty sequence,
/// with a syntax error as the recorded failure; nothing is raised to the
/// caller.
pub proof fn lemma_invalid_source_yields_empty(src: Seq<u8>, arg1: i64, arg2: i64)
    requires
        parse_spec(tokenize_spec(src)) is None,
    ensures
        eval_spec(src, arg1, arg2) == Seq::<i64>::empty(),
        eval_outcome(src, arg1, arg2).1 == Some(EvalError::Syntax),
{
}

/// When a run succeeds and leaves a numeric value under the expected
/// selector, the evaluation yields exactly that value's elements: count
/// and order are kept, and byte elements are widened losslessly.
pub proof fn lemma_successful_numeric_result(
    src: Seq<u8>,
    arg1: i64,
    arg2: i64,
    v: ValModel,
    elems: Seq<i64>,
)
    requires
        run_spec(init_state(arg1, arg2), src).1 is None,
        select_spec(run_spec(init_state(arg1, arg2), src).0) == Some(v),
        as_num(v) == Some(elems),
    ensures
        eval_spec(src, arg1, arg2) == elems,
        eval_outcome(src, arg1, arg2).1 is None,
        v matches ValModel::Num(a) ==> eval_spec(src, arg1, arg2) == a,
        v matches ValModel::Byte(bs) ==> eval_spec(src, arg1, arg2).len() == bs.len() && (forall|
            i: int,
        |
            0 <= i < bs.len() ==> eval_spec(src, arg1, arg2)[i] == widen_byte(bs[i])),
{
}

/// When a run succeeds but leaves a non-numeric value under the expected
/// selector, the evaluation yields the empty sequence and records the
/// unsupported result type.
pub proof fn lemma_non_numeric_result_yields_empty(src: Seq<u8>, arg1: i64, arg2: i64, t: Seq<u8>)
    requires
        run_spec(init_state(arg1, arg2), src).1 is None,
        select_spec(run_spec(init_state(arg1, arg2), src).0) == Some(ValModel::Other(t)),
    ensures
        eval_spec(src, arg1, arg2) == Seq::<i64>::empty(),
        eval_outcome(src, arg1, arg2).1 == Some(EvalError::UnsupportedResultType),
{
}

/// Evaluation is a pure function of its inputs: two evaluations of the
/// same source and arguments yield the same output. There is no hidden
/// state shared between calls.
pub proof fn lemma_evaluate_deterministic(
    r1: Seq<i64>,
    r2: Seq<i64>,
    src: Seq<u8>,
    arg1: i64,
    arg2: i64,
)
    requires
        r1 == eval_spec(src, arg1, arg2),
        r2 == eval_spec(src, arg1, arg2),
    ensures
        r1 == r2,
{
}

/// Argument order: the second argument is pushed first, so a program that
/// touches nothing leaves the first argument on top, and that is what an
/// empty source evaluates to.
pub proof fn lemma_empty_source_yields_first_argument(arg1: i64, arg2: i64)
    ensures
        eval_spec(Seq::empty(), arg1, arg2) == seq![arg1],
{
    let st = init_state(arg1, arg2);
    assert(tokenize_spec(Seq::<u8>::empty()) =~= Seq::<Seq<u8>>::empty());
    assert(parse_spec(Seq::<Seq<u8>>::empty()) == Some(Seq::<InstrModel>::empty()));
    assert(exec_from(Seq::<InstrModel>::empty(), 0, st) == (st, None::<EvalError>));
    assert(last_bound(st.binds, result_name()) is None);
    assert(select_spec(st) == Some(ValModel::Num(seq![arg1])));
    assert(eval_spec(Seq::empty(), arg1, arg2) =~= seq![arg1]);
}

/// Argument order, seen the other way: a program of the single
/// instruction `swap` brings the second argument to the top, and that is
/// what it evaluates to.
pub proof fn lemma_swap_source_yields_second_argument(arg1: i64, arg2: i64)
    ensures
        eval_spec(kw_swap(), arg1, arg2) == seq![arg2],
{
    let src = kw_swap();
    assert(tok_scan(src, 4) == (Seq::<Seq<u8>>::empty(), src)) by {
        reveal_with_fuel(tok_scan, 6);
        assert(Seq::<u8>::empty().push(115u8).push(119u8).push(97u8).push(112u8) =~= src);
    }
    assert(tokenize_spec(src) =~= seq![src]);
    let toks = seq![src];
    assert(parse_from(toks, 1) == Some(Seq::<InstrModel>::empty()));
    assert(parse_spec(toks) == Some(seq![InstrModel::Swap] + Seq::<InstrModel>::empty()));
    let prog = seq![InstrModel::Swap] + Seq::<InstrModel>::empty();
    assert(prog =~= seq![InstrModel::Swap]);
    let st = init_state(arg1, arg2);
    let stepped = step_spec(st, InstrModel::Swap);
    assert(stepped.0.stack =~= seq![ValModel::Num(seq![arg1]), ValModel::Num(seq![arg2])]);
    assert(exec_from(prog, 1, stepped.0) == (stepped.0, None::<EvalError>));
    assert(last_bound(stepped.0.binds, result_name()) is None);
    assert(select_spec(stepped.0) == Some(ValModel::Num(seq![arg2])));
    assert(eval_spec(src, arg1, arg2) =~= seq![arg2]);
}

} // verus!
