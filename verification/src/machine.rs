//! The sandboxed evaluator: an operand stack, named bindings, and the
//! execution of a parsed program against them.

use vstd::prelude::*;

use crate::lexer::{tokenize, tokenize_spec};
use crate::parser::{parse, parse_spec, instr_views, Instr, InstrModel};
use crate::value::{as_num, in_range, to_numeric, ValModel, Value};

verus! {

/// Why an evaluation stage failed.
#[derive(Clone, Copy, Debug, PartialEq, Eq, Structural)]
pub enum EvalError {
    /// The source text is malformed.
    Syntax,
    /// Valid syntax, but execution failed: stack underflow, a type or
    /// length mismatch, or a sum outside the machine's numeric range.
    Runtime,
    /// The source asked for a capability the sandbox withholds.
    PermissionDenied,
    /// No value was found under the expected selector.
    MissingResult,
    /// The selected value is not numeric.
    UnsupportedResultType,
}

/// Mathematical model of the evaluator: the operand stack, bottom first,
/// and the named bindings, oldest first.
#[verifier::ext_equal]
pub ghost struct StateModel {
    pub stack: Seq<ValModel>,
    pub binds: Seq<(Seq<u8>, ValModel)>,
}

/// The element-wise sums of two equally long numeric sequences.
pub open spec fn sum_seq(a: Seq<i64>, b: Seq<i64>) -> Seq<i64> {
    Seq::new(a.len(), |i: int| (a[i] + b[i]) as i64)
}

/// Whether every element-wise sum stays in the machine's numeric range.
pub open spec fn sums_in_range(a: Seq<i64>, b: Seq<i64>) -> bool {
    forall|i: int| 0 <= i < a.len() ==> in_range(#[trigger] (a[i] + b[i]))
}

/// What one instruction does to the machine: the state after it, and the
/// error if it fails, in which case the state is left as it was.
pub open spec fn step_spec(st: StateModel, instr: InstrModel) -> (StateModel, Option<
    EvalError,
>) {
    match instr {
        InstrModel::Push(n) => (
            StateModel { stack: st.stack.push(ValModel::Num(seq![n])), binds: st.binds },
            None,
        ),
        InstrModel::PushByte(b) => (
            StateModel { stack: st.stack.push(ValModel::Byte(seq![b])), binds: st.binds },
            None,
        ),
        InstrModel::Add => {
            if st.stack.len() < 2 {
                (st, Some(EvalError::Runtime))
            } else {
                let a = st.stack[st.stack.len() - 2];
                let b = st.stack.last();
                match (as_num(a), as_num(b)) {
                    (Some(x), Some(y)) => {
                        if x.len() == y.len() && sums_in_range(x, y) {
                            (
                                StateModel {
                                    stack: st.stack.drop_last().drop_last().push(
                                        ValModel::Num(sum_seq(x, y)),
                                    ),
                                    binds: st.binds,
                                },
                                None,
                            )
                        } else {
                            (st, Some(EvalError::Runtime))
                        }
                    }
                    _ => (st, Some(EvalError::Runtime)),
                }
            }
        }
        InstrModel::Swap => {
            if st.stack.len() < 2 {
                (st, Some(EvalError::Runtime))
            } else {
                let a = st.stack[st.stack.len() - 2];
                let b = st.stack.last();
                (
                    StateModel {
                        stack: st.stack.drop_last().drop_last().push(b).push(a),
                        binds: st.binds,
                    },
                    None,
                )
            }
        }
        InstrModel::Cat => {
            if st.stack.len() < 2 {
                (st, Some(EvalError::Runtime))
            } else {
                let a = st.stack[st.stack.len() - 2];
                let b = st.stack.last();
                match (a, b) {
                    (ValModel::Num(x), ValModel::Num(y)) => (
                        StateModel {
                            stack: st.stack.drop_last().drop_last().push(ValModel::Num(x + y)),
                            binds: st.binds,
                        },
                        None,
                    ),
                    (ValModel::Byte(x), ValModel::Byte(y)) => (
                        StateModel {
                            stack: st.stack.drop_last().drop_last().push(ValModel::Byte(x + y)),
                            binds: st.binds,
                        },
                        None,
                    ),
                    _ => (st, Some(EvalError::Runtime)),
                }
            }
        }
        InstrModel::Bind(name) => {
            if st.stack.len() == 0 {
                (st, Some(EvalError::Runtime))
            } else {
                (
                    StateModel {
                        stack: st.stack.drop_last(),
                        binds: st.binds.push((name, st.stack.last())),
                    },
                    None,
                )
            }
        }
        InstrModel::Text(t) => (
            StateModel { stack: st.stack.push(ValModel::Other(t)), binds: st.binds },
            None,
        ),
        InstrModel::FsRead => (st, Some(EvalError::PermissionDenied)),
    }
}

/// Running the program from instruction `k` on: the state where execution
/// stops, and the error if it stopped early.
pub open spec fn exec_from(prog: Seq<InstrModel>, k: int, st: StateModel) -> (StateModel, Option<
    EvalError,
>)
    decreases prog.len() - k,
{
    if k < 0 || k >= prog.len() {
        (st, None)
    } else {
        let r = step_spec(st, prog[k]);
        if r.1 is Some {
            r
        } else {
            exec_from(prog, k + 1, r.0)
        }
    }
}

/// Running a whole program from a starting state.
pub open spec fn exec_spec(prog: Seq<InstrModel>, st: StateModel) -> (StateModel, Option<
    EvalError,
>) {
    exec_from(prog, 0, st)
}

/// What `run` does: a syntax error on malformed source leaves the state
/// untouched; otherwise the parsed program executes to completion or to its
/// first error.
pub open spec fn run_spec(st: StateModel, src: Seq<u8>) -> (StateModel, Option<EvalError>) {
    match parse_spec(tokenize_spec(src)) {
        None => (st, Some(EvalError::Syntax)),
        Some(prog) => exec_spec(prog, st),
    }
}

/// The index of the most recent binding under `name`, if any.
pub open spec fn last_bound(binds: Seq<(Seq<u8>, ValModel)>, name: Seq<u8>) -> Option<int>
    decreases binds.len(),
{
    if binds.len() == 0 {
        None
    } else if binds.last().0 == name {
        Some(binds.len() - 1)
    } else {
        last_bound(binds.drop_last(), name)
    }
}

/// The views of a sequence of values.
pub open spec fn vals_of(vs: Seq<Value>) -> Seq<ValModel> {
    Seq::new(vs.len(), |i: int| vs[i]@)
}

/// The views of a sequence of bindings.
pub open spec fn binds_of(bs: Seq<(Vec<u8>, Value)>) -> Seq<(Seq<u8>, ValModel)> {
    Seq::new(bs.len(), |i: int| (bs[i].0@, bs[i].1@))
}

/// The evaluator: a fresh, sandboxed machine per evaluation call. It has
/// no filesystem, network, or process capability; the one instruction that
/// asks for one is refused with `PermissionDenied`.
pub struct Evaluator {
    stack: Vec<Value>,
    binds: Vec<(Vec<u8>, Value)>,
}

impl View for Evaluator {
    type V = StateModel;

    closed spec fn view(&self) -> StateModel {
        StateModel { stack: vals_of(self.stack@), binds: binds_of(self.binds@) }
    }
}

impl Evaluator {
    /// A fresh evaluator with an empty stack and no bindings.
    pub fn new_sandboxed() -> (e: Evaluator)
        ensures
            e@ == (StateModel { stack: Seq::<ValModel>::empty(), binds: Seq::empty() }),
    {
        let e = Evaluator { stack: Vec::new(), binds: Vec::new() };
        proof {
            assert(e@.stack =~= Seq::<ValModel>::empty());
            assert(e@.binds =~= Seq::<(Seq<u8>, ValModel)>::empty());
            assert(e@ =~= (StateModel { stack: Seq::<ValModel>::empty(), binds: Seq::empty() }));
        }
        e
    }

    /// Pushes a one-element numeric array onto the stack, used to seed the
    /// positional arguments before a run.
    pub fn push_scalar(&mut self, n: i64)
        ensures
            final(self)@ == (StateModel {
                stack: old(self)@.stack.push(ValModel::Num(seq![n])),
                binds: old(self)@.binds,
            }),
    {
        let mut elems: Vec<i64> = Vec::new();
        elems.push(n);
        self.stack.push(Value::Num(elems));
        proof {
            assert(self@.stack =~= old(self)@.stack.push(ValModel::Num(seq![n])));
            assert(self@.binds =~= old(self)@.binds);
            assert(self@ =~= (StateModel {
                stack: old(self)@.stack.push(ValModel::Num(seq![n])),
                binds: old(self)@.binds,
            }));
        }
    }

    /// Applies one instruction; on failure the state is left as it was.
    fn step(&mut self, instr: &Instr) -> (r: Option<EvalError>)
        ensures
            (final(self)@, r) == step_spec(old(self)@, instr@),
    {
        match instr {
            Instr::Push(n) => {
                let mut elems: Vec<i64> = Vec::new();
                elems.push(*n);
                self.stack.push(Value::Num(elems));
                proof {
                    assert(self@.stack =~= step_spec(old(self)@, instr@).0.stack);
                    assert(self@.binds =~= step_spec(old(self)@, instr@).0.binds);
                    assert(self@ =~= step_spec(old(self)@, instr@).0);
                }
                None
            }
            Instr::PushByte(b) => {
                let mut elems: Vec<u8> = Vec::new();
                elems.push(*b);
                self.stack.push(Value::Byte(elems));
                proof {
                    assert(self@.stack =~= step_spec(old(self)@, instr@).0.stack);
                    assert(self@.binds =~= step_spec(old(self)@, instr@).0.binds);
                    assert(self@ =~= step_spec(old(self)@, instr@).0);
                }
                None
            }
            Instr::Add => {
                if self.stack.len() < 2 {
                    return Some(EvalError::Runtime);
                }
                let n = self.stack.len();
                let xo = to_numeric(&self.stack[n - 2]);
                let yo = to_numeric(&self.stack[n - 1]);
                proof {
                    assert(self@.stack[n - 2] == old(self)@.stack[old(self)@.stack.len() - 2]);
                    assert(self@.stack[n - 1] == old(self)@.stack.last());
                }
                match (xo, yo) {
                    (Some(x), Some(y)) => {
                        if x.len() != y.len() {
                            return Some(EvalError::Runtime);
                        }
                        let mut sums: Vec<i64> = Vec::new();
                        let mut i: usize = 0;
                        let ghost xs = x@;
                        let ghost ys = y@;
                        while i < x.len()
                            invariant
                                i <= x.len(),
                                xs == x@,
                                ys == y@,
                                xs.len() == ys.len(),
                                self@ == old(self)@,
                                instr@ == InstrModel::Add,
                                old(self)@.stack.len() >= 2,
                                as_num(old(self)@.stack[old(self)@.stack.len() - 2]) == Some(xs),
                                as_num(old(self)@.stack.last()) == Some(ys),
                                forall|j: int|
                                    0 <= j < i ==> in_range(#[trigger] (xs[j] + ys[j])),
                                sums@ == sum_seq(xs, ys).take(i as int),
                            decreases x.len() - i,
                        {
                            let s: i128 = x[i] as i128 + y[i] as i128;
                            if s < -crate::value::MAX_EXACT as i128 || s > crate::value::MAX_EXACT
                                as i128 {
                                proof {
                                    assert(!in_range(xs[i as int] + ys[i as int]));
                                }
                                return Some(EvalError::Runtime);
                            }
                            sums.push(s as i64);
                            i = i + 1;
                            proof {
                                assert(sums@ =~= sum_seq(xs, ys).take(i as int));
                            }
                        }
                        proof {
                            assert(sum_seq(xs, ys).take(xs.len() as int) =~= sum_seq(xs, ys));
                        }
                        let _ = self.stack.pop();
                        let _ = self.stack.pop();
                        self.stack.push(Value::Num(sums));
                        proof {
                            assert(self@.stack =~= step_spec(old(self)@, instr@).0.stack);
                            assert(self@.binds =~= step_spec(old(self)@, instr@).0.binds);
                            assert(self@ =~= step_spec(old(self)@, instr@).0);
                        }
                        None
                    }
                    _ => Some(EvalError::Runtime),
                }
            }
            Instr::Swap => {
                if self.stack.len() < 2 {
                    return Some(EvalError::Runtime);
                }
                let b = self.stack.pop().unwrap();
                let a = self.stack.pop().unwrap();
                self.stack.push(b);
                self.stack.push(a);
                proof {
                    assert(self@.stack =~= step_spec(old(self)@, instr@).0.stack);
                    assert(self@.binds =~= step_spec(old(self)@, instr@).0.binds);
                    assert(self@ =~= step_spec(old(self)@, instr@).0);
                }
                None
            }
            Instr::Cat => {
                if self.stack.len() < 2 {
                    return Some(EvalError::Runtime);
                }
                let b = self.stack.pop().unwrap();
                let a = self.stack.pop().unwrap();
                match (a, b) {
                    (Value::Num(mut x), Value::Num(mut y)) => {
                        x.append(&mut y);
                        self.stack.push(Value::Num(x));
                        proof {
                            assert(self@.stack =~= step_spec(old(self)@, instr@).0.stack);
                            assert(self@.binds =~= step_spec(old(self)@, instr@).0.binds);
                            assert(self@ =~= step_spec(old(self)@, instr@).0);
                        }
                        None
                    }
                    (Value::Byte(mut x), Value::Byte(mut y)) => {
                        x.append(&mut y);
                        self.stack.push(Value::Byte(x));
                        proof {
                            assert(self@.stack =~= step_spec(old(self)@, instr@).0.stack);
                            assert(self@.binds =~= step_spec(old(self)@, instr@).0.binds);
                            assert(self@ =~= step_spec(old(self)@, instr@).0);
                        }
                        None
                    }
                    (a2, b2) => {
                        self.stack.push(a2);
                        self.stack.push(b2);
                        proof {
                            assert(self@.stack =~= old(self)@.stack);
                            assert(self@.binds =~= old(self)@.binds);
                            assert(self@ =~= old(self)@);
                        }
                        Some(EvalError::Runtime)
                    }
                }
            }
            Instr::Bind(name) => {
                if self.stack.len() == 0 {
                    return Some(EvalError::Runtime);
                }
                let v = self.stack.pop().unwrap();
                self.binds.push((name.clone(), v));
                proof {
                    assert(self@.stack =~= step_spec(old(self)@, instr@).0.stack);
                    assert(self@.binds =~= step_spec(old(self)@, instr@).0.binds);
                    assert(self@ =~= step_spec(old(self)@, instr@).0);
                }
                None
            }
            Instr::Text(t) => {
                self.stack.push(Value::Other(t.clone()));
                proof {
                    assert(self@.stack =~= step_spec(old(self)@, instr@).0.stack);
                    assert(self@.binds =~= step_spec(old(self)@, instr@).0.binds);
                    assert(self@ =~= step_spec(old(self)@, instr@).0);
                }
                None
            }
            Instr::FsRead => Some(EvalError::PermissionDenied),
        }
    }

    /// Parses and executes source text against the current stack, left to
    /// right, to completion or to the first error. Malformed source is
    /// reported as `Syntax` and leaves the machine untouched.
    pub fn run(&mut self, source: &[u8]) -> (r: Result<(), EvalError>)
        ensures
            (final(self)@, (match r {
                Ok(_) => None::<EvalError>,
                Err(e) => Some(e),
            })) == run_spec(old(self)@, source@),
    {
        let toks = tokenize(source);
        match parse(&toks) {
            None => Err(EvalError::Syntax),
            Some(prog) => {
                let ghost pm = instr_views(prog@);
                let mut k: usize = 0;
                while k < prog.len()
                    invariant
                        k <= prog.len(),
                        pm == instr_views(prog@),
                        parse_spec(tokenize_spec(source@)) == Some(pm),
                        exec_from(pm, 0, old(self)@) == exec_from(pm, k as int, self@),
                    decreases prog.len() - k,
                {
                    let ghost pre = self@;
                    let e = self.step(&prog[k]);
                    match e {
                        Some(err) => {
                            proof {
                                assert(pm[k as int] == prog@[k as int]@);
                                assert(exec_from(pm, k as int, pre) == (self@, Some(err)));
                            }
                            return Err(err);
                        }
                        None => {
                            proof {
                                assert(pm[k as int] == prog@[k as int]@);
                                assert(exec_from(pm, k as int, pre) == exec_from(
                                    pm,
                                    k as int + 1,
                                    self@,
                                ));
                            }
                            k = k + 1;
                        }
                    }
                }
                Ok(())
            }
        }
    }

    /// Removes and returns the most recent binding under `name`; `None`
    /// when the name is unbound, with the machine left untouched.
    pub fn pop_named(&mut self, name: &[u8]) -> (r: Option<Value>)
        ensures
            match last_bound(old(self)@.binds, name@) {
                Some(j) => r matches Some(v) && v@ == old(self)@.binds[j].1 && final(self)@.binds
                    == old(self)@.binds.remove(j) && final(self)@.stack == old(self)@.stack,
                None => r is None && final(self)@ == old(self)@,
            },
    {
        let mut idx: usize = self.binds.len();
        proof {
            assert(self@.binds.take(idx as int) =~= self@.binds);
        }
        while idx > 0
            invariant
                idx <= self.binds.len(),
                self@ == old(self)@,
                last_bound(self@.binds, name@) == last_bound(
                    self@.binds.take(idx as int),
                    name@,
                ),
            decreases idx,
        {
            let matches_name = bytes_eq(self.binds[idx - 1].0.as_slice(), name);
            proof {
                assert(self@.binds.take(idx as int).last() == self@.binds[idx - 1]);
                assert(self@.binds.take(idx as int).drop_last() =~= self@.binds.take(
                    idx as int - 1,
                ));
            }
            if matches_name {
                let ghost j = idx - 1;
                let (_, v) = self.binds.remove(idx - 1);
                proof {
                    assert(last_bound(old(self)@.binds, name@) == Some(j as int));
                    assert(self@.binds =~= old(self)@.binds.remove(j as int));
                    assert(self@.stack =~= old(self)@.stack);
                }
                return Some(v);
            }
            idx = idx - 1;
        }
        proof {
            assert(last_bound(self@.binds.take(0), name@) is None);
        }
        None
    }

    /// Removes and returns the top of the stack; `None` when the stack is
    /// empty, with the machine left untouched.
    pub fn pop_top(&mut self) -> (r: Option<Value>)
        ensures
            old(self)@.stack.len() == 0 ==> r is None && final(self)@ == old(self)@,
            old(self)@.stack.len() > 0 ==> (r matches Some(v) && v@ == old(self)@.stack.last()
                && final(self)@.stack == old(self)@.stack.drop_last() && final(self)@.binds == old(
                self,
            )@.binds),
    {
        let r = self.stack.pop();
        proof {
            if old(self)@.stack.len() == 0 {
                assert(self@ =~= old(self)@);
            } else {
                assert(self@.stack =~= old(self)@.stack.drop_last());
                assert(self@.binds =~= old(self)@.binds);
            }
        }
        r
    }
}

/// Whether two byte slices hold the same bytes.
pub fn bytes_eq(a: &[u8], b: &[u8]) -> (r: bool)
    ensures
        r == (a@ == b@),
{
    if a.len() != b.len() {
        return false;
    }
    let mut i: usize = 0;
    while i < a.len()
        invariant
            i <= a.len(),
            a@.len() == b@.len(),
            forall|j: int| 0 <= j < i ==> a@[j] == b@[j],
        decreases a.len() - i,
    {
        if a[i] != b[i] {
            return false;
        }
        i = i + 1;
    }
    proof {
        assert(a@ =~= b@);
    }
    true
}

} // verus!
