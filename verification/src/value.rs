//! The values held by the operand stack, and the flattener that turns a
//! value into a flat numeric sequence.

use vstd::prelude::*;

verus! {

/// Largest integer magnitude the machine computes with: 2^53, the bound up
/// to which every integer is exactly representable as a 64-bit float.
pub const MAX_EXACT: i64 = 9007199254740992;

/// Whether a number lies in the machine's numeric range.
pub open spec fn in_range(n: int) -> bool {
    -MAX_EXACT <= n <= MAX_EXACT
}

/// Widening of a byte to the machine's numeric domain.
pub open spec fn widen_byte(b: u8) -> i64 {
    b as i64
}

/// Mathematical model of a `Value`.
pub ghost enum ValModel {
    /// A numeric array in element order.
    Num(Seq<i64>),
    /// A byte array in element order; each element widens losslessly.
    Byte(Seq<u8>),
    /// A non-numeric value, opaque to the flattener.
    Other(Seq<u8>),
}

/// A value on the operand stack: a tagged union over array-shaped data.
#[derive(Debug)]
pub enum Value {
    /// A numeric array in element order.
    Num(Vec<i64>),
    /// A byte array in element order.
    Byte(Vec<u8>),
    /// A non-numeric value (text), not flattenable.
    Other(Vec<u8>),
}

impl View for Value {
    type V = ValModel;

    open spec fn view(&self) -> ValModel {
        match self {
            Value::Num(a) => ValModel::Num(a@),
            Value::Byte(a) => ValModel::Byte(a@),
            Value::Other(t) => ValModel::Other(t@),
        }
    }
}

/// What flattening a value yields: numeric elements unchanged in storage
/// order, bytes widened in storage order, and nothing for a non-numeric
/// value.
pub open spec fn flatten_spec(v: ValModel) -> Seq<i64> {
    match v {
        ValModel::Num(a) => a,
        ValModel::Byte(a) => a.map_values(|b: u8| widen_byte(b)),
        ValModel::Other(_) => Seq::empty(),
    }
}

/// The numeric elements of a value: unchanged for a numeric array, widened
/// for a byte array, absent for a non-numeric value.
pub open spec fn as_num(v: ValModel) -> Option<Seq<i64>> {
    match v {
        ValModel::Num(a) => Some(a),
        ValModel::Byte(a) => Some(a.map_values(|b: u8| widen_byte(b))),
        ValModel::Other(_) => None,
    }
}

/// Extracts the numeric elements of a value; `None` for a non-numeric one.
pub fn to_numeric(v: &Value) -> (r: Option<Vec<i64>>)
    ensures
        match as_num(v@) {
            Some(s) => r matches Some(x) && x@ == s,
            None => r is None,
        },
{
    match v {
        Value::Other(_) => None,
        _ => Some(flatten(v)),
    }
}

/// Flattens a value to a flat ordered numeric sequence: element count and
/// relative order are preserved, bytes are widened exactly, and a
/// non-numeric value yields an empty sequence.
pub fn flatten(v: &Value) -> (r: Vec<i64>)
    ensures
        r@ == flatten_spec(v@),
{
    match v {
        Value::Num(a) => {
            let mut out: Vec<i64> = Vec::new();
            let mut i: usize = 0;
            while i < a.len()
                invariant
                    i <= a.len(),
                    out@ == a@.take(i as int),
                decreases a.len() - i,
            {
                out.push(a[i]);
                i = i + 1;
                proof {
                    assert(out@ =~= a@.take(i as int));
                }
            }
            proof {
                assert(a@.take(a@.len() as int) =~= a@);
            }
            out
        }
        Value::Byte(a) => {
            let mut out: Vec<i64> = Vec::new();
            let mut i: usize = 0;
            while i < a.len()
                invariant
                    i <= a.len(),
                    out@ == a@.take(i as int).map_values(|b: u8| widen_byte(b)),
                decreases a.len() - i,
            {
                out.push(a[i] as i64);
                i = i + 1;
                proof {
                    assert(out@ =~= a@.take(i as int).map_values(|b: u8| widen_byte(b)));
                }
            }
            proof {
                assert(a@.take(a@.len() as int) =~= a@);
            }
            out
        }
        Value::Other(_) => Vec::new(),
    }
}

} // verus!
