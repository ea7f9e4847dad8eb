//! The instruction set and the parser that turns tokens into a program.
//!
//! The language is a flat sequence of whitespace-separated instructions:
//!
//! - `push <int>`: push a one-element numeric array; the literal is a
//!   decimal integer of at most 15 digits, optionally preceded by `-`.
//! - `byte <int>`: push a one-element byte array; the literal must lie in
//!   `0..=255`.
//! - `add`: pop two numeric arrays of equal length, push their element-wise
//!   sum.
//! - `swap`: exchange the two topmost stack values.
//! - `cat`: pop two arrays of the same variant, push their concatenation.
//! - `bind <name>`: pop the top value and bind it under `<name>`.
//! - `text <word>`: push a non-numeric text value.
//! - `fsread`: attempt a filesystem read; always refused by the sandbox.
//!
//! Anything else, or a missing operand, is a syntax error.

use vstd::prelude::*;

use crate::lexer::views_of;
use crate::value::in_range;

verus! {

/// Mathematical model of an instruction.
pub ghost enum InstrModel {
    Push(i64),
    PushByte(u8),
    Add,
    Swap,
    Cat,
    Bind(Seq<u8>),
    Text(Seq<u8>),
    FsRead,
}

/// One instruction of the machine's language.
#[derive(Debug)]
pub enum Instr {
    Push(i64),
    PushByte(u8),
    Add,
    Swap,
    Cat,
    Bind(Vec<u8>),
    Text(Vec<u8>),
    FsRead,
}

impl View for Instr {
    type V = InstrModel;

    open spec fn view(&self) -> InstrModel {
        match self {
            Instr::Push(n) => InstrModel::Push(*n),
            Instr::PushByte(b) => InstrModel::PushByte(*b),
            Instr::Add => InstrModel::Add,
            Instr::Swap => InstrModel::Swap,
            Instr::Cat => InstrModel::Cat,
            Instr::Bind(n) => InstrModel::Bind(n@),
            Instr::Text(t) => InstrModel::Text(t@),
            Instr::FsRead => InstrModel::FsRead,
        }
    }
}

/// The sequence of views of a sequence of instructions.
pub open spec fn instr_views(is: Seq<Instr>) -> Seq<InstrModel> {
    Seq::new(is.len(), |i: int| is[i]@)
}

/// The bytes of the keyword `push`.
pub open spec fn kw_push() -> Seq<u8> {
    seq![112u8, 117u8, 115u8, 104u8]
}

/// The bytes of the keyword `byte`.
pub open spec fn kw_byte() -> Seq<u8> {
    seq![98u8, 121u8, 116u8, 101u8]
}

/// The bytes of the keyword `add`.
pub open spec fn kw_add() -> Seq<u8> {
    seq![97u8, 100u8, 100u8]
}

/// The bytes of the keyword `swap`.
pub open spec fn kw_swap() -> Seq<u8> {
    seq![115u8, 119u8, 97u8, 112u8]
}

/// The bytes of the keyword `cat`.
pub open spec fn kw_cat() -> Seq<u8> {
    seq![99u8, 97u8, 116u8]
}

/// The bytes of the keyword `bind`.
pub open spec fn kw_bind() -> Seq<u8> {
    seq![98u8, 105u8, 110u8, 100u8]
}

/// The bytes of the keyword `text`.
pub open spec fn kw_text() -> Seq<u8> {
    seq![116u8, 101u8, 120u8, 116u8]
}

/// The bytes of the keyword `fsread`.
pub open spec fn kw_fsread() -> Seq<u8> {
    seq![102u8, 115u8, 114u8, 101u8, 97u8, 100u8]
}

pub open spec fn is_digit(b: u8) -> bool {
    48 <= b <= 57
}

pub open spec fn all_digits(t: Seq<u8>) -> bool {
    forall|i: int| 0 <= i < t.len() ==> is_digit(#[trigger] t[i])
}

/// The number denoted by a sequence of decimal digits, most significant
/// first.
pub open spec fn digits_val(t: Seq<u8>) -> int
    decreases t.len(),
{
    if t.len() == 0 {
        0
    } else {
        digits_val(t.drop_last()) * 10 + (t.last() - 48)
    }
}

pub open spec fn pow10(n: int) -> int
    decreases n,
{
    if n <= 0 {
        1
    } else {
        10 * pow10(n - 1)
    }
}

/// Whether a token is an integer literal the machine accepts: at most 15
/// digits, optionally signed. The bound keeps every literal inside the
/// machine's numeric range.
pub open spec fn is_int_token(t: Seq<u8>) -> bool {
    if t.len() > 0 && t[0] == 45 {
        2 <= t.len() <= 16 && all_digits(t.skip(1))
    } else {
        1 <= t.len() <= 15 && all_digits(t)
    }
}

/// The number an integer literal denotes.
pub open spec fn int_val(t: Seq<u8>) -> int {
    if t.len() > 0 && t[0] == 45 {
        -digits_val(t.skip(1))
    } else {
        digits_val(t)
    }
}

proof fn lemma_pow10_pos(n: int)
    ensures
        pow10(n) >= 1,
    decreases n,
{
    if n > 0 {
        lemma_pow10_pos(n - 1);
    }
}

proof fn lemma_pow10_mono(a: int, b: int)
    requires
        a <= b,
    ensures
        pow10(a) <= pow10(b),
    decreases b - a,
{
    if a < b {
        lemma_pow10_mono(a, b - 1);
        lemma_pow10_pos(b - 1);
    }
}

proof fn lemma_digits_val_bound(t: Seq<u8>)
    requires
        all_digits(t),
    ensures
        0 <= digits_val(t) <= pow10(t.len() as int) - 1,
    decreases t.len(),
{
    if t.len() > 0 {
        lemma_digits_val_bound(t.drop_last());
    }
}

/// Every accepted integer literal lies in the machine's numeric range.
pub proof fn lemma_int_token_in_range(t: Seq<u8>)
    requires
        is_int_token(t),
    ensures
        in_range(int_val(t)),
{
    assert(pow10(15) == 1000000000000000) by {
        reveal_with_fuel(pow10, 17);
    }
    if t.len() > 0 && t[0] == 45 {
        lemma_digits_val_bound(t.skip(1));
        lemma_pow10_mono(t.skip(1).len() as int, 15);
    } else {
        lemma_digits_val_bound(t);
        lemma_pow10_mono(t.len() as int, 15);
    }
}

/// Whether a token is the keyword `push`.
fn is_kw_push(t: &Vec<u8>) -> (r: bool)
    ensures
        r == (t@ == kw_push()),
{
    let r = t.len() == 4 && t[0] == 112 && t[1] == 117 && t[2] == 115 && t[3] == 104;
    proof {
        if r {
            assert(t@ =~= kw_push());
        }
    }
    r
}

/// Whether a token is the keyword `byte`.
fn is_kw_byte(t: &Vec<u8>) -> (r: bool)
    ensures
        r == (t@ == kw_byte()),
{
    let r = t.len() == 4 && t[0] == 98 && t[1] == 121 && t[2] == 116 && t[3] == 101;
    proof {
        if r {
            assert(t@ =~= kw_byte());
        }
    }
    r
}

/// Whether a token is the keyword `add`.
fn is_kw_add(t: &Vec<u8>) -> (r: bool)
    ensures
        r == (t@ == kw_add()),
{
    let r = t.len() == 3 && t[0] == 97 && t[1] == 100 && t[2] == 100;
    proof {
        if r {
            assert(t@ =~= kw_add());
        }
    }
    r
}

/// Whether a token is the keyword `swap`.
fn is_kw_swap(t: &Vec<u8>) -> (r: bool)
    ensures
        r == (t@ == kw_swap()),
{
    let r = t.len() == 4 && t[0] == 115 && t[1] == 119 && t[2] == 97 && t[3] == 112;
    proof {
        if r {
            assert(t@ =~= kw_swap());
        }
    }
    r
}

/// Whether a token is the keyword `cat`.
fn is_kw_cat(t: &Vec<u8>) -> (r: bool)
    ensures
        r == (t@ == kw_cat()),
{
    let r = t.len() == 3 && t[0] == 99 && t[1] == 97 && t[2] == 116;
    proof {
        if r {
            assert(t@ =~= kw_cat());
        }
    }
    r
}

/// Whether a token is the keyword `bind`.
fn is_kw_bind(t: &Vec<u8>) -> (r: bool)
    ensures
        r == (t@ == kw_bind()),
{
    let r = t.len() == 4 && t[0] == 98 && t[1] == 105 && t[2] == 110 && t[3] == 100;
    proof {
        if r {
            assert(t@ =~= kw_bind());
        }
    }
    r
}

/// Whether a token is the keyword `text`.
fn is_kw_text(t: &Vec<u8>) -> (r: bool)
    ensures
        r == (t@ == kw_text()),
{
    let r = t.len() == 4 && t[0] == 116 && t[1] == 101 && t[2] == 120 && t[3] == 116;
    proof {
        if r {
            assert(t@ =~= kw_text());
        }
    }
    r
}

/// Whether a token is the keyword `fsread`.
fn is_kw_fsread(t: &Vec<u8>) -> (r: bool)
    ensures
        r == (t@ == kw_fsread()),
{
    let r = t.len() == 6 && t[0] == 102 && t[1] == 115 && t[2] == 114 && t[3] == 101 && t[4] == 97
        && t[5] == 100;
    proof {
        if r {
            assert(t@ =~= kw_fsread());
        }
    }
    r
}

/// Reads a token as an integer literal; `None` when the token is not one.
pub fn parse_int_token(t: &Vec<u8>) -> (r: Option<i64>)
    ensures
        (r is Some) == is_int_token(t@),
        r matches Some(v) ==> v == int_val(t@) && in_range(v as int),
{
    let ghost whole = t@;
    let mut start: usize = 0;
    let neg = t.len() > 0 && t[0] == 45;
    if neg {
        start = 1;
    }
    let ghost digits = if neg { whole.skip(1) } else { whole };
    if t.len() == start || t.len() - start > 15 {
        return None;
    }
    let mut acc: i64 = 0;
    let mut i: usize = start;
    while i < t.len()
        invariant
            start <= i <= t.len(),
            t.len() - start <= 15,
            neg == (t@.len() > 0 && t@[0] == 45),
            start == if neg { 1int } else { 0int },
            digits == (if neg { whole.skip(1) } else { whole }),
            whole == t@,
            all_digits(digits.take(i - start)),
            acc == digits_val(digits.take(i - start)),
            0 <= acc <= pow10(i - start) - 1,
        decreases t.len() - i,
    {
        let b = t[i];
        proof {
            assert(digits[i - start] == t@[i as int]);
        }
        if b < 48 || b > 57 {
            proof {
                assert(!is_digit(digits[i - start]));
                assert(!all_digits(digits));
            }
            return None;
        }
        proof {
            assert(pow10(15) == 1000000000000000) by {
                reveal_with_fuel(pow10, 17);
            }
            assert(pow10(14) == 100000000000000) by {
                reveal_with_fuel(pow10, 17);
            }
            lemma_pow10_mono(i - start, 14);
            assert(digits.take(i + 1 - start).drop_last() =~= digits.take(i - start));
            assert(digits.take(i + 1 - start).last() == digits[i - start]);
        }
        acc = acc * 10 + (b - 48) as i64;
        i = i + 1;
        proof {
            assert(all_digits(digits.take(i - start)));
        }
    }
    proof {
        assert(digits.take(t@.len() - start) =~= digits);
        assert(is_int_token(t@));
        lemma_int_token_in_range(t@);
    }
    if neg {
        Some(-acc)
    } else {
        Some(acc)
    }
}

/// Prefixing an instruction onto an already parsed tail.
pub open spec fn prepend(i: InstrModel, rest: Option<Seq<InstrModel>>) -> Option<
    Seq<InstrModel>,
> {
    match rest {
        Some(s) => Some(seq![i] + s),
        None => None,
    }
}

/// The program denoted by the tokens from position `k` on, or `None` when
/// they are malformed.
pub open spec fn parse_from(toks: Seq<Seq<u8>>, k: int) -> Option<Seq<InstrModel>>
    decreases toks.len() - k,
{
    if k >= toks.len() || k < 0 {
        Some(Seq::empty())
    } else {
        let t = toks[k];
        if t == kw_push() {
            if k + 1 < toks.len() && is_int_token(toks[k + 1]) {
                prepend(InstrModel::Push(int_val(toks[k + 1]) as i64), parse_from(toks, k + 2))
            } else {
                None
            }
        } else if t == kw_byte() {
            if k + 1 < toks.len() && is_int_token(toks[k + 1]) && 0 <= int_val(toks[k + 1]) <= 255 {
                prepend(InstrModel::PushByte(int_val(toks[k + 1]) as u8), parse_from(toks, k + 2))
            } else {
                None
            }
        } else if t == kw_add() {
            prepend(InstrModel::Add, parse_from(toks, k + 1))
        } else if t == kw_swap() {
            prepend(InstrModel::Swap, parse_from(toks, k + 1))
        } else if t == kw_cat() {
            prepend(InstrModel::Cat, parse_from(toks, k + 1))
        } else if t == kw_fsread() {
            prepend(InstrModel::FsRead, parse_from(toks, k + 1))
        } else if t == kw_bind() {
            if k + 1 < toks.len() && toks[k + 1].len() > 0 {
                prepend(InstrModel::Bind(toks[k + 1]), parse_from(toks, k + 2))
            } else {
                None
            }
        } else if t == kw_text() {
            if k + 1 < toks.len() {
                prepend(InstrModel::Text(toks[k + 1]), parse_from(toks, k + 2))
            } else {
                None
            }
        } else {
            None
        }
    }
}

/// The program a token sequence denotes, or `None` when it is syntactically
/// invalid.
pub open spec fn parse_spec(toks: Seq<Seq<u8>>) -> Option<Seq<InstrModel>> {
    parse_from(toks, 0)
}

/// Parses tokens into a program; `None` exactly on syntactically invalid
/// input.
pub fn parse(toks: &Vec<Vec<u8>>) -> (r: Option<Vec<Instr>>)
    ensures
        match r {
            Some(prog) => parse_spec(views_of(toks@)) == Some(instr_views(prog@)),
            None => parse_spec(views_of(toks@)) is None,
        },
{
    let ghost tv = views_of(toks@);
    let mut out: Vec<Instr> = Vec::new();
    let mut k: usize = 0;
    while k < toks.len()
        invariant
            k <= toks.len(),
            tv == views_of(toks@),
            tv.len() == toks@.len(),
            match parse_from(tv, k as int) {
                Some(rest) => parse_spec(tv) == Some(instr_views(out@) + rest),
                None => parse_spec(tv) is None,
            },
        decreases toks.len() - k,
    {
        let t = &toks[k];
        let ghost out0 = out@;
        if is_kw_push(t) {
            if k + 1 < toks.len() {
                match parse_int_token(&toks[k + 1]) {
                    Some(n) => {
                        out.push(Instr::Push(n));
                        k = k + 2;
                    }
                    None => {
                        return None;
                    }
                }
            } else {
                return None;
            }
        } else if is_kw_byte(t) {
            if k + 1 < toks.len() {
                match parse_int_token(&toks[k + 1]) {
                    Some(n) => {
                        if 0 <= n && n <= 255 {
                            out.push(Instr::PushByte(n as u8));
                            k = k + 2;
                        } else {
                            return None;
                        }
                    }
                    None => {
                        return None;
                    }
                }
            } else {
                return None;
            }
        } else if is_kw_add(t) {
            out.push(Instr::Add);
            k = k + 1;
        } else if is_kw_swap(t) {
            out.push(Instr::Swap);
            k = k + 1;
        } else if is_kw_cat(t) {
            out.push(Instr::Cat);
            k = k + 1;
        } else if is_kw_fsread(t) {
            out.push(Instr::FsRead);
            k = k + 1;
        } else if is_kw_bind(t) {
            if k + 1 < toks.len() && toks[k + 1].len() > 0 {
                out.push(Instr::Bind(toks[k + 1].clone()));
                k = k + 2;
            } else {
                return None;
            }
        } else if is_kw_text(t) {
            if k + 1 < toks.len() {
                out.push(Instr::Text(toks[k + 1].clone()));
                k = k + 2;
            } else {
                return None;
            }
        } else {
            return None;
        }
        proof {
            let last = out@.last();
            assert(instr_views(out@) =~= instr_views(out0).push(last@));
            assert forall|rest: Seq<InstrModel>|
                true implies instr_views(out0) + (seq![last@] + rest) =~= instr_views(out@)
                + rest by {}
        }
    }
    proof {
        assert(instr_views(out@) + Seq::<InstrModel>::empty() =~= instr_views(out@));
    }
    Some(out)
}

} // verus!
