//! Splitting source text into whitespace-separated tokens.

use vstd::prelude::*;

verus! {

/// ASCII whitespace: space, tab, line feed, carriage return.
pub open spec fn is_space(b: u8) -> bool {
    b == 32 || b == 9 || b == 10 || b == 13
}

/// State of a left-to-right scan over the first `i` bytes of `s`: the tokens
/// completed so far, and the token under construction.
pub open spec fn tok_scan(s: Seq<u8>, i: int) -> (Seq<Seq<u8>>, Seq<u8>)
    decreases i,
{
    if i <= 0 {
        (Seq::empty(), Seq::empty())
    } else {
        let prev = tok_scan(s, i - 1);
        let b = s[i - 1];
        if is_space(b) {
            if prev.1.len() == 0 {
                prev
            } else {
                (prev.0.push(prev.1), Seq::empty())
            }
        } else {
            (prev.0, prev.1.push(b))
        }
    }
}

/// The tokens of `s`: maximal runs of non-whitespace bytes, in order.
pub open spec fn tokenize_spec(s: Seq<u8>) -> Seq<Seq<u8>> {
    let st = tok_scan(s, s.len() as int);
    if st.1.len() == 0 {
        st.0
    } else {
        st.0.push(st.1)
    }
}

/// The sequence of views of a sequence of byte vectors.
pub open spec fn views_of(ts: Seq<Vec<u8>>) -> Seq<Seq<u8>> {
    Seq::new(ts.len(), |i: int| ts[i]@)
}

/// Splits source text into its whitespace-separated tokens.
pub fn tokenize(src: &[u8]) -> (toks: Vec<Vec<u8>>)
    ensures
        views_of(toks@) == tokenize_spec(src@),
{
    let mut toks: Vec<Vec<u8>> = Vec::new();
    let mut cur: Vec<u8> = Vec::new();
    let mut i: usize = 0;
    while i < src.len()
        invariant
            i <= src.len(),
            (views_of(toks@), cur@) == tok_scan(src@, i as int),
        decreases src.len() - i,
    {
        let b = src[i];
        if b == 32 || b == 9 || b == 10 || b == 13 {
            if cur.len() > 0 {
                toks.push(cur);
                cur = Vec::new();
                proof {
                    assert(views_of(toks@) =~= tok_scan(src@, i + 1).0);
                }
            }
        } else {
            cur.push(b);
        }
        i = i + 1;
    }
    if cur.len() > 0 {
        toks.push(cur);
        proof {
            assert(views_of(toks@) =~= tokenize_spec(src@));
        }
    }
    toks
}

} // verus!
