//! Facts about whole blocks: multiples of a block size and the offsets
//! between them.

use vstd::prelude::*;
use vstd::arithmetic::div_mod::{
    lemma_fundamental_div_mod, lemma_fundamental_div_mod_converse, lemma_mod_multiples_basic,
    lemma_small_mod, lemma_sub_mod_noop,
};

verus! {

/// The difference of two multiples of `b` is a multiple of `b`.
pub proof fn lemma_multiples_differ_by_multiple(x: int, y: int, b: int)
    requires
        b > 0,
        x % b == 0,
        y % b == 0,
    ensures
        (x - y) % b == 0,
{
    lemma_sub_mod_noop(x, y, b);
    lemma_small_mod(0, b as nat);
}

/// Rounding `d` down to a multiple of `b` gives a multiple of `b` that is
/// less than one block below `d`.
pub proof fn lemma_round_down_block(d: int, b: int)
    requires
        b > 0,
        d >= 0,
    ensures
        ((d / b) * b) % b == 0,
        0 <= (d / b) * b <= d,
        d - (d / b) * b == d % b,
        0 <= d % b < b,
        d / b >= 0,
{
    lemma_mod_multiples_basic(d / b, b);
    lemma_fundamental_div_mod(d, b);
    assert(b * (d / b) == (d / b) * b) by (nonlinear_arith);
    assert(d / b >= 0) by (nonlinear_arith)
        requires
            b > 0,
            d >= 0,
    ;
}

/// An offset that is the last byte of a block is followed by a block
/// boundary, which is also the start of the next block after its own.
pub proof fn lemma_block_end(e: int, b: int)
    requires
        b > 0,
        e >= 0,
        e % b == b - 1,
    ensures
        (e + 1) % b == 0,
        (e / b + 1) * b == e + 1,
{
    lemma_fundamental_div_mod(e, b);
    assert((e / b + 1) * b == b * (e / b) + b) by (nonlinear_arith);
    lemma_mod_multiples_basic(e / b + 1, b);
}

/// The byte before a block boundary is the last byte of a block.
pub proof fn lemma_before_boundary(x: int, b: int)
    requires
        b > 0,
        x > 0,
        x % b == 0,
    ensures
        (x - 1) % b == b - 1,
{
    lemma_fundamental_div_mod(x, b);
    let q = x / b;
    assert(x == b * q);
    assert(q >= 1) by (nonlinear_arith)
        requires
            b > 0,
            x > 0,
            x == b * q,
    ;
    assert(x - 1 == b * (q - 1) + (b - 1)) by (nonlinear_arith)
        requires
            x == b * q,
    ;
    lemma_fundamental_div_mod_converse(x - 1, b, q - 1, b - 1);
}

/// The last byte of the block that holds `e`.
pub open spec fn block_end(e: int, b: int) -> int {
    (e / b) * b + (b - 1)
}

/// The last byte of the block that holds `e` is at or after `e`, less than a
/// block away, and the last byte of a block; a byte that already is one
/// stays.
pub proof fn lemma_block_end_of(e: int, b: int)
    requires
        b > 0,
        e >= 0,
    ensures
        e <= block_end(e, b) < e + b,
        block_end(e, b) % b == b - 1,
        e % b == b - 1 ==> block_end(e, b) == e,
{
    lemma_round_down_block(e, b);
    let q = e / b;
    assert(block_end(e, b) == b * q + (b - 1)) by (nonlinear_arith)
        requires
            block_end(e, b) == q * b + (b - 1),
    ;
    lemma_fundamental_div_mod_converse(block_end(e, b), b, q, b - 1);
}

} // verus!
