//! Row-major indexing shared by the grid engines and the pixel buffer.

use vstd::prelude::*;

verus! {

/// The row-major index of `(x, y)` in a grid that is `w` cells wide.
pub open spec fn row_major(w: int, x: int, y: int) -> int {
    y * w + x
}

/// A sequence of `len` copies of `v`.
pub open spec fn filled<T>(len: nat, v: T) -> Seq<T> {
    Seq::new(len, |j: int| v)
}

/// Clearing a grid that was just cleared changes nothing: overwriting
/// every cell with `v` is idempotent.
pub proof fn lemma_filled_idempotent<T>(len: nat, v: T)
    ensures
        filled(filled(len, v).len(), v) == filled(len, v),
{
    assert(filled(filled(len, v).len(), v) =~= filled(len, v));
}

/// Row-major indices decompose uniquely: `(y*w + x) / w == y` and
/// `(y*w + x) % w == x` whenever `0 <= x < w`.
pub proof fn lemma_row_major_inverse(w: int, x: int, y: int)
    requires
        1 <= w,
        0 <= x < w,
        0 <= y,
    ensures
        row_major(w, x, y) / w == y,
        row_major(w, x, y) % w == x,
{
    vstd::arithmetic::div_mod::lemma_fundamental_div_mod_converse_div(y * w + x, w, y, x);
    vstd::arithmetic::div_mod::lemma_fundamental_div_mod_converse_mod(y * w + x, w, y, x);
}

/// Row-major indices of in-bounds cells lie below `w * h`.
pub proof fn lemma_row_major_bound(w: int, h: int, x: int, y: int)
    requires
        0 <= x < w,
        0 <= y < h,
    ensures
        0 <= row_major(w, x, y) < w * h,
        w * h == h * w,
{
    assert(y * w + x < (y + 1) * w <= h * w) by (nonlinear_arith)
        requires
            0 <= x < w,
            0 <= y < h,
    ;
    assert(0 <= y * w) by (nonlinear_arith)
        requires
            0 <= y,
            0 <= w,
    ;
    vstd::arithmetic::mul::lemma_mul_is_commutative(w, h);
}

} // verus!
