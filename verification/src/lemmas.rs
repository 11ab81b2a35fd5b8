//! Arithmetic facts behind the drawing instruction.
use vstd::prelude::*;
use vstd::arithmetic::div_mod::{lemma_fundamental_div_mod, lemma_fundamental_div_mod_converse, lemma_mod_multiples_vanish, lemma_small_mod};
use crate::spec::{sprite_col, sprite_row};

verus! {

/// Adding `c` to `a` and wrapping modulo `m`, then taking the distance back
/// to `a` modulo `m`, gives `c` back.
pub proof fn lemma_wrap_offset(a: int, c: int, m: int)
    requires
        a >= 0,
        0 <= c < m,
    ensures
        ((a + c) % m - a) % m == c,
{
    lemma_fundamental_div_mod(a + c, m);
    let q = (a + c) / m;
    assert(m * (-q) == -(m * q)) by (nonlinear_arith);
    assert((a + c) % m - a == m * (-q) + c);
    lemma_mod_multiples_vanish(-q, c, m);
    lemma_small_mod(c as nat, m as nat);
}

/// A position `p` in `[0, m)` whose wrapped distance from `a` is `c` is the
/// position reached from `a` by `c` steps.
pub proof fn lemma_wrap_inverse(p: int, a: int, c: int, m: int)
    requires
        a >= 0,
        0 <= p < m,
        0 <= c < m,
        (p - a) % m == c,
    ensures
        p == (a + c) % m,
{
    lemma_fundamental_div_mod(p - a, m);
    let q = (p - a) / m;
    assert(m * (-q) == -(m * q)) by (nonlinear_arith);
    assert(a + c == m * (-q) + p);
    lemma_fundamental_div_mod_converse(a + c, m, -q, p);
}

/// The pixel that row `r`, column `c` of a sprite drawn at `(x, y)` lands on
/// is `(x + c) % 64 + 64 * ((y + r) % 32)`; it is on screen, its relative row
/// and column are `r` and `c`, and no other pixel has that row and column.
pub proof fn lemma_sprite_pixel(x: int, y: int, r: int, c: int)
    requires
        x >= 0,
        y >= 0,
        0 <= r < 32,
        0 <= c < 64,
    ensures
        ({
            let k = (x + c) % 64 + 64 * ((y + r) % 32);
            &&& 0 <= k < 2048
            &&& sprite_col(x, k) == c
            &&& sprite_row(y, k) == r
            &&& forall|j: int| 0 <= j < 2048 && sprite_col(x, j) == c && sprite_row(y, j) == r ==> j == k
        }),
{
    let px = (x + c) % 64;
    let py = (y + r) % 32;
    let k = px + 64 * py;
    lemma_fundamental_div_mod_converse(k, 64, py, px);
    lemma_wrap_offset(x, c, 64);
    lemma_wrap_offset(y, r, 32);
    assert forall|j: int| 0 <= j < 2048 && sprite_col(x, j) == c && sprite_row(y, j) == r implies j == k by {
        lemma_fundamental_div_mod(j, 64);
        assert(0 <= j / 64 < 32);
        lemma_wrap_inverse(j % 64, x, c, 64);
        lemma_wrap_inverse(j / 64, y, r, 32);
    }
}

} // verus!
