use vstd::arithmetic::div_mod::lemma_div_denominator;
use vstd::arithmetic::power2::{lemma2_to64, lemma_pow2_adds, lemma_pow2_pos, lemma_pow2_strictly_increases, pow2};
use vstd::bits::lemma_usize_shr_is_div;
use vstd::prelude::*;

verus! {

/// Interleaves the low `n` bits of `x` and `y`: bit `i` of `x` becomes bit
/// `2i` of the result and bit `i` of `y` becomes bit `2i + 1`.
pub open spec fn interleave(x: nat, y: nat, n: nat) -> nat
    decreases n,
{
    if n == 0 {
        0
    } else {
        4 * interleave(x / 2, y / 2, (n - 1) as nat) + 2 * (y % 2) + x % 2
    }
}

/// The position of cell `(x, y)` on the Z-order (Morton) curve, built from
/// the low 16 bits of each coordinate.
pub fn z_order_index(x: usize, y: usize) -> (r: usize)
    requires
        x < pow2((usize::BITS / 2) as nat),
        y < pow2((usize::BITS / 2) as nat),
    ensures
        r == interleave(x as nat, y as nat, 16),
{
    let mut idx: usize = 0;
    let mut i: usize = 16;
    proof {
        lemma2_to64();
    }
    while i > 0
        invariant
            0 <= i <= 16,
            idx == interleave(x as nat / pow2(i as nat), y as nat / pow2(i as nat), (16 - i) as nat),
            idx < pow2((2 * (16 - i)) as nat),
        decreases i,
    {
        i -= 1;
        let xs = x >> i;
        let ys = y >> i;
        let x_bit = xs & 1;
        let y_bit = ys & 1;
        proof {
            lemma2_to64();
            lemma_usize_shr_is_div(x, i);
            lemma_usize_shr_is_div(y, i);
            assert(xs & 1 == xs % 2) by (bit_vector);
            assert(ys & 1 == ys % 2) by (bit_vector);
            lemma_pow2_pos(i as nat);
            lemma_pow2_adds(i as nat, 1);
            lemma_div_denominator(x as int, pow2(i as nat) as int, 2);
            lemma_div_denominator(y as int, pow2(i as nat) as int, 2);
            lemma_pow2_adds((2 * (15 - i)) as nat, 2);
            if i > 0 {
                lemma_pow2_strictly_increases((2 * (15 - i)) as nat, 30);
            }
        }
        idx = idx * 4 + y_bit * 2 + x_bit;
    }
    proof {
        lemma2_to64();
        assert(x as nat / 1 == x && y as nat / 1 == y);
    }
    idx
}

} // verus!
