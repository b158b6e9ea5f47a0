//! The bit-reversal reordering that precedes an in-place radix-2 FFT.
//!
//! For a buffer of `2^k` values, the value at position `i` moves to the
//! position whose `k`-bit binary representation is that of `i` reversed. The
//! reversed index is kept incrementally, as a counter that adds one at its top
//! bit and carries downward, and every pair is swapped once.

use vstd::prelude::*;
use vstd::arithmetic::power2::{
    pow2, lemma_pow2_pos, lemma_pow2_unfold, lemma_pow2_adds, lemma_pow2_strictly_increases,
    lemma2_to64,
};
use vstd::arithmetic::div_mod::{lemma_div_denominator, lemma_mod_breakdown, lemma_fundamental_div_mod};
use vstd::bits::{lemma_usize_shl_is_mul, lemma_usize_pow2_no_overflow, lemma_usize_shr_is_div};

verus! {

/// The `bits`-bit reversal of `i`: bit `j` of `i` becomes bit `bits - 1 - j`
/// (bits of `i` from position `bits` up are dropped).
pub open spec fn bit_reverse(i: nat, bits: nat) -> nat
    decreases bits,
{
    if bits == 0 {
        0
    } else {
        (i % 2) * pow2((bits - 1) as nat) + bit_reverse(i / 2, (bits - 1) as nat)
    }
}

/// `n` is a power of two.
pub open spec fn is_power_of_two(n: nat) -> bool {
    exists|k: nat| pow2(k) == n
}

/// The exponent of a power of two.
pub open spec fn log2_exact(n: nat) -> nat {
    choose|k: nat| pow2(k) == n
}

/// A reversed index stays below `2^bits`.
pub proof fn lemma_bit_reverse_bound(i: nat, bits: nat)
    ensures
        bit_reverse(i, bits) < pow2(bits),
    decreases bits,
{
    lemma_pow2_pos(bits);
    if bits > 0 {
        let p = pow2((bits - 1) as nat);
        lemma_bit_reverse_bound(i / 2, (bits - 1) as nat);
        lemma_pow2_unfold(bits);
        assert((i % 2) * p <= p) by (nonlinear_arith)
            requires i % 2 <= 1, p >= 0;
    } else {
        lemma2_to64();
    }
}

/// Putting bit `b` on top of `j` (below `2^(bits-1)`) puts it at the bottom
/// of the reversal.
proof fn lemma_bit_reverse_top(j: nat, b: nat, bits: nat)
    requires
        bits >= 1,
        b <= 1,
        j < pow2((bits - 1) as nat),
    ensures
        bit_reverse(j + b * pow2((bits - 1) as nat), bits) == 2 * bit_reverse(
            j,
            (bits - 1) as nat,
        ) + b,
    decreases bits,
{
    if bits == 1 {
        lemma2_to64();
        assert(j == 0);
        assert(j + b * pow2(0) == b);
        assert(b % 2 == b);
        assert(bit_reverse((b / 2) as nat, 0) == 0);
        assert(bit_reverse(b, 1) == (b % 2) * pow2(0) + bit_reverse(b / 2, 0));
    } else {
        let p = pow2((bits - 2) as nat);
        lemma_pow2_unfold((bits - 1) as nat);
        lemma_pow2_pos((bits - 2) as nat);
        let x = j + b * pow2((bits - 1) as nat);
        assert(x == j + 2 * (b * p)) by (nonlinear_arith)
            requires x == j + b * pow2((bits - 1) as nat), pow2((bits - 1) as nat) == 2 * p;
        assert(x % 2 == j % 2);
        assert(x / 2 == j / 2 + b * p);
        assert(j / 2 < p);
        lemma_bit_reverse_top(j / 2, b, (bits - 1) as nat);
        let r = bit_reverse(j / 2, (bits - 2) as nat);
        assert(bit_reverse(j, (bits - 1) as nat) == (j % 2) * p + r);
        assert(bit_reverse(x, bits) == (j % 2) * pow2((bits - 1) as nat) + bit_reverse(
            j / 2 + b * p,
            (bits - 1) as nat,
        ));
        assert((j % 2) * pow2((bits - 1) as nat) == 2 * ((j % 2) * p)) by (nonlinear_arith)
            requires pow2((bits - 1) as nat) == 2 * p;
    }
}

/// Reversing twice gives back every index below `2^bits`.
pub proof fn lemma_bit_reverse_involution(i: nat, bits: nat)
    requires
        i < pow2(bits),
    ensures
        bit_reverse(bit_reverse(i, bits), bits) == i,
    decreases bits,
{
    if bits == 0 {
        lemma2_to64();
    } else {
        lemma_pow2_unfold(bits);
        lemma_bit_reverse_bound(i / 2, (bits - 1) as nat);
        lemma_bit_reverse_involution(i / 2, (bits - 1) as nat);
        lemma_bit_reverse_top(bit_reverse(i / 2, (bits - 1) as nat), i % 2, bits);
    }
}

/// Trailing zero bits of the index become leading zero bits of its reversal.
proof fn lemma_bit_reverse_shift(x: nat, t: nat, bits: nat)
    requires
        t <= bits,
    ensures
        bit_reverse(x * pow2(t), bits) == bit_reverse(x, (bits - t) as nat),
    decreases t,
{
    if t == 0 {
        lemma2_to64();
        assert(x * 1 == x);
    } else {
        lemma_pow2_unfold(t);
        let y = x * pow2((t - 1) as nat);
        assert(x * pow2(t) == 2 * y) by (nonlinear_arith)
            requires y == x * pow2((t - 1) as nat), pow2(t) == 2 * pow2((t - 1) as nat);
        assert((2 * y) % 2 == 0);
        assert((2 * y) / 2 == y);
        lemma_bit_reverse_shift(x, (t - 1) as nat, (bits - 1) as nat);
    }
}

/// Testing or flipping the top bit of a value below twice a power of two.
proof fn lemma_top_bit(r: usize, e: usize)
    by (bit_vector)
    requires
        e < usize::BITS,
        r < 2 * (1usize << e),
    ensures
        (r & (1usize << e) != 0) == (r >= (1usize << e)),
        r >= (1usize << e) ==> (r ^ (1usize << e)) == r - (1usize << e),
        r < (1usize << e) ==> (r ^ (1usize << e)) == r + (1usize << e),
{
}

/// A power of two that fits in `usize` has an exponent below `usize::BITS`,
/// and equals `1 << exponent`.
proof fn lemma_pow2_as_shift(e: nat)
    requires
        pow2(e) <= usize::MAX,
    ensures
        e < usize::BITS,
        (1usize << (e as usize)) == pow2(e),
{
    lemma2_to64();
    if e >= usize::BITS {
        if e > usize::BITS {
            lemma_pow2_strictly_increases(usize::BITS as nat, e);
        }
        assert(usize::BITS == 32 || usize::BITS == 64);
        assert(false);
    }
    lemma_usize_pow2_no_overflow(e);
    lemma_usize_shl_is_mul(1, e as usize);
}

/// Where the value now at position `j` came from, after the swaps of the
/// indices below `done`: each pair `(j, bit_reverse(j))` is swapped at its
/// smaller index.
pub open spec fn reorder_source(j: nat, bits: nat, done: nat) -> nat {
    let r = bit_reverse(j, bits);
    if (if j < r { j } else { r }) < done {
        r
    } else {
        j
    }
}

/// Reorders `values`, whose length is a power of two `2^k`, so that each
/// position `i` receives the value that stood at the `k`-bit reversal of `i`.
pub fn bit_reverse_permute<T: Copy>(values: &mut Vec<T>)
    requires
        is_power_of_two(old(values)@.len()),
    ensures
        final(values)@.len() == old(values)@.len(),
        forall|i: int|
            0 <= i < old(values)@.len() ==> #[trigger] final(values)@[i] == old(values)@[
                bit_reverse(i as nat, log2_exact(old(values)@.len())) as int
            ],
{
    let count = values.len();
    let ghost k = log2_exact(count as nat);
    let ghost before = values@;
    proof {
        assert(pow2(k) == count);
        lemma_pow2_pos(k);
        lemma_pow2_as_shift(k);
    }
    let mut reversed: usize = 0;
    let mut index: usize = 1;
    proof {
        lemma_bit_reverse_zero(k);
        assert forall|j: int| 0 <= j < count implies #[trigger] reorder_source(j as nat, k, 1) == j by {
            if bit_reverse(j as nat, k) == 0 {
                lemma_bit_reverse_involution(j as nat, k);
            }
        }
    }
    while index < count
        invariant
            count == values@.len(),
            count == before.len(),
            pow2(k) == count,
            k < usize::BITS,
            1 <= index <= count,
            reversed == bit_reverse((index - 1) as nat, k),
            forall|j: int|
                0 <= j < count ==> #[trigger] values@[j] == before[reorder_source(
                    j as nat,
                    k,
                    index as nat,
                ) as int],
        decreases count - index,
    {
        let ghost i: nat = (index - 1) as nat;
        proof {
            lemma_pow2_pos(k);
            if k == 0 {
                lemma2_to64();
            }
            assert(k >= 1);
            lemma_pow2_unfold(k);
            lemma_usize_shr_is_div(count, 1);
            lemma2_to64();
        }
        let mut bit = count >> 1;
        let ghost mut t: nat = 0;
        proof {
            lemma2_to64();
            assert(i / pow2(0) == i);
            assert(i % pow2(0) == 0);
        }
        while reversed & bit != 0
            invariant
                count == pow2(k),
                k < usize::BITS,
                1 <= index < count,
                i == index - 1,
                t < k,
                bit == pow2((k - 1 - t) as nat),
                reversed == bit_reverse(i / pow2(t), (k - t) as nat),
                i % pow2(t) == pow2(t) - 1,
            decreases k - t,
        {
            proof {
                lemma_step_clears_top_bit(i, k, t, reversed, bit);
            }
            reversed ^= bit;
            proof {
                lemma_usize_shr_is_div(bit, 1);
                lemma_pow2_unfold((k - 1 - t) as nat);
                lemma2_to64();
            }
            bit >>= 1;
            proof {
                t = t + 1;
            }
        }
        proof {
            lemma_step_sets_top_bit(i, k, t, reversed, bit);
        }
        reversed ^= bit;
        proof {
            lemma_bit_reverse_bound((i + 1) as nat, k);
            lemma_bit_reverse_involution(index as nat, k);
        }
        if index < reversed {
            let a = values[index];
            let b = values[reversed];
            values.set(index, b);
            values.set(reversed, a);
        }
        proof {
            assert forall|j: int| 0 <= j < count implies #[trigger] values@[j] == before[
                reorder_source(j as nat, k, (index + 1) as nat) as int
            ] by {
                lemma_bit_reverse_involution(j as nat, k);
            }
        }
        index = index + 1;
    }
    proof {
        assert forall|i: int| 0 <= i < count implies #[trigger] values@[i] == before[
            bit_reverse(i as nat, k) as int
        ] by {
            lemma_bit_reverse_bound(i as nat, k);
            assert(values@[i] == before[reorder_source(i as nat, k, index as nat) as int]);
        }
    }
}

/// Reordering twice gives back the buffer as it was: if `once` is the
/// reordering of `before` and `twice` that of `once`, then `twice` is `before`.
pub proof fn lemma_bit_reverse_permute_twice<T>(before: Seq<T>, once: Seq<T>, twice: Seq<T>, bits: nat)
    requires
        before.len() == pow2(bits),
        once.len() == before.len(),
        twice.len() == before.len(),
        forall|i: int| 0 <= i < before.len() ==> #[trigger] once[i] == before[bit_reverse(i as nat, bits) as int],
        forall|i: int| 0 <= i < before.len() ==> #[trigger] twice[i] == once[bit_reverse(i as nat, bits) as int],
    ensures
        twice == before,
{
    assert forall|i: int| 0 <= i < before.len() implies #[trigger] twice[i] == before[i] by {
        lemma_bit_reverse_bound(i as nat, bits);
        lemma_bit_reverse_involution(i as nat, bits);
        assert(twice[i] == once[bit_reverse(i as nat, bits) as int]);
    }
    assert(twice =~= before);
}

/// The exponent of a power of two is the one it was made from.
pub proof fn lemma_log2_exact(bits: nat)
    ensures
        is_power_of_two(pow2(bits)),
        log2_exact(pow2(bits)) == bits,
{
    assert(pow2(bits) == pow2(bits));
    let k = log2_exact(pow2(bits));
    assert(pow2(k) == pow2(bits));
    if k < bits {
        lemma_pow2_strictly_increases(k, bits);
    } else if k > bits {
        lemma_pow2_strictly_increases(bits, k);
    }
}

/// Zero reverses to zero.
proof fn lemma_bit_reverse_zero(bits: nat)
    ensures
        bit_reverse(0, bits) == 0,
    decreases bits,
{
    if bits > 0 {
        lemma_bit_reverse_zero((bits - 1) as nat);
        assert(0nat % 2 == 0);
        assert(0nat / 2 == 0);
        assert(0 * pow2((bits - 1) as nat) == 0);
    }
}

/// While the counter's top remaining bit is set, the corresponding low bit
/// of the index is set too; clearing it leaves the reversal of the index
/// shifted one further, and the index cannot be all ones.
proof fn lemma_step_clears_top_bit(i: nat, k: nat, t: nat, reversed: usize, bit: usize)
    requires
        i + 2 <= pow2(k),
        t < k,
        k < usize::BITS,
        bit == pow2((k - 1 - t) as nat),
        reversed == bit_reverse(i / pow2(t), (k - t) as nat),
        i % pow2(t) == pow2(t) - 1,
        reversed & bit != 0,
    ensures
        t + 1 < k,
        (reversed ^ bit) == bit_reverse(i / pow2(t + 1), (k - (t + 1)) as nat),
        i % pow2(t + 1) == pow2(t + 1) - 1,
{
    let m = (k - t) as nat;
    let q = i / pow2(t);
    let e = (m - 1) as nat;
    lemma_pow2_pos(t);
    lemma_pow2_pos(e);
    lemma_pow2_unfold(m);
    lemma_bit_reverse_bound(q / 2, e);
    assert((q % 2) * pow2(e) <= pow2(e)) by (nonlinear_arith)
        requires q % 2 <= 1;
    lemma_pow2_as_shift(e);
    lemma_top_bit(reversed, e as usize);
    // The top bit is the low bit of q.
    assert(q % 2 == 1);
    assert((reversed ^ bit) == bit_reverse(q / 2, e));
    lemma_div_denominator(i as int, pow2(t) as int, 2);
    lemma_pow2_adds(t, 1);
    lemma2_to64();
    assert(pow2(t + 1) == pow2(t) * 2);
    assert(q / 2 == i / pow2(t + 1));
    lemma_mod_breakdown(i as int, pow2(t) as int, 2);
    assert(i % pow2(t + 1) == pow2(t) * 1 + (pow2(t) - 1));
    if t + 1 == k {
        lemma_fundamental_div_mod(i as int, pow2(k) as int);
        assert(i / pow2(k) == 0) by {
            vstd::arithmetic::div_mod::lemma_basic_div(i as int, pow2(k) as int);
        }
        assert(false);
    }
}

/// When the counter's top remaining bit is clear, setting it yields the
/// reversal of the next index.
proof fn lemma_step_sets_top_bit(i: nat, k: nat, t: nat, reversed: usize, bit: usize)
    requires
        t < k,
        k < usize::BITS,
        bit == pow2((k - 1 - t) as nat),
        reversed == bit_reverse(i / pow2(t), (k - t) as nat),
        i % pow2(t) == pow2(t) - 1,
        reversed & bit == 0,
    ensures
        (reversed ^ bit) == bit_reverse(i + 1, k),
{
    let m = (k - t) as nat;
    let q = i / pow2(t);
    let e = (m - 1) as nat;
    lemma_pow2_pos(t);
    lemma_pow2_pos(e);
    lemma_pow2_unfold(m);
    lemma_bit_reverse_bound(q / 2, e);
    assert((q % 2) * pow2(e) <= pow2(e)) by (nonlinear_arith)
        requires q % 2 <= 1;
    lemma_pow2_as_shift(e);
    lemma_top_bit(reversed, e as usize);
    assert(q % 2 == 0);
    assert((reversed ^ bit) == pow2(e) + bit_reverse(q / 2, e));
    assert((q + 1) % 2 == 1);
    assert((q + 1) / 2 == q / 2);
    assert(bit_reverse(q + 1, m) == 1 * pow2(e) + bit_reverse(q / 2, e));
    // i + 1 == (q + 1) * 2^t
    lemma_fundamental_div_mod(i as int, pow2(t) as int);
    assert(i + 1 == (q + 1) * pow2(t)) by (nonlinear_arith)
        requires i == pow2(t) * q + (pow2(t) - 1);
    lemma_bit_reverse_shift(q + 1, t, k);
}

} // verus!
