//! Circular history buffers: which slots a fractional-delay read interpolates
//! between, computed from the buffer length alone so that it does not depend on
//! the bit width of `usize`.
//!
//! A writer stores the sample of logical time `t` in slot `t % capacity` and
//! keeps `next`, the slot of the next write. A read at a delay of `whole` whole
//! samples (plus a fraction, applied by the caller) blends the slot of the
//! sample `whole` steps before the newest with the slot one step older.

use vstd::prelude::*;
use vstd::arithmetic::div_mod::{
    lemma_fundamental_div_mod, lemma_mod_add_multiples_vanish, lemma_mod_multiples_vanish,
    lemma_add_mod_noop, lemma_mod_equivalence, lemma_small_mod, lemma_mod_pos_bound,
};

verus! {

/// The slot `steps` positions before the slot `next` (modulo the capacity);
/// the slot of the newest sample is `slot_before(capacity, next, 1)`.
pub open spec fn slot_before(capacity: int, next: int, steps: int) -> int {
    (next - steps) % capacity
}

/// The slot that holds the newest sample when the next write goes to `next`.
pub fn newest_slot(capacity: usize, next: usize) -> (res: usize)
    requires
        capacity >= 1,
        next < capacity,
    ensures
        res == slot_before(capacity as int, next as int, 1),
        next == 0 ==> res == capacity - 1,
        next > 0 ==> res == next - 1,
{
    proof {
        if next == 0 {
            lemma_mod_add_multiples_vanish(-1, capacity as int);
            lemma_small_mod((capacity - 1) as nat, capacity as nat);
        } else {
            lemma_small_mod((next - 1) as nat, capacity as nat);
        }
    }
    if next == 0 {
        capacity - 1
    } else {
        next - 1
    }
}

/// The two slots a read at `whole` whole samples of delay interpolates
/// between: the sample `whole` steps before the newest, and the one before it.
pub fn tap_slots(capacity: usize, next: usize, whole: usize) -> (res: (usize, usize))
    requires
        capacity >= 1,
        capacity <= usize::MAX / 2,
        next < capacity,
        whole <= capacity,
    ensures
        res.0 == slot_before(capacity as int, next as int, whole + 1),
        res.1 == slot_before(capacity as int, next as int, whole + 2),
        res.0 < capacity,
        res.1 < capacity,
{
    let newest = newest_slot(capacity, next);
    let first = (newest + capacity - whole) % capacity;
    let second = (first + capacity - 1) % capacity;
    proof {
        let c = capacity as int;
        let x = next - 1 - whole;
        // first: newest + c - whole differs from next - 1 - whole by c or 2c.
        if next == 0 {
            assert(newest + c - whole == c + (c + x));
            lemma_mod_add_multiples_vanish(c + x, c);
            lemma_mod_add_multiples_vanish(x, c);
        } else {
            assert(newest + c - whole == c + x);
            lemma_mod_add_multiples_vanish(x, c);
        }
        assert(first as int == x % c);
        // second: (x % c + (c - 1)) % c == (x + c - 1) % c == (x - 1) % c.
        lemma_small_mod((c - 1) as nat, c as nat);
        lemma_add_mod_noop(x, c - 1, c);
        lemma_mod_add_multiples_vanish(x - 1, c);
        assert(second as int == (x - 1) % c);
    }
    (first, second)
}

/// The slot of the next write after writing at `next`.
pub fn advance(next: usize, capacity: usize) -> (res: usize)
    requires
        capacity >= 1,
        next < capacity,
    ensures
        res == (next + 1) % (capacity as int),
        res < capacity,
{
    proof {
        lemma_mod_pos_bound(next + 1, capacity as int);
    }
    (next + 1) % capacity
}

// ---------------------------------------------------------------------------
// Laws
// ---------------------------------------------------------------------------

/// Writing samples of times `0, 1, ..., n - 1` into slots `t % capacity` and
/// advancing after each leaves the next slot at `n % capacity`.
pub proof fn lemma_advance_tracks_write_count(capacity: int, n: int)
    requires
        capacity >= 1,
        n >= 0,
    ensures
        ((n % capacity) + 1) % capacity == (n + 1) % capacity,
{
    if capacity == 1 {
        assert(1int % 1 == 0);
        lemma_mod_pos_bound(n, 1);
        lemma_mod_pos_bound(n + 1, 1);
    } else {
        lemma_small_mod(1, capacity as nat);
        lemma_add_mod_noop(n, 1, capacity);
    }
}

/// After `n` writes (the next slot being `n % capacity`), a read at `whole`
/// whole samples of delay, for `whole + 2 <= capacity`, taps the slots of the
/// samples of times `n - 1 - whole` and `n - 2 - whole`, and neither slot has
/// been written again since: the read is continuous across any number of wraps.
pub proof fn lemma_taps_read_written_history(capacity: int, n: int, whole: int, t: int)
    requires
        capacity >= 2,
        n >= 0,
        0 <= whole,
        whole + 2 <= capacity,
    ensures
        slot_before(capacity, n % capacity, whole + 1) == (n - 1 - whole) % capacity,
        slot_before(capacity, n % capacity, whole + 2) == (n - 2 - whole) % capacity,
        n - 1 - whole < t < n ==> t % capacity != (n - 1 - whole) % capacity,
        n - 2 - whole < t < n ==> t % capacity != (n - 2 - whole) % capacity,
{
    let q = n / capacity;
    lemma_fundamental_div_mod(n, capacity);
    // n % capacity - k == n - k - capacity * q
    assert((n % capacity) - (whole + 1) == capacity * (-q) + (n - 1 - whole)) by (nonlinear_arith)
        requires n == capacity * q + n % capacity;
    assert((n % capacity) - (whole + 2) == capacity * (-q) + (n - 2 - whole)) by (nonlinear_arith)
        requires n == capacity * q + n % capacity;
    lemma_mod_multiples_vanish(-q, n - 1 - whole, capacity);
    lemma_mod_multiples_vanish(-q, n - 2 - whole, capacity);
    if n - 1 - whole < t < n {
        lemma_mod_equivalence(t, n - 1 - whole, capacity);
        lemma_small_mod((t - (n - 1 - whole)) as nat, capacity as nat);
    }
    if n - 2 - whole < t < n {
        lemma_mod_equivalence(t, n - 2 - whole, capacity);
        lemma_small_mod((t - (n - 2 - whole)) as nat, capacity as nat);
    }
}

} // verus!
