//! Fresh cards and call orders drawn with a random number generator.
//!
//! The generator only shuffles; what makes a valid card or call order is
//! decided and proved here, for every outcome of the shuffles.

use rand::rngs::ThreadRng;
use rand::seq::SliceRandom;
use vstd::prelude::*;

verus! {

/// rand's `ThreadRng`, carried opaque to the shuffles.
#[verifier::external_type_specification]
#[verifier::external_body]
pub struct ExThreadRng(ThreadRng);

/// Relies on rand's `SliceRandom::shuffle`: it reorders the elements in
/// place by swaps only.
#[verifier::external_body]
fn shuffle<const N: usize>(numbers: &mut [u8; N], rng: &mut ThreadRng)
    ensures
        final(numbers)@.to_multiset() == old(numbers)@.to_multiset(),
{
    numbers.shuffle(rng)
}

/// Relies on rand's `SliceRandom::partial_shuffle`: it reorders `pool` in
/// place by swaps only, and the `amount` elements it picks are the last
/// `amount` elements of `pool` afterwards, handed back in that order.
#[verifier::external_body]
fn partial_shuffle(pool: &mut Vec<u8>, amount: usize, rng: &mut ThreadRng) -> (r: Vec<u8>)
    requires
        amount <= old(pool)@.len(),
    ensures
        final(pool)@.to_multiset() == old(pool)@.to_multiset(),
        final(pool)@.len() == old(pool)@.len(),
        r@ == final(pool)@.subrange(old(pool)@.len() - amount, old(pool)@.len() as int),
{
    pool.partial_shuffle(rng, amount).0.to_vec()
}

/// The numbers of a fresh card: the square of row 2 in column 2 holds 0, and
/// every other square of column `c` holds a number from `15c + 1 ..= 15c + 15`,
/// no two squares of a column the same.
pub open spec fn is_card_layout(numbers: Seq<u8>) -> bool {
    &&& numbers.len() == 25
    &&& numbers[12] == 0
    &&& forall|i: int|
        0 <= i < 25 && i != 12 ==> 15 * (i / 5) + 1 <= #[trigger] numbers[i] <= 15 * (i / 5) + 15
    &&& forall|i: int, j: int|
        0 <= i < 25 && 0 <= j < 25 && i != j && i / 5 == j / 5 && i != 12 && j != 12
            ==> #[trigger] numbers[i] != #[trigger] numbers[j]
}

/// A call order of `n` numbers: each of `1 ..= n` exactly once.
pub open spec fn is_call_order(order: Seq<u8>, n: nat) -> bool {
    &&& order.len() == n
    &&& order.no_duplicates()
    &&& forall|i: int| 0 <= i < n ==> 1 <= #[trigger] order[i] <= n
    &&& forall|v: u8| 1 <= v <= n ==> #[trigger] order.contains(v)
}

/// If `b` is a reordering of `a`, it holds the same values, and holds no value
/// twice where `a` does not.
proof fn lemma_reordering(a: Seq<u8>, b: Seq<u8>)
    requires
        a.to_multiset() == b.to_multiset(),
    ensures
        forall|v: u8| a.contains(v) <==> b.contains(v),
        a.no_duplicates() ==> b.no_duplicates(),
{
    a.to_multiset_ensures();
    b.to_multiset_ensures();
    assert forall|v: u8| a.contains(v) <==> b.contains(v) by {
        assert(a.contains(v) <==> a.to_multiset().count(v) > 0);
        assert(b.contains(v) <==> b.to_multiset().count(v) > 0);
    }
    if a.no_duplicates() {
        a.lemma_multiset_has_no_duplicates();
        b.lemma_multiset_has_no_duplicates_conv();
    }
}

/// Draws the five numbers of column `column`: distinct, from
/// `15 * column + 1 ..= 15 * column + 15`.
fn draw_column(column: usize, rng: &mut ThreadRng) -> (r: Vec<u8>)
    requires
        column < 5,
    ensures
        r@.len() == 5,
        r@.no_duplicates(),
        forall|k: int| 0 <= k < 5 ==> 15 * column + 1 <= #[trigger] r@[k] <= 15 * column + 15,
{
    let mut pool: Vec<u8> = Vec::new();
    let mut k: usize = 0;
    while k < 15
        invariant
            column < 5,
            k <= 15,
            pool@.len() == k,
            forall|m: int| 0 <= m < k ==> #[trigger] pool@[m] == 15 * column + m + 1,
        decreases 15 - k,
    {
        pool.push((15 * column + k + 1) as u8);
        k += 1;
    }
    let ghost before = pool@;
    assert(before.no_duplicates());
    let chosen = partial_shuffle(&mut pool, 5, rng);
    proof {
        lemma_reordering(before, pool@);
        assert forall|k: int| 0 <= k < 5 implies 15 * column + 1 <= #[trigger] chosen@[k] <= 15
            * column + 15 by {
            assert(pool@.contains(pool@[10 + k]));
        }
    }
    chosen
}

/// Draws the numbers of a fresh card.
pub fn card_numbers(rng: &mut ThreadRng) -> (r: [u8; 25])
    ensures
        is_card_layout(r@),
{
    let mut numbers: [u8; 25] = [0; 25];
    let mut column: usize = 0;
    while column < 5
        invariant
            column <= 5,
            forall|i: int|
                0 <= i < 5 * column ==> 15 * (i / 5) + 1 <= #[trigger] numbers@[i] <= 15 * (i / 5)
                    + 15,
            forall|i: int, j: int|
                0 <= i < 5 * column && 0 <= j < 5 * column && i != j && i / 5 == j / 5
                    ==> #[trigger] numbers@[i] != #[trigger] numbers@[j],
        decreases 5 - column,
    {
        let chosen = draw_column(column, rng);
        let mut row: usize = 0;
        while row < 5
            invariant
                column < 5,
                row <= 5,
                chosen@.len() == 5,
                chosen@.no_duplicates(),
                forall|k: int|
                    0 <= k < 5 ==> 15 * column + 1 <= #[trigger] chosen@[k] <= 15 * column + 15,
                forall|i: int|
                    0 <= i < 5 * column ==> 15 * (i / 5) + 1 <= #[trigger] numbers@[i] <= 15 * (i
                        / 5) + 15,
                forall|i: int, j: int|
                    0 <= i < 5 * column && 0 <= j < 5 * column && i != j && i / 5 == j / 5
                        ==> #[trigger] numbers@[i] != #[trigger] numbers@[j],
                forall|k: int| 0 <= k < row ==> numbers@[5 * column + k] == chosen@[k],
            decreases 5 - row,
        {
            numbers[5 * column + row] = chosen[row];
            row += 1;
        }
        assert forall|i: int| 0 <= i < 5 * column + 5 implies 15 * (i / 5) + 1
            <= #[trigger] numbers@[i] <= 15 * (i / 5) + 15 by {
            if i >= 5 * column {
                assert(i / 5 == column);
                assert(numbers@[i] == chosen@[i - 5 * column]);
            }
        }
        assert forall|i: int, j: int|
            0 <= i < 5 * column + 5 && 0 <= j < 5 * column + 5 && i != j && i / 5 == j / 5
                implies #[trigger] numbers@[i] != #[trigger] numbers@[j] by {
            if i >= 5 * column {
                assert(numbers@[i] == chosen@[i - 5 * column]);
                assert(numbers@[j] == chosen@[j - 5 * column]);
            }
        }
        column += 1;
    }
    numbers[12] = 0;
    numbers
}

/// Draws a call order of the numbers `1 ..= N`.
pub fn call_order<const N: usize>(rng: &mut ThreadRng) -> (r: [u8; N])
    requires
        N <= 255,
    ensures
        is_call_order(r@, N as nat),
{
    let mut numbers: [u8; N] = [0; N];
    let mut i: usize = 0;
    while i < N
        invariant
            N <= 255,
            i <= N,
            numbers@.len() == N,
            forall|k: int| 0 <= k < i ==> #[trigger] numbers@[k] == k + 1,
        decreases N - i,
    {
        numbers[i] = (i + 1) as u8;
        i += 1;
    }
    let ghost before = numbers@;
    assert(before.no_duplicates());
    shuffle(&mut numbers, rng);
    proof {
        lemma_reordering(before, numbers@);
        assert forall|v: u8| 1 <= v <= N implies #[trigger] numbers@.contains(v) by {
            assert(before[v - 1] == v);
        }
        assert forall|i: int| 0 <= i < N implies 1 <= #[trigger] numbers@[i] <= N by {
            assert(numbers@.contains(numbers@[i]));
        }
    }
    numbers
}

} // verus!
