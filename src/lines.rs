//! The 25 squares of a card and its 12 winning lines, as bit sets.
//!
//! Square `5 * column + row` is bit `5 * column + row` of a `u32`:
//!
//! |  b  |  i  |  n  |  g  |  o  |
//! | :-: | :-: | :-: | :-: | :-: |
//! |  0  |  5  |  10 |  15 |  20 |
//! |  1  |  6  |  11 |  16 |  21 |
//! |  2  |  7  |  12 |  17 |  22 |
//! |  3  |  8  |  13 |  18 |  23 |
//! |  4  |  9  |  14 |  19 |  24 |

use vstd::prelude::*;

verus! {

/// Number of squares on a card.
pub const SQUARES: usize = 25;

/// Number of winning lines: five columns, five rows and two diagonals.
pub const LINES: usize = 12;

/// The center square, which a fresh card holds marked.
pub const FREE_SQUARE: u32 = 1 << 12;

pub const COLUMN_B: u32 = 0b00000_00000_00000_00000_11111;
pub const COLUMN_I: u32 = 0b00000_00000_00000_11111_00000;
pub const COLUMN_N: u32 = 0b00000_00000_11111_00000_00000;
pub const COLUMN_G: u32 = 0b00000_11111_00000_00000_00000;
pub const COLUMN_O: u32 = 0b11111_00000_00000_00000_00000;
pub const ROW_0: u32 = 0b00001_00001_00001_00001_00001;
pub const ROW_1: u32 = 0b00010_00010_00010_00010_00010;
pub const ROW_2: u32 = 0b00100_00100_00100_00100_00100;
pub const ROW_3: u32 = 0b01000_01000_01000_01000_01000;
pub const ROW_4: u32 = 0b10000_10000_10000_10000_10000;
pub const DIAGONAL_DOWN: u32 = 0b10000_01000_00100_00010_00001;
pub const DIAGONAL_UP: u32 = 0b00001_00010_00100_01000_10000;

/// The mask of line `i`, for `0 <= i < 12`: the five columns, then the five
/// rows, then the two diagonals.
pub open spec fn line_mask(i: int) -> u32 {
    if i == 0 {
        COLUMN_B
    } else if i == 1 {
        COLUMN_I
    } else if i == 2 {
        COLUMN_N
    } else if i == 3 {
        COLUMN_G
    } else if i == 4 {
        COLUMN_O
    } else if i == 5 {
        ROW_0
    } else if i == 6 {
        ROW_1
    } else if i == 7 {
        ROW_2
    } else if i == 8 {
        ROW_3
    } else if i == 9 {
        ROW_4
    } else if i == 10 {
        DIAGONAL_DOWN
    } else {
        DIAGONAL_UP
    }
}

/// Number of one bits of `x`.
pub open spec fn popcount(x: u32) -> nat
    decreases x,
{
    if x == 0 {
        0
    } else {
        popcount(x / 2) + (x % 2) as nat
    }
}

/// Union of the masks of those lines among the first `k` that have exactly
/// `hits` of their squares in `marked`.
pub open spec fn lines_with(marked: u32, hits: nat, k: int) -> u32
    decreases k,
{
    if k <= 0 {
        0
    } else {
        let line = line_mask(k - 1);
        let rest = lines_with(marked, hits, k - 1);
        if popcount(marked & line) == hits {
            rest | line
        } else {
            rest
        }
    }
}

/// Squares of the lines that are one square away from completion.
pub open spec fn ready_of(marked: u32) -> u32 {
    lines_with(marked, 4, LINES as int)
}

/// Squares of the lines that are fully marked.
pub open spec fn complete_of(marked: u32) -> u32 {
    lines_with(marked, 5, LINES as int)
}

/// Bits of those squares among the first `k` of `numbers` that hold `number`.
pub open spec fn squares_holding_upto(numbers: Seq<u8>, number: u8, k: int) -> u32
    decreases k,
{
    if k <= 0 {
        0
    } else {
        let rest = squares_holding_upto(numbers, number, k - 1);
        if numbers[k - 1] == number {
            rest | (1u32 << ((k - 1) as u32))
        } else {
            rest
        }
    }
}

/// Bits of the squares of a card with `numbers` that hold `number`.
pub open spec fn squares_holding(numbers: Seq<u8>, number: u8) -> u32 {
    squares_holding_upto(numbers, number, SQUARES as int)
}

/// `marked` once every square holding `number` is marked too.
pub open spec fn marked_after(numbers: Seq<u8>, marked: u32, number: u8) -> u32 {
    marked | squares_holding(numbers, number)
}

/// Square `i` is among the first `k` squares found holding `number` exactly
/// when `i < k` and it holds `number`.
proof fn lemma_squares_holding_upto_bits(numbers: Seq<u8>, number: u8, k: int)
    requires
        0 <= k <= SQUARES,
        numbers.len() == SQUARES,
    ensures
        forall|i: u32|
            i < 32 ==> (#[trigger] (squares_holding_upto(numbers, number, k) & (1u32 << i)) != 0)
                == (i < k && numbers[i as int] == number),
    decreases k,
{
    if k > 0 {
        lemma_squares_holding_upto_bits(numbers, number, k - 1);
        let rest = squares_holding_upto(numbers, number, k - 1);
        let j = (k - 1) as u32;
        assert forall|i: u32| i < 32 implies ((rest | (1u32 << j)) & (1u32 << i) != 0) == ((rest & (
        1u32 << i)) != 0 || i == j) by {
            assert(i < 32 && j < 32 ==> ((rest | (1u32 << j)) & (1u32 << i) != 0) == ((rest & (1u32
                << i)) != 0 || i == j)) by (bit_vector);
        }
    } else {
        assert forall|i: u32| i < 32 implies (0u32 & (1u32 << i)) == 0 by {
            assert(0u32 & (1u32 << i) == 0) by (bit_vector);
        }
    }
}

/// Marking `number` marks square `i` exactly when it was marked already or
/// holds `number`; it sets no bit above the card.
pub proof fn lemma_marked_after_bits(numbers: Seq<u8>, marked: u32, number: u8)
    requires
        numbers.len() == SQUARES,
    ensures
        forall|i: u32|
            i < 32 ==> (#[trigger] (marked_after(numbers, marked, number) & (1u32 << i)) != 0) == ((
            marked & (1u32 << i)) != 0 || (i < SQUARES && numbers[i as int] == number)),
{
    lemma_squares_holding_upto_bits(numbers, number, SQUARES as int);
    let found = squares_holding(numbers, number);
    assert forall|i: u32| i < 32 implies ((marked | found) & (1u32 << i) != 0) == ((marked & (1u32
        << i)) != 0 || (found & (1u32 << i)) != 0) by {
        assert(((marked | found) & (1u32 << i) != 0) == ((marked & (1u32 << i)) != 0 || (found & (
        1u32 << i)) != 0)) by (bit_vector);
    }
}

/// `marked` after marking each of `calls` in turn.
pub open spec fn marked_after_all(numbers: Seq<u8>, marked: u32, calls: Seq<u8>) -> u32
    decreases calls.len(),
{
    if calls.len() == 0 {
        marked
    } else {
        marked_after(numbers, marked_after_all(numbers, marked, calls.drop_last()), calls.last())
    }
}

/// Marking a number a second time leaves the marked squares as marking it
/// once did.
pub proof fn lemma_mark_idempotent(numbers: Seq<u8>, marked: u32, number: u8)
    ensures
        marked_after(numbers, marked_after(numbers, marked, number), number) == marked_after(
            numbers,
            marked,
            number,
        ),
{
    let found = squares_holding(numbers, number);
    assert((marked | found) | found == marked | found) by (bit_vector);
}

/// Marking never unmarks: after any sequence of marks, every square that was
/// marked before is still marked.
pub proof fn lemma_mark_monotone(numbers: Seq<u8>, marked: u32, calls: Seq<u8>)
    ensures
        marked_after_all(numbers, marked, calls) & marked == marked,
    decreases calls.len(),
{
    if calls.len() > 0 {
        lemma_mark_monotone(numbers, marked, calls.drop_last());
        let before = marked_after_all(numbers, marked, calls.drop_last());
        let found = squares_holding(numbers, calls.last());
        assert(before & marked == marked ==> (before | found) & marked == marked) by (bit_vector);
    } else {
        assert(marked & marked == marked) by (bit_vector);
    }
}

/// Relies on `u32::count_ones`: the number of one bits in the binary
/// representation of `x`.
#[verifier::external_body]
fn count_ones(x: u32) -> (r: u32)
    ensures
        r == popcount(x),
{
    x.count_ones()
}

/// The mask of line `i`.
pub fn line(i: usize) -> (r: u32)
    requires
        i < LINES,
    ensures
        r == line_mask(i as int),
{
    match i {
        0 => COLUMN_B,
        1 => COLUMN_I,
        2 => COLUMN_N,
        3 => COLUMN_G,
        4 => COLUMN_O,
        5 => ROW_0,
        6 => ROW_1,
        7 => ROW_2,
        8 => ROW_3,
        9 => ROW_4,
        10 => DIAGONAL_DOWN,
        _ => DIAGONAL_UP,
    }
}

/// The squares of `numbers` that hold `number`, as a bit set.
pub fn squares_with(numbers: &[u8; 25], number: u8) -> (r: u32)
    ensures
        r == squares_holding(numbers@, number),
{
    let mut found: u32 = 0;
    let mut index: usize = 0;
    while index < SQUARES
        invariant
            index <= SQUARES,
            found == squares_holding_upto(numbers@, number, index as int),
        decreases SQUARES - index,
    {
        if numbers[index] == number {
            found = found | (1u32 << (index as u32));
        }
        index += 1;
    }
    found
}

/// Computes `(ready, complete)` from `marked`: the union of the lines with
/// exactly four marked squares, and the union of the lines with all five
/// squares marked.
pub fn line_states(marked: u32) -> (r: (u32, u32))
    ensures
        r == (ready_of(marked), complete_of(marked)),
{
    let mut ready: u32 = 0;
    let mut complete: u32 = 0;
    let mut index: usize = 0;
    while index < LINES
        invariant
            index <= LINES,
            ready == lines_with(marked, 4, index as int),
            complete == lines_with(marked, 5, index as int),
        decreases LINES - index,
    {
        let mask = line(index);
        let ones = count_ones(marked & mask);
        if ones == 4 {
            ready = ready | mask;
        } else if ones == 5 {
            complete = complete | mask;
        }
        index += 1;
    }
    (ready, complete)
}

} // verus!
