//! Bingo: cards whose squares are marked as numbers are announced, and
//! callers that announce numbers in a fixed, non-repeating order.

pub mod caller;
pub mod card;
pub mod lines;
pub mod random;

use lines::{
    complete_of, lemma_marked_after_bits, line_states, marked_after, ready_of, squares_with,
    FREE_SQUARE,
};
use rand::rngs::ThreadRng;
use random::{call_order, card_numbers, is_call_order, is_card_layout};
use vstd::prelude::*;
use vstd::slice::slice_subrange;

verus! {

/// A card: 25 numbers and the set of marked squares.
///
/// Square `5 * column + row` holds `numbers[5 * column + row]` and is marked
/// when bit `5 * column + row` of `marked` is set (see [`lines`]).
#[derive(Clone, PartialEq, Eq, Hash, Debug)]
pub struct Card {
    numbers: [u8; 25],
    marked: u32,
}

impl Card {
    /// The numbers of the squares, in square order.
    pub closed spec fn spec_numbers(&self) -> Seq<u8> {
        self.numbers@
    }

    /// The marked squares, as a bit set.
    pub closed spec fn spec_marked(&self) -> u32 {
        self.marked
    }

    /// Creates a card with the given numbers and marked squares.
    pub fn new(numbers: [u8; 25], marked: u32) -> (c: Self)
        ensures
            c.spec_numbers() == numbers@,
            c.spec_marked() == marked,
    {
        Card { numbers, marked }
    }

    /// Draws a fresh card: five distinct numbers from `15c + 1 ..= 15c + 15`
    /// in each column `c`, but for the center square, which holds 0 and is
    /// the only one marked.
    pub fn random(rng: &mut ThreadRng) -> (c: Self)
        ensures
            is_card_layout(c.spec_numbers()),
            c.spec_marked() == FREE_SQUARE,
    {
        Card::new(card_numbers(rng), FREE_SQUARE)
    }

    /// Returns the numbers.
    pub fn numbers(&self) -> (r: &[u8; 25])
        ensures
            r@ == self.spec_numbers(),
    {
        &self.numbers
    }

    /// Returns the marked squares as a bit set.
    pub fn marked(&self) -> (r: u32)
        ensures
            r == self.spec_marked(),
    {
        self.marked
    }

    /// Returns `(ready, complete)`: the squares of the lines with exactly four
    /// marked squares, and the squares of the lines with five.
    pub fn info(&self) -> (r: (u32, u32))
        ensures
            r == (ready_of(self.spec_marked()), complete_of(self.spec_marked())),
    {
        line_states(self.marked)
    }

    /// Marks every square that holds `number`; does nothing where none does.
    pub fn mark(&mut self, number: u8)
        ensures
            final(self).spec_numbers() == old(self).spec_numbers(),
            final(self).spec_marked() == marked_after(
                old(self).spec_numbers(),
                old(self).spec_marked(),
                number,
            ),
            forall|i: u32|
                i < 32 ==> (#[trigger] (final(self).spec_marked() & (1u32 << i)) != 0) == ((old(
                    self,
                ).spec_marked() & (1u32 << i)) != 0 || (i < 25 && old(self).spec_numbers()[i as int]
                    == number)),
    {
        proof {
            lemma_marked_after_bits(self.numbers@, self.marked, number);
        }
        self.marked = self.marked | squares_with(&self.numbers, number);
    }
}

/// A caller of `N` numbers in a fixed order.
#[derive(Clone, PartialEq, Eq, Hash, Debug)]
pub struct Caller<const N: usize> {
    numbers: [u8; N],
    next: usize,
}

impl<const N: usize> Caller<N> {
    /// The numbers, in the order in which they are called.
    pub closed spec fn spec_numbers(&self) -> Seq<u8> {
        self.numbers@
    }

    /// The index of the next number to call.
    pub closed spec fn spec_next(&self) -> nat {
        self.next as nat
    }

    /// The cursor stays within the numbers.
    pub closed spec fn wf(&self) -> bool {
        &&& N < usize::MAX
        &&& self.next <= N
    }

    /// The numbers called so far, in call order.
    pub open spec fn spec_history(&self) -> Seq<u8> {
        self.spec_numbers().subrange(0, self.spec_next() as int)
    }

    /// Creates a caller that calls `numbers[next]` first.
    pub fn new(numbers: [u8; N], next: usize) -> (c: Self)
        requires
            N < usize::MAX,
            next <= N,
        ensures
            c.wf(),
            c.spec_numbers() == numbers@,
            c.spec_next() == next,
    {
        Caller { numbers, next }
    }

    /// Draws a caller of the numbers `1 ..= N` in a random order.
    pub fn random(rng: &mut ThreadRng) -> (c: Self)
        requires
            N <= 255,
        ensures
            c.wf(),
            is_call_order(c.spec_numbers(), N as nat),
            c.spec_next() == 0,
    {
        Caller::new(call_order(rng), 0)
    }

    /// Returns the numbers.
    pub fn numbers(&self) -> (r: &[u8; N])
        ensures
            r@ == self.spec_numbers(),
    {
        &self.numbers
    }

    /// Returns the index of the next number.
    pub fn next(&self) -> (r: usize)
        ensures
            r == self.spec_next(),
    {
        self.next
    }

    /// Returns the numbers called so far, in call order.
    pub fn history(&self) -> (r: &[u8])
        requires
            self.wf(),
        ensures
            r@ == self.spec_history(),
            r@.len() == self.spec_next(),
    {
        slice_subrange(self.numbers.as_slice(), 0, self.next)
    }

    /// Calls the next number, or returns `None` once all have been called.
    pub fn call(&mut self) -> (r: Option<u8>)
        requires
            old(self).wf(),
        ensures
            final(self).wf(),
            final(self).spec_numbers() == old(self).spec_numbers(),
            old(self).spec_next() == N ==> r is None && *final(self) == *old(self),
            old(self).spec_next() < N ==> {
                &&& r == Some(old(self).spec_numbers()[old(self).spec_next() as int])
                &&& final(self).spec_next() == old(self).spec_next() + 1
                &&& final(self).spec_history() == old(self).spec_history().push(r->0)
            },
    {
        if self.next == N {
            None
        } else {
            let number = self.numbers[self.next];
            self.next += 1;
            proof {
                assert(self.spec_history() =~= old(self).spec_history().push(number));
            }
            Some(number)
        }
    }
}

} // verus!
