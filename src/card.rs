//! A card that keeps `ready` and `complete` beside `marked`, recomputing
//! them on every change.

use crate::lines::{
    complete_of, lemma_marked_after_bits, line_states, marked_after, ready_of, squares_with,
    FREE_SQUARE,
};
use crate::random::{card_numbers, is_card_layout};
use rand::rngs::ThreadRng;
use vstd::prelude::*;

verus! {

/// A card holding its numbers and three bit sets of squares: `marked`,
/// `ready` (squares of lines with four marked squares) and `complete`
/// (squares of lines with five).
#[derive(Clone, Copy, PartialEq, Eq, Debug)]
pub struct Card {
    numbers: [u8; 25],
    marked: u32,
    ready: u32,
    complete: u32,
}

impl Card {
    /// The numbers of the squares, in square order.
    pub closed spec fn spec_numbers(&self) -> Seq<u8> {
        self.numbers@
    }

    /// The marked squares, as a bit set.
    pub closed spec fn spec_marked(&self) -> u32 {
        self.marked
    }

    /// `ready` and `complete` agree with `marked`.
    pub closed spec fn wf(&self) -> bool {
        &&& self.ready == ready_of(self.marked)
        &&& self.complete == complete_of(self.marked)
    }

    /// Creates a card with the given numbers and marked squares.
    pub fn new(numbers: [u8; 25], marked: u32) -> (c: Self)
        ensures
            c.wf(),
            c.spec_numbers() == numbers@,
            c.spec_marked() == marked,
    {
        let (ready, complete) = Self::calculate(marked);
        Card { numbers, marked, ready, complete }
    }

    /// Creates a card from states already computed for `marked`.
    pub fn of(numbers: [u8; 25], marked: u32, ready: u32, complete: u32) -> (c: Self)
        requires
            ready == ready_of(marked),
            complete == complete_of(marked),
        ensures
            c.wf(),
            c.spec_numbers() == numbers@,
            c.spec_marked() == marked,
    {
        Card { numbers, marked, ready, complete }
    }

    /// Draws a fresh card: five distinct numbers from `15c + 1 ..= 15c + 15`
    /// in each column `c`, but for the center square, which holds 0 and is
    /// the only one marked.
    pub fn random(rng: &mut ThreadRng) -> (c: Self)
        ensures
            c.wf(),
            is_card_layout(c.spec_numbers()),
            c.spec_marked() == FREE_SQUARE,
    {
        Card::new(card_numbers(rng), FREE_SQUARE)
    }

    /// Marks every square that holds `number`; does nothing where none does.
    pub fn mark(&mut self, number: u8)
        ensures
            final(self).wf(),
            final(self).spec_numbers() == old(self).spec_numbers(),
            final(self).spec_marked() == marked_after(
                old(self).spec_numbers(),
                old(self).spec_marked(),
                number,
            ),
            forall|i: u32|
                i < 32 ==> (#[trigger] (final(self).spec_marked() & (1u32 << i)) != 0) == ((old(
                    self,
                ).spec_marked() & (1u32 << i)) != 0 || (i < 25 && old(self).spec_numbers()[i as int]
                    == number)),
    {
        proof {
            lemma_marked_after_bits(self.numbers@, self.marked, number);
        }
        self.marked = self.marked | squares_with(&self.numbers, number);
        let (ready, complete) = Self::calculate(self.marked);
        self.ready = ready;
        self.complete = complete;
    }

    /// Returns the numbers.
    pub fn numbers(&self) -> (r: &[u8; 25])
        ensures
            r@ == self.spec_numbers(),
    {
        &self.numbers
    }

    /// Returns `(marked, ready, complete)`.
    pub fn states(&self) -> (r: (u32, u32, u32))
        requires
            self.wf(),
        ensures
            r == (
                self.spec_marked(),
                ready_of(self.spec_marked()),
                complete_of(self.spec_marked()),
            ),
    {
        (self.marked, self.ready, self.complete)
    }

    /// Computes `ready` and `complete` from `marked`.
    fn calculate(marked: u32) -> (r: (u32, u32))
        ensures
            r == (ready_of(marked), complete_of(marked)),
    {
        line_states(marked)
    }
}

} // verus!
