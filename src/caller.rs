//! Callers: a fixed order of numbers and a cursor that only moves forward.

use crate::random::{call_order, is_call_order};
use rand::rngs::ThreadRng;
use vstd::prelude::*;
use vstd::slice::slice_subrange;

verus! {

/// Something that calls numbers one at a time and remembers what it called.
pub trait Caller {
    /// All numbers, in the order in which they are called.
    spec fn spec_numbers(&self) -> Seq<u8>;

    /// The index of the next number to call.
    spec fn spec_next(&self) -> nat;

    /// The caller's invariant.
    spec fn wf(&self) -> bool;

    /// Calls a number; returns `None` once all numbers have been called,
    /// and then leaves the caller as it is.
    fn call(&mut self) -> (r: Option<u8>)
        requires
            old(self).wf(),
        ensures
            final(self).wf(),
            final(self).spec_numbers() == old(self).spec_numbers(),
            final(self).spec_next() <= final(self).spec_numbers().len(),
            old(self).spec_next() >= old(self).spec_numbers().len() ==> {
                &&& r is None
                &&& final(self).spec_next() == old(self).spec_next()
            },
            old(self).spec_next() < old(self).spec_numbers().len() ==> {
                &&& r == Some(old(self).spec_numbers()[old(self).spec_next() as int])
                &&& final(self).spec_next() == old(self).spec_next() + 1
            },
    ;

    /// Returns the numbers already called, in the order they were called.
    fn history(&self) -> (r: &[u8])
        requires
            self.wf(),
        ensures
            r@ == self.spec_numbers().subrange(0, self.spec_next() as int),
            r@.len() == self.spec_next(),
    ;
}

/// A caller over a vector of numbers.
#[derive(Clone, Debug)]
pub struct SimpleCaller {
    numbers: Vec<u8>,
    next: usize,
}

impl SimpleCaller {
    /// Creates a caller that calls `numbers` from the first.
    pub fn new(numbers: Vec<u8>) -> (c: Self)
        ensures
            c.wf(),
            c.spec_numbers() == numbers@,
            c.spec_next() == 0,
    {
        SimpleCaller { numbers, next: 0 }
    }
}

impl Caller for SimpleCaller {
    closed spec fn spec_numbers(&self) -> Seq<u8> {
        self.numbers@
    }

    closed spec fn spec_next(&self) -> nat {
        self.next as nat
    }

    closed spec fn wf(&self) -> bool {
        self.next <= self.numbers@.len()
    }

    fn call(&mut self) -> (r: Option<u8>) {
        if self.next == self.numbers.len() {
            None
        } else {
            let result = self.numbers[self.next];
            self.next += 1;
            Some(result)
        }
    }

    fn history(&self) -> (r: &[u8]) {
        slice_subrange(self.numbers.as_slice(), 0, self.next)
    }
}

/// A caller over an array of `N` numbers.
#[derive(Clone, Copy, Debug)]
pub struct ArrayCaller<const N: usize> {
    numbers: [u8; N],
    next: usize,
}

impl<const N: usize> ArrayCaller<N> {
    /// Creates a caller that calls `numbers` from the first.
    pub fn new(numbers: [u8; N]) -> (c: Self)
        ensures
            c.wf(),
            c.spec_numbers() == numbers@,
            c.spec_next() == 0,
    {
        ArrayCaller { numbers, next: 0 }
    }

    /// Draws a caller of the numbers `1 ..= N` in a random order.
    pub fn random(rng: &mut ThreadRng) -> (c: Self)
        requires
            N <= 255,
        ensures
            c.wf(),
            is_call_order(c.spec_numbers(), N as nat),
            c.spec_next() == 0,
    {
        ArrayCaller::new(call_order(rng))
    }
}

impl<const N: usize> Caller for ArrayCaller<N> {
    closed spec fn spec_numbers(&self) -> Seq<u8> {
        self.numbers@
    }

    closed spec fn spec_next(&self) -> nat {
        self.next as nat
    }

    closed spec fn wf(&self) -> bool {
        self.next <= N
    }

    fn call(&mut self) -> (r: Option<u8>) {
        if self.next == N {
            None
        } else {
            let result = self.numbers[self.next];
            self.next += 1;
            Some(result)
        }
    }

    fn history(&self) -> (r: &[u8]) {
        slice_subrange(self.numbers.as_slice(), 0, self.next)
    }
}

} // verus!
