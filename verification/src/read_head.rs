//! Read cursors.

use crate::buffer::Multitap;
use crate::num::Num;
use crate::wrap::{
    advance, lemma_offset_wraps_distance, lemma_wrapped_twice, offset, offset_by, reduce, step,
    wrapped,
};
use core::marker::PhantomData;
use vstd::prelude::*;

verus! {

/// A tap: a cursor that reads a buffer of `N` samples, one slot per pull,
/// cyclically and without end.
///
/// A read head changes nothing but its own position.
pub struct ReadHead<T: Num, const N: usize> {
    head_position: usize,
    element: PhantomData<T>,
}

impl<T: Num, const N: usize> ReadHead<T, N> {
    /// A read head stands on a slot of the buffer.
    #[verifier::type_invariant]
    pub open spec fn well_formed(&self) -> bool {
        self.position() < N
    }

    /// The slot that the next pull reads.
    pub closed spec fn position(&self) -> nat {
        self.head_position as nat
    }

    /// Seeking is cyclic: `seek(position)` and `seek(position % N)` leave the
    /// head on the same slot, so the pulls that follow yield the same samples.
    pub proof fn lemma_seek_is_cyclic(buffer: &Multitap<T, N>, position: nat)
        requires
            buffer.well_formed(),
        ensures
            wrapped(wrapped(position, N as nat), N as nat) == wrapped(position, N as nat),
            buffer@[wrapped(wrapped(position, N as nat), N as nat) as int]
                == buffer@[wrapped(position, N as nat) as int],
    {
        lemma_wrapped_twice(position, N as nat);
    }

    /// Indexing is cyclic: `index(buffer, i)` and `index(buffer, i % N)` name
    /// the same slot, and so the same sample.
    pub proof fn lemma_index_is_cyclic(&self, buffer: &Multitap<T, N>, i: nat)
        requires
            buffer.well_formed(),
        ensures
            offset(self.position(), wrapped(i, N as nat), N as nat) == offset(
                self.position(),
                i,
                N as nat,
            ),
            buffer@[offset(self.position(), wrapped(i, N as nat), N as nat) as int]
                == buffer@[offset(self.position(), i, N as nat) as int],
    {
        lemma_offset_wraps_distance(self.position(), i, N as nat);
    }

    /// A read head on slot `position`.
    pub(crate) fn starting_at(position: usize) -> (head: Self)
        requires
            position < N,
        ensures
            head.position() == position,
    {
        ReadHead { head_position: position, element: PhantomData }
    }

    /// Moves the head to slot `position % N`, wherever it stood.
    pub fn seek(&mut self, position: usize)
        ensures
            final(self).position() == wrapped(position as nat, N as nat),
    {
        proof {
            use_type_invariant(&*self);
        }
        self.head_position = reduce(position, N);
    }

    /// The sample under the head, which then moves on by one slot.
    ///
    /// There is always a next sample: after slot `N - 1` comes slot 0.
    pub fn next(&mut self, buffer: &Multitap<T, N>) -> (sample: Option<T>)
        ensures
            sample == Some(buffer@[old(self).position() as int]),
            final(self).position() == step(old(self).position(), N as nat),
    {
        proof {
            use_type_invariant(&*self);
        }
        let sample = *buffer.slot(self.head_position);
        self.head_position = advance(self.head_position, N);
        Some(sample)
    }

    /// The sample `i` slots after the head, which stays where it is.
    pub fn index<'a>(&self, buffer: &'a Multitap<T, N>, i: usize) -> (sample: &'a T)
        ensures
            *sample == buffer@[offset(self.position(), i as nat, N as nat) as int],
    {
        proof {
            use_type_invariant(self);
        }
        buffer.slot(offset_by(self.head_position, i, N))
    }
}

} // verus!
