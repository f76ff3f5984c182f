//! The write cursor.

use crate::buffer::Multitap;
use crate::num::Num;
use crate::wrap::{advance, offset, offset_by, step};
use core::marker::PhantomData;
use vstd::prelude::*;

verus! {

/// The cursor that writes a buffer of `N` samples, one slot per push,
/// cyclically.
pub struct WriteHead<T: Num, const N: usize> {
    head_position: usize,
    element: PhantomData<T>,
}

impl<T: Num, const N: usize> WriteHead<T, N> {
    /// A write head stands on a slot of the buffer.
    #[verifier::type_invariant]
    pub open spec fn well_formed(&self) -> bool {
        self.position() < N
    }

    /// The slot that the next push writes.
    pub closed spec fn position(&self) -> nat {
        self.head_position as nat
    }

    /// A write head on slot 0.
    pub(crate) fn start() -> (head: Self)
        requires
            N > 0,
        ensures
            head.position() == 0,
    {
        WriteHead { head_position: 0, element: PhantomData }
    }

    /// Writes `element` under the head, which then moves on by one slot.
    pub fn push(&mut self, buffer: &mut Multitap<T, N>, element: T)
        ensures
            final(buffer)@ == old(buffer)@.update(old(self).position() as int, element),
            final(buffer).writer_issued() == old(buffer).writer_issued(),
            final(self).position() == step(old(self).position(), N as nat),
    {
        proof {
            use_type_invariant(&*self);
        }
        *buffer.slot_mut(self.head_position) = element;
        self.increment();
    }

    /// Moves the head on by one slot without writing.
    pub fn increment(&mut self)
        ensures
            final(self).position() == step(old(self).position(), N as nat),
    {
        proof {
            use_type_invariant(&*self);
        }
        self.head_position = advance(self.head_position, N);
    }

    /// The sample `i` slots after the head.
    pub fn index<'a>(&self, buffer: &'a Multitap<T, N>, i: usize) -> (sample: &'a T)
        ensures
            *sample == buffer@[offset(self.position(), i as nat, N as nat) as int],
    {
        proof {
            use_type_invariant(self);
        }
        buffer.slot(offset_by(self.head_position, i, N))
    }

    /// The sample `i` slots after the head, to be overwritten. The head stays
    /// where it is.
    pub fn index_mut<'a>(&self, buffer: &'a mut Multitap<T, N>, i: usize) -> (sample: &'a mut T)
        ensures
            *sample == old(buffer)@[offset(self.position(), i as nat, N as nat) as int],
            final(buffer)@ == old(buffer)@.update(
                offset(self.position(), i as nat, N as nat) as int,
                *final(sample),
            ),
            final(buffer).writer_issued() == old(buffer).writer_issued(),
    {
        proof {
            use_type_invariant(self);
        }
        buffer.slot_mut(offset_by(self.head_position, i, N))
    }
}

} // verus!
