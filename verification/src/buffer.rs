//! The buffer: owner of the storage and of the writer slot.

use crate::error::MultitapError;
use crate::num::Num;
use crate::read_head::ReadHead;
use crate::wrap::{origin, tap_origin};
use crate::write_head::WriteHead;
use vstd::prelude::*;
use vstd::std_specs::convert::TryFromSpecImpl;

verus! {

/// A circular buffer of `N` samples.
///
/// The samples are reached through cursors only: one [`WriteHead`] at a time,
/// and any number of [`ReadHead`]s. The view of a buffer is the sequence of
/// its `N` samples in storage order.
pub struct Multitap<T: Num, const N: usize> {
    data: [T; N],
    writing: bool,
}

impl<T: Num, const N: usize> View for Multitap<T, N> {
    type V = Seq<T>;

    closed spec fn view(&self) -> Seq<T> {
        self.data@
    }
}

impl<T: Num, const N: usize> Multitap<T, N> {
    /// A buffer has at least one slot.
    #[verifier::type_invariant]
    pub open spec fn well_formed(&self) -> bool {
        N > 0
    }

    /// Whether a write head is out.
    pub closed spec fn writer_issued(&self) -> bool {
        self.writing
    }

    /// The buffer that holds `data`, with no write head out, where there is one.
    pub closed spec fn holding(data: [T; N]) -> Result<Self, MultitapError> {
        if N == 0 {
            Err(MultitapError::InvalidCapacity)
        } else {
            Ok(Multitap { data, writing: false })
        }
    }

    /// What `as_writehead` makes of a buffer: `after` is the buffer it leaves
    /// and `head` is what it hands out.
    pub open spec fn grants(
        &self,
        after: &Self,
        head: Result<WriteHead<T, N>, MultitapError>,
    ) -> bool {
        &&& after@ == self@
        &&& after.writer_issued()
        &&& if self.writer_issued() {
            head == Err::<WriteHead<T, N>, MultitapError>(MultitapError::WriterUnavailable)
        } else {
            head is Ok && head->Ok_0.position() == 0
        }
    }

    /// What `release_writehead` makes of a buffer.
    pub open spec fn releases(&self, after: &Self) -> bool {
        &&& after@ == self@
        &&& !after.writer_issued()
    }

    /// A buffer holds exactly `N` samples.
    pub proof fn lemma_capacity(&self)
        ensures
            self@.len() == N,
    {
    }

    /// What `holding` holds.
    pub proof fn lemma_holding(data: [T; N])
        ensures
            N == 0 <==> Self::holding(data) == Err::<Self, MultitapError>(
                MultitapError::InvalidCapacity,
            ),
            N > 0 <==> Self::holding(data) is Ok,
            N > 0 ==> Self::holding(data)->Ok_0@ == data@ && !Self::holding(
                data,
            )->Ok_0.writer_issued(),
    {
    }

    /// While a write head is out the buffer grants no second one, and once it
    /// has been released the buffer grants one again.
    pub proof fn lemma_single_writer(
        free: Self,
        held: Self,
        first: Result<WriteHead<T, N>, MultitapError>,
        still_held: Self,
        second: Result<WriteHead<T, N>, MultitapError>,
        freed: Self,
        held_again: Self,
        third: Result<WriteHead<T, N>, MultitapError>,
    )
        requires
            free.grants(&held, first),
            first is Ok,
            held.grants(&still_held, second),
            still_held.releases(&freed),
            freed.grants(&held_again, third),
        ensures
            second == Err::<WriteHead<T, N>, MultitapError>(MultitapError::WriterUnavailable),
            third is Ok,
    {
    }

    /// A buffer of `N` default samples, with no write head out.
    ///
    /// Fails with `InvalidCapacity` exactly when `N` is zero.
    pub fn new() -> (buffer: Result<Self, MultitapError>)
        ensures
            N == 0 <==> buffer == Err::<Self, MultitapError>(MultitapError::InvalidCapacity),
            N > 0 <==> buffer is Ok,
            buffer is Ok ==> {
                let fill = buffer->Ok_0@[0];
                &&& !buffer->Ok_0.writer_issued()
                &&& T::is_default(fill)
                &&& buffer->Ok_0@ == Seq::new(N as nat, |slot: int| fill)
            },
    {
        if N == 0 {
            return Err(MultitapError::InvalidCapacity);
        }
        let fill = T::default_value();
        let data = [fill;N];
        assert(data@ =~= Seq::new(N as nat, |slot: int| fill));
        Ok(Multitap { data, writing: false })
    }

    /// A buffer that starts with the samples of `data`, with no write head out.
    ///
    /// Fails with `InvalidCapacity` exactly when `N` is zero.
    pub fn from_buffer(data: [T; N]) -> (buffer: Result<Self, MultitapError>)
        ensures
            buffer == Self::holding(data),
            N == 0 <==> buffer == Err::<Self, MultitapError>(MultitapError::InvalidCapacity),
            N > 0 <==> buffer is Ok,
            buffer is Ok ==> buffer->Ok_0@ == data@ && !buffer->Ok_0.writer_issued(),
    {
        if N == 0 {
            return Err(MultitapError::InvalidCapacity);
        }
        Ok(Multitap { data, writing: false })
    }

    /// A buffer that starts with a copy of the samples of `data`, with no write
    /// head out.
    ///
    /// Fails with `InvalidCapacity` exactly when `N` is zero, and otherwise
    /// with `SizeMismatch` exactly when `data` does not hold `N` samples.
    pub fn from_slice(data: &mut [T]) -> (buffer: Result<Self, MultitapError>)
        ensures
            final(data)@ == old(data)@,
            N == 0 <==> buffer == Err::<Self, MultitapError>(MultitapError::InvalidCapacity),
            N > 0 && old(data)@.len() != N <==> buffer == Err::<Self, MultitapError>(
                MultitapError::SizeMismatch,
            ),
            N > 0 && old(data)@.len() == N <==> buffer is Ok,
            buffer is Ok ==> buffer->Ok_0@ == old(data)@ && !buffer->Ok_0.writer_issued(),
    {
        if N == 0 {
            return Err(MultitapError::InvalidCapacity);
        }
        if data.len() != N {
            return Err(MultitapError::SizeMismatch);
        }
        let mut copy: [T; N] = [data[0];N];
        let mut slot: usize = 1;
        while slot < N
            invariant
                1 <= slot <= N,
                data@.len() == N,
                data@ == old(data)@,
                forall|done: int| 0 <= done < slot ==> copy@[done] == data@[done],
            decreases N - slot,
        {
            copy[slot] = data[slot];
            slot += 1;
        }
        assert(copy@ =~= data@);
        Ok(Multitap { data: copy, writing: false })
    }

    /// The write head, at slot 0, unless one is out already.
    ///
    /// Fails with `WriterUnavailable` exactly when a write head is out. The
    /// samples stay as they are either way, and afterwards a write head is out.
    pub fn as_writehead(&mut self) -> (head: Result<WriteHead<T, N>, MultitapError>)
        ensures
            old(self).grants(final(self), head),
    {
        proof {
            use_type_invariant(&*self);
        }
        if self.writing {
            return Err(MultitapError::WriterUnavailable);
        }
        self.writing = true;
        Ok(WriteHead::start())
    }

    /// Takes the write head back, so that `as_writehead` can hand one out
    /// again. The samples stay as they are.
    pub fn release_writehead(&mut self, head: WriteHead<T, N>)
        ensures
            old(self).releases(final(self)),
    {
        proof {
            use_type_invariant(&*self);
        }
        let _ = head;
        self.writing = false;
    }

    /// A read head that trails slot 0 by `delay` samples: it starts at slot
    /// `(N - delay % N) % N`. A delay of `N` or more counts modulo `N`.
    pub fn as_readhead(&self, delay: usize) -> (head: ReadHead<T, N>)
        ensures
            head.position() == tap_origin(delay as nat, N as nat),
    {
        proof {
            use_type_invariant(self);
        }
        ReadHead::starting_at(origin(delay, N))
    }

    /// The sample in slot `index`.
    pub(crate) fn slot(&self, index: usize) -> (sample: &T)
        requires
            index < N,
        ensures
            *sample == self@[index as int],
    {
        &self.data[index]
    }

    /// The sample in slot `index`, to be overwritten.
    pub(crate) fn slot_mut(&mut self, index: usize) -> (sample: &mut T)
        requires
            index < N,
        ensures
            *sample == old(self)@[index as int],
            final(self)@ == old(self)@.update(index as int, *final(sample)),
            final(self).writer_issued() == old(self).writer_issued(),
    {
        element_mut(&mut self.data, index)
    }
}

impl<T: Num, const N: usize> TryFrom<[T; N]> for Multitap<T, N> {
    type Error = MultitapError;

    /// The same as `from_buffer`.
    fn try_from(data: [T; N]) -> (buffer: Result<Self, MultitapError>)
        ensures
            N == 0 <==> buffer == Err::<Self, MultitapError>(MultitapError::InvalidCapacity),
            N > 0 <==> buffer is Ok,
            buffer is Ok ==> buffer->Ok_0@ == data@ && !buffer->Ok_0.writer_issued(),
    {
        Self::from_buffer(data)
    }
}

impl<T: Num, const N: usize> TryFromSpecImpl<[T; N]> for Multitap<T, N> {
    open spec fn obeys_try_from_spec() -> bool {
        true
    }

    open spec fn try_from_spec(data: [T; N]) -> Result<Self, MultitapError> {
        Self::holding(data)
    }
}

/// Mutable access to one element of an array.
fn element_mut<T, const N: usize>(data: &mut [T; N], index: usize) -> (element: &mut T)
    requires
        index < N,
    ensures
        *element == old(data)@[index as int],
        final(data)@ == old(data)@.update(index as int, *final(element)),
    no_unwind
{
    &mut data[index]
}

} // verus!
