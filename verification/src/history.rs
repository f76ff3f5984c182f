//! What a buffer holds after a run of pushes, and what taps yield from it.
//!
//! The cursor operations are stated one call at a time. This module follows
//! them over whole runs: a write head that pushes a sequence of samples, and
//! read heads that pull in step with it or in turn with each other.

use crate::wrap::{
    lemma_offset_distinct, lemma_step_offset, lemma_wrapped_in_bounds, lemma_wrapped_slot, offset,
    step, tap_origin,
};
use vstd::arithmetic::div_mod::{
    lemma_add_mod_noop, lemma_mod_add_multiples_vanish, lemma_mod_twice,
};
use vstd::prelude::*;

verus! {

/// The samples of a buffer that held `contents` after a write head standing
/// on slot `position` has pushed `values`, first to last: the push number `k`
/// overwrites the slot `k` places after `position`.
pub open spec fn pushed<T>(contents: Seq<T>, position: nat, values: Seq<T>) -> Seq<T>
    decreases values.len(),
{
    if values.len() == 0 {
        contents
    } else {
        pushed(contents, position, values.drop_last()).update(
            offset(position, (values.len() - 1) as nat, contents.len()) as int,
            values.last(),
        )
    }
}

/// What a read head standing on slot `position` yields on `count` pulls from
/// a buffer that holds `contents` throughout.
pub open spec fn pulled<T>(contents: Seq<T>, position: nat, count: nat) -> Seq<T> {
    Seq::new(count, |k: int| contents[offset(position, k as nat, contents.len()) as int])
}

/// Two read heads on one buffer: where each stands and what each has yielded.
pub struct TapPair<T> {
    pub left: nat,
    pub left_yield: Seq<T>,
    pub right: nat,
    pub right_yield: Seq<T>,
}

/// How many entries of `turns` are `side`.
pub open spec fn turns_of(turns: Seq<bool>, side: bool) -> nat
    decreases turns.len(),
{
    if turns.len() == 0 {
        0
    } else {
        turns_of(turns.drop_last(), side) + if turns.last() == side {
            1nat
        } else {
            0nat
        }
    }
}

/// Two read heads that start on slots `left` and `right` of a buffer holding
/// `contents`, after they have pulled in the order that `turns` gives: at each
/// turn the left head pulls where the entry is `true`, the right head where
/// it is `false`.
pub open spec fn taken_in_turns<T>(
    contents: Seq<T>,
    left: nat,
    right: nat,
    turns: Seq<bool>,
) -> TapPair<T>
    decreases turns.len(),
{
    if turns.len() == 0 {
        TapPair { left, left_yield: Seq::empty(), right, right_yield: Seq::empty() }
    } else {
        let before = taken_in_turns(contents, left, right, turns.drop_last());
        if turns.last() {
            TapPair {
                left: step(before.left, contents.len()),
                left_yield: before.left_yield.push(contents[before.left as int]),
                ..before
            }
        } else {
            TapPair {
                right: step(before.right, contents.len()),
                right_yield: before.right_yield.push(contents[before.right as int]),
                ..before
            }
        }
    }
}

/// Pushing changes samples, never their number.
pub proof fn lemma_pushed_len<T>(contents: Seq<T>, position: nat, values: Seq<T>)
    requires
        contents.len() > 0,
    ensures
        pushed(contents, position, values).len() == contents.len(),
    decreases values.len(),
{
    if values.len() > 0 {
        lemma_pushed_len(contents, position, values.drop_last());
        lemma_wrapped_in_bounds((position + values.len() - 1) as nat, contents.len());
    }
}

/// One more push overwrites the slot that the write head has reached:
/// the one `values.len()` places after where it started.
pub proof fn lemma_pushed_one_more<T>(contents: Seq<T>, position: nat, values: Seq<T>, value: T)
    ensures
        pushed(contents, position, values.push(value)) == pushed(contents, position, values).update(
            offset(position, values.len(), contents.len()) as int,
            value,
        ),
{
    assert(values.push(value).drop_last() =~= values);
}

/// A slot that no push of the run falls on keeps its sample.
pub proof fn lemma_pushed_elsewhere<T>(
    contents: Seq<T>,
    position: nat,
    values: Seq<T>,
    slot: nat,
)
    requires
        slot < contents.len(),
        forall|k: nat| k < values.len() ==> offset(position, k, contents.len()) != slot,
    ensures
        pushed(contents, position, values)[slot as int] == contents[slot as int],
    decreases values.len(),
{
    if values.len() > 0 {
        let last = (values.len() - 1) as nat;
        assert(offset(position, last, contents.len()) != slot);
        lemma_pushed_len(contents, position, values.drop_last());
        lemma_pushed_elsewhere(contents, position, values.drop_last(), slot);
    }
}

/// The sample of push number `k` is still in its slot as long as fewer than
/// a full turn of pushes have followed it.
pub proof fn lemma_pushed_recent<T>(contents: Seq<T>, position: nat, values: Seq<T>, k: nat)
    requires
        contents.len() > 0,
        k < values.len() <= k + contents.len(),
    ensures
        pushed(contents, position, values)[offset(position, k, contents.len()) as int]
            == values[k as int],
    decreases values.len(),
{
    let n = contents.len();
    let last = (values.len() - 1) as nat;
    lemma_pushed_len(contents, position, values.drop_last());
    lemma_wrapped_in_bounds(position + k, n);
    lemma_wrapped_in_bounds(position + last, n);
    if k < last {
        lemma_offset_distinct(position, k, last, n);
        lemma_pushed_recent(contents, position, values.drop_last(), k);
    }
}

/// A tap is the writer, delayed.
///
/// A write head starts on slot 0 of a buffer holding `contents` and pushes
/// `values`, one sample per tick. A read head made with `delay`, less than the
/// capacity, pulls once per tick, after the push of that tick. From pull
/// number `delay` on (counting from 0) it yields the pushed samples in order,
/// each `delay` ticks after its push: pull number `pull` yields
/// `values[pull - delay]`. The pulls before that yield what the buffer held
/// at first.
pub proof fn lemma_tap_delays_writer<T>(contents: Seq<T>, values: Seq<T>, delay: nat, pull: nat)
    requires
        delay < contents.len(),
        pull < values.len(),
    ensures
        ({
            let capacity = contents.len();
            let seen = pushed(contents, 0, values.take(pull as int + 1));
            let slot = offset(tap_origin(delay, capacity), pull, capacity);
            &&& slot < capacity
            &&& pull >= delay ==> seen[slot as int] == values[pull - delay]
            &&& pull < delay ==> seen[slot as int] == contents[slot as int]
        }),
{
    let capacity = contents.len();
    let n = capacity as int;
    let written = values.take(pull as int + 1);
    let start = tap_origin(delay, capacity);
    let slot = offset(start, pull, capacity);
    lemma_wrapped_slot(delay, capacity);
    lemma_wrapped_in_bounds((capacity - delay) as nat, capacity);
    lemma_wrapped_in_bounds(start + pull, capacity);
    // slot is (capacity - delay + pull) % capacity
    lemma_add_mod_noop(n - delay, pull as int, n);
    lemma_add_mod_noop((n - delay) % n, pull as int, n);
    lemma_mod_twice(n - delay, n);
    assert(slot == (n - delay + pull) % n);
    if pull >= delay {
        let k = (pull - delay) as nat;
        lemma_mod_add_multiples_vanish(k as int, n);
        assert(slot == offset(0, k, capacity));
        lemma_pushed_recent(contents, 0, written, k);
    } else {
        lemma_wrapped_slot((capacity - delay + pull) as nat, capacity);
        assert forall|k: nat| k < written.len() implies offset(0, k, capacity) != slot by {
            lemma_wrapped_slot(k, capacity);
        }
        lemma_pushed_elsewhere(contents, 0, written, slot);
    }
}

/// Read heads do not disturb each other.
///
/// However the pulls of two read heads on one buffer are ordered, each head
/// ends where it would stand, and has yielded what it would have yielded, had
/// it made its pulls alone.
pub proof fn lemma_taps_are_independent<T>(
    contents: Seq<T>,
    left: nat,
    right: nat,
    turns: Seq<bool>,
)
    requires
        left < contents.len(),
        right < contents.len(),
    ensures
        ({
            let capacity = contents.len();
            let both = taken_in_turns(contents, left, right, turns);
            let left_pulls = turns_of(turns, true);
            let right_pulls = turns_of(turns, false);
            &&& both.left == offset(left, left_pulls, capacity)
            &&& both.left_yield == pulled(contents, left, left_pulls)
            &&& both.right == offset(right, right_pulls, capacity)
            &&& both.right_yield == pulled(contents, right, right_pulls)
        }),
    decreases turns.len(),
{
    let capacity = contents.len();
    let both = taken_in_turns(contents, left, right, turns);
    let left_pulls = turns_of(turns, true);
    let right_pulls = turns_of(turns, false);
    if turns.len() == 0 {
        lemma_wrapped_slot(left, capacity);
        lemma_wrapped_slot(right, capacity);
        assert(both.left_yield =~= pulled(contents, left, left_pulls));
        assert(both.right_yield =~= pulled(contents, right, right_pulls));
    } else {
        let earlier = turns.drop_last();
        lemma_taps_are_independent(contents, left, right, earlier);
        if turns.last() {
            lemma_step_offset(left, turns_of(earlier, true), capacity);
            assert(both.left_yield =~= pulled(contents, left, left_pulls));
        } else {
            lemma_step_offset(right, turns_of(earlier, false), capacity);
            assert(both.right_yield =~= pulled(contents, right, right_pulls));
        }
    }
}

} // verus!
