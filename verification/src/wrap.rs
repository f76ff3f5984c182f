//! Cyclic index arithmetic shared by all cursors.
//!
//! Every position handed to storage is first reduced modulo the capacity, so
//! an index past the end aliases back into the buffer instead of failing.

use vstd::arithmetic::div_mod::{
    lemma_add_mod_noop, lemma_fundamental_div_mod, lemma_fundamental_div_mod_converse,
    lemma_mod_bound, lemma_mod_twice, lemma_small_mod,
};
use vstd::prelude::*;

verus! {

/// The slot that an absolute `position` falls on in a buffer of `capacity` slots.
pub open spec fn wrapped(position: nat, capacity: nat) -> nat {
    position % capacity
}

/// The slot that follows `position`.
pub open spec fn step(position: nat, capacity: nat) -> nat {
    wrapped(position + 1, capacity)
}

/// The slot `distance` places after `position`.
pub open spec fn offset(position: nat, distance: nat, capacity: nat) -> nat {
    wrapped(position + distance, capacity)
}

/// The slot at which a tap starts that trails slot 0 by `delay` places.
pub open spec fn tap_origin(delay: nat, capacity: nat) -> nat {
    wrapped((capacity - wrapped(delay, capacity)) as nat, capacity)
}

/// A wrapped position is a slot of the buffer.
pub proof fn lemma_wrapped_in_bounds(position: nat, capacity: nat)
    requires
        capacity > 0,
    ensures
        wrapped(position, capacity) < capacity,
{
    lemma_mod_bound(position as int, capacity as int);
}

/// A slot wraps to itself.
pub proof fn lemma_wrapped_slot(position: nat, capacity: nat)
    requires
        position < capacity,
    ensures
        wrapped(position, capacity) == position,
{
    lemma_small_mod(position, capacity);
}

/// Wrapping twice is wrapping once.
pub proof fn lemma_wrapped_twice(position: nat, capacity: nat)
    requires
        capacity > 0,
    ensures
        wrapped(wrapped(position, capacity), capacity) == wrapped(position, capacity),
{
    lemma_mod_twice(position as int, capacity as int);
}

/// Only the wrapped part of a distance matters.
pub proof fn lemma_offset_wraps_distance(position: nat, distance: nat, capacity: nat)
    requires
        capacity > 0,
    ensures
        offset(position, distance, capacity) == offset(
            position,
            wrapped(distance, capacity),
            capacity,
        ),
{
    let n = capacity as int;
    lemma_add_mod_noop(position as int, distance as int, n);
    lemma_add_mod_noop(position as int, (distance as int) % n, n);
    lemma_mod_twice(distance as int, n);
}

/// One step from the slot `count` places after `position` is the slot
/// `count + 1` places after it.
pub proof fn lemma_step_offset(position: nat, count: nat, capacity: nat)
    requires
        capacity > 0,
    ensures
        step(offset(position, count, capacity), capacity) == offset(position, count + 1, capacity),
{
    let n = capacity as int;
    let reached = (position + count) as int;
    lemma_add_mod_noop(reached, 1, n);
    lemma_add_mod_noop(reached % n, 1, n);
    lemma_mod_twice(reached, n);
}

/// Two places less than a full turn apart fall on different slots.
pub proof fn lemma_offset_distinct(position: nat, near: nat, far: nat, capacity: nat)
    requires
        near < far < near + capacity,
    ensures
        offset(position, near, capacity) != offset(position, far, capacity),
{
    let n = capacity as int;
    let a = (position + near) as int;
    let b = (position + far) as int;
    if a % n == b % n {
        lemma_fundamental_div_mod(a, n);
        lemma_fundamental_div_mod(b, n);
        let turns = b / n - a / n;
        assert(b - a == n * turns) by (nonlinear_arith)
            requires
                a == n * (a / n) + a % n,
                b == n * (b / n) + b % n,
                a % n == b % n,
                turns == b / n - a / n,
        ;
        assert(false) by (nonlinear_arith)
            requires
                0 < n * turns < n,
        ;
    }
}

/// The slot after `position`, which must be a slot itself.
pub(crate) fn advance(position: usize, capacity: usize) -> (next: usize)
    requires
        position < capacity,
    ensures
        next == step(position as nat, capacity as nat),
        next < capacity,
{
    proof {
        lemma_mod_bound(position + 1, capacity as int);
    }
    (position + 1) % capacity
}

/// The slot `distance` places after `position`, for any `distance`.
pub(crate) fn offset_by(position: usize, distance: usize, capacity: usize) -> (slot: usize)
    requires
        position < capacity,
    ensures
        slot == offset(position as nat, distance as nat, capacity as nat),
        slot < capacity,
{
    let reduced: usize = distance % capacity;
    let room: usize = capacity - position;
    proof {
        let n = capacity as int;
        lemma_mod_bound(distance as int, n);
        lemma_offset_wraps_distance(position as nat, distance as nat, capacity as nat);
        if reduced < room {
            lemma_small_mod((position + reduced) as nat, capacity as nat);
        } else {
            lemma_fundamental_div_mod_converse(position + reduced, n, 1, reduced - room);
        }
    }
    if reduced < room {
        position + reduced
    } else {
        reduced - room
    }
}

/// The slot at which a tap with the given `delay` starts.
pub(crate) fn origin(delay: usize, capacity: usize) -> (slot: usize)
    requires
        capacity > 0,
    ensures
        slot == tap_origin(delay as nat, capacity as nat),
        slot < capacity,
{
    proof {
        lemma_mod_bound(delay as int, capacity as int);
        lemma_mod_bound(capacity - delay % capacity, capacity as int);
    }
    (capacity - delay % capacity) % capacity
}

/// The slot that an absolute `position` falls on.
pub(crate) fn reduce(position: usize, capacity: usize) -> (slot: usize)
    requires
        capacity > 0,
    ensures
        slot == wrapped(position as nat, capacity as nat),
        slot < capacity,
{
    proof {
        lemma_mod_bound(position as int, capacity as int);
    }
    position % capacity
}

} // verus!
