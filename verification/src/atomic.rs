//! Counter cells with the operations of an atomic integer.
//!
//! A cell is a plain `usize` that is owned by whoever changes it, so every
//! operation takes effect at once and a compare-and-swap fails only where the
//! cell does not hold the expected value. Each operation still names the
//! memory order that it is to have on a cell that is shared between threads,
//! and rejects the orders that such a cell rejects.

use vstd::prelude::*;

verus! {

/// The memory order of an operation on a counter cell.
#[derive(Clone, Copy, Debug, PartialEq, Eq, Structural)]
pub enum Order {
    Relaxed,
    Release,
    Acquire,
    AcqRel,
    SeqCst,
}

impl Order {
    /// A load can have this order: it has nothing to release.
    pub open spec fn for_load(self) -> bool {
        self != Order::Release && self != Order::AcqRel
    }

    /// A store can have this order: it has nothing to acquire.
    pub open spec fn for_store(self) -> bool {
        self != Order::Acquire && self != Order::AcqRel
    }

    /// A fence can have this order: a relaxed fence orders nothing.
    pub open spec fn for_fence(self) -> bool {
        self != Order::Relaxed
    }
}

/// The sum of `a` and `b`, wrapped around at the end of `usize`.
pub open spec fn wrapping_sum(a: usize, b: usize) -> usize {
    if a + b > usize::MAX {
        (a + b - usize::MAX - 1) as usize
    } else {
        (a + b) as usize
    }
}

/// The difference of `a` and `b`, wrapped around at zero.
pub open spec fn wrapping_difference(a: usize, b: usize) -> usize {
    if a < b {
        (a - b + usize::MAX + 1) as usize
    } else {
        (a - b) as usize
    }
}

/// Reads the cell.
#[allow(unused_variables)]
pub fn load(cell: &usize, order: Order) -> (value: usize)
    requires
        order.for_load(),
    ensures
        value == *cell,
{
    *cell
}

/// Writes `value` to the cell.
#[allow(unused_variables)]
pub fn store(cell: &mut usize, value: usize, order: Order)
    requires
        order.for_store(),
    ensures
        *final(cell) == value,
{
    *cell = value;
}

/// Adds `value` to the cell, wrapping around, and returns what the cell held.
#[allow(unused_variables)]
pub fn fetch_add(cell: &mut usize, value: usize, order: Order) -> (previous: usize)
    ensures
        previous == *old(cell),
        *final(cell) == wrapping_sum(*old(cell), value),
{
    let previous = *cell;
    *cell = previous.wrapping_add(value);
    previous
}

/// Subtracts `value` from the cell, wrapping around, and returns what the
/// cell held.
#[allow(unused_variables)]
pub fn fetch_sub(cell: &mut usize, value: usize, order: Order) -> (previous: usize)
    ensures
        previous == *old(cell),
        *final(cell) == wrapping_difference(*old(cell), value),
{
    let previous = *cell;
    *cell = previous.wrapping_sub(value);
    previous
}

/// Writes `new` to the cell if it holds `current`, and returns what the cell
/// held: as `Ok` where it was replaced, as `Err` where it was not.
#[allow(unused_variables)]
pub fn compare_exchange(
    cell: &mut usize,
    current: usize,
    new: usize,
    success: Order,
    failure: Order,
) -> (r: Result<usize, usize>)
    requires
        failure.for_load(),
    ensures
        r == if *old(cell) == current {
            Ok::<usize, usize>(current)
        } else {
            Err::<usize, usize>(*old(cell))
        },
        *final(cell) == if *old(cell) == current {
            new
        } else {
            *old(cell)
        },
{
    let previous = *cell;
    if previous == current {
        *cell = new;
        Ok(previous)
    } else {
        Err(previous)
    }
}

/// Orders the operations before it against those after it. On cells that one
/// owner changes there is nothing to order.
#[allow(unused_variables)]
pub fn fence(order: Order)
    requires
        order.for_fence(),
{
}

} // verus!
