//! The errors that the collections report.

use vstd::prelude::*;
use crate::layout::Layout;

verus! {

/// Why a reservation of memory failed.
#[derive(Clone, Copy, Debug, PartialEq, Eq, Structural)]
pub enum TryReserveError {
    /// A capacity or size computation left the representable or addressable
    /// range.
    CapacityOverflow,
    /// The allocator declined the request for a block of `layout`.
    AllocError { layout: Layout },
}

} // verus!
