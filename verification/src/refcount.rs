//! The counting protocol of shared blocks, as states and steps.
//!
//! A block counts its shared handles (`strong`) and its weak units (`weak`).
//! The shared handles hold one weak unit between them, so `weak` is the
//! number of weak handles, and one more while a shared handle lives. The
//! payload lives while `strong` is positive, the block while `weak` is. A
//! block is thus in one of three states: live, with a shared handle; kept for
//! weak handles only, without its payload; or released, and gone from the
//! heap.
//!
//! The steps are functions on the blocks of a heap. The operations on handles
//! are specified by them, and the laws at the end of this file relate them.
//!
//! Each step is made of operations on the two counters, and the order in
//! which they come and the memory order that each has are part of the
//! protocol: on them rests that a payload is written before it is read and
//! read before it is destroyed, where handles live on several threads. A
//! heap keeps a record of these operations, and the events of each step say
//! what it adds to the record.

use vstd::prelude::*;
use crate::atomic::Order;
use crate::layout::{round_up, Layout};

verus! {

/// A soft limit on the number of handles to one block. A count above it
/// stops the process, so no call is made on one.
pub const MAX_REFCOUNT: usize = usize::MAX / 2;

/// The value of the weak counter that stands for "locked": it is held while
/// a handle checks whether it is the only one, and is never a count.
pub const LOCKED: usize = usize::MAX;

/// The address of a weak handle that refers to no block.
pub const DANGLING: usize = usize::MAX;

/// The layout of the two counters that every block starts with.
pub open spec fn header_layout() -> Layout {
    Layout {
        size: (2 * vstd::layout::size_of::<usize>()) as usize,
        align: vstd::layout::align_of::<usize>() as usize,
    }
}

/// The offset of a payload of alignment `align` in its block.
pub open spec fn spec_data_offset(align: usize) -> int {
    round_up(header_layout().size as int, align as int)
}

/// The layout of a block whose payload has the layout `value`: the header,
/// the payload at its aligned offset, and padding up to the alignment of the
/// whole. `None` where that leaves the addressable range.
pub open spec fn spec_inner_layout(value: Layout) -> Option<Layout> {
    match header_layout().spec_extend(value) {
        Some((layout, _)) => Some(
            Layout {
                size: round_up(layout.size as int, layout.align as int) as usize,
                align: layout.align,
            },
        ),
        None => None,
    }
}

/// The state of a shared block.
pub struct ArcInner<T> {
    /// The number of shared handles.
    pub strong: usize,
    /// The number of weak handles, and one more while `strong` is positive;
    /// or `LOCKED`.
    pub weak: usize,
    /// The payload: `None` before it is written and after it is destroyed.
    pub data: Option<T>,
    /// The layout of the payload.
    pub value: Layout,
    /// The layout of the block.
    pub layout: Layout,
}

impl<T> ArcInner<T> {
    /// A block at rest: it lives, so it counts a weak unit; it is not
    /// locked; without a shared handle it has no payload; and its layout is
    /// the one that its payload's layout calls for.
    pub open spec fn wf(self) -> bool {
        &&& 1 <= self.weak < LOCKED
        &&& self.strong == 0 ==> self.data is None
        &&& self.value.valid()
        &&& spec_inner_layout(self.value) == Some(self.layout)
    }

    /// The block that holds `data` with the given counters, laid out for a
    /// payload of `value`.
    pub open spec fn spec_new(strong: usize, weak: usize, data: Option<T>, value: Layout) -> Self {
        ArcInner { strong, weak, data, value, layout: spec_inner_layout(value)->Some_0 }
    }
}

/// The block `inner` with its counters replaced.
pub open spec fn with_counts<T>(inner: ArcInner<T>, strong: int, weak: int) -> ArcInner<T> {
    ArcInner { strong: strong as usize, weak: weak as usize, ..inner }
}

/// The blocks after a shared handle to `p` was cloned.
pub open spec fn after_clone<T>(m: Map<usize, ArcInner<T>>, p: usize) -> Map<usize, ArcInner<T>> {
    m.insert(p, with_counts(m[p], m[p].strong + 1, m[p].weak as int))
}

/// The blocks after `n` shared handles to `p` were cloned, in whatever order
/// the clones took effect.
pub open spec fn after_clones<T>(m: Map<usize, ArcInner<T>>, p: usize, n: nat) -> Map<
    usize,
    ArcInner<T>,
>
    decreases n,
{
    if n == 0 {
        m
    } else {
        after_clone(after_clones(m, p, (n - 1) as nat), p)
    }
}

/// The blocks after a weak handle to `p` was made.
pub open spec fn after_downgrade<T>(m: Map<usize, ArcInner<T>>, p: usize) -> Map<
    usize,
    ArcInner<T>,
> {
    m.insert(p, with_counts(m[p], m[p].strong as int, m[p].weak + 1))
}

/// Giving up a weak unit of `p` releases the block: it is the last one.
pub open spec fn weak_drop_releases<T>(m: Map<usize, ArcInner<T>>, p: usize) -> bool {
    p != DANGLING && m[p].weak == 1
}

/// The blocks after a weak unit of `p` was given up.
pub open spec fn after_weak_drop<T>(m: Map<usize, ArcInner<T>>, p: usize) -> Map<
    usize,
    ArcInner<T>,
> {
    if p == DANGLING {
        m
    } else if m[p].weak == 1 {
        m.remove(p)
    } else {
        m.insert(p, with_counts(m[p], m[p].strong as int, m[p].weak - 1))
    }
}

/// Giving up a shared handle to `p` releases the block: it is the last
/// shared handle, and no weak handle is left.
pub open spec fn drop_releases<T>(m: Map<usize, ArcInner<T>>, p: usize) -> bool {
    m[p].strong == 1 && m[p].weak == 1
}

/// The block `inner` after its last shared handle destroyed the payload.
pub open spec fn emptied<T>(inner: ArcInner<T>) -> ArcInner<T> {
    ArcInner { strong: 0, data: None, ..inner }
}

/// The blocks after a shared handle to `p` was given up: the last one takes
/// the payload with it, and the weak unit that the shared handles held.
pub open spec fn after_drop<T>(m: Map<usize, ArcInner<T>>, p: usize) -> Map<usize, ArcInner<T>> {
    if m[p].strong != 1 {
        m.insert(p, with_counts(m[p], m[p].strong - 1, m[p].weak as int))
    } else {
        after_weak_drop(m.insert(p, emptied(m[p])), p)
    }
}

/// A weak handle to `p` can be upgraded: it has a block, and the block has a
/// shared handle.
pub open spec fn can_upgrade<T>(m: Map<usize, ArcInner<T>>, p: usize) -> bool {
    p != DANGLING && m.contains_key(p) && m[p].strong > 0
}

/// The blocks after a weak handle to `p` was asked for a shared one.
pub open spec fn after_upgrade<T>(m: Map<usize, ArcInner<T>>, p: usize) -> Map<usize, ArcInner<T>> {
    if can_upgrade(m, p) {
        after_clone(m, p)
    } else {
        m
    }
}

/// One of the two counters of a block.
#[derive(Clone, Copy, Debug, PartialEq, Eq, Structural)]
pub enum Counter {
    Strong,
    Weak,
}

/// An operation on a counter of the block at `addr`, or on the block itself.
#[derive(Clone, Copy, Debug, PartialEq, Eq, Structural)]
pub enum Event {
    /// The counter was read.
    Load { addr: usize, counter: Counter, order: Order },
    /// `value` was written to the counter.
    Store { addr: usize, counter: Counter, value: usize, order: Order },
    /// `value` was added to the counter.
    FetchAdd { addr: usize, counter: Counter, value: usize, order: Order },
    /// `value` was subtracted from the counter.
    FetchSub { addr: usize, counter: Counter, value: usize, order: Order },
    /// The counter was compared with `current`, to be replaced by `new`.
    CompareExchange {
        addr: usize,
        counter: Counter,
        current: usize,
        new: usize,
        success: Order,
        failure: Order,
    },
    /// A fence.
    Fence { order: Order },
    /// A payload was written to the block.
    PayloadWritten { addr: usize },
    /// The payload of the block was destroyed, or taken out of it.
    PayloadGone { addr: usize },
    /// The block was released.
    Released { addr: usize },
}

/// The events of a new block that holds `data`.
pub open spec fn creation_events<T>(p: usize, data: Option<T>) -> Seq<Event> {
    if data is Some {
        seq![Event::PayloadWritten { addr: p }]
    } else {
        Seq::<Event>::empty()
    }
}

/// The events of the clone of a shared handle: a relaxed increment. The new
/// handle is made from one that exists, so nothing has to come before it.
pub open spec fn clone_events(p: usize) -> Seq<Event> {
    seq![Event::FetchAdd { addr: p, counter: Counter::Strong, value: 1, order: Order::Relaxed }]
}

/// The events of the clone of a weak handle: a relaxed increment, and
/// nothing for a dangling handle.
pub open spec fn weak_clone_events(p: usize) -> Seq<Event> {
    if p == DANGLING {
        Seq::<Event>::empty()
    } else {
        seq![Event::FetchAdd { addr: p, counter: Counter::Weak, value: 1, order: Order::Relaxed }]
    }
}

/// The events of giving up a weak unit: a release decrement, and for the
/// last unit an acquire fence before the block is released.
pub open spec fn weak_drop_events<T>(m: Map<usize, ArcInner<T>>, p: usize) -> Seq<Event> {
    if p == DANGLING {
        Seq::<Event>::empty()
    } else if m[p].weak == 1 {
        seq![
            Event::FetchSub { addr: p, counter: Counter::Weak, value: 1, order: Order::Release },
            Event::Fence { order: Order::Acquire },
            Event::Released { addr: p },
        ]
    } else {
        seq![Event::FetchSub { addr: p, counter: Counter::Weak, value: 1, order: Order::Release }]
    }
}

/// The events of giving up a shared handle: a release decrement, and for the
/// last handle an acquire fence before the payload is destroyed, and then
/// the events of giving up the weak unit of the shared handles.
pub open spec fn drop_events<T>(m: Map<usize, ArcInner<T>>, p: usize) -> Seq<Event> {
    if m[p].strong != 1 {
        seq![Event::FetchSub { addr: p, counter: Counter::Strong, value: 1, order: Order::Release }]
    } else {
        seq![
            Event::FetchSub { addr: p, counter: Counter::Strong, value: 1, order: Order::Release },
            Event::Fence { order: Order::Acquire },
            Event::PayloadGone { addr: p },
        ] + weak_drop_events(m.insert(p, emptied(m[p])), p)
    }
}

/// The events of making a weak handle from a shared one: the weak counter
/// is read and then raised by a compare-and-swap that acquires on success.
pub open spec fn downgrade_events<T>(m: Map<usize, ArcInner<T>>, p: usize) -> Seq<Event> {
    seq![
        Event::Load { addr: p, counter: Counter::Weak, order: Order::Relaxed },
        Event::CompareExchange {
            addr: p,
            counter: Counter::Weak,
            current: m[p].weak,
            new: (m[p].weak + 1) as usize,
            success: Order::Acquire,
            failure: Order::Relaxed,
        },
    ]
}

/// The events of asking a weak handle for a shared one: the shared counter
/// is read and, unless it is zero, raised by a compare-and-swap that
/// acquires on success.
pub open spec fn upgrade_events<T>(m: Map<usize, ArcInner<T>>, p: usize) -> Seq<Event> {
    if p == DANGLING {
        Seq::<Event>::empty()
    } else if m[p].strong == 0 {
        seq![Event::Load { addr: p, counter: Counter::Strong, order: Order::Relaxed }]
    } else {
        seq![
            Event::Load { addr: p, counter: Counter::Strong, order: Order::Relaxed },
            Event::CompareExchange {
                addr: p,
                counter: Counter::Strong,
                current: m[p].strong,
                new: (m[p].strong + 1) as usize,
                success: Order::Acquire,
                failure: Order::Relaxed,
            },
        ]
    }
}

/// The events of the check for the only handle: the weak counter is locked
/// by a compare-and-swap from one that acquires on success; under the lock
/// the shared counter is read with acquire, and the lock is released by a
/// store of one with release.
pub open spec fn unique_check_events<T>(m: Map<usize, ArcInner<T>>, p: usize) -> Seq<Event> {
    let lock = Event::CompareExchange {
        addr: p,
        counter: Counter::Weak,
        current: 1,
        new: LOCKED,
        success: Order::Acquire,
        failure: Order::Relaxed,
    };
    if m[p].weak == 1 {
        seq![
            lock,
            Event::Load { addr: p, counter: Counter::Strong, order: Order::Acquire },
            Event::Store { addr: p, counter: Counter::Weak, value: 1, order: Order::Release },
        ]
    } else {
        seq![lock]
    }
}

/// The events of publishing the payload of a pointer under construction:
/// the payload is written, and then the first shared handle is counted with
/// release, so that whoever sees the count sees the payload.
pub open spec fn publish_events(p: usize) -> Seq<Event> {
    seq![
        Event::PayloadWritten { addr: p },
        Event::FetchAdd { addr: p, counter: Counter::Strong, value: 1, order: Order::Release },
    ]
}

/// The events of taking the payload out of the block of the only shared
/// handle: the shared counter is brought from one to zero by a
/// compare-and-swap; where that succeeds, an acquire fence comes before the
/// payload is taken, and then the events of giving up the weak unit of the
/// shared handles.
pub open spec fn unwrap_events<T>(m: Map<usize, ArcInner<T>>, p: usize) -> Seq<Event> {
    let claim = Event::CompareExchange {
        addr: p,
        counter: Counter::Strong,
        current: 1,
        new: 0,
        success: Order::Relaxed,
        failure: Order::Relaxed,
    };
    if m[p].strong == 1 {
        seq![claim, Event::Fence { order: Order::Acquire }, Event::PayloadGone { addr: p }]
            + weak_drop_events(m.insert(p, emptied(m[p])), p)
    } else {
        seq![claim]
    }
}

/// The events of making a handle at `p` the only one to its payload, where
/// `q` is the block that it ends with.
///
/// The shared counter is brought from one to zero by a compare-and-swap that
/// acquires on success. Where that fails, a clone of the payload is written
/// to `q` and the handle to `p` is given up. Where it succeeds, the weak
/// counter is read: beside weak handles the payload moves to `q` and the
/// weak unit of the shared handles is given up; without them the shared
/// counter is set back to one with release.
pub open spec fn make_mut_events<T>(m: Map<usize, ArcInner<T>>, p: usize, q: usize) -> Seq<Event> {
    let claim = Event::CompareExchange {
        addr: p,
        counter: Counter::Strong,
        current: 1,
        new: 0,
        success: Order::Acquire,
        failure: Order::Relaxed,
    };
    let look = Event::Load { addr: p, counter: Counter::Weak, order: Order::Relaxed };
    if m[p].strong != 1 {
        seq![
            claim,
            Event::PayloadWritten { addr: q },
            Event::FetchSub { addr: p, counter: Counter::Strong, value: 1, order: Order::Release },
        ]
    } else if m[p].weak != 1 {
        seq![
            claim,
            look,
            Event::PayloadGone { addr: p },
            Event::PayloadWritten { addr: q },
            Event::FetchSub { addr: p, counter: Counter::Weak, value: 1, order: Order::Release },
        ]
    } else {
        seq![
            claim,
            look,
            Event::Store { addr: p, counter: Counter::Strong, value: 1, order: Order::Release },
        ]
    }
}

/// A clone and a drop of a shared handle undo each other: the blocks are
/// what they were, and so is the count of shared handles.
pub proof fn lemma_clone_then_drop<T>(m: Map<usize, ArcInner<T>>, p: usize)
    requires
        m.contains_key(p),
        1 <= m[p].strong < usize::MAX,
    ensures
        !drop_releases(after_clone(m, p), p),
        after_drop(after_clone(m, p), p) == m,
        after_drop(after_clone(m, p), p)[p].strong == m[p].strong,
{
    assert(after_drop(after_clone(m, p), p) =~= m);
}

/// Clones without drops add up: after `n` of them the block counts `n` more
/// shared handles, and nothing else has changed. Each clone is one
/// indivisible increment, so clones that run at once count as clones that
/// run in some order.
pub proof fn lemma_clones_add_up<T>(m: Map<usize, ArcInner<T>>, p: usize, n: nat)
    requires
        m.contains_key(p),
        m[p].strong + n <= usize::MAX,
    ensures
        after_clones(m, p, n) == m.insert(
            p,
            with_counts(m[p], m[p].strong + n, m[p].weak as int),
        ),
        after_clones(m, p, n)[p].strong == m[p].strong + n,
    decreases n,
{
    if n > 0 {
        lemma_clones_add_up(m, p, (n - 1) as nat);
    }
    assert(after_clones(m, p, n) =~= m.insert(
        p,
        with_counts(m[p], m[p].strong + n, m[p].weak as int),
    ));
}

/// Once the last shared handle is given up, no weak handle can be
/// upgraded: the block is gone, or it has no shared handle and no payload.
pub proof fn lemma_no_upgrade_after_last_drop<T>(m: Map<usize, ArcInner<T>>, p: usize)
    requires
        m.contains_key(p),
        m[p].strong == 1,
    ensures
        !can_upgrade(after_drop(m, p), p),
        after_upgrade(after_drop(m, p), p) == after_drop(m, p),
        after_drop(m, p).contains_key(p) ==> after_drop(m, p)[p].data is None,
{
}

/// While a shared handle lives, an upgrade yields one more to the same
/// block, and the payload is the one that the others have.
pub proof fn lemma_upgrade_keeps_payload<T>(m: Map<usize, ArcInner<T>>, p: usize)
    requires
        can_upgrade(m, p),
        m[p].strong < usize::MAX,
    ensures
        after_upgrade(m, p)[p].data == m[p].data,
        after_upgrade(m, p)[p].strong == m[p].strong + 1,
        after_upgrade(m, p)[p].weak == m[p].weak,
{
}

/// A block is released exactly when its last weak unit is given up.
pub proof fn lemma_released_with_last_weak_unit<T>(m: Map<usize, ArcInner<T>>, p: usize)
    requires
        m.contains_key(p),
        p != DANGLING,
        m[p].weak >= 1,
    ensures
        after_weak_drop(m, p).contains_key(p) <==> m[p].weak > 1,
        weak_drop_releases(m, p) <==> !after_weak_drop(m, p).contains_key(p),
        after_drop(m, p).contains_key(p) <==> !drop_releases(m, p),
{
}

/// With one shared and one weak handle, the drop of the shared handle
/// keeps the block for the weak one, and the drop of the weak handle then
/// releases it: the blocks are what they were without this one.
pub proof fn lemma_last_weak_drop_releases<T>(m: Map<usize, ArcInner<T>>, p: usize)
    requires
        m.contains_key(p),
        p != DANGLING,
        m[p].strong == 1,
        m[p].weak == 2,
    ensures
        !drop_releases(m, p),
        after_drop(m, p).contains_key(p),
        after_drop(m, p)[p].strong == 0,
        after_drop(m, p)[p].weak == 1,
        weak_drop_releases(after_drop(m, p), p),
        after_weak_drop(after_drop(m, p), p) == m.remove(p),
{
    assert(after_weak_drop(after_drop(m, p), p) =~= m.remove(p));
}

/// The steps keep blocks at rest: a count that is in order for the step
/// stays in order after it.
pub proof fn lemma_steps_keep_blocks_at_rest<T>(m: Map<usize, ArcInner<T>>, p: usize)
    requires
        m.contains_key(p),
        m[p].wf(),
    ensures
        m[p].strong < usize::MAX ==> after_clone(m, p)[p].wf(),
        m[p].weak < LOCKED - 1 ==> after_downgrade(m, p)[p].wf(),
        m[p].strong >= 1 && after_drop(m, p).contains_key(p) ==> after_drop(m, p)[p].wf(),
        after_weak_drop(m, p).contains_key(p) ==> after_weak_drop(m, p)[p].wf(),
{
}

} // verus!
