//! A reference-counted shared pointer and its non-owning weak counterpart.
//!
//! The blocks that the pointers share live in a `Heap`, which owns the
//! allocator that issues them and takes them back. A handle is the address of
//! its block, and is worth what its heap says of that address; every
//! operation that reads or changes a block takes the heap. The counters of a
//! block are changed by the operations of an atomic integer, in the order and
//! with the memory orders that handles on several threads would need. The
//! heap itself has one owner at a time, so the operations take effect one
//! after another.

use vstd::prelude::*;
use vstd::layout::align_of;
use core::marker::PhantomData;
use std::collections::HashMap;
use std::collections::hash_map::Entry;
use crate::allocator::{issued, issued_region, AllocError, Allocator, Block};
use crate::arena::Arena;
use crate::atomic::{
    compare_exchange, fence, fetch_add, fetch_sub, load, store, wrapping_difference, wrapping_sum,
    Order,
};
use crate::collections::TryReserveError;
use crate::layout::{lemma_round_up, Layout, LayoutErr};
use crate::refcount::{
    after_clone, after_downgrade, after_drop, after_upgrade, after_weak_drop, can_upgrade,
    clone_events, creation_events, downgrade_events, drop_events, drop_releases, emptied,
    header_layout, make_mut_events, publish_events, spec_data_offset, spec_inner_layout,
    unique_check_events, unwrap_events, upgrade_events, weak_clone_events, weak_drop_events,
    weak_drop_releases, with_counts, ArcInner, Counter, Event, DANGLING, LOCKED, MAX_REFCOUNT,
};

pub mod construct;

verus! {

/// The layout of the two counters that every block starts with.
pub fn header() -> (r: Layout)
    ensures
        r == header_layout(),
        r.valid(),
        0 < r.size <= 16,
        r.size % r.align == 0,
{
    broadcast use vstd::layout::layout_of_primitives;

    let word = Layout::new::<usize>();
    let r = Layout { size: 2 * word.size, align: word.align };
    proof {
        assert((2 * word.size) as int % word.align as int == 0) by {
            vstd::arithmetic::div_mod::lemma_mul_mod_noop_right(
                2,
                word.size as int,
                word.align as int,
            );
            assert(2 * 0 == 0);
            vstd::arithmetic::div_mod::lemma_small_mod(0, word.align as nat);
        }
        lemma_round_up(r.size as int, r.align as int);
    }
    r
}

/// The offset of a payload of alignment `align` in its block.
pub fn data_offset_align(align: usize) -> (offset: usize)
    requires
        align > 0,
    ensures
        offset == spec_data_offset(align),
        offset % align == 0,
        header_layout().size <= offset,
{
    let layout = header();
    proof {
        lemma_round_up(layout.size as int, align as int);
        if align > layout.size {
            vstd::arithmetic::div_mod::lemma_small_mod(layout.size as nat, align as nat);
            vstd::arithmetic::div_mod::lemma_small_mod((align - layout.size) as nat, align as nat);
        }
    }
    layout.size + layout.padding_needed_for(align)
}

/// The layout of a block whose payload has the layout `value`.
pub fn inner_layout(value: Layout) -> (r: Result<Layout, LayoutErr>)
    requires
        value.valid(),
    ensures
        r is Ok <==> spec_inner_layout(value) is Some,
        r is Ok ==> Some(r->Ok_0) == spec_inner_layout(value) && r->Ok_0.valid() && r->Ok_0.size
            > 0 && r->Ok_0.size >= spec_data_offset(value.align) + value.size,
{
    match header().extend(value) {
        Ok((layout, _)) => {
            proof {
                layout.lemma_valid();
                value.lemma_valid();
                lemma_round_up(layout.size as int, layout.align as int);
                lemma_round_up(header_layout().size as int, value.align as int);
            }
            Ok(layout.pad_to_align())
        },
        Err(e) => Err(e),
    }
}

/// Whether `ptr` is the address of a weak handle without a block.
pub fn is_dangling(ptr: usize) -> (b: bool)
    ensures
        b == (ptr == DANGLING),
{
    ptr == DANGLING
}

/// The blocks that shared and weak handles refer to, the allocator that
/// issues them, and the record of what was done to their counters.
pub struct Heap<T, A: Allocator = Arena> {
    alloc: A,
    blocks: HashMap<usize, ArcInner<T>>,
    trace: Ghost<Seq<Event>>,
}

impl<T, A: Allocator> View for Heap<T, A> {
    type V = Map<usize, ArcInner<T>>;

    closed spec fn view(&self) -> Map<usize, ArcInner<T>> {
        self.blocks@
    }
}

impl<T, A: Allocator> Heap<T, A> {
    /// The allocator that the heap owns.
    pub closed spec fn allocator(&self) -> A {
        self.alloc
    }

    /// The operations on the counters and payloads of the heap's blocks, in
    /// the order in which they were made. Reads that a handle makes to
    /// report a count are not among them.
    pub closed spec fn trace(&self) -> Seq<Event> {
        self.trace@
    }

    /// `self` has the record of `old`, and `events` after it.
    pub open spec fn recorded(&self, old: Self, events: Seq<Event>) -> bool {
        self.trace() == old.trace() + events
    }

    /// Every block is at rest and is issued by the allocator with the layout
    /// that the heap records.
    pub open spec fn wf(&self) -> bool {
        &&& self.allocator().inv()
        &&& forall|p: usize| #[trigger]
            self@.contains_key(p) ==> self@[p].wf() && issued(
                self.allocator().live(),
                Block { addr: p, layout: self@[p].layout },
            )
    }

    /// A shared handle to `p` is in order: the block counts it.
    pub open spec fn holds_strong(&self, p: usize) -> bool {
        self@.contains_key(p) && self@[p].strong >= 1
    }

    /// A weak handle to `p` is in order: it is dangling, or the block counts
    /// it beside the unit of the shared handles.
    pub open spec fn holds_weak(&self, p: usize) -> bool {
        p == DANGLING || (self@.contains_key(p) && (self@[p].strong > 0 ==> self@[p].weak >= 2))
    }

    /// `self` is `old` with a new block at `p` that holds `inner`; the
    /// allocator issued it, filled with zero bytes if `zeroed`.
    pub open spec fn block_added(&self, old: Self, p: usize, inner: ArcInner<T>, zeroed: bool)
        -> bool {
        &&& p != DANGLING
        &&& spec_inner_layout(inner.value) == Some(inner.layout)
        &&& !old@.contains_key(p)
        &&& !old.allocator().live().contains_key(p)
        &&& self@ == old@.insert(p, inner)
        &&& self.allocator().live() == old.allocator().live().insert(
            p,
            issued_region(inner.layout, zeroed),
        )
        &&& self.recorded(old, creation_events(p, inner.data))
    }

    /// `self` is `old`, which could not be given a block of `layout`: the
    /// layout does not exist, and `e` says that the size is out of range, or
    /// the allocator declined, and `e` names the layout.
    pub open spec fn declined(&self, old: Self, layout: Option<Layout>, e: TryReserveError)
        -> bool {
        &&& *self == old
        &&& match e {
            TryReserveError::CapacityOverflow => layout is None,
            TryReserveError::AllocError { layout: asked } => {
                &&& layout == Some(asked)
                &&& !old.allocator().can_allocate(asked)
            },
        }
    }

    /// `self` is `old` after a step that changed the blocks to `m` and made
    /// `events`; the block at `p` was released if `released`, and the
    /// allocator is untouched if not.
    pub open spec fn stepped(
        &self,
        old: Self,
        m: Map<usize, ArcInner<T>>,
        events: Seq<Event>,
        p: usize,
        released: bool,
    ) -> bool {
        &&& self@ == m
        &&& self.recorded(old, events)
        &&& if released {
            &&& self.allocator().inv()
            &&& self.allocator().live() == old.allocator().live().remove(p)
        } else {
            self.allocator() == old.allocator()
        }
    }

    /// `self` is `old` but for the payload of the block at `p`, which is
    /// now `data`.
    pub open spec fn payload_set(&self, old: Self, p: usize, data: T) -> bool {
        &&& self@ == old@.insert(p, ArcInner { data: Some(data), ..old@[p] })
        &&& self.allocator() == old.allocator()
        &&& self.trace() == old.trace()
    }

    /// The block at `p` awaits the payload of a pointer that is under
    /// construction: it is laid out for a `T` and has no shared handle, so
    /// that a weak handle to it cannot be upgraded yet.
    pub open spec fn awaits(&self, p: usize) -> bool {
        &&& self@.contains_key(p)
        &&& self@[p].strong == 0
        &&& self@[p].value == Layout::spec_new::<T>()
    }

    /// `self` is `old` after the payload `data` was written to the block at
    /// `p` and published: the block has its first shared handle.
    pub open spec fn published(&self, old: Self, p: usize, data: T) -> bool {
        &&& self@ == old@.insert(p, ArcInner { strong: 1, data: Some(data), ..old@[p] })
        &&& self.allocator() == old.allocator()
        &&& self.recorded(old, publish_events(p))
    }

    /// A heap without blocks over the allocator `alloc`.
    pub fn new(alloc: A) -> (heap: Self)
        requires
            alloc.inv(),
        ensures
            heap.wf(),
            heap@ == Map::<usize, ArcInner<T>>::empty(),
            heap.allocator() == alloc,
            heap.trace() == Seq::<Event>::empty(),
    {
        Heap { alloc, blocks: HashMap::new(), trace: Ghost(Seq::empty()) }
    }

    /// The heap's allocator.
    pub fn alloc_ref(&self) -> (a: &A)
        ensures
            *a == self.allocator(),
    {
        &self.alloc
    }

    /// Gives the heap up and hands back its allocator. Blocks that are left
    /// stay issued.
    pub fn into_alloc(self) -> (a: A)
        ensures
            a == self.allocator(),
    {
        self.alloc
    }

    /// Whether a block lies at `p`.
    pub fn contains(&self, p: usize) -> (b: bool)
        ensures
            b == self@.contains_key(p),
    {
        self.blocks.contains_key(&p)
    }

    /// The state of the block at `p`, if one lies there.
    pub fn get(&self, p: usize) -> (inner: Option<&ArcInner<T>>)
        ensures
            inner is Some <==> self@.contains_key(p),
            inner is Some ==> *inner->Some_0 == self@[p],
    {
        self.blocks.get(&p)
    }

    /// The number of blocks.
    pub fn len(&self) -> (n: usize)
        ensures
            n == self@.len(),
    {
        self.blocks.len()
    }

    /// Records `inner` as the state of the block that the allocator issued
    /// for it, or reports that the allocator declined.
    ///
    /// The heap stays well formed where `inner` is at rest and the block was
    /// issued by the heap's allocator for the layout of `inner`.
    pub fn install(&mut self, inner: ArcInner<T>, issued: Result<Block, AllocError>) -> (r: Result<
        usize,
        TryReserveError,
    >)
        ensures
            final(self).allocator() == old(self).allocator(),
            match issued {
                Ok(block) => {
                    &&& r == Ok::<usize, TryReserveError>(block.addr)
                    &&& final(self)@ == old(self)@.insert(block.addr, inner)
                    &&& final(self).recorded(*old(self), creation_events(block.addr, inner.data))
                },
                Err(_) => {
                    &&& r == Err::<usize, _>(TryReserveError::AllocError { layout: inner.layout })
                    &&& *final(self) == *old(self)
                },
            },
    {
        match issued {
            Ok(block) => {
                if inner.data.is_some() {
                    self.note(Ghost(Event::PayloadWritten { addr: block.addr }));
                } else {
                    assert(self.trace@ =~= self.trace@ + Seq::<Event>::empty());
                }
                self.blocks.insert(block.addr, inner);
                Ok(block.addr)
            },
            Err(_) => Err(TryReserveError::AllocError { layout: inner.layout }),
        }
    }

    /// Asks the allocator for a block of the layout of `inner` and records
    /// `inner` as its state.
    fn issue(&mut self, inner: ArcInner<T>, zeroed: bool) -> (r: Result<usize, TryReserveError>)
        requires
            old(self).wf(),
            inner.wf(),
            inner.layout.valid(),
            inner.layout.size > 0,
        ensures
            final(self).wf(),
            match r {
                Ok(p) => final(self).block_added(*old(self), p, inner, zeroed),
                Err(e) => final(self).declined(*old(self), Some(inner.layout), e),
            },
    {
        let result = if zeroed {
            self.alloc.allocate_zeroed(inner.layout)
        } else {
            self.alloc.allocate(inner.layout)
        };
        proof {
            self.alloc.lemma_inv_well_placed();
            if result is Ok {
                assert(self.alloc.live().contains_key(result->Ok_0.addr));
            }
        }
        self.install(inner, result)
    }

    fn peek(&self, p: usize) -> (inner: &ArcInner<T>)
        requires
            self@.contains_key(p),
        ensures
            *inner == self@[p],
    {
        match self.blocks.get(&p) {
            Some(inner) => inner,
            None => vstd::pervasive::unreached(),
        }
    }

    fn take(&mut self, p: usize) -> (inner: ArcInner<T>)
        requires
            old(self)@.contains_key(p),
        ensures
            inner == old(self)@[p],
            final(self)@ == old(self)@.remove(p),
            final(self).allocator() == old(self).allocator(),
            final(self).trace() == old(self).trace(),
    {
        match self.blocks.remove(&p) {
            Some(inner) => inner,
            None => vstd::pervasive::unreached(),
        }
    }

    fn put(&mut self, p: usize, inner: ArcInner<T>)
        ensures
            final(self)@ == old(self)@.insert(p, inner),
            final(self).allocator() == old(self).allocator(),
            final(self).trace() == old(self).trace(),
    {
        self.blocks.insert(p, inner);
    }

    /// Adds `event` to the record.
    fn note(&mut self, event: Ghost<Event>)
        ensures
            final(self)@ == old(self)@,
            final(self).allocator() == old(self).allocator(),
            final(self).trace() == old(self).trace().push(event@),
    {
        self.trace = Ghost(self.trace@.push(event@));
    }

    fn payload_mut(&mut self, p: usize) -> (r: &mut T)
        requires
            old(self)@.contains_key(p),
            old(self)@[p].data is Some,
        ensures
            *r == old(self)@[p].data->Some_0,
            final(self).payload_set(*old(self), p, *final(r)),
    {
        match self.blocks.entry(p) {
            Entry::Occupied(entry) => {
                let inner = entry.into_mut();
                match &mut inner.data {
                    Some(data) => data,
                    None => vstd::pervasive::unreached(),
                }
            },
            Entry::Vacant(_) => vstd::pervasive::unreached(),
        }
    }
}

impl<T> ArcInner<T> {
    /// A new block in `heap` that holds `data` and starts with the given
    /// counters. Where no block is to be had, the payload is given up.
    pub fn try_new_in<A: Allocator>(
        strong: usize,
        weak: usize,
        data: Option<T>,
        heap: &mut Heap<T, A>,
    ) -> (r: Result<usize, TryReserveError>)
        requires
            old(heap).wf(),
            1 <= weak < LOCKED,
            strong == 0 ==> data is None,
        ensures
            final(heap).wf(),
            match r {
                Ok(p) => final(heap).block_added(
                    *old(heap),
                    p,
                    ArcInner::spec_new(strong, weak, data, Layout::spec_new::<T>()),
                    false,
                ),
                Err(e) => final(heap).declined(
                    *old(heap),
                    spec_inner_layout(Layout::spec_new::<T>()),
                    e,
                ),
            },
    {
        let value = Layout::new::<T>();
        let layout = match inner_layout(value) {
            Ok(layout) => layout,
            Err(_) => {
                return Err(TryReserveError::CapacityOverflow);
            },
        };
        heap.issue(ArcInner { strong, weak, data, value, layout }, false)
    }

    /// Like `try_new_in`, for a block that is to be had: its layout exists
    /// and the allocator is bound to issue it.
    pub fn new_in<A: Allocator>(
        strong: usize,
        weak: usize,
        data: Option<T>,
        heap: &mut Heap<T, A>,
    ) -> (p: usize)
        requires
            old(heap).wf(),
            spec_inner_layout(Layout::spec_new::<T>()) is Some,
            old(heap).allocator().can_allocate(spec_inner_layout(Layout::spec_new::<T>())->Some_0),
            1 <= weak < LOCKED,
            strong == 0 ==> data is None,
        ensures
            final(heap).wf(),
            final(heap).block_added(
                *old(heap),
                p,
                ArcInner::spec_new(strong, weak, data, Layout::spec_new::<T>()),
                false,
            ),
    {
        match Self::try_new_in(strong, weak, data, heap) {
            Ok(p) => p,
            Err(_) => vstd::pervasive::unreached(),
        }
    }
}

/// A shared handle: one of the owners of the payload of a block.
///
/// A handle is not to be copied: `clone` makes another one and counts it,
/// `drop` gives one up.
pub struct Arc<T, A: Allocator = Arena> {
    ptr: usize,
    phantom: PhantomData<(T, A)>,
}

/// A weak handle: it keeps its block, but not the payload. A weak handle
/// that was made without a block is dangling, and refers to none.
pub struct Weak<T, A: Allocator = Arena> {
    ptr: usize,
    phantom: PhantomData<(T, A)>,
}

impl<T, A: Allocator> Arc<T, A> {
    /// The address of the handle's block.
    pub closed spec fn addr(&self) -> usize {
        self.ptr
    }

    /// The block that a new shared pointer to `data` starts with: one shared
    /// handle, and the weak unit that the shared handles hold.
    pub open spec fn fresh(data: T) -> ArcInner<T> {
        ArcInner::spec_new(1, 1, Some(data), Layout::spec_new::<T>())
    }

    fn from_inner(ptr: usize) -> (this: Self)
        ensures
            this.addr() == ptr,
    {
        Arc { ptr, phantom: PhantomData }
    }

    /// A shared pointer to `data` in a new block of `heap`. Where no block
    /// is to be had, `data` is given up.
    pub fn try_new_in(data: T, heap: &mut Heap<T, A>) -> (r: Result<Self, TryReserveError>)
        requires
            old(heap).wf(),
        ensures
            final(heap).wf(),
            match r {
                Ok(this) => {
                    &&& final(heap).block_added(*old(heap), this.addr(), Self::fresh(data), false)
                    &&& final(heap).holds_strong(this.addr())
                },
                Err(e) => final(heap).declined(
                    *old(heap),
                    spec_inner_layout(Layout::spec_new::<T>()),
                    e,
                ),
            },
    {
        // The weak count starts at one: the unit that the shared handles
        // hold between them.
        match ArcInner::try_new_in(1, 1, Some(data), heap) {
            Ok(p) => Ok(Self::from_inner(p)),
            Err(e) => Err(e),
        }
    }

    /// Like `try_new_in`, for a block that is to be had: its layout exists
    /// and the allocator is bound to issue it.
    pub fn new_in(data: T, heap: &mut Heap<T, A>) -> (this: Self)
        requires
            old(heap).wf(),
            spec_inner_layout(Layout::spec_new::<T>()) is Some,
            old(heap).allocator().can_allocate(Self::fresh(data).layout),
        ensures
            final(heap).wf(),
            final(heap).block_added(*old(heap), this.addr(), Self::fresh(data), false),
            final(heap).holds_strong(this.addr()),
    {
        Self::from_inner(ArcInner::new_in(1, 1, Some(data), heap))
    }

    /// The number of shared handles to the block.
    pub fn strong_count(this: &Self, heap: &Heap<T, A>) -> (n: usize)
        requires
            heap@.contains_key(this.addr()),
        ensures
            n == heap@[this.addr()].strong,
    {
        load(&heap.peek(this.ptr).strong, Order::SeqCst)
    }

    /// The number of weak handles to the block: the weak units but the one
    /// that the shared handles hold. While the counter is locked there is
    /// none.
    pub fn weak_count(this: &Self, heap: &Heap<T, A>) -> (n: usize)
        requires
            heap@.contains_key(this.addr()),
            heap@[this.addr()].weak >= 1,
        ensures
            n == if heap@[this.addr()].weak == LOCKED {
                0
            } else {
                heap@[this.addr()].weak - 1
            },
    {
        let cnt = load(&heap.peek(this.ptr).weak, Order::SeqCst);
        // A locked counter stood at one just before it was locked.
        if cnt == LOCKED {
            0
        } else {
            cnt - 1
        }
    }

    /// Whether the two handles refer to the same block.
    pub fn ptr_eq(this: &Self, other: &Self) -> (b: bool)
        ensures
            b == (this.addr() == other.addr()),
    {
        this.ptr == other.ptr
    }

    /// The allocator that issued the block.
    pub fn alloc_ref<'a>(this: &Self, heap: &'a Heap<T, A>) -> (a: &'a A)
        ensures
            *a == heap.allocator(),
    {
        heap.alloc_ref()
    }

    /// Another shared handle to the same block.
    pub fn clone(&self, heap: &mut Heap<T, A>) -> (other: Self)
        requires
            old(heap).wf(),
            old(heap).holds_strong(self.addr()),
            old(heap)@[self.addr()].strong <= MAX_REFCOUNT,
        ensures
            final(heap).wf(),
            other.addr() == self.addr(),
            final(heap).stepped(
                *old(heap),
                after_clone(old(heap)@, self.addr()),
                clone_events(self.addr()),
                self.addr(),
                false,
            ),
            final(heap)@[self.addr()].strong == old(heap)@[self.addr()].strong + 1,
    {
        let mut inner = heap.take(self.ptr);
        // A relaxed increment: the new handle comes from one that exists, so
        // nothing has to be ordered against it.
        let _old_size = fetch_add(&mut inner.strong, 1, Order::Relaxed);
        heap.note(
            Ghost(
                Event::FetchAdd {
                    addr: self.ptr,
                    counter: Counter::Strong,
                    value: 1,
                    order: Order::Relaxed,
                },
            ),
        );
        heap.put(self.ptr, inner);
        assert(heap@ =~= after_clone(old(heap)@, self.addr()));
        assert(heap.trace() =~= old(heap).trace() + clone_events(self.addr()));
        Self::from_inner(self.ptr)
    }

    /// Gives the handle up. The last shared handle destroys the payload and
    /// gives up the weak unit of the shared handles; if that was the last
    /// weak unit, the block is released.
    pub fn drop(self, heap: &mut Heap<T, A>)
        requires
            old(heap).wf(),
            old(heap).holds_strong(self.addr()),
        ensures
            final(heap).wf(),
            final(heap).stepped(
                *old(heap),
                after_drop(old(heap)@, self.addr()),
                drop_events(old(heap)@, self.addr()),
                self.addr(),
                drop_releases(old(heap)@, self.addr()),
            ),
    {
        let mut inner = heap.take(self.ptr);
        // A release decrement: what this handle did to the payload comes
        // before the payload's destruction.
        let previous = fetch_sub(&mut inner.strong, 1, Order::Release);
        heap.note(
            Ghost(
                Event::FetchSub {
                    addr: self.ptr,
                    counter: Counter::Strong,
                    value: 1,
                    order: Order::Release,
                },
            ),
        );
        if previous != 1 {
            heap.put(self.ptr, inner);
            assert(heap@ =~= after_drop(old(heap)@, self.addr()));
            assert(heap.trace() =~= old(heap).trace() + drop_events(old(heap)@, self.addr()));
            return ;
        }
        // The handle that brings the count to zero acquires what the others
        // released before it destroys the payload.
        fence(Order::Acquire);
        heap.note(Ghost(Event::Fence { order: Order::Acquire }));
        inner.data = None;
        heap.note(Ghost(Event::PayloadGone { addr: self.ptr }));
        heap.put(self.ptr, inner);
        assert(heap@ =~= old(heap)@.insert(self.addr(), emptied(old(heap)@[self.addr()])));
        // Give up the weak unit that the shared handles held.
        let weak: Weak<T, A> = Weak { ptr: self.ptr, phantom: PhantomData };
        proof {
            heap.alloc.lemma_inv_well_placed();
        }
        weak.drop(heap);
        assert(heap.trace() =~= old(heap).trace() + drop_events(old(heap)@, self.addr()));
    }

    /// A new weak handle to the block.
    pub fn downgrade(this: &Self, heap: &mut Heap<T, A>) -> (weak: Weak<T, A>)
        requires
            old(heap).wf(),
            old(heap).holds_strong(this.addr()),
            old(heap)@[this.addr()].weak < LOCKED - 1,
        ensures
            final(heap).wf(),
            weak.addr() == this.addr(),
            !weak.is_dangling(),
            final(heap).holds_weak(weak.addr()),
            final(heap).stepped(
                *old(heap),
                after_downgrade(old(heap)@, this.addr()),
                downgrade_events(old(heap)@, this.addr()),
                this.addr(),
                false,
            ),
    {
        proof {
            heap.alloc.lemma_inv_well_placed();
        }
        let mut inner = heap.take(this.ptr);
        let ghost before = inner;
        let ghost start = heap.trace();
        let mut cur = load(&inner.weak, Order::Relaxed);
        heap.note(
            Ghost(Event::Load { addr: this.ptr, counter: Counter::Weak, order: Order::Relaxed }),
        );
        loop
            invariant_except_break
                cur == inner.weak,
                inner == before,
                heap.trace() == start.push(
                    Event::Load { addr: this.addr(), counter: Counter::Weak, order: Order::Relaxed },
                ),
            invariant
                before.weak < LOCKED - 1,
                heap@ == old(heap)@.remove(this.addr()),
                heap.allocator() == old(heap).allocator(),
                this.ptr == this.addr(),
            ensures
                inner == with_counts(before, before.strong as int, before.weak + 1),
                heap.trace() == start.push(
                    Event::Load { addr: this.addr(), counter: Counter::Weak, order: Order::Relaxed },
                ).push(
                    Event::CompareExchange {
                        addr: this.addr(),
                        counter: Counter::Weak,
                        current: before.weak,
                        new: (before.weak + 1) as usize,
                        success: Order::Acquire,
                        failure: Order::Relaxed,
                    },
                ),
            decreases 0int,
        {
            // While the counter is locked, try again.
            if cur == LOCKED {
                cur = load(&inner.weak, Order::Relaxed);
                continue ;
            }
            // An acquire on success: what was done before the lock was
            // released comes before this handle.
            let swapped = compare_exchange(
                &mut inner.weak,
                cur,
                cur + 1,
                Order::Acquire,
                Order::Relaxed,
            );
            heap.note(
                Ghost(
                    Event::CompareExchange {
                        addr: this.ptr,
                        counter: Counter::Weak,
                        current: cur,
                        new: (cur + 1) as usize,
                        success: Order::Acquire,
                        failure: Order::Relaxed,
                    },
                ),
            );
            match swapped {
                Ok(_) => {
                    break ;
                },
                Err(old) => {
                    cur = old;
                },
            }
        }
        heap.put(this.ptr, inner);
        assert(heap@ =~= after_downgrade(old(heap)@, this.addr()));
        assert(heap.trace() =~= old(heap).trace() + downgrade_events(old(heap)@, this.addr()));
        Weak { ptr: this.ptr, phantom: PhantomData }
    }
}

impl<T, A: Allocator> Weak<T, A> {
    /// The address of the handle's block, or `DANGLING`.
    pub closed spec fn addr(&self) -> usize {
        self.ptr
    }

    /// The handle refers to no block.
    pub open spec fn is_dangling(&self) -> bool {
        self.addr() == DANGLING
    }

    /// A weak handle without a block. Nothing is allocated, and an upgrade
    /// yields nothing.
    pub fn new() -> (weak: Self)
        ensures
            weak.is_dangling(),
    {
        Weak { ptr: DANGLING, phantom: PhantomData }
    }

    /// Whether the two handles refer to the same block, or both to none.
    pub fn ptr_eq(&self, other: &Self) -> (b: bool)
        ensures
            b == (self.addr() == other.addr()),
    {
        self.ptr == other.ptr
    }

    /// A shared handle to the block, if the block still has one. A dangling
    /// handle yields none.
    pub fn upgrade(&self, heap: &mut Heap<T, A>) -> (r: Option<Arc<T, A>>)
        requires
            old(heap).wf(),
            old(heap).holds_weak(self.addr()),
            can_upgrade(old(heap)@, self.addr()) ==> old(heap)@[self.addr()].strong
                <= MAX_REFCOUNT,
        ensures
            final(heap).wf(),
            r is Some <==> can_upgrade(old(heap)@, self.addr()),
            r is Some ==> r->Some_0.addr() == self.addr() && final(heap).holds_strong(self.addr())
                && final(heap)@[self.addr()].data == old(heap)@[self.addr()].data,
            final(heap).stepped(
                *old(heap),
                after_upgrade(old(heap)@, self.addr()),
                upgrade_events(old(heap)@, self.addr()),
                self.addr(),
                false,
            ),
    {
        if is_dangling(self.ptr) {
            assert(heap.trace() =~= old(heap).trace() + upgrade_events(old(heap)@, self.addr()));
            return None;
        }
        let mut inner = heap.take(self.ptr);
        let ghost before = inner;
        let ghost start = heap.trace();
        let mut n = load(&inner.strong, Order::Relaxed);
        heap.note(
            Ghost(Event::Load { addr: self.ptr, counter: Counter::Strong, order: Order::Relaxed }),
        );
        let mut upgraded = false;
        loop
            invariant_except_break
                n == inner.strong,
                inner == before,
                heap.trace() == start.push(
                    Event::Load {
                        addr: self.addr(),
                        counter: Counter::Strong,
                        order: Order::Relaxed,
                    },
                ),
            invariant
                before.strong <= MAX_REFCOUNT,
                heap@ == old(heap)@.remove(self.addr()),
                heap.allocator() == old(heap).allocator(),
                self.ptr == self.addr(),
            ensures
                upgraded == (before.strong > 0),
                inner == if upgraded {
                    with_counts(before, before.strong + 1, before.weak as int)
                } else {
                    before
                },
                heap.trace() == if upgraded {
                    start.push(
                        Event::Load {
                            addr: self.addr(),
                            counter: Counter::Strong,
                            order: Order::Relaxed,
                        },
                    ).push(
                        Event::CompareExchange {
                            addr: self.addr(),
                            counter: Counter::Strong,
                            current: before.strong,
                            new: (before.strong + 1) as usize,
                            success: Order::Acquire,
                            failure: Order::Relaxed,
                        },
                    )
                } else {
                    start.push(
                        Event::Load {
                            addr: self.addr(),
                            counter: Counter::Strong,
                            order: Order::Relaxed,
                        },
                    )
                },
            decreases 0int,
        {
            if n == 0 {
                upgraded = false;
                break ;
            }
            // An acquire on success: the payload was written before the
            // count that is seen here.
            let swapped = compare_exchange(
                &mut inner.strong,
                n,
                n + 1,
                Order::Acquire,
                Order::Relaxed,
            );
            heap.note(
                Ghost(
                    Event::CompareExchange {
                        addr: self.ptr,
                        counter: Counter::Strong,
                        current: n,
                        new: (n + 1) as usize,
                        success: Order::Acquire,
                        failure: Order::Relaxed,
                    },
                ),
            );
            match swapped {
                Ok(_) => {
                    upgraded = true;
                    break ;
                },
                Err(old) => {
                    n = old;
                },
            }
        }
        heap.put(self.ptr, inner);
        assert(heap@ =~= after_upgrade(old(heap)@, self.addr()));
        assert(heap.trace() =~= old(heap).trace() + upgrade_events(old(heap)@, self.addr()));
        if upgraded {
            Some(Arc::from_inner(self.ptr))
        } else {
            None
        }
    }

    /// The block of the handle; none for a dangling handle.
    fn inner<'a>(&self, heap: &'a Heap<T, A>) -> (inner: Option<&'a ArcInner<T>>)
        requires
            self.is_dangling() || heap@.contains_key(self.addr()),
        ensures
            inner is Some <==> !self.is_dangling(),
            inner is Some ==> *inner->Some_0 == heap@[self.addr()],
    {
        if is_dangling(self.ptr) {
            None
        } else {
            Some(heap.peek(self.ptr))
        }
    }

    /// The number of shared handles to the block; none for a dangling
    /// handle.
    pub fn strong_count(&self, heap: &Heap<T, A>) -> (n: usize)
        requires
            self.is_dangling() || heap@.contains_key(self.addr()),
        ensures
            n == if self.is_dangling() {
                0
            } else {
                heap@[self.addr()].strong
            },
    {
        match self.inner(heap) {
            Some(inner) => load(&inner.strong, Order::SeqCst),
            None => 0,
        }
    }

    /// The number of weak handles to the block while it has a shared
    /// handle; none without one, and none for a dangling handle.
    pub fn weak_count(&self, heap: &Heap<T, A>) -> (n: usize)
        requires
            self.is_dangling() || (heap@.contains_key(self.addr()) && heap@[self.addr()].weak >= 1),
        ensures
            n == if self.is_dangling() || heap@[self.addr()].strong == 0 {
                0
            } else {
                heap@[self.addr()].weak - 1
            },
    {
        match self.inner(heap) {
            Some(inner) => {
                let weak = load(&inner.weak, Order::SeqCst);
                let strong = load(&inner.strong, Order::SeqCst);
                if strong == 0 {
                    0
                } else {
                    // With a shared handle, one weak unit is theirs.
                    weak - 1
                }
            },
            None => 0,
        }
    }

    /// Another weak handle to the same block; a dangling handle for a
    /// dangling one.
    pub fn clone(&self, heap: &mut Heap<T, A>) -> (other: Self)
        requires
            old(heap).wf(),
            old(heap).holds_weak(self.addr()),
            !self.is_dangling() ==> old(heap)@[self.addr()].weak <= MAX_REFCOUNT,
        ensures
            final(heap).wf(),
            other.addr() == self.addr(),
            final(heap).holds_weak(other.addr()),
            final(heap).stepped(
                *old(heap),
                if self.is_dangling() {
                    old(heap)@
                } else {
                    after_downgrade(old(heap)@, self.addr())
                },
                weak_clone_events(self.addr()),
                self.addr(),
                false,
            ),
    {
        if is_dangling(self.ptr) {
            assert(heap.trace() =~= old(heap).trace() + weak_clone_events(self.addr()));
            return Weak { ptr: self.ptr, phantom: PhantomData };
        }
        let mut inner = heap.take(self.ptr);
        // A relaxed increment, as for a shared handle.
        let _old_size = fetch_add(&mut inner.weak, 1, Order::Relaxed);
        heap.note(
            Ghost(
                Event::FetchAdd {
                    addr: self.ptr,
                    counter: Counter::Weak,
                    value: 1,
                    order: Order::Relaxed,
                },
            ),
        );
        heap.put(self.ptr, inner);
        assert(heap@ =~= after_downgrade(old(heap)@, self.addr()));
        assert(heap.trace() =~= old(heap).trace() + weak_clone_events(self.addr()));
        Weak { ptr: self.ptr, phantom: PhantomData }
    }

    /// Gives the handle up. The last weak unit releases the block.
    pub fn drop(self, heap: &mut Heap<T, A>)
        requires
            old(heap).wf(),
            old(heap).holds_weak(self.addr()),
        ensures
            final(heap).wf(),
            final(heap).stepped(
                *old(heap),
                after_weak_drop(old(heap)@, self.addr()),
                weak_drop_events(old(heap)@, self.addr()),
                self.addr(),
                weak_drop_releases(old(heap)@, self.addr()),
            ),
    {
        let _ = self.drop_alloc(heap);
    }

    /// Gives the handle up, and says which block that released, if it
    /// released one.
    pub fn drop_alloc(self, heap: &mut Heap<T, A>) -> (released: Option<Block>)
        requires
            old(heap).wf(),
            old(heap).holds_weak(self.addr()),
        ensures
            final(heap).wf(),
            released is Some <==> weak_drop_releases(old(heap)@, self.addr()),
            released is Some ==> released->Some_0 == (Block {
                addr: self.addr(),
                layout: old(heap)@[self.addr()].layout,
            }),
            final(heap).stepped(
                *old(heap),
                after_weak_drop(old(heap)@, self.addr()),
                weak_drop_events(old(heap)@, self.addr()),
                self.addr(),
                weak_drop_releases(old(heap)@, self.addr()),
            ),
    {
        if is_dangling(self.ptr) {
            assert(heap.trace() =~= old(heap).trace() + weak_drop_events(old(heap)@, self.addr()));
            return None;
        }
        proof {
            heap.alloc.lemma_inv_well_placed();
        }
        let mut inner = heap.take(self.ptr);
        // A release decrement, and an acquire before the block goes: what
        // any handle did to the block comes before its release.
        let previous = fetch_sub(&mut inner.weak, 1, Order::Release);
        heap.note(
            Ghost(
                Event::FetchSub {
                    addr: self.ptr,
                    counter: Counter::Weak,
                    value: 1,
                    order: Order::Release,
                },
            ),
        );
        if previous == 1 {
            fence(Order::Acquire);
            heap.note(Ghost(Event::Fence { order: Order::Acquire }));
            let block = Block { addr: self.ptr, layout: inner.layout };
            heap.alloc.deallocate(block);
            heap.note(Ghost(Event::Released { addr: self.ptr }));
            assert(heap@ =~= after_weak_drop(old(heap)@, self.addr()));
            assert(heap.trace() =~= old(heap).trace() + weak_drop_events(old(heap)@, self.addr()));
            Some(block)
        } else {
            heap.put(self.ptr, inner);
            assert(heap@ =~= after_weak_drop(old(heap)@, self.addr()));
            assert(heap.trace() =~= old(heap).trace() + weak_drop_events(old(heap)@, self.addr()));
            None
        }
    }
}

impl<T, A: Allocator> Arc<T, A> {
    /// The offset of the payload in a block of this payload type.
    pub open spec fn spec_offset() -> usize {
        spec_data_offset(align_of::<T>() as usize) as usize
    }

    /// The handle is the only handle to its block, shared or weak.
    pub open spec fn unique_in(&self, heap: Heap<T, A>) -> bool {
        heap@[self.addr()].strong == 1 && heap@[self.addr()].weak == 1
    }

    /// The payload.
    pub fn deref<'a>(&self, heap: &'a Heap<T, A>) -> (data: &'a T)
        requires
            heap@.contains_key(self.addr()),
            heap@[self.addr()].data is Some,
        ensures
            *data == heap@[self.addr()].data->Some_0,
    {
        match &heap.peek(self.ptr).data {
            Some(data) => data,
            None => vstd::pervasive::unreached(),
        }
    }

    /// Whether this is the only handle to the block, shared or weak.
    ///
    /// The weak counter is locked while the shared counter is read, so
    /// that no weak handle is made or upgraded in between.
    pub fn is_unique(&mut self, heap: &mut Heap<T, A>) -> (unique: bool)
        requires
            old(heap).wf(),
            old(heap).holds_strong(old(self).addr()),
        ensures
            final(heap).wf(),
            final(self).addr() == old(self).addr(),
            unique == old(self).unique_in(*old(heap)),
            final(heap).stepped(
                *old(heap),
                old(heap)@,
                unique_check_events(old(heap)@, old(self).addr()),
                old(self).addr(),
                false,
            ),
    {
        let mut inner = heap.take(self.ptr);
        // Lock the weak counter if this seems to be the only weak unit. The
        // acquire comes after the release of whoever gave up a weak unit
        // before.
        let locked = compare_exchange(&mut inner.weak, 1, LOCKED, Order::Acquire, Order::Relaxed);
        heap.note(
            Ghost(
                Event::CompareExchange {
                    addr: self.ptr,
                    counter: Counter::Weak,
                    current: 1,
                    new: LOCKED,
                    success: Order::Acquire,
                    failure: Order::Relaxed,
                },
            ),
        );
        let unique = match locked {
            Ok(_) => {
                // An acquire, after the release of whoever gave up a shared
                // handle before.
                let unique = load(&inner.strong, Order::Acquire) == 1;
                heap.note(
                    Ghost(
                        Event::Load {
                            addr: self.ptr,
                            counter: Counter::Strong,
                            order: Order::Acquire,
                        },
                    ),
                );
                // Release the lock.
                store(&mut inner.weak, 1, Order::Release);
                heap.note(
                    Ghost(
                        Event::Store {
                            addr: self.ptr,
                            counter: Counter::Weak,
                            value: 1,
                            order: Order::Release,
                        },
                    ),
                );
                unique
            },
            Err(_) => false,
        };
        heap.put(self.ptr, inner);
        assert(heap@ =~= old(heap)@);
        assert(heap.trace() =~= old(heap).trace() + unique_check_events(
            old(heap)@,
            old(self).addr(),
        ));
        unique
    }

    /// The payload, for change, without a check that no other handle
    /// reads it.
    pub fn get_mut_unchecked<'a>(this: &mut Self, heap: &'a mut Heap<T, A>) -> (data: &'a mut T)
        requires
            old(heap)@.contains_key(old(this).addr()),
            old(heap)@[old(this).addr()].data is Some,
        ensures
            final(this).addr() == old(this).addr(),
            *data == old(heap)@[old(this).addr()].data->Some_0,
            final(heap).payload_set(*old(heap), old(this).addr(), *final(data)),
            old(heap).wf() ==> final(heap).wf(),
    {
        heap.payload_mut(this.ptr)
    }

    /// The payload, for change, if this is the only handle to the block.
    pub fn get_mut<'a>(this: &mut Self, heap: &'a mut Heap<T, A>) -> (r: Option<&'a mut T>)
        requires
            old(heap).wf(),
            old(heap).holds_strong(old(this).addr()),
            old(heap)@[old(this).addr()].data is Some,
        ensures
            final(heap).wf(),
            final(this).addr() == old(this).addr(),
            r is Some <==> old(this).unique_in(*old(heap)),
            final(heap).allocator() == old(heap).allocator(),
            final(heap).recorded(
                *old(heap),
                unique_check_events(old(heap)@, old(this).addr()),
            ),
            match r {
                Some(data) => {
                    &&& *data == old(heap)@[old(this).addr()].data->Some_0
                    &&& final(heap)@ == old(heap)@.insert(
                        old(this).addr(),
                        ArcInner { data: Some(*final(data)), ..old(heap)@[old(this).addr()] },
                    )
                },
                None => final(heap)@ == old(heap)@,
            },
    {
        if this.is_unique(heap) {
            Some(Self::get_mut_unchecked(this, heap))
        } else {
            None
        }
    }

    /// The payload, if this is the only shared handle; the handle itself
    /// otherwise. Weak handles do not stand in the way: they find the
    /// payload gone.
    pub fn try_unwrap(this: Self, heap: &mut Heap<T, A>) -> (r: Result<T, Self>)
        requires
            old(heap).wf(),
            old(heap).holds_strong(this.addr()),
            old(heap)@[this.addr()].data is Some,
        ensures
            final(heap).wf(),
            r is Ok <==> old(heap)@[this.addr()].strong == 1,
            match r {
                Ok(data) => {
                    &&& Some(data) == old(heap)@[this.addr()].data
                    &&& final(heap).stepped(
                        *old(heap),
                        after_drop(old(heap)@, this.addr()),
                        unwrap_events(old(heap)@, this.addr()),
                        this.addr(),
                        drop_releases(old(heap)@, this.addr()),
                    )
                },
                Err(same) => {
                    &&& same.addr() == this.addr()
                    &&& final(heap).stepped(
                        *old(heap),
                        old(heap)@,
                        unwrap_events(old(heap)@, this.addr()),
                        this.addr(),
                        false,
                    )
                },
            },
    {
        let mut inner = heap.take(this.ptr);
        let claimed = compare_exchange(&mut inner.strong, 1, 0, Order::Relaxed, Order::Relaxed);
        heap.note(
            Ghost(
                Event::CompareExchange {
                    addr: this.ptr,
                    counter: Counter::Strong,
                    current: 1,
                    new: 0,
                    success: Order::Relaxed,
                    failure: Order::Relaxed,
                },
            ),
        );
        match claimed {
            Ok(_) => {},
            Err(_) => {
                heap.put(this.ptr, inner);
                assert(heap@ =~= old(heap)@);
                assert(heap.trace() =~= old(heap).trace() + unwrap_events(
                    old(heap)@,
                    this.addr(),
                ));
                return Err(this);
            },
        }
        // The handle that brings the count to zero acquires what the others
        // released before it takes the payload.
        fence(Order::Acquire);
        heap.note(Ghost(Event::Fence { order: Order::Acquire }));
        let data = inner.data.take();
        heap.note(Ghost(Event::PayloadGone { addr: this.ptr }));
        heap.put(this.ptr, inner);
        assert(heap@ =~= old(heap)@.insert(this.addr(), emptied(old(heap)@[this.addr()])));
        // Give up the weak unit that the shared handles held.
        let weak: Weak<T, A> = Weak { ptr: this.ptr, phantom: PhantomData };
        proof {
            heap.alloc.lemma_inv_well_placed();
        }
        weak.drop(heap);
        assert(heap.trace() =~= old(heap).trace() + unwrap_events(old(heap)@, this.addr()));
        match data {
            Some(data) => Ok(data),
            None => vstd::pervasive::unreached(),
        }
    }

    /// The address of the payload.
    pub fn as_ptr(this: &Self) -> (ptr: usize)
        ensures
            ptr == wrapping_sum(this.addr(), Self::spec_offset()),
    {
        let align = Layout::new::<T>().align();
        this.ptr.wrapping_add(data_offset_align(align))
    }

    /// Gives the handle up for the address of its payload, without a change
    /// to the counters. The address is to be handed to `from_raw` once.
    pub fn into_raw(this: Self) -> (ptr: usize)
        ensures
            ptr == wrapping_sum(this.addr(), Self::spec_offset()),
    {
        Self::as_ptr(&this)
    }

    /// The handle that `into_raw` gave up for `ptr`.
    pub fn from_raw(ptr: usize) -> (this: Self)
        ensures
            this.addr() == wrapping_difference(ptr, Self::spec_offset()),
    {
        let align = Layout::new::<T>().align();
        Self::from_inner(ptr.wrapping_sub(data_offset_align(align)))
    }

    /// Counts one more shared handle for the block whose payload lies at
    /// `ptr`, as `clone` does.
    pub fn incr_strong_count(ptr: usize, heap: &mut Heap<T, A>)
        requires
            old(heap).wf(),
            old(heap).holds_strong(wrapping_difference(ptr, Self::spec_offset())),
            old(heap)@[wrapping_difference(ptr, Self::spec_offset())].strong <= MAX_REFCOUNT,
        ensures
            final(heap).wf(),
            final(heap).stepped(
                *old(heap),
                after_clone(old(heap)@, wrapping_difference(ptr, Self::spec_offset())),
                clone_events(wrapping_difference(ptr, Self::spec_offset())),
                wrapping_difference(ptr, Self::spec_offset()),
                false,
            ),
    {
        let arc = Self::from_raw(ptr);
        let _arc_clone = arc.clone(heap);
    }

    /// Counts one shared handle less for the block whose payload lies at
    /// `ptr`, as `drop` does.
    pub fn decr_strong_count(ptr: usize, heap: &mut Heap<T, A>)
        requires
            old(heap).wf(),
            old(heap).holds_strong(wrapping_difference(ptr, Self::spec_offset())),
        ensures
            final(heap).wf(),
            final(heap).stepped(
                *old(heap),
                after_drop(old(heap)@, wrapping_difference(ptr, Self::spec_offset())),
                drop_events(old(heap)@, wrapping_difference(ptr, Self::spec_offset())),
                wrapping_difference(ptr, Self::spec_offset()),
                drop_releases(old(heap)@, wrapping_difference(ptr, Self::spec_offset())),
            ),
    {
        Self::from_raw(ptr).drop(heap);
    }

    /// The handle's block.
    pub fn as_inner_ptr(this: &Self, heap: &Heap<T, A>) -> (block: Block)
        requires
            heap@.contains_key(this.addr()),
        ensures
            block == (Block { addr: this.addr(), layout: heap@[this.addr()].layout }),
    {
        Block { addr: this.ptr, layout: heap.peek(this.ptr).layout }
    }
}

impl<T: Clone, A: Allocator> Arc<T, A> {
    /// The payload, for change, in a block that no other handle refers to.
    ///
    /// The only handle to a block keeps its block, and nothing is
    /// allocated. Beside other shared handles, the handle leaves them the
    /// block and moves to a new one with a clone of the payload. Beside weak
    /// handles only, it takes the payload along to a new block, and the weak
    /// handles find theirs without one.
    pub fn make_mut<'a>(this: &mut Self, heap: &'a mut Heap<T, A>) -> (data: &'a mut T)
        requires
            old(heap).wf(),
            old(heap).holds_strong(old(this).addr()),
            old(heap)@[old(this).addr()].data is Some,
            !old(this).unique_in(*old(heap)) ==> {
                &&& spec_inner_layout(Layout::spec_new::<T>()) is Some
                &&& old(heap).allocator().can_allocate(
                    spec_inner_layout(Layout::spec_new::<T>())->Some_0,
                )
            },
        ensures
            final(heap).wf(),
            final(heap)@.contains_key(final(this).addr()),
            final(heap)@[final(this).addr()].strong == 1,
            final(heap)@[final(this).addr()].weak == 1,
            final(heap)@[final(this).addr()].data == Some(*final(data)),
            final(heap).recorded(
                *old(heap),
                make_mut_events(old(heap)@, old(this).addr(), final(this).addr()),
            ),
            if old(this).unique_in(*old(heap)) {
                &&& final(this).addr() == old(this).addr()
                &&& *data == old(heap)@[old(this).addr()].data->Some_0
                &&& final(heap)@ == old(heap)@.insert(
                    old(this).addr(),
                    ArcInner { data: Some(*final(data)), ..old(heap)@[old(this).addr()] },
                )
                &&& final(heap).allocator() == old(heap).allocator()
            } else {
                let p = old(this).addr();
                let q = final(this).addr();
                let left = if old(heap)@[p].strong > 1 {
                    with_counts(old(heap)@[p], old(heap)@[p].strong - 1, old(heap)@[p].weak as int)
                } else {
                    with_counts(emptied(old(heap)@[p]), 0, old(heap)@[p].weak - 1)
                };
                let moved = ArcInner::spec_new(1, 1, Some(*final(data)), Layout::spec_new::<T>());
                &&& q != p
                &&& !old(heap)@.contains_key(q)
                &&& if old(heap)@[p].strong > 1 {
                    vstd::pervasive::cloned(old(heap)@[p].data->Some_0, *data)
                } else {
                    *data == old(heap)@[p].data->Some_0
                }
                &&& final(heap)@ =~= old(heap)@.insert(p, left).insert(q, moved)
                &&& final(heap).allocator().inv()
                &&& final(heap).allocator().live() == old(heap).allocator().live().insert(
                    q,
                    issued_region(moved.layout, false),
                )
            },
    {
        let p = this.ptr;
        proof {
            heap.alloc.lemma_inv_well_placed();
            assert(heap.alloc.live().contains_key(p));
            assert(p != DANGLING);
        }
        let mut inner = heap.take(p);
        // An acquire on success, after the release of the shared handle that
        // was given up last.
        let claimed = compare_exchange(&mut inner.strong, 1, 0, Order::Acquire, Order::Relaxed);
        heap.note(
            Ghost(
                Event::CompareExchange {
                    addr: p,
                    counter: Counter::Strong,
                    current: 1,
                    new: 0,
                    success: Order::Acquire,
                    failure: Order::Relaxed,
                },
            ),
        );
        if claimed.is_err() {
            // Another shared handle exists: clone the payload into a block
            // of its own, and give up the handle to the old one.
            let copy = match &inner.data {
                Some(data) => data.clone(),
                None => vstd::pervasive::unreached(),
            };
            heap.put(p, inner);
            assert(heap@ =~= old(heap)@);
            let fresh = Self::new_in(copy, heap);
            let q = fresh.ptr;
            let stale = Self::from_inner(p);
            *this = fresh;
            stale.drop(heap);
            assert(heap@ =~= old(heap)@.insert(
                p,
                with_counts(old(heap)@[p], old(heap)@[p].strong - 1, old(heap)@[p].weak as int),
            ).insert(q, Self::fresh(copy)));
            assert(heap.trace() =~= old(heap).trace() + make_mut_events(old(heap)@, p, q));
        } else {
            let others = load(&inner.weak, Order::Relaxed);
            heap.note(
                Ghost(Event::Load { addr: p, counter: Counter::Weak, order: Order::Relaxed }),
            );
            if others != 1 {
                // Only weak handles are left beside this one: move the
                // payload to a block of its own. The old block keeps no
                // shared handle, and loses the weak unit that the shared
                // handles held.
                let payload = match inner.data.take() {
                    Some(data) => data,
                    None => vstd::pervasive::unreached(),
                };
                heap.note(Ghost(Event::PayloadGone { addr: p }));
                heap.put(p, inner);
                assert(heap@ =~= old(heap)@.insert(p, emptied(old(heap)@[p])));
                let swap = Self::new_in(payload, heap);
                let q = swap.ptr;
                *this = swap;
                let weak: Weak<T, A> = Weak { ptr: p, phantom: PhantomData };
                weak.drop(heap);
                assert(heap@ =~= old(heap)@.insert(
                    p,
                    with_counts(emptied(old(heap)@[p]), 0, old(heap)@[p].weak - 1),
                ).insert(q, Self::fresh(payload)));
                assert(heap.trace() =~= old(heap).trace() + make_mut_events(old(heap)@, p, q));
            } else {
                // The only handle of either kind: take the shared handle
                // back.
                store(&mut inner.strong, 1, Order::Release);
                heap.note(
                    Ghost(
                        Event::Store {
                            addr: p,
                            counter: Counter::Strong,
                            value: 1,
                            order: Order::Release,
                        },
                    ),
                );
                heap.put(p, inner);
                assert(heap@ =~= old(heap)@);
                assert(heap.trace() =~= old(heap).trace() + make_mut_events(old(heap)@, p, p));
            }
        }
        Self::get_mut_unchecked(this, heap)
    }
}

impl<T> Arc<T, Arena> {
    /// A shared pointer to `data` in a new block of a heap over an arena.
    pub fn new(data: T, heap: &mut Heap<T, Arena>) -> (this: Self)
        requires
            old(heap).wf(),
            spec_inner_layout(Layout::spec_new::<T>()) is Some,
            old(heap).allocator().can_allocate(Self::fresh(data).layout),
        ensures
            final(heap).wf(),
            final(heap).block_added(*old(heap), this.addr(), Self::fresh(data), false),
            final(heap).holds_strong(this.addr()),
    {
        Self::new_in(data, heap)
    }
}

impl<T, A: Allocator> Weak<T, A> {
    /// The address at which the payload lies or lay; for a dangling handle
    /// an address that is no payload's.
    pub fn as_ptr(&self) -> (ptr: usize)
        ensures
            ptr == wrapping_sum(self.addr(), Arc::<T, A>::spec_offset()),
    {
        let align = Layout::new::<T>().align();
        self.ptr.wrapping_add(data_offset_align(align))
    }

    /// Gives the handle up for the address of its payload, without a change
    /// to the counters. The address is to be handed to `from_raw` once.
    pub fn into_raw(self) -> (ptr: usize)
        ensures
            ptr == wrapping_sum(self.addr(), Arc::<T, A>::spec_offset()),
    {
        self.as_ptr()
    }

    /// The handle that `into_raw` gave up for `ptr`; a dangling handle for
    /// the null address.
    pub fn from_raw(ptr: usize) -> (weak: Self)
        ensures
            weak.addr() == if ptr == 0 {
                DANGLING
            } else {
                wrapping_difference(ptr, Arc::<T, A>::spec_offset())
            },
    {
        if ptr == 0 {
            Self::new()
        } else {
            let align = Layout::new::<T>().align();
            Weak { ptr: ptr.wrapping_sub(data_offset_align(align)), phantom: PhantomData }
        }
    }

    /// The allocator that issued the block; none for a dangling handle.
    pub fn alloc_ref<'a>(&self, heap: &'a Heap<T, A>) -> (a: Option<&'a A>)
        ensures
            a is Some <==> !self.is_dangling(),
            a is Some ==> *a->Some_0 == heap.allocator(),
    {
        if is_dangling(self.ptr) {
            None
        } else {
            Some(heap.alloc_ref())
        }
    }

    /// The handle's block; none for a dangling handle.
    pub fn as_inner_ptr(&self, heap: &Heap<T, A>) -> (block: Option<Block>)
        requires
            self.is_dangling() || heap@.contains_key(self.addr()),
        ensures
            block == if self.is_dangling() {
                None
            } else {
                Some(Block { addr: self.addr(), layout: heap@[self.addr()].layout })
            },
    {
        match self.inner(heap) {
            Some(inner) => Some(Block { addr: self.ptr, layout: inner.layout }),
            None => None,
        }
    }
}

impl<T, A: Allocator> Arc<T, A> {
    /// The block that a pointer under construction starts with: the weak
    /// unit of the shared handles to come, and no shared handle.
    pub open spec fn pending() -> ArcInner<T> {
        ArcInner::spec_new(0, 1, None, Layout::spec_new::<T>())
    }

    /// The block that a pointer with a payload yet to be written starts
    /// with.
    pub open spec fn uninit() -> ArcInner<T> {
        ArcInner::spec_new(1, 1, None, Layout::spec_new::<T>())
    }

    /// The second phase of a cyclic construction: hands `data_fn` a weak
    /// handle to the block at `init_ptr`, writes the payload that it returns
    /// and publishes it by counting the first shared handle.
    ///
    /// The weak handle is lent, not given: the block cannot go away while
    /// `data_fn` runs. It becomes the weak unit of the shared handles.
    pub fn init_cyclic_in<F: FnOnce(&Weak<T, A>, &mut Heap<T, A>) -> T>(
        init_ptr: usize,
        data_fn: F,
        heap: &mut Heap<T, A>,
    ) -> (this: Self)
        requires
            old(heap).wf(),
            old(heap).awaits(init_ptr),
            forall|weak: &Weak<T, A>, h: &mut Heap<T, A>|
                weak.addr() == init_ptr && *h == *old(heap) ==> call_requires(data_fn, (weak, h)),
            forall|weak: &Weak<T, A>, h: &mut Heap<T, A>, data: T|
                call_ensures(data_fn, (weak, h), data) ==> final(h).wf() && final(h).awaits(
                    weak.addr(),
                ),
        ensures
            final(heap).wf(),
            this.addr() == init_ptr,
            final(heap).holds_strong(init_ptr),
            final(heap)@[init_ptr].strong == 1,
            exists|weak: &Weak<T, A>, h: &mut Heap<T, A>, data: T|
                {
                    &&& weak.addr() == init_ptr
                    &&& *h == *old(heap)
                    &&& #[trigger] call_ensures(data_fn, (weak, h), data)
                    &&& final(heap).published(*final(h), init_ptr, data)
                },
    {
        let weak: Weak<T, A> = Weak { ptr: init_ptr, phantom: PhantomData };
        let data = data_fn(&weak, heap);
        let ghost mid = *heap;
        assert(exists|w: &Weak<T, A>, h: &mut Heap<T, A>, d: T|
            {
                &&& w.addr() == init_ptr
                &&& *h == *old(heap)
                &&& #[trigger] call_ensures(data_fn, (w, h), d)
                &&& d == data
                &&& *final(h) == mid
            });
        let mut inner = heap.take(init_ptr);
        inner.data = Some(data);
        heap.note(Ghost(Event::PayloadWritten { addr: init_ptr }));
        // The write of the payload must be seen by whoever sees the count
        // above zero: this release pairs with the acquire of `upgrade`.
        let _prev_value = fetch_add(&mut inner.strong, 1, Order::Release);
        heap.note(
            Ghost(
                Event::FetchAdd {
                    addr: init_ptr,
                    counter: Counter::Strong,
                    value: 1,
                    order: Order::Release,
                },
            ),
        );
        heap.put(init_ptr, inner);
        assert(heap@ =~= mid@.insert(
            init_ptr,
            ArcInner { strong: 1, data: Some(data), ..mid@[init_ptr] },
        ));
        assert(heap.trace() =~= mid.trace() + publish_events(init_ptr));
        assert(heap.published(mid, init_ptr, data));
        // The shared handles hold a weak unit between them: the handle that
        // was lent to `data_fn` becomes that unit, and is not given up.
        Self::from_inner(init_ptr)
    }

    /// A shared pointer whose payload `data_fn` makes with a weak handle to
    /// the pointer in hand.
    ///
    /// The block is allocated without a payload and without a shared
    /// handle, so that `data_fn` can clone the weak handle but not upgrade
    /// it. The payload is then written and published. Where no block is to
    /// be had, `data_fn` is not called.
    pub fn try_new_cyclic_in<F: FnOnce(&Weak<T, A>, &mut Heap<T, A>) -> T>(
        data_fn: F,
        heap: &mut Heap<T, A>,
    ) -> (r: Result<Self, TryReserveError>)
        requires
            old(heap).wf(),
            forall|weak: &Weak<T, A>, h: &mut Heap<T, A>|
                h.wf() && h.block_added(*old(heap), weak.addr(), Self::pending(), false)
                    ==> call_requires(data_fn, (weak, h)),
            forall|weak: &Weak<T, A>, h: &mut Heap<T, A>, data: T|
                call_ensures(data_fn, (weak, h), data) ==> final(h).wf() && final(h).awaits(
                    weak.addr(),
                ),
        ensures
            final(heap).wf(),
            match r {
                Ok(this) => {
                    &&& final(heap).holds_strong(this.addr())
                    &&& final(heap)@[this.addr()].strong == 1
                    &&& exists|weak: &Weak<T, A>, h: &mut Heap<T, A>, data: T|
                        {
                            &&& weak.addr() == this.addr()
                            &&& h.block_added(*old(heap), this.addr(), Self::pending(), false)
                            &&& #[trigger] call_ensures(data_fn, (weak, h), data)
                            &&& final(heap).published(*final(h), this.addr(), data)
                        }
                },
                Err(e) => final(heap).declined(
                    *old(heap),
                    spec_inner_layout(Layout::spec_new::<T>()),
                    e,
                ),
            },
    {
        // The block starts without a payload, and with one weak unit.
        let uninit_ptr = match ArcInner::try_new_in(0, 1, None, heap) {
            Ok(p) => p,
            Err(e) => {
                return Err(e);
            },
        };
        Ok(Self::init_cyclic_in(uninit_ptr, data_fn, heap))
    }

    /// Like `try_new_cyclic_in`, over an allocator that is bound to serve
    /// the request.
    pub fn new_cyclic_in<F: FnOnce(&Weak<T, A>, &mut Heap<T, A>) -> T>(
        data_fn: F,
        heap: &mut Heap<T, A>,
    ) -> (this: Self)
        requires
            old(heap).wf(),
            spec_inner_layout(Layout::spec_new::<T>()) is Some,
            old(heap).allocator().can_allocate(Self::pending().layout),
            forall|weak: &Weak<T, A>, h: &mut Heap<T, A>|
                h.wf() && h.block_added(*old(heap), weak.addr(), Self::pending(), false)
                    ==> call_requires(data_fn, (weak, h)),
            forall|weak: &Weak<T, A>, h: &mut Heap<T, A>, data: T|
                call_ensures(data_fn, (weak, h), data) ==> final(h).wf() && final(h).awaits(
                    weak.addr(),
                ),
        ensures
            final(heap).wf(),
            final(heap).holds_strong(this.addr()),
            final(heap)@[this.addr()].strong == 1,
            exists|weak: &Weak<T, A>, h: &mut Heap<T, A>, data: T|
                {
                    &&& weak.addr() == this.addr()
                    &&& h.block_added(*old(heap), this.addr(), Self::pending(), false)
                    &&& #[trigger] call_ensures(data_fn, (weak, h), data)
                    &&& final(heap).published(*final(h), this.addr(), data)
                },
    {
        match Self::try_new_cyclic_in(data_fn, heap) {
            Ok(this) => this,
            Err(_) => vstd::pervasive::unreached(),
        }
    }
}

impl<T> Arc<T, Arena> {
    /// Like `new_cyclic_in`, in a heap over an arena.
    pub fn new_cyclic<F: FnOnce(&Weak<T, Arena>, &mut Heap<T, Arena>) -> T>(
        data_fn: F,
        heap: &mut Heap<T, Arena>,
    ) -> (this: Self)
        requires
            old(heap).wf(),
            spec_inner_layout(Layout::spec_new::<T>()) is Some,
            old(heap).allocator().can_allocate(Self::pending().layout),
            forall|weak: &Weak<T, Arena>, h: &mut Heap<T, Arena>|
                h.wf() && h.block_added(*old(heap), weak.addr(), Self::pending(), false)
                    ==> call_requires(data_fn, (weak, h)),
            forall|weak: &Weak<T, Arena>, h: &mut Heap<T, Arena>, data: T|
                call_ensures(data_fn, (weak, h), data) ==> final(h).wf() && final(h).awaits(
                    weak.addr(),
                ),
        ensures
            final(heap).wf(),
            final(heap).holds_strong(this.addr()),
            final(heap)@[this.addr()].strong == 1,
            exists|weak: &Weak<T, Arena>, h: &mut Heap<T, Arena>, data: T|
                {
                    &&& weak.addr() == this.addr()
                    &&& h.block_added(*old(heap), this.addr(), Self::pending(), false)
                    &&& #[trigger] call_ensures(data_fn, (weak, h), data)
                    &&& final(heap).published(*final(h), this.addr(), data)
                },
    {
        Self::new_cyclic_in(data_fn, heap)
    }
}

/// The address that `into_raw` gives for a handle leads `from_raw` back to
/// the block of the handle, whatever the address of the block.
pub proof fn lemma_raw_round_trip<T, A: Allocator>(p: usize)
    ensures
        wrapping_difference(
            wrapping_sum(p, Arc::<T, A>::spec_offset()),
            Arc::<T, A>::spec_offset(),
        ) == p,
{
}

impl<T, A: Allocator> Default for Weak<T, A> {
    /// A weak handle without a block.
    fn default() -> (weak: Self)
        ensures
            weak.is_dangling(),
    {
        Weak::new()
    }
}

} // verus!
