//! Two memory-management building blocks over a pluggable allocator: a
//! growable contiguous buffer, and a reference-counted shared pointer with a
//! non-owning weak counterpart.
//!
//! Memory is modelled, not touched. A block is an address together with the
//! layout that it was requested with, an allocator is a record of the blocks
//! that it has issued, and every address and size is computed with checks.
//! What the types do with their blocks is stated in contracts and proved:
//! nothing here panics, and a call that cannot report a failure asks that
//! there be none.
//!
//! - `layout`: sizes and alignments, and the arithmetic that composes them.
//! - `allocator`: the allocator abstraction.
//! - `arena`: the allocator that is used where none is named.
//! - `collections`: the errors of a reservation.
//! - `raw_vec`: the growable buffer.
//! - `atomic`: counter cells with the operations of an atomic integer.
//! - `refcount`: the counting protocol of shared blocks, and its laws.
//! - `sync`: the shared pointer, the weak pointer and their heap; in
//!   `sync::construct`, the constructors for payloads that are written
//!   later, slices, strings and boxed values.

pub mod layout;
pub mod allocator;
pub mod arena;
pub mod collections;
pub mod raw_vec;
pub mod atomic;
pub mod refcount;
pub mod sync;
