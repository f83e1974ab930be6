//! Layouts: the size and alignment of a memory request, and the checked
//! arithmetic that composes them.

use vstd::prelude::*;
use vstd::arithmetic::power2::is_pow2;

verus! {

/// The largest block size that passes the platform's guard.
///
/// On platforms narrower than 64 bits a request may not exceed half of the
/// address space. On 64-bit platforms every `usize` passes: a request above
/// `isize::MAX` is left to the allocator, which declines it.
pub open spec fn alloc_guard_limit() -> int {
    if usize::BITS < 64 {
        isize::MAX as int
    } else {
        usize::MAX as int
    }
}

/// The padding that brings `size` up to the next multiple of `align`.
pub open spec fn padding_for(size: int, align: int) -> int {
    (align - size % align) % align
}

/// `size` rounded up to the next multiple of `align`.
pub open spec fn round_up(size: int, align: int) -> int {
    size + padding_for(size, align)
}

/// `round_up` yields the multiple of `align` in `[size, size + align)`.
pub proof fn lemma_round_up(size: int, align: int)
    requires
        align > 0,
    ensures
        round_up(size, align) % align == 0,
        size <= round_up(size, align) < size + align,
        size % align == 0 ==> round_up(size, align) == size,
{
    let r = size % align;
    let q = size / align;
    vstd::arithmetic::div_mod::lemma_fundamental_div_mod(size, align);
    vstd::arithmetic::div_mod::lemma_mod_bound(size, align);
    if r == 0 {
        assert(padding_for(size, align) == 0) by {
            vstd::arithmetic::div_mod::lemma_mod_self_0(align);
        }
    } else {
        vstd::arithmetic::div_mod::lemma_small_mod((align - r) as nat, align as nat);
        assert(round_up(size, align) == align * (q + 1)) by (nonlinear_arith)
            requires
                size == align * q + r,
                round_up(size, align) == size + (align - r),
        ;
        vstd::arithmetic::div_mod::lemma_mod_multiples_basic(q + 1, align);
        assert((align * (q + 1)) % align == 0) by {
            vstd::arithmetic::mul::lemma_mul_is_commutative(align, q + 1);
        }
    }
}

/// A capacity or size computation left the representable or addressable range.
#[derive(Clone, Copy, Debug, PartialEq, Eq, Structural)]
pub struct CapacityOverflow;

/// A size and alignment that do not form a layout.
#[derive(Clone, Copy, Debug, PartialEq, Eq, Structural)]
pub struct LayoutErr;

/// The size and alignment of a memory block.
#[derive(Clone, Copy, Debug, PartialEq, Eq, Structural)]
pub struct Layout {
    pub size: usize,
    pub align: usize,
}

/// Whether `n` is a power of two.
pub fn is_power_of_two(n: usize) -> (b: bool)
    ensures
        b == is_pow2(n as int),
{
    reveal(is_pow2);
    if n == 0 {
        return false;
    }
    let mut m: usize = n;
    while m % 2 == 0
        invariant
            0 < m <= n,
            is_pow2(m as int) == is_pow2(n as int),
        decreases m,
    {
        reveal(is_pow2);
        m = m / 2;
    }
    m == 1
}

impl Layout {
    /// The alignment is a power of two, and the size, rounded up to the
    /// alignment, stays within the addressable range.
    pub open spec fn valid(self) -> bool {
        &&& is_pow2(self.align as int)
        &&& round_up(self.size as int, self.align as int) <= isize::MAX
    }

    /// A valid layout has a positive alignment and a size within `isize`.
    pub proof fn lemma_valid(self)
        requires
            self.valid(),
        ensures
            self.align > 0,
            self.size <= round_up(self.size as int, self.align as int) <= isize::MAX,
    {
        reveal(is_pow2);
        lemma_round_up(self.size as int, self.align as int);
    }

    /// The layout of `n` consecutive values of `T`, where it exists.
    pub open spec fn spec_array<T>(n: int) -> Option<Layout> {
        if n * vstd::layout::size_of::<T>() <= isize::MAX {
            Some(
                Layout {
                    size: (n * vstd::layout::size_of::<T>()) as usize,
                    align: vstd::layout::align_of::<T>() as usize,
                },
            )
        } else {
            None
        }
    }

    /// The layout of a value of `T`.
    pub open spec fn spec_new<T>() -> Layout {
        Layout {
            size: vstd::layout::size_of::<T>() as usize,
            align: vstd::layout::align_of::<T>() as usize,
        }
    }

    /// The layout of a record that holds `self` followed by `next`, and the
    /// offset of `next` in it; `None` where it leaves the addressable range.
    pub open spec fn spec_extend(self, next: Layout) -> Option<(Layout, usize)> {
        let align = if self.align >= next.align {
            self.align
        } else {
            next.align
        };
        let offset = round_up(self.size as int, next.align as int);
        let size = offset + next.size;
        if round_up(size, align as int) <= isize::MAX {
            Some((Layout { size: size as usize, align }, offset as usize))
        } else {
            None
        }
    }

    /// Builds a layout after checking that it is valid.
    pub fn from_size_align(size: usize, align: usize) -> (r: Result<Layout, LayoutErr>)
        ensures
            r is Ok <==> (Layout { size, align }).valid(),
            r is Ok ==> r->Ok_0 == (Layout { size, align }),
    {
        if !is_power_of_two(align) {
            return Err(LayoutErr);
        }
        proof {
            reveal(is_pow2);
            lemma_round_up(size as int, align as int);
        }
        let padding = (align - size % align) % align;
        if size > isize::MAX as usize || padding > isize::MAX as usize - size {
            return Err(LayoutErr);
        }
        Ok(Layout { size, align })
    }

    /// Builds a layout without checking it.
    pub fn from_size_align_unchecked(size: usize, align: usize) -> (r: Layout)
        ensures
            r == (Layout { size, align }),
    {
        Layout { size, align }
    }

    /// The layout of a value of `T`.
    pub fn new<T>() -> (r: Layout)
        ensures
            r == Layout::spec_new::<T>(),
            r.valid(),
            r.size == vstd::layout::size_of::<T>(),
            r.align == vstd::layout::align_of::<T>(),
            r.size % r.align == 0,
    {
        vstd::layout::layout_for_type_is_valid::<T>();
        let r = Layout { size: core::mem::size_of::<T>(), align: core::mem::align_of::<T>() };
        proof {
            lemma_round_up(r.size as int, r.align as int);
        }
        r
    }

    /// The layout of the value `t`.
    pub fn for_value<T>(t: &T) -> (r: Layout)
        ensures
            r == Layout::spec_new::<T>(),
            r.valid(),
    {
        Layout::new::<T>()
    }

    /// The layout of `n` consecutive values of `T`.
    pub fn array<T>(n: usize) -> (r: Result<Layout, LayoutErr>)
        ensures
            r is Ok <==> Layout::spec_array::<T>(n as int) is Some,
            r is Ok ==> Some(r->Ok_0) == Layout::spec_array::<T>(n as int) && r->Ok_0.valid(),
    {
        let elem = Layout::new::<T>();
        if elem.size == 0 {
            assert(n * 0 == 0);
            proof {
                lemma_round_up(0, elem.align as int);
            }
            return Ok(Layout { size: 0, align: elem.align });
        }
        if n > isize::MAX as usize / elem.size {
            assert(n * elem.size > isize::MAX) by (nonlinear_arith)
                requires
                    n > (isize::MAX as usize) / elem.size,
                    elem.size > 0,
            ;
            return Err(LayoutErr);
        }
        assert(n * elem.size <= isize::MAX) by (nonlinear_arith)
            requires
                n <= (isize::MAX as usize) / elem.size,
                elem.size > 0,
        ;
        let size = n * elem.size;
        proof {
            assert(size as int % elem.align as int == 0) by {
                vstd::arithmetic::div_mod::lemma_mul_mod_noop_right(
                    n as int,
                    elem.size as int,
                    elem.align as int,
                );
                assert(n * 0 == 0);
                vstd::arithmetic::div_mod::lemma_small_mod(0, elem.align as nat);
            }
            lemma_round_up(size as int, elem.align as int);
        }
        Ok(Layout { size, align: elem.align })
    }

    /// The size in bytes.
    pub fn size(&self) -> (r: usize)
        ensures
            r == self.size,
    {
        self.size
    }

    /// The alignment in bytes.
    pub fn align(&self) -> (r: usize)
        ensures
            r == self.align,
    {
        self.align
    }

    /// The padding that must follow `self` so that what comes next is aligned
    /// to `align`.
    pub fn padding_needed_for(&self, align: usize) -> (r: usize)
        requires
            align > 0,
        ensures
            r == padding_for(self.size as int, align as int),
            r < align,
            (self.size + r) % (align as int) == 0,
    {
        proof {
            lemma_round_up(self.size as int, align as int);
        }
        (align - self.size % align) % align
    }

    /// The layout with its size rounded up to its alignment.
    pub fn pad_to_align(&self) -> (r: Layout)
        requires
            self.valid(),
        ensures
            r.align == self.align,
            r.size == round_up(self.size as int, self.align as int),
            r.size % r.align == 0,
            r.valid(),
    {
        proof {
            reveal(is_pow2);
            lemma_round_up(self.size as int, self.align as int);
        }
        let r = Layout { size: self.size + self.padding_needed_for(self.align), align: self.align };
        proof {
            lemma_round_up(r.size as int, r.align as int);
        }
        r
    }

    /// The layout of a record that holds `self` followed by `next`, with the
    /// offset at which `next` starts.
    pub fn extend(&self, next: Layout) -> (r: Result<(Layout, usize), LayoutErr>)
        requires
            self.valid(),
            next.valid(),
        ensures
            r is Ok <==> self.spec_extend(next) is Some,
            r is Ok ==> Some(r->Ok_0) == self.spec_extend(next) && r->Ok_0.0.valid(),
    {
        proof {
            reveal(is_pow2);
            lemma_round_up(self.size as int, self.align as int);
            lemma_round_up(self.size as int, next.align as int);
            lemma_round_up(next.size as int, next.align as int);
        }
        let align = if self.align >= next.align {
            self.align
        } else {
            next.align
        };
        let pad = self.padding_needed_for(next.align);
        let limit = isize::MAX as usize;
        if pad > limit - self.size {
            proof {
                lemma_round_up(self.size + pad + next.size, align as int);
            }
            return Err(LayoutErr);
        }
        let offset = self.size + pad;
        if next.size > limit - offset {
            proof {
                lemma_round_up(offset + next.size, align as int);
            }
            return Err(LayoutErr);
        }
        let size = offset + next.size;
        proof {
            lemma_round_up(size as int, align as int);
        }
        let tail = (align - size % align) % align;
        if tail > limit - size {
            return Err(LayoutErr);
        }
        Ok((Layout { size, align }, offset))
    }
}

/// Checks a byte size against the platform's guard.
pub fn alloc_guard(alloc_size: usize) -> (r: Result<(), CapacityOverflow>)
    ensures
        r is Ok <==> alloc_size <= alloc_guard_limit(),
{
    broadcast use vstd::layout::layout_of_primitives;

    if core::mem::size_of::<usize>() < 8 && alloc_size > isize::MAX as usize {
        Err(CapacityOverflow)
    } else {
        Ok(())
    }
}

} // verus!
