use vstd::prelude::*;
use vstd::arithmetic::div_mod::{
    lemma_fundamental_div_mod, lemma_mod_add_multiples_vanish, lemma_mod_multiples_basic,
};
use crate::HvError;

verus! {

/// Size of one physical page, the granule of every allocation the core makes.
pub const PAGE_SIZE: u64 = 4096;

/// Page-granular bump allocator over a fixed heap extent `[next, end)`.
/// `next` only ever increases; nothing is ever reclaimed, because every
/// allocation (page tables, guest memory, the host stack) lives exactly as
/// long as the hypervisor itself.
pub struct BumpAllocator {
    /// First address not yet handed out.
    pub next: u64,
    /// First address past the heap extent.
    pub end: u64,
    /// Whether `init` has established the extent.
    pub active: bool,
}

/// `x` rounded up to the next multiple of `align`.
pub open spec fn spec_round_up(x: int, align: int) -> int
    recommends
        align >= 1,
{
    if x % align == 0 {
        x
    } else {
        x + align - x % align
    }
}

/// What one successful allocation did: `addr` is the aligned address that was
/// handed out, and the extent advanced to just past the reserved bytes.
pub open spec fn alloc_post(
    pre: BumpAllocator,
    post: BumpAllocator,
    size: u64,
    align: u64,
    addr: u64,
) -> bool
    recommends
        align >= 1,
{
    &&& addr >= pre.next
    &&& addr % align == 0
    &&& addr + size <= pre.end
    &&& post.next == addr + size
    &&& post.end == pre.end
    &&& post.active == pre.active
}

/// The extent still has room for `size` bytes at alignment `align`.
pub open spec fn fits(a: BumpAllocator, size: int, align: int) -> bool
    recommends
        align >= 1,
{
    spec_round_up(a.next as int, align) + size <= a.end
}

impl BumpAllocator {
    pub open spec fn wf(self) -> bool {
        self.active ==> self.next <= self.end
    }

    /// A fresh allocator with no extent yet; `allocate` is not usable until
    /// `init` has run.
    pub fn new() -> (r: BumpAllocator)
        ensures
            !r.active,
            r.wf(),
    {
        BumpAllocator { next: 0, end: 0, active: false }
    }

    /// Establishes the heap extent once. Re-initialising an active allocator
    /// is a design violation, so an active receiver is excluded outright.
    pub fn init(&mut self, start: u64, end: u64)
        requires
            !old(self).active,
            start <= end,
        ensures
            *final(self) == (BumpAllocator { next: start, end: end, active: true }),
    {
        self.next = start;
        self.end = end;
        self.active = true;
    }

    /// Rounds `next` up to `align`, reserves `size` bytes and returns the
    /// pre-reservation address. A reservation that would run past `end` is
    /// refused and leaves the extent untouched; the caller treats that as
    /// fatal.
    pub fn allocate(&mut self, size: u64, align: u64) -> (r: Result<u64, HvError>)
        requires
            old(self).active,
            old(self).wf(),
            align >= 1,
        ensures
            final(self).active,
            final(self).wf(),
            final(self).end == old(self).end,
            final(self).next >= old(self).next,
            r is Ok <==> spec_round_up(old(self).next as int, align as int) + size <= old(
                self,
            ).end,
            r is Err ==> *final(self) == *old(self) && r == Err::<u64, HvError>(
                HvError::OutOfMemory,
            ),
            r is Ok ==> r->Ok_0 == spec_round_up(old(self).next as int, align as int),
            r is Ok ==> alloc_post(*old(self), *final(self), size, align, r->Ok_0),
    {
        let rem = self.next % align;
        let pad = if rem == 0 {
            0u64
        } else {
            align - rem
        };
        proof {
            assert(self.next + pad == spec_round_up(self.next as int, align as int));
            if rem != 0 {
                let x = self.next as int;
                let a = align as int;
                lemma_fundamental_div_mod(x, a);
                assert(x + (a - x % a) == (x / a + 1) * a) by (nonlinear_arith)
                    requires
                        x == a * (x / a) + x % a,
                ;
                lemma_mod_multiples_basic(x / a + 1, a);
            }
        }
        if self.next > u64::MAX - pad {
            return Err(HvError::OutOfMemory);
        }
        let addr = self.next + pad;
        if addr > self.end || size > self.end - addr {
            return Err(HvError::OutOfMemory);
        }
        self.next = addr + size;
        Ok(addr)
    }

    /// Deliberately a no-op: the core never reclaims memory.
    pub fn dealloc(&mut self, addr: u64, size: u64)
        ensures
            *final(self) == *old(self),
    {
        let _ = addr;
        let _ = size;
    }
}

/// One page-sized, page-aligned allocation keeps the extent able to serve the
/// remaining pages of a multi-page reservation plan.
pub proof fn lemma_page_alloc_preserves_fit(
    pre: BumpAllocator,
    post: BumpAllocator,
    addr: u64,
    pages: int,
)
    requires
        alloc_post(pre, post, PAGE_SIZE, PAGE_SIZE, addr),
        addr == spec_round_up(pre.next as int, PAGE_SIZE as int),
        pages >= 1,
        fits(pre, pages * (PAGE_SIZE as int), PAGE_SIZE as int),
    ensures
        fits(post, (pages - 1) * (PAGE_SIZE as int), PAGE_SIZE as int),
        post.next <= post.end,
{
    lemma_mod_add_multiples_vanish(addr as int, PAGE_SIZE as int);
    assert(post.next % PAGE_SIZE == 0);
    assert(spec_round_up(post.next as int, PAGE_SIZE as int) == post.next);
}

/// Allocation addresses strictly increase across successive calls, and each
/// is a multiple of the alignment its caller asked for.
pub proof fn lemma_alloc_addresses_increase(
    a0: BumpAllocator,
    a1: BumpAllocator,
    a2: BumpAllocator,
    size1: u64,
    align1: u64,
    addr1: u64,
    size2: u64,
    align2: u64,
    addr2: u64,
)
    requires
        alloc_post(a0, a1, size1, align1, addr1),
        alloc_post(a1, a2, size2, align2, addr2),
        size1 >= 1,
    ensures
        addr2 > addr1,
        addr1 % align1 == 0,
        addr2 % align2 == 0,
{
}

/// Page-granular allocation, the form every caller in the core uses: `len`
/// bytes at page alignment.
pub fn alloc_pages(palloc: &mut BumpAllocator, len: u64) -> (r: Result<u64, HvError>)
    requires
        old(palloc).active,
        old(palloc).wf(),
    ensures
        final(palloc).active,
        final(palloc).wf(),
        final(palloc).end == old(palloc).end,
        final(palloc).next >= old(palloc).next,
        r is Ok <==> fits(*old(palloc), len as int, PAGE_SIZE as int),
        r is Err ==> *final(palloc) == *old(palloc) && r == Err::<u64, HvError>(
            HvError::OutOfMemory,
        ),
        r is Ok ==> r->Ok_0 == spec_round_up(old(palloc).next as int, PAGE_SIZE as int),
        r is Ok ==> alloc_post(*old(palloc), *final(palloc), len, PAGE_SIZE, r->Ok_0),
    {
    palloc.allocate(len, PAGE_SIZE)
}

} // verus!
