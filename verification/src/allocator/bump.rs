//! A bump allocator: one cursor that only moves forward, and a count of the
//! allocations that are still outstanding. The arena is reclaimed as a
//! whole, at the moment the count returns to zero.

use vstd::prelude::*;
use crate::allocator::{round_up, lemma_round_up, checked_align_up};

verus! {

/// The mathematical state of a bump allocator.
pub struct BumpModel {
    /// First address of the arena.
    pub heap_start: int,
    /// One past the last address of the arena.
    pub heap_end: int,
    /// The bump pointer: every address below it may be in use.
    pub next: int,
    /// Number of allocations that have not been freed yet.
    pub live: int,
}

impl BumpModel {
    /// The bump pointer never leaves the arena, and an arena without
    /// outstanding allocations is entirely free.
    pub open spec fn wf(self) -> bool {
        &&& 0 <= self.heap_start <= self.next <= self.heap_end <= u64::MAX
        &&& 0 <= self.live <= u64::MAX
        &&& self.live == 0 ==> self.next == self.heap_start
    }

    /// Where the next allocation with this alignment would begin.
    pub open spec fn allocate_start(self, align: int) -> int {
        round_up(self.next, align)
    }

    /// Whether a request fits in what is left of the arena.
    pub open spec fn can_allocate(self, size: int, align: int) -> bool {
        &&& self.allocate_start(align) + size <= self.heap_end
        &&& self.live < u64::MAX
    }

    /// The address that a request is granted, if it fits.
    pub open spec fn granted(self, size: int, align: int) -> Option<u64> {
        if self.can_allocate(size, align) {
            Some(self.allocate_start(align) as u64)
        } else {
            None
        }
    }

    /// The state after a request: unchanged if it does not fit.
    pub open spec fn allocate(self, size: int, align: int) -> BumpModel {
        if self.can_allocate(size, align) {
            BumpModel { next: self.allocate_start(align) + size, live: self.live + 1, ..self }
        } else {
            self
        }
    }

    /// The state after one allocation is freed.
    pub open spec fn deallocate(self) -> BumpModel {
        if self.live == 1 {
            BumpModel { next: self.heap_start, live: 0, ..self }
        } else {
            BumpModel { live: self.live - 1, ..self }
        }
    }

    /// The state after `n` requests of one size and alignment.
    pub open spec fn allocate_n(self, size: int, align: int, n: nat) -> BumpModel
        decreases n,
    {
        if n == 0 {
            self
        } else {
            self.allocate_n(size, align, (n - 1) as nat).allocate(size, align)
        }
    }

    /// Whether each of `n` requests of one size and alignment fits.
    pub open spec fn can_allocate_n(self, size: int, align: int, n: nat) -> bool
        decreases n,
    {
        n > 0 ==> {
            &&& self.can_allocate_n(size, align, (n - 1) as nat)
            &&& self.allocate_n(size, align, (n - 1) as nat).can_allocate(size, align)
        }
    }

    /// The state after `n` allocations are freed.
    pub open spec fn deallocate_n(self, n: nat) -> BumpModel
        decreases n,
    {
        if n == 0 {
            self
        } else {
            self.deallocate().deallocate_n((n - 1) as nat)
        }
    }
}

/// A request leaves a well-formed arena well-formed; a granted block is
/// aligned, lies inside the arena and begins at or after the old bump
/// pointer.
pub proof fn lemma_allocate_in_bounds(s: BumpModel, size: int, align: int)
    requires
        s.wf(),
        size >= 0,
        align > 0,
    ensures
        s.allocate(size, align).wf(),
        s.allocate(size, align).heap_start == s.heap_start,
        s.allocate(size, align).heap_end == s.heap_end,
        s.can_allocate(size, align) ==> {
            &&& s.allocate_start(align) % align == 0
            &&& s.heap_start <= s.next <= s.allocate_start(align)
            &&& s.allocate_start(align) + size == s.allocate(size, align).next
            &&& s.allocate(size, align).next <= s.heap_end
        },
{
    lemma_round_up(s.next, align);
}

/// Freeing one of the outstanding allocations leaves a well-formed arena
/// well-formed.
pub proof fn lemma_deallocate_in_bounds(s: BumpModel)
    requires
        s.wf(),
        s.live > 0,
    ensures
        s.deallocate().wf(),
        s.deallocate().heap_start == s.heap_start,
        s.deallocate().heap_end == s.heap_end,
{
}

/// After `n` granted requests the arena is well-formed, keeps its bounds
/// and counts `n` more outstanding allocations.
pub proof fn lemma_allocate_n(s: BumpModel, size: int, align: int, n: nat)
    requires
        s.wf(),
        size >= 0,
        align > 0,
        s.can_allocate_n(size, align, n),
    ensures
        s.allocate_n(size, align, n).wf(),
        s.allocate_n(size, align, n).heap_start == s.heap_start,
        s.allocate_n(size, align, n).heap_end == s.heap_end,
        s.allocate_n(size, align, n).live == s.live + n,
        s.allocate_n(size, align, n).next >= s.next,
    decreases n,
{
    if n > 0 {
        let m = (n - 1) as nat;
        lemma_allocate_n(s, size, align, m);
        lemma_allocate_in_bounds(s.allocate_n(size, align, m), size, align);
    }
}

/// Freeing `n` of the outstanding allocations keeps the arena well-formed;
/// the bump pointer returns to the start of the arena exactly when none is
/// left outstanding, and stays where it was otherwise.
pub proof fn lemma_deallocate_n(s: BumpModel, n: nat)
    requires
        s.wf(),
        n <= s.live,
    ensures
        s.deallocate_n(n).wf(),
        s.deallocate_n(n).heap_start == s.heap_start,
        s.deallocate_n(n).heap_end == s.heap_end,
        s.deallocate_n(n).live == s.live - n,
        s.deallocate_n(n).next == if n == s.live { s.heap_start } else { s.next },
    decreases n,
{
    if n > 0 {
        lemma_deallocate_in_bounds(s);
        lemma_deallocate_n(s.deallocate(), (n - 1) as nat);
    }
}

/// Requests for no bytes at an address that is already aligned leave the
/// bump pointer where it is.
pub proof fn lemma_empty_requests_stay(s: BumpModel, align: int, n: nat)
    requires
        s.wf(),
        align > 0,
        s.next % align == 0,
    ensures
        s.allocate_n(0, align, n).next == s.next,
        s.allocate_n(0, align, n).heap_start == s.heap_start,
        s.allocate_n(0, align, n).live >= s.live,
    decreases n,
{
    if n > 0 {
        lemma_empty_requests_stay(s, align, (n - 1) as nat);
    }
}

/// Full reclaim: granting `n` requests of one size and alignment and then
/// freeing all `n` returns the bump pointer to the value it had before the
/// first request, provided nothing was outstanding before them. Where
/// something was, the arena is not reclaimed, and the bump pointer is back
/// at its old value only if the requests never moved it.
pub proof fn lemma_full_reclaim(s: BumpModel, size: int, align: int, n: nat)
    requires
        s.wf(),
        size >= 0,
        align > 0,
        s.can_allocate_n(size, align, n),
        s.live == 0 || n == 0 || (size == 0 && s.next % align == 0),
    ensures
        s.allocate_n(size, align, n).deallocate_n(n).next == s.next,
        s.allocate_n(size, align, n).deallocate_n(n).live == s.live,
{
    lemma_allocate_n(s, size, align, n);
    lemma_deallocate_n(s.allocate_n(size, align, n), n);
    if s.live != 0 && n != 0 {
        lemma_empty_requests_stay(s, align, n);
    }
}

/// A bump allocator over one arena of addresses.
pub struct BumpAllocator {
    heap_start: u64,
    heap_end: u64,
    next: u64,
    allocations: u64,
}

impl View for BumpAllocator {
    type V = BumpModel;

    closed spec fn view(&self) -> BumpModel {
        BumpModel {
            heap_start: self.heap_start as int,
            heap_end: self.heap_end as int,
            next: self.next as int,
            live: self.allocations as int,
        }
    }
}

impl BumpAllocator {
    /// The allocator's invariant: that of its state.
    pub open spec fn wf(&self) -> bool {
        self@.wf()
    }

    /// An allocator over an empty arena at address zero.
    pub fn new() -> (b: BumpAllocator)
        ensures
            b.wf(),
            b@ == (BumpModel { heap_start: 0, heap_end: 0, next: 0, live: 0 }),
    {
        BumpAllocator { heap_start: 0, heap_end: 0, next: 0, allocations: 0 }
    }

    /// Takes over the arena of `heap_size` bytes at `heap_start`, with
    /// nothing allocated in it.
    pub fn init(&mut self, heap_start: u64, heap_size: u64)
        requires
            heap_start + heap_size <= u64::MAX,
        ensures
            final(self).wf(),
            final(self)@ == (BumpModel {
                heap_start: heap_start as int,
                heap_end: heap_start + heap_size,
                next: heap_start as int,
                live: 0,
            }),
    {
        self.heap_start = heap_start;
        self.heap_end = heap_start + heap_size;
        self.next = heap_start;
        self.allocations = 0;
    }

    /// First address of the arena.
    pub fn heap_start(&self) -> (a: u64)
        ensures
            a == self@.heap_start,
    {
        self.heap_start
    }

    /// One past the last address of the arena.
    pub fn heap_end(&self) -> (a: u64)
        ensures
            a == self@.heap_end,
    {
        self.heap_end
    }

    /// The bump pointer.
    pub fn next(&self) -> (a: u64)
        ensures
            a == self@.next,
    {
        self.next
    }

    /// Number of allocations that have not been freed yet.
    pub fn allocations(&self) -> (n: u64)
        ensures
            n == self@.live,
    {
        self.allocations
    }

    /// Grants `size` bytes at the first multiple of `align` at or after the
    /// bump pointer, or nothing when they do not fit below the end of the
    /// arena. A request that does not fit changes nothing.
    pub fn allocate(&mut self, size: u64, align: u64) -> (addr: Option<u64>)
        requires
            old(self).wf(),
            align > 0,
        ensures
            final(self).wf(),
            final(self)@ == old(self)@.allocate(size as int, align as int),
            addr == old(self)@.granted(size as int, align as int),
            match addr {
                Some(a) => {
                    &&& a % align == 0
                    &&& old(self)@.heap_start <= old(self)@.next <= a
                    &&& a + size == final(self)@.next
                    &&& a + size <= old(self)@.heap_end
                    &&& final(self)@.live == old(self)@.live + 1
                },
                None => true,
            },
    {
        proof {
            lemma_allocate_in_bounds(self@, size as int, align as int);
        }
        let start: u64 = match checked_align_up(self.next, align) {
            Some(start) => start,
            None => {
                return None;
            },
        };
        let end: u64 = match start.checked_add(size) {
            Some(end) => end,
            None => {
                return None;
            },
        };
        if end > self.heap_end || self.allocations == u64::MAX {
            None
        } else {
            self.next = end;
            self.allocations = self.allocations + 1;
            Some(start)
        }
    }

    /// Gives one allocation back. The block itself is not inspected: the
    /// arena is reclaimed as a whole when the last outstanding allocation
    /// is freed.
    pub fn deallocate(&mut self, ptr: u64, size: u64, align: u64)
        requires
            old(self).wf(),
            old(self)@.live > 0,
        ensures
            final(self).wf(),
            final(self)@ == old(self)@.deallocate(),
    {
        self.allocations = self.allocations - 1;
        if self.allocations == 0 {
            self.next = self.heap_start;
        }
    }
}

} // verus!
