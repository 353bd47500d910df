//! Mapping the heap window: which pages cover it, and the order in which
//! frames are requested and pages mapped before any allocator may use it.

use vstd::prelude::*;
use crate::allocator::{HEAP_SIZE, HEAP_START};

verus! {

/// Size of a page and of a frame in bytes.
pub const PAGE_SIZE: u64 = 4096;

/// The start address of the page that holds `addr`.
pub open spec fn page_of(addr: int) -> int {
    addr - addr % (PAGE_SIZE as int)
}

/// A window of virtual addresses that backs the heap.
#[derive(Clone, Copy, Debug, PartialEq, Eq, Structural)]
pub struct HeapRegion {
    /// First address of the window.
    pub start: u64,
    /// Size of the window in bytes.
    pub size: u64,
}

impl HeapRegion {
    /// The window is not empty and ends within the address space.
    pub open spec fn wf(self) -> bool {
        self.size > 0 && self.start + self.size <= u64::MAX
    }

    /// The page that holds the first byte of the window.
    pub open spec fn spec_first_page(self) -> int {
        page_of(self.start as int)
    }

    /// The page that holds the last byte of the window.
    pub open spec fn spec_last_page(self) -> int {
        page_of(self.start + self.size - 1)
    }

    /// Number of pages that cover the window.
    pub open spec fn spec_page_count(self) -> int {
        (self.spec_last_page() - self.spec_first_page()) / (PAGE_SIZE as int) + 1
    }

    /// The `index`-th page of the window.
    pub open spec fn spec_page(self, index: int) -> int {
        self.spec_first_page() + index * PAGE_SIZE
    }

    /// The window of the kernel heap.
    pub fn kernel_heap() -> (r: HeapRegion)
        ensures
            r.wf(),
            r == (HeapRegion { start: HEAP_START, size: HEAP_SIZE }),
    {
        HeapRegion { start: HEAP_START, size: HEAP_SIZE }
    }

    /// The page that holds the first byte of the window.
    pub fn first_page(&self) -> (page: u64)
        ensures
            page == self.spec_first_page(),
    {
        self.start - self.start % PAGE_SIZE
    }

    /// The page that holds the last byte of the window.
    pub fn last_page(&self) -> (page: u64)
        requires
            self.wf(),
        ensures
            page == self.spec_last_page(),
    {
        let last: u64 = self.start + (self.size - 1);
        last - last % PAGE_SIZE
    }

    /// Number of pages that cover the window.
    pub fn page_count(&self) -> (n: u64)
        requires
            self.wf(),
        ensures
            n == self.spec_page_count(),
            n >= 1,
    {
        (self.last_page() - self.first_page()) / PAGE_SIZE + 1
    }
}

/// The pages of a window are page-aligned, ascend from the first page to
/// the last, and between them cover every byte of the window.
pub proof fn lemma_pages_cover(r: HeapRegion, addr: int)
    requires
        r.wf(),
        r.start <= addr < r.start + r.size,
    ensures
        r.spec_page(0) == r.spec_first_page(),
        r.spec_page(r.spec_page_count() - 1) == r.spec_last_page(),
        exists|index: int|
            0 <= index < r.spec_page_count() && #[trigger] r.spec_page(index) <= addr < r.spec_page(
                index,
            ) + PAGE_SIZE,
{
    let first = r.spec_first_page();
    let last = r.spec_last_page();
    let index = (page_of(addr) - first) / 4096;
    assert(first % 4096 == 0 && last % 4096 == 0 && page_of(addr) % 4096 == 0);
    assert(first <= page_of(addr) <= last);
    assert(r.spec_page(index) == page_of(addr));
    assert(0 <= index < r.spec_page_count());
    assert(r.spec_page(index) <= addr < r.spec_page(index) + PAGE_SIZE);
}

/// Why the heap window could not be mapped.
#[derive(Clone, Copy, Debug, PartialEq, Eq, Structural)]
pub enum HeapInitError {
    /// No physical frame was left for a page of the window.
    FrameExhausted,
    /// The page table refused the mapping of a page.
    MappingFailed,
}

/// A mapping to establish: one page onto one frame, with its permissions.
#[derive(Clone, Copy, Debug, PartialEq, Eq, Structural)]
pub struct MapRequest {
    /// Start address of the virtual page.
    pub page: u64,
    /// Start address of the physical frame.
    pub frame: u64,
    /// The page is present.
    pub present: bool,
    /// The page may be written.
    pub writable: bool,
}

/// What the one who maps the heap has to do next.
#[derive(Clone, Copy, Debug, PartialEq, Eq, Structural)]
pub enum MapStep {
    /// Request a frame for this page.
    RequestFrame { page: u64 },
    /// Every page is mapped: the allocator may take over the window.
    InitAllocator { heap_start: u64, heap_size: u64 },
}

/// Progress of mapping a heap window, page by page in ascending order.
pub struct HeapMapping {
    region: HeapRegion,
    mapped: u64,
}

impl HeapMapping {
    /// The window being mapped.
    pub closed spec fn region(&self) -> HeapRegion {
        self.region
    }

    /// Number of pages mapped so far.
    pub closed spec fn mapped(&self) -> int {
        self.mapped as int
    }

    /// The window is valid and no more pages are mapped than cover it.
    pub open spec fn wf(&self) -> bool {
        self.region().wf() && 0 <= self.mapped() <= self.region().spec_page_count()
    }

    /// Whether every page of the window is mapped.
    pub open spec fn complete(&self) -> bool {
        self.mapped() == self.region().spec_page_count()
    }

    /// Starts with no page mapped.
    pub fn new(region: HeapRegion) -> (m: HeapMapping)
        requires
            region.wf(),
        ensures
            m.wf(),
            m.region() == region,
            m.mapped() == 0,
    {
        HeapMapping { region, mapped: 0 }
    }

    /// The next thing to do: a frame for the first page that is not yet
    /// mapped, or, once the whole window is mapped and not before, the
    /// initialisation of the allocator over it.
    pub fn next_step(&self) -> (step: MapStep)
        requires
            self.wf(),
        ensures
            step == if self.complete() {
                MapStep::InitAllocator {
                    heap_start: self.region().start,
                    heap_size: self.region().size,
                }
            } else {
                MapStep::RequestFrame { page: self.region().spec_page(self.mapped()) as u64 }
            },
            step matches MapStep::RequestFrame { page } ==> page == self.region().spec_page(
                self.mapped(),
            ),
    {
        let count: u64 = self.region.page_count();
        if self.mapped == count {
            MapStep::InitAllocator { heap_start: self.region.start, heap_size: self.region.size }
        } else {
            proof {
                lemma_page_in_range(self.region, self.mapped as int);
            }
            MapStep::RequestFrame { page: self.region.first_page() + self.mapped * PAGE_SIZE }
        }
    }

    /// Takes the answer to a frame request. Without a frame the mapping
    /// fails at once; with one, the page is to be mapped onto it, present
    /// and writable.
    pub fn on_frame(&self, frame: Option<u64>) -> (request: Result<MapRequest, HeapInitError>)
        requires
            self.wf(),
            !self.complete(),
        ensures
            request == match frame {
                None => Err::<MapRequest, HeapInitError>(HeapInitError::FrameExhausted),
                Some(f) => Ok::<MapRequest, HeapInitError>(
                    MapRequest {
                        page: self.region().spec_page(self.mapped()) as u64,
                        frame: f,
                        present: true,
                        writable: true,
                    },
                ),
            },
    {
        match frame {
            None => Err(HeapInitError::FrameExhausted),
            Some(f) => {
                proof {
                    lemma_page_in_range(self.region, self.mapped as int);
                }
                Ok(
                    MapRequest {
                        page: self.region.first_page() + self.mapped * PAGE_SIZE,
                        frame: f,
                        present: true,
                        writable: true,
                    },
                )
            },
        }
    }

    /// Takes the outcome of mapping and flushing the current page: on
    /// success the next page is due, on failure nothing changes and the
    /// mapping has failed.
    pub fn on_mapped(&mut self, success: bool) -> (outcome: Result<(), HeapInitError>)
        requires
            old(self).wf(),
            !old(self).complete(),
        ensures
            final(self).wf(),
            final(self).region() == old(self).region(),
            final(self).mapped() == if success {
                old(self).mapped() + 1
            } else {
                old(self).mapped()
            },
            outcome == if success {
                Ok::<(), HeapInitError>(())
            } else {
                Err::<(), HeapInitError>(HeapInitError::MappingFailed)
            },
    {
        if success {
            self.mapped = self.mapped + 1;
            Ok(())
        } else {
            Err(HeapInitError::MappingFailed)
        }
    }
}

/// Each page of a window starts at or before the window's last page.
pub proof fn lemma_page_in_range(r: HeapRegion, index: int)
    requires
        r.wf(),
        0 <= index < r.spec_page_count(),
    ensures
        r.spec_first_page() <= r.spec_page(index) <= r.spec_last_page(),
        r.spec_page(index) % (PAGE_SIZE as int) == 0,
        index * PAGE_SIZE <= u64::MAX,
{
}

} // verus!
