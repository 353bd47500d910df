//! A size-class allocator: one chain of free blocks per power-of-two block
//! size, and a bump allocator behind it that serves oversized requests and
//! carves fresh blocks.

use vstd::prelude::*;
use vstd::arithmetic::power2::is_pow2;
use crate::allocator::bump::{lemma_full_reclaim, BumpAllocator, BumpModel, lemma_allocate_in_bounds, lemma_deallocate_in_bounds};

verus! {

/// Number of size classes.
pub const CLASS_COUNT: usize = 9;

/// Size in bytes of the largest block class.
pub const MAX_BLOCK_SIZE: u64 = 2048;

/// The block size of a class: 8 bytes for class 0, doubling with each class.
pub open spec fn spec_block_size(class: int) -> int {
    if class == 0 {
        8
    } else if class == 1 {
        16
    } else if class == 2 {
        32
    } else if class == 3 {
        64
    } else if class == 4 {
        128
    } else if class == 5 {
        256
    } else if class == 6 {
        512
    } else if class == 7 {
        1024
    } else {
        2048
    }
}

/// The bytes a block must have to serve a request: a block is aligned to
/// its own size, so it must be at least as large as the alignment.
pub open spec fn required_block_size(size: int, align: int) -> int {
    if size >= align {
        size
    } else {
        align
    }
}

/// The class that serves a request, or `None` for a request that is too
/// large or too strictly aligned for any class.
pub open spec fn class_of(size: int, align: int) -> Option<int> {
    let need = required_block_size(size, align);
    if need <= 8 {
        Some(0)
    } else if need <= 16 {
        Some(1)
    } else if need <= 32 {
        Some(2)
    } else if need <= 64 {
        Some(3)
    } else if need <= 128 {
        Some(4)
    } else if need <= 256 {
        Some(5)
    } else if need <= 512 {
        Some(6)
    } else if need <= 1024 {
        Some(7)
    } else if need <= 2048 {
        Some(8)
    } else {
        None
    }
}

/// A request has a class exactly when neither its size nor its alignment
/// exceeds the largest block, and its class is the smallest whose blocks
/// hold it.
pub proof fn lemma_class_of_smallest(size: int, align: int)
    ensures
        class_of(size, align) is None <==> size > MAX_BLOCK_SIZE || align > MAX_BLOCK_SIZE,
        class_of(size, align) matches Some(c) ==> {
            &&& 0 <= c < CLASS_COUNT
            &&& size <= spec_block_size(c)
            &&& align <= spec_block_size(c)
            &&& forall|d: int| 0 <= d < c ==> spec_block_size(d) < required_block_size(size, align)
        },
{
}

/// Of two powers of two, the smaller divides the larger.
pub proof fn lemma_pow2_divides(a: int, b: int)
    requires
        is_pow2(a),
        is_pow2(b),
        a <= b,
    ensures
        b % a == 0,
    decreases a,
{
    reveal(is_pow2);
    if a > 1 {
        lemma_pow2_divides(a / 2, b / 2);
        let k = (b / 2) / (a / 2);
        vstd::arithmetic::div_mod::lemma_fundamental_div_mod(b / 2, a / 2);
        assert(b == k * a) by (nonlinear_arith)
            requires
                b == 2 * (b / 2),
                a == 2 * (a / 2),
                b / 2 == (a / 2) * k,
        ;
        vstd::arithmetic::div_mod::lemma_mod_multiples_basic(k, a);
    }
}

/// An address aligned to a block size is aligned to every power of two up
/// to that block size.
pub proof fn lemma_block_aligned(addr: int, class: int, align: int)
    requires
        0 <= class < CLASS_COUNT,
        addr >= 0,
        addr % spec_block_size(class) == 0,
        is_pow2(align),
        align <= spec_block_size(class),
    ensures
        addr % align == 0,
{
    let bs = spec_block_size(class);
    assert(is_pow2(bs)) by {
        reveal_with_fuel(is_pow2, 13);
    }
    lemma_pow2_divides(align, bs);
    reveal(is_pow2);
    vstd::arithmetic::div_mod::lemma_fundamental_div_mod(addr, bs);
    vstd::arithmetic::div_mod::lemma_fundamental_div_mod(bs, align);
    let q = addr / bs;
    let r = bs / align;
    assert(addr == (q * r) * align) by (nonlinear_arith)
        requires
            addr == bs * q,
            bs == align * r,
    ;
    vstd::arithmetic::div_mod::lemma_mod_multiples_basic(q * r, align);
}

/// Whether two ranges of addresses, each given by its start and its
/// length, have no address in common.
pub open spec fn separate(a: int, a_len: int, b: int, b_len: int) -> bool {
    a + a_len <= b || b + b_len <= a
}

/// The bytes that a request occupies: the whole block for a request
/// served by a class, the requested size otherwise.
pub open spec fn extent(size: int, align: int) -> int {
    match class_of(size, align) {
        Some(c) => spec_block_size(c),
        None => size,
    }
}

/// An allocation that has been granted and not given back.
pub struct LiveBlock {
    /// Its first address.
    pub start: u64,
    /// The bytes it occupies.
    pub len: int,
    /// The class that served it, if one did.
    pub class: Option<int>,
}

/// What is outstanding once a request has been granted `start`.
pub open spec fn live_block(start: u64, size: int, align: int) -> LiveBlock {
    LiveBlock { start, len: extent(size, align), class: class_of(size, align) }
}

/// The mathematical state of the size-class allocator.
pub struct BlockModel {
    /// For each class its chain of free blocks; the last address of a
    /// chain is its head, the block that is handed out next.
    pub free: Seq<Seq<u64>>,
    /// The outstanding allocations, in the order in which they were
    /// granted.
    pub live: Seq<LiveBlock>,
    /// The arena that blocks are carved from.
    pub fallback: BumpModel,
}

impl BlockModel {
    /// Whether `addr` is where a block of `class` can lie: aligned to the
    /// block size, inside the part of the arena that has been carved.
    pub open spec fn is_block(self, addr: u64, class: int) -> bool {
        &&& (addr as int) % spec_block_size(class) == 0
        &&& self.fallback.heap_start <= addr
        &&& addr + spec_block_size(class) <= self.fallback.next
    }

    /// Whether `b` can be outstanding: it lies inside the carved part of
    /// the arena, and if a class served it, it is a block of that class.
    pub open spec fn is_live(self, b: LiveBlock) -> bool {
        &&& b.len >= 0
        &&& self.fallback.heap_start <= b.start
        &&& b.start + b.len <= self.fallback.next
        &&& b.class matches Some(c) ==> {
            &&& 0 <= c < CLASS_COUNT
            &&& b.len == spec_block_size(c)
            &&& (b.start as int) % spec_block_size(c) == 0
        }
    }

    /// Number of blocks on all the free chains together.
    pub open spec fn free_count(self) -> nat {
        self.free[0].len() + self.free[1].len() + self.free[2].len() + self.free[3].len()
            + self.free[4].len() + self.free[5].len() + self.free[6].len() + self.free[7].len()
            + self.free[8].len()
    }

    /// No two outstanding allocations share an address.
    pub open spec fn live_apart(self) -> bool {
        forall|i: int, j: int|
            #![trigger self.live[i], self.live[j]]
            0 <= i < j < self.live.len() ==> separate(
                self.live[i].start as int,
                self.live[i].len,
                self.live[j].start as int,
                self.live[j].len,
            )
    }

    /// No free block shares an address with an outstanding allocation.
    pub open spec fn free_apart_from_live(self) -> bool {
        forall|c: int, k: int, i: int|
            #![trigger self.free[c][k], self.live[i]]
            0 <= c < CLASS_COUNT && 0 <= k < self.free[c].len() && 0 <= i < self.live.len()
                ==> separate(
                self.free[c][k] as int,
                spec_block_size(c),
                self.live[i].start as int,
                self.live[i].len,
            )
    }

    /// No two free blocks share an address.
    pub open spec fn free_apart(self) -> bool {
        forall|c: int, k: int, d: int, l: int|
            #![trigger self.free[c][k], self.free[d][l]]
            0 <= c < CLASS_COUNT && 0 <= k < self.free[c].len() && 0 <= d < CLASS_COUNT && 0 <= l
                < self.free[d].len() && !(c == d && k == l) ==> separate(
                self.free[c][k] as int,
                spec_block_size(c),
                self.free[d][l] as int,
                spec_block_size(d),
            )
    }

    /// The arena is well-formed; every free block of a class is a block
    /// of that class; free blocks and outstanding allocations lie in the
    /// carved part of the arena, no two of them sharing an address; and
    /// the arena counts each of them once.
    pub open spec fn wf(self) -> bool {
        &&& self.fallback.wf()
        &&& self.free.len() == CLASS_COUNT
        &&& forall|c: int, k: int|
            0 <= c < CLASS_COUNT && 0 <= k < self.free[c].len() ==> self.is_block(
                #[trigger] self.free[c][k],
                c,
            )
        &&& forall|i: int| 0 <= i < self.live.len() ==> self.is_live(#[trigger] self.live[i])
        &&& self.free_count() + self.live.len() == self.fallback.live
        &&& self.live_apart()
        &&& self.free_apart_from_live()
        &&& self.free_apart()
    }

    /// The address that a request is granted, if any.
    pub open spec fn granted(self, size: int, align: int) -> Option<u64> {
        match class_of(size, align) {
            None => self.fallback.granted(size, align),
            Some(c) => if self.free[c].len() > 0 {
                Some(self.free[c].last())
            } else {
                self.fallback.granted(spec_block_size(c), spec_block_size(c))
            },
        }
    }

    /// The outstanding allocations after a request.
    pub open spec fn live_after(self, size: int, align: int) -> Seq<LiveBlock> {
        match self.granted(size, align) {
            Some(a) => self.live.push(live_block(a, size, align)),
            None => self.live,
        }
    }

    /// The state after a request.
    pub open spec fn allocate(self, size: int, align: int) -> BlockModel {
        match class_of(size, align) {
            None => BlockModel {
                fallback: self.fallback.allocate(size, align),
                live: self.live_after(size, align),
                ..self
            },
            Some(c) => if self.free[c].len() > 0 {
                BlockModel {
                    free: self.free.update(c, self.free[c].drop_last()),
                    live: self.live_after(size, align),
                    ..self
                }
            } else {
                BlockModel {
                    fallback: self.fallback.allocate(spec_block_size(c), spec_block_size(c)),
                    live: self.live_after(size, align),
                    ..self
                }
            },
        }
    }

    /// Whether `ptr` may be given back as an allocation of this size and
    /// alignment: it is outstanding, granted to a request that occupied
    /// the same bytes.
    pub open spec fn can_deallocate(self, ptr: u64, size: int, align: int) -> bool {
        self.live.contains(live_block(ptr, size, align))
    }

    /// Where an outstanding allocation stands among the others.
    pub open spec fn live_index(self, b: LiveBlock) -> int {
        choose|i: int| 0 <= i < self.live.len() && self.live[i] == b
    }

    /// The state after an allocation is given back.
    pub open spec fn deallocate(self, ptr: u64, size: int, align: int) -> BlockModel {
        let live = self.live.remove(self.live_index(live_block(ptr, size, align)));
        match class_of(size, align) {
            None => BlockModel { fallback: self.fallback.deallocate(), live, ..self },
            Some(c) => BlockModel {
                free: self.free.update(c, self.free[c].push(ptr)),
                live,
                ..self
            },
        }
    }
}

/// A request leaves a well-formed allocator well-formed and the bounds of
/// its arena unchanged. A granted address is inside the arena with room
/// for the request, aligned as requested when the alignment is a power of
/// two, and the bytes it stands for are shared with no allocation that
/// was outstanding before.
pub proof fn lemma_allocate_sound(m: BlockModel, size: int, align: int)
    requires
        m.wf(),
        size >= 0,
        align > 0,
    ensures
        m.allocate(size, align).wf(),
        m.allocate(size, align).fallback.heap_start == m.fallback.heap_start,
        m.allocate(size, align).fallback.heap_end == m.fallback.heap_end,
        size <= extent(size, align),
        m.granted(size, align) matches Some(a) ==> {
            &&& m.fallback.heap_start <= a
            &&& a + extent(size, align) <= m.allocate(size, align).fallback.next
            &&& a + extent(size, align) <= m.fallback.heap_end
            &&& is_pow2(align) ==> (a as int) % align == 0
            &&& m.allocate(size, align).live == m.live.push(live_block(a, size, align))
            &&& forall|i: int|
                0 <= i < m.live.len() ==> separate(
                    a as int,
                    extent(size, align),
                    (#[trigger] m.live[i]).start as int,
                    m.live[i].len,
                )
        },
        m.granted(size, align) is None ==> m.allocate(size, align) == m,
{
    lemma_class_of_smallest(size, align);
    let n = m.allocate(size, align);
    let len = extent(size, align);
    match class_of(size, align) {
        None => {
            lemma_allocate_in_bounds(m.fallback, size, align);
            lemma_carved(m, n, size, align);
        },
        Some(c) => {
            let bs = spec_block_size(c);
            if m.free[c].len() > 0 {
                let a = m.free[c].last();
                let last = m.free[c].len() - 1;
                let b = live_block(a, size, align);
                assert(m.free[c][last] == a);
                assert(m.is_block(a, c));
                assert forall|d: int, k: int|
                    0 <= d < CLASS_COUNT && 0 <= k < n.free[d].len() implies n.is_block(
                    #[trigger] n.free[d][k],
                    d,
                ) by {
                    assert(n.free[d][k] == m.free[d][k]);
                    assert(m.is_block(m.free[d][k], d));
                }
                assert forall|i: int| 0 <= i < n.live.len() implies n.is_live(
                    #[trigger] n.live[i],
                ) by {
                    if i < m.live.len() {
                        assert(m.is_live(m.live[i]));
                    }
                }
                assert forall|i: int| 0 <= i < m.live.len() implies separate(
                    a as int,
                    len,
                    (#[trigger] m.live[i]).start as int,
                    m.live[i].len,
                ) by {
                    assert(separate(
                        m.free[c][last] as int,
                        bs,
                        m.live[i].start as int,
                        m.live[i].len,
                    ));
                }
                assert(n.live_apart()) by {
                    assert forall|i: int, j: int| 0 <= i < j < n.live.len() implies separate(
                        (#[trigger] n.live[i]).start as int,
                        n.live[i].len,
                        (#[trigger] n.live[j]).start as int,
                        n.live[j].len,
                    ) by {
                        assert(n.live[i] == m.live[i]);
                        if j < m.live.len() {
                            assert(n.live[j] == m.live[j]);
                        }
                    }
                }
                assert(n.free_apart_from_live()) by {
                    assert forall|d: int, k: int, i: int|
                        0 <= d < CLASS_COUNT && 0 <= k < n.free[d].len() && 0 <= i
                            < n.live.len() implies separate(
                        (#[trigger] n.free[d][k]) as int,
                        spec_block_size(d),
                        (#[trigger] n.live[i]).start as int,
                        n.live[i].len,
                    ) by {
                        assert(n.free[d][k] == m.free[d][k]);
                        if i < m.live.len() {
                            assert(n.live[i] == m.live[i]);
                        } else {
                            assert(separate(
                                m.free[d][k] as int,
                                spec_block_size(d),
                                m.free[c][last] as int,
                                bs,
                            ));
                        }
                    }
                }
                assert(n.free_apart()) by {
                    assert forall|d: int, k: int, e: int, l: int|
                        0 <= d < CLASS_COUNT && 0 <= k < n.free[d].len() && 0 <= e < CLASS_COUNT
                            && 0 <= l < n.free[e].len() && !(d == e && k == l) implies separate(
                        (#[trigger] n.free[d][k]) as int,
                        spec_block_size(d),
                        (#[trigger] n.free[e][l]) as int,
                        spec_block_size(e),
                    ) by {
                        assert(n.free[d][k] == m.free[d][k]);
                        assert(n.free[e][l] == m.free[e][l]);
                    }
                }
                if is_pow2(align) {
                    lemma_block_aligned(a as int, c, align);
                }
            } else {
                lemma_allocate_in_bounds(m.fallback, bs, bs);
                lemma_carved(m, n, size, align);
                if m.fallback.can_allocate(bs, bs) {
                    let a = m.fallback.allocate_start(bs);
                    if is_pow2(align) {
                        lemma_block_aligned(a, c, align);
                    }
                }
            }
        },
    }
}

/// A block carved from the arena begins where nothing was carved before,
/// so it shares no address with what is free or outstanding.
proof fn lemma_carved(m: BlockModel, n: BlockModel, size: int, align: int)
    requires
        m.wf(),
        size >= 0,
        align > 0,
        n == m.allocate(size, align),
        class_of(size, align) matches Some(c) ==> m.free[c].len() == 0,
        size <= extent(size, align),
        class_of(size, align) matches Some(c) ==> 0 <= c < CLASS_COUNT,
        n.fallback.wf(),
        n.fallback.heap_start == m.fallback.heap_start,
        n.fallback.next >= m.fallback.next,
        m.granted(size, align) matches Some(a) ==> {
            &&& m.fallback.next <= a
            &&& a + extent(size, align) == n.fallback.next
            &&& n.fallback.live == m.fallback.live + 1
            &&& class_of(size, align) matches Some(c) ==> (a as int) % spec_block_size(c) == 0
        },
        m.granted(size, align) is None ==> n.fallback == m.fallback,
    ensures
        n.wf(),
        m.granted(size, align) is None ==> n == m,
        m.granted(size, align) matches Some(a) ==> forall|i: int|
            0 <= i < m.live.len() ==> separate(
                a as int,
                extent(size, align),
                (#[trigger] m.live[i]).start as int,
                m.live[i].len,
            ),
{
    assert(n.free == m.free);
    assert forall|d: int, k: int|
        0 <= d < CLASS_COUNT && 0 <= k < n.free[d].len() implies n.is_block(
        #[trigger] n.free[d][k],
        d,
    ) by {
        assert(m.is_block(m.free[d][k], d));
    }
    assert forall|i: int| 0 <= i < n.live.len() implies n.is_live(#[trigger] n.live[i]) by {
        if i < m.live.len() {
            assert(m.is_live(m.live[i]));
        }
    }
    match m.granted(size, align) {
        None => {},
        Some(a) => {
            assert forall|i: int| 0 <= i < m.live.len() implies separate(
                a as int,
                extent(size, align),
                (#[trigger] m.live[i]).start as int,
                m.live[i].len,
            ) by {
                assert(m.is_live(m.live[i]));
            }
        },
    }
    assert(n.live_apart()) by {
        assert forall|i: int, j: int| 0 <= i < j < n.live.len() implies separate(
            (#[trigger] n.live[i]).start as int,
            n.live[i].len,
            (#[trigger] n.live[j]).start as int,
            n.live[j].len,
        ) by {
            assert(n.live[i] == m.live[i]);
            assert(m.is_live(m.live[i]));
            if j < m.live.len() {
                assert(n.live[j] == m.live[j]);
            }
        }
    }
    assert(n.free_apart_from_live()) by {
        assert forall|d: int, k: int, i: int|
            0 <= d < CLASS_COUNT && 0 <= k < n.free[d].len() && 0 <= i < n.live.len() implies separate(
            (#[trigger] n.free[d][k]) as int,
            spec_block_size(d),
            (#[trigger] n.live[i]).start as int,
            n.live[i].len,
        ) by {
            assert(m.is_block(m.free[d][k], d));
            if i < m.live.len() {
                assert(n.live[i] == m.live[i]);
            }
        }
    }
    assert(n.free_apart()) by {
        assert forall|d: int, k: int, e: int, l: int|
            0 <= d < CLASS_COUNT && 0 <= k < n.free[d].len() && 0 <= e < CLASS_COUNT && 0 <= l
                < n.free[e].len() && !(d == e && k == l) implies separate(
            (#[trigger] n.free[d][k]) as int,
            spec_block_size(d),
            (#[trigger] n.free[e][l]) as int,
            spec_block_size(e),
        ) by {
            assert(n.free[d][k] == m.free[d][k]);
            assert(n.free[e][l] == m.free[e][l]);
        }
    }
}

/// Giving back an outstanding allocation leaves a well-formed allocator
/// well-formed, the bounds of its arena unchanged, and one allocation
/// fewer outstanding.
pub proof fn lemma_deallocate_sound(m: BlockModel, ptr: u64, size: int, align: int)
    requires
        m.wf(),
        m.can_deallocate(ptr, size, align),
    ensures
        m.deallocate(ptr, size, align).wf(),
        m.deallocate(ptr, size, align).fallback.heap_start == m.fallback.heap_start,
        m.deallocate(ptr, size, align).fallback.heap_end == m.fallback.heap_end,
        m.deallocate(ptr, size, align).live.len() == m.live.len() - 1,
        !(class_of(size, align) is None && m.fallback.live == 1) ==> m.deallocate(
            ptr,
            size,
            align,
        ).fallback.next == m.fallback.next,
{
    let n = m.deallocate(ptr, size, align);
    let b = live_block(ptr, size, align);
    let at = m.live_index(b);
    assert(0 <= at < m.live.len() && m.live[at] == b);
    assert(m.is_live(m.live[at]));
    assert(n.live == m.live.remove(at));
    assert forall|i: int| 0 <= i < n.live.len() implies #[trigger] n.live[i] == m.live[if i < at {
        i
    } else {
        i + 1
    }] by {}
    lemma_class_of_smallest(size, align);
    match class_of(size, align) {
        None => {
            lemma_deallocate_in_bounds(m.fallback);
            assert(n.free == m.free);
            if m.fallback.live == 1 {
                assert(m.live.len() == 1);
                assert(n.live.len() == 0);
                assert(m.free_count() == 0);
            }
        },
        Some(c) => {
            assert(n.free.len() == CLASS_COUNT);
            assert(n.free_count() == m.free_count() + 1);
        },
    }
    assert forall|d: int, k: int|
        0 <= d < CLASS_COUNT && 0 <= k < n.free[d].len() implies n.is_block(
        #[trigger] n.free[d][k],
        d,
    ) by {
        if class_of(size, align) == Some(d) && k == m.free[d].len() {
        } else {
            assert(n.free[d][k] == m.free[d][k]);
            assert(m.is_block(m.free[d][k], d));
        }
    }
    assert forall|i: int| 0 <= i < n.live.len() implies n.is_live(#[trigger] n.live[i]) by {
        let j = if i < at {
            i
        } else {
            i + 1
        };
        assert(n.live[i] == m.live[j]);
        assert(m.is_live(m.live[j]));
    }
    assert(n.live_apart()) by {
        assert forall|i: int, j: int| 0 <= i < j < n.live.len() implies separate(
            (#[trigger] n.live[i]).start as int,
            n.live[i].len,
            (#[trigger] n.live[j]).start as int,
            n.live[j].len,
        ) by {
            let i0 = if i < at {
                i
            } else {
                i + 1
            };
            let j0 = if j < at {
                j
            } else {
                j + 1
            };
            assert(n.live[i] == m.live[i0]);
            assert(n.live[j] == m.live[j0]);
        }
    }
    assert(n.free_apart_from_live()) by {
        assert forall|d: int, k: int, i: int|
            0 <= d < CLASS_COUNT && 0 <= k < n.free[d].len() && 0 <= i < n.live.len() implies separate(
            (#[trigger] n.free[d][k]) as int,
            spec_block_size(d),
            (#[trigger] n.live[i]).start as int,
            n.live[i].len,
        ) by {
            let i0 = if i < at {
                i
            } else {
                i + 1
            };
            assert(n.live[i] == m.live[i0]);
            if class_of(size, align) == Some(d) && k == m.free[d].len() {
                assert(n.free[d][k] == ptr);
                if i0 < at {
                    assert(separate(
                        m.live[i0].start as int,
                        m.live[i0].len,
                        m.live[at].start as int,
                        m.live[at].len,
                    ));
                } else {
                    assert(separate(
                        m.live[at].start as int,
                        m.live[at].len,
                        m.live[i0].start as int,
                        m.live[i0].len,
                    ));
                }
            } else {
                assert(n.free[d][k] == m.free[d][k]);
            }
        }
    }
    assert(n.free_apart()) by {
        assert forall|d: int, k: int, e: int, l: int|
            0 <= d < CLASS_COUNT && 0 <= k < n.free[d].len() && 0 <= e < CLASS_COUNT && 0 <= l
                < n.free[e].len() && !(d == e && k == l) implies separate(
            (#[trigger] n.free[d][k]) as int,
            spec_block_size(d),
            (#[trigger] n.free[e][l]) as int,
            spec_block_size(e),
        ) by {
            let d_new = class_of(size, align) == Some(d) && k == m.free[d].len();
            let e_new = class_of(size, align) == Some(e) && l == m.free[e].len();
            if d_new {
                assert(n.free[d][k] == ptr);
                assert(n.free[e][l] == m.free[e][l]);
                assert(separate(
                    m.free[e][l] as int,
                    spec_block_size(e),
                    m.live[at].start as int,
                    m.live[at].len,
                ));
            } else if e_new {
                assert(n.free[e][l] == ptr);
                assert(n.free[d][k] == m.free[d][k]);
                assert(separate(
                    m.free[d][k] as int,
                    spec_block_size(d),
                    m.live[at].start as int,
                    m.live[at].len,
                ));
            } else {
                assert(n.free[d][k] == m.free[d][k]);
                assert(n.free[e][l] == m.free[e][l]);
            }
        }
    }
}

/// The free chain is consulted before the arena grows: once a block of a
/// class has been given back, the next request of that class is granted
/// that very block, and the arena and the free chains are left as they
/// were before the block was given back.
pub proof fn lemma_freed_block_is_reused(
    m: BlockModel,
    ptr: u64,
    size: int,
    align: int,
    next_size: int,
    next_align: int,
)
    requires
        m.free.len() == CLASS_COUNT,
        class_of(size, align) is Some,
        class_of(next_size, next_align) == class_of(size, align),
    ensures
        m.deallocate(ptr, size, align).granted(next_size, next_align) == Some(ptr),
        m.deallocate(ptr, size, align).allocate(next_size, next_align).fallback == m.fallback,
        m.deallocate(ptr, size, align).allocate(next_size, next_align).free =~= m.free,
{
    lemma_class_of_smallest(size, align);
    let c = class_of(size, align).unwrap();
    let d = m.deallocate(ptr, size, align);
    assert(d.free[c] == m.free[c].push(ptr));
    assert(d.free[c].drop_last() =~= m.free[c]);
}

impl BlockModel {
    /// The state after `n` requests of one size and alignment.
    pub open spec fn allocate_n(self, size: int, align: int, n: nat) -> BlockModel
        decreases n,
    {
        if n == 0 {
            self
        } else {
            self.allocate_n(size, align, (n - 1) as nat).allocate(size, align)
        }
    }

    /// The state after the allocations at `ptrs`, all of one size and
    /// alignment, are given back in order.
    pub open spec fn deallocate_all(self, ptrs: Seq<u64>, size: int, align: int) -> BlockModel
        decreases ptrs.len(),
    {
        if ptrs.len() == 0 {
            self
        } else {
            self.deallocate(ptrs[0], size, align).deallocate_all(ptrs.drop_first(), size, align)
        }
    }
}

/// Requests that no class serves reach the arena unchanged.
proof fn lemma_large_requests_reach_arena(m: BlockModel, size: int, align: int, n: nat)
    requires
        class_of(size, align) is None,
    ensures
        m.allocate_n(size, align, n).fallback == m.fallback.allocate_n(size, align, n),
    decreases n,
{
    if n > 0 {
        lemma_large_requests_reach_arena(m, size, align, (n - 1) as nat);
    }
}

/// Allocations that no class served are given back to the arena.
proof fn lemma_large_blocks_return_to_arena(m: BlockModel, ptrs: Seq<u64>, size: int, align: int)
    requires
        class_of(size, align) is None,
    ensures
        m.deallocate_all(ptrs, size, align).fallback == m.fallback.deallocate_n(ptrs.len()),
    decreases ptrs.len(),
{
    if ptrs.len() > 0 {
        lemma_large_blocks_return_to_arena(
            m.deallocate(ptrs[0], size, align),
            ptrs.drop_first(),
            size,
            align,
        );
    }
}

/// Full reclaim through the size-class allocator: when nothing has been
/// carved from the arena, granting some requests that no class serves and
/// then taking all of them back returns the arena's bump pointer to the
/// value it had before. (Blocks of a class are kept on their free chain
/// instead, so the arena does not shrink when they are given back.)
pub proof fn lemma_large_blocks_reclaimed(m: BlockModel, ptrs: Seq<u64>, size: int, align: int)
    requires
        m.fallback.wf(),
        m.fallback.live == 0,
        size >= 0,
        align > 0,
        class_of(size, align) is None,
        m.fallback.can_allocate_n(size, align, ptrs.len()),
    ensures
        m.allocate_n(size, align, ptrs.len()).deallocate_all(ptrs, size, align).fallback.next
            == m.fallback.next,
        m.allocate_n(size, align, ptrs.len()).deallocate_all(ptrs, size, align).fallback.live
            == 0,
{
    lemma_large_requests_reach_arena(m, size, align, ptrs.len());
    lemma_large_blocks_return_to_arena(
        m.allocate_n(size, align, ptrs.len()),
        ptrs,
        size,
        align,
    );
    lemma_full_reclaim(m.fallback, size, align, ptrs.len());
}

/// The block size of a class in bytes.
pub fn block_size(class: usize) -> (bytes: u64)
    requires
        class < CLASS_COUNT,
    ensures
        bytes == spec_block_size(class as int),
{
    if class == 0 {
        8
    } else if class == 1 {
        16
    } else if class == 2 {
        32
    } else if class == 3 {
        64
    } else if class == 4 {
        128
    } else if class == 5 {
        256
    } else if class == 6 {
        512
    } else if class == 7 {
        1024
    } else {
        2048
    }
}

/// The class that serves a request: the first whose blocks are at least as
/// large as both the size and the alignment.
pub fn list_index(size: u64, align: u64) -> (class: Option<usize>)
    ensures
        match class {
            Some(c) => class_of(size as int, align as int) == Some(c as int),
            None => class_of(size as int, align as int) is None,
        },
{
    let need: u64 = if size >= align {
        size
    } else {
        align
    };
    let mut class: usize = 0;
    while class < CLASS_COUNT
        invariant
            class <= CLASS_COUNT,
            need == required_block_size(size as int, align as int),
            class > 0 ==> spec_block_size(class - 1) < need,
        decreases CLASS_COUNT - class,
    {
        if block_size(class) >= need {
            return Some(class);
        }
        class = class + 1;
    }
    None
}

/// Number of blocks on the free chains of the classes below `class`.
pub open spec fn free_below(free: Seq<Seq<u64>>, class: int) -> nat
    decreases class,
{
    if class <= 0 {
        0
    } else {
        free_below(free, class - 1) + free[class - 1].len()
    }
}

/// The size-class allocator.
pub struct FixedSizeBlockAllocator {
    free_lists: Vec<Vec<u64>>,
    fallback: BumpAllocator,
    live: Ghost<Seq<LiveBlock>>,
}

impl View for FixedSizeBlockAllocator {
    type V = BlockModel;

    closed spec fn view(&self) -> BlockModel {
        BlockModel {
            free: Seq::new(self.free_lists@.len(), |c: int| self.free_lists@[c]@),
            live: self.live@,
            fallback: self.fallback@,
        }
    }
}

impl FixedSizeBlockAllocator {
    /// The allocator's invariant: that of its state.
    pub open spec fn wf(&self) -> bool {
        self@.wf()
    }

    /// An allocator with empty free chains over an empty arena.
    pub fn new() -> (a: FixedSizeBlockAllocator)
        ensures
            a.wf(),
            a@.fallback == (BumpModel { heap_start: 0, heap_end: 0, next: 0, live: 0 }),
            a@.free.len() == CLASS_COUNT,
            forall|c: int| 0 <= c < CLASS_COUNT ==> (#[trigger] a@.free[c]).len() == 0,
            a@.live.len() == 0,
    {
        let mut free_lists: Vec<Vec<u64>> = Vec::new();
        let mut class: usize = 0;
        while class < CLASS_COUNT
            invariant
                class <= CLASS_COUNT,
                free_lists@.len() == class,
                forall|c: int| 0 <= c < class ==> (#[trigger] free_lists@[c])@.len() == 0,
            decreases CLASS_COUNT - class,
        {
            free_lists.push(Vec::new());
            class = class + 1;
        }
        FixedSizeBlockAllocator {
            free_lists,
            fallback: BumpAllocator::new(),
            live: Ghost(Seq::empty()),
        }
    }

    /// Takes over the arena of `heap_size` bytes at `heap_start`. Every
    /// free chain is empty afterwards and nothing is outstanding.
    pub fn init(&mut self, heap_start: u64, heap_size: u64)
        requires
            heap_start + heap_size <= u64::MAX,
        ensures
            final(self).wf(),
            final(self)@.fallback == (BumpModel {
                heap_start: heap_start as int,
                heap_end: heap_start + heap_size,
                next: heap_start as int,
                live: 0,
            }),
            final(self)@.free.len() == CLASS_COUNT,
            forall|c: int| 0 <= c < CLASS_COUNT ==> (#[trigger] final(self)@.free[c]).len() == 0,
            final(self)@.live.len() == 0,
    {
        let mut fresh = FixedSizeBlockAllocator::new();
        fresh.fallback.init(heap_start, heap_size);
        *self = fresh;
    }

    /// The bump pointer of the arena behind the free chains.
    pub fn arena_next(&self) -> (a: u64)
        ensures
            a == self@.fallback.next,
    {
        self.fallback.next()
    }

    /// Number of blocks on the free chain of a class.
    pub fn free_blocks(&self, class: usize) -> (n: usize)
        requires
            self.wf(),
            class < CLASS_COUNT,
        ensures
            n == self@.free[class as int].len(),
    {
        self.free_lists[class].len()
    }

    /// Serves a request. One that no class holds goes to the arena
    /// unchanged. Otherwise the head of the class's free chain is handed
    /// out; only when that chain is empty is one fresh block of the class
    /// carved from the arena.
    pub fn allocate(&mut self, size: u64, align: u64) -> (addr: Option<u64>)
        requires
            old(self).wf(),
            align > 0,
        ensures
            final(self).wf(),
            final(self)@ == old(self)@.allocate(size as int, align as int),
            addr == old(self)@.granted(size as int, align as int),
            match addr {
                Some(a) => {
                    &&& old(self)@.fallback.heap_start <= a
                    &&& a + size <= old(self)@.fallback.heap_end
                    &&& is_pow2(align as int) ==> a % align == 0
                    &&& size <= extent(size as int, align as int)
                    &&& forall|i: int|
                        0 <= i < old(self)@.live.len() ==> separate(
                            a as int,
                            extent(size as int, align as int),
                            (#[trigger] old(self)@.live[i]).start as int,
                            old(self)@.live[i].len,
                        )
                },
                None => final(self)@ == old(self)@,
            },
            final(self)@.fallback.heap_start == old(self)@.fallback.heap_start,
            final(self)@.fallback.heap_end == old(self)@.fallback.heap_end,
    {
        proof {
            lemma_allocate_sound(self@, size as int, align as int);
            lemma_class_of_smallest(size as int, align as int);
        }
        let ghost live = self@.live_after(size as int, align as int);
        let addr = match list_index(size, align) {
            None => self.fallback.allocate(size, align),
            Some(class) => {
                if self.free_lists[class].len() > 0 {
                    self.free_lists[class].pop()
                } else {
                    let bytes: u64 = block_size(class);
                    self.fallback.allocate(bytes, bytes)
                }
            },
        };
        self.live = Ghost(live);
        assert(self@.free =~= old(self)@.allocate(size as int, align as int).free);
        addr
    }

    /// Takes an allocation back. A block of a class becomes the new head
    /// of that class's free chain; anything else is handed to the arena.
    pub fn deallocate(&mut self, ptr: u64, size: u64, align: u64)
        requires
            old(self).wf(),
            old(self)@.can_deallocate(ptr, size as int, align as int),
        ensures
            final(self).wf(),
            final(self)@ == old(self)@.deallocate(ptr, size as int, align as int),
            final(self)@.live.len() == old(self)@.live.len() - 1,
            final(self)@.fallback.heap_start == old(self)@.fallback.heap_start,
            final(self)@.fallback.heap_end == old(self)@.fallback.heap_end,
    {
        proof {
            lemma_deallocate_sound(self@, ptr, size as int, align as int);
            lemma_class_of_smallest(size as int, align as int);
        }
        let ghost live = self@.deallocate(ptr, size as int, align as int).live;
        match list_index(size, align) {
            None => {
                self.fallback.deallocate(ptr, size, align);
            },
            Some(class) => {
                self.free_lists[class].push(ptr);
            },
        }
        self.live = Ghost(live);
        assert(self@.free =~= old(self)@.deallocate(ptr, size as int, align as int).free);
    }

    /// Number of allocations that have been granted and not given back.
    pub fn outstanding(&self) -> (n: u64)
        requires
            self.wf(),
        ensures
            n == self@.live.len(),
    {
        let mut free: u64 = 0;
        let mut class: usize = 0;
        proof {
            assert(self@.free_count() <= u64::MAX);
        }
        while class < CLASS_COUNT
            invariant
                class <= CLASS_COUNT,
                self.wf(),
                free == free_below(self@.free, class as int),
                free <= self@.free_count(),
            decreases CLASS_COUNT - class,
        {
            proof {
                reveal_with_fuel(free_below, 10);
            }
            free = free + (self.free_lists[class].len() as u64);
            class = class + 1;
        }
        proof {
            reveal_with_fuel(free_below, 10);
        }
        self.fallback.allocations() - free
    }
}

} // verus!
