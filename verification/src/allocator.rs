//! The heap window and the arithmetic shared by the allocator backends.

use vstd::prelude::*;

pub mod bump;
pub mod fixed_size_block;
pub mod region;

verus! {

/// Virtual address at which the kernel heap begins.
pub const HEAP_START: u64 = 0x4444_4444_0000;

/// Size of the kernel heap in bytes (100 KiB).
pub const HEAP_SIZE: u64 = 102400;

/// The smallest multiple of `align` that is not below `addr`.
pub open spec fn round_up(addr: int, align: int) -> int
    recommends
        align > 0,
{
    if addr % align == 0 {
        addr
    } else {
        addr - addr % align + align
    }
}

/// `round_up` yields a multiple of `align` within `align - 1` of `addr`,
/// and no smaller multiple of `align` reaches `addr`.
pub proof fn lemma_round_up(addr: int, align: int)
    requires
        addr >= 0,
        align > 0,
    ensures
        round_up(addr, align) % align == 0,
        addr <= round_up(addr, align) < addr + align,
        forall|m: int| addr <= m && #[trigger] (m % align) == 0 ==> round_up(addr, align) <= m,
{
    let r = round_up(addr, align);
    vstd::arithmetic::div_mod::lemma_fundamental_div_mod(addr, align);
    let q = addr / align;
    if addr % align != 0 {
        assert(r == align * (q + 1)) by (nonlinear_arith)
            requires
                r == addr - addr % align + align,
                addr == align * q + addr % align,
        ;
        vstd::arithmetic::div_mod::lemma_mod_multiples_basic(q + 1, align);
        assert(align * (q + 1) == (q + 1) * align) by (nonlinear_arith);
    }
    assert forall|m: int| addr <= m && #[trigger] (m % align) == 0 implies r <= m by {
        if addr % align != 0 {
            vstd::arithmetic::div_mod::lemma_fundamental_div_mod(m, align);
            let k = m / align;
            assert(k > q) by (nonlinear_arith)
                requires
                    m == align * k,
                    addr == align * q + addr % align,
                    0 < addr % align < align,
                    addr <= m,
                    align > 0,
            ;
            assert(align * k >= align * (q + 1)) by (nonlinear_arith)
                requires
                    k >= q + 1,
                    align > 0,
            ;
        }
    }
}

/// Rounds `addr` up to the next multiple of `align`.
pub fn align_up(addr: u64, align: u64) -> (aligned: u64)
    requires
        align > 0,
        round_up(addr as int, align as int) <= u64::MAX,
    ensures
        aligned as int == round_up(addr as int, align as int),
{
    let rem: u64 = addr % align;
    assert(rem <= addr) by (nonlinear_arith)
        requires
            rem == addr % align,
            align > 0,
    ;
    if rem == 0 {
        addr
    } else {
        addr - rem + align
    }
}

/// Rounds `addr` up to the next multiple of `align`, or reports that the
/// rounded address does not fit in an address.
pub fn checked_align_up(addr: u64, align: u64) -> (aligned: Option<u64>)
    requires
        align > 0,
    ensures
        aligned == if round_up(addr as int, align as int) <= u64::MAX {
            Some(round_up(addr as int, align as int) as u64)
        } else {
            None::<u64>
        },
{
    let rem: u64 = addr % align;
    assert(rem <= addr) by (nonlinear_arith)
        requires
            rem == addr % align,
            align > 0,
    ;
    if rem == 0 {
        Some(addr)
    } else {
        (addr - rem).checked_add(align)
    }
}

} // verus!
