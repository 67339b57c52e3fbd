//! Address-space layout of the x86_64 architecture: canonical virtual
//! addresses and the page sizes of its paging structures.
use vstd::prelude::*;
use vstd::arithmetic::power2::pow2;

verus! {

/// A 48-bit virtual address is canonical when bits 63 to 47 all equal bit 47.
pub open spec fn spec_is_canonical(addr: u64) -> bool {
    addr >> 47u64 == 0 || addr >> 47u64 == 0x1_ffffu64
}

/// The canonical address that has the same low 48 bits as `addr`.
pub open spec fn spec_make_canonical(addr: u64) -> u64 {
    if addr & 0x8000_0000_0000u64 != 0 {
        addr | 0xffff_0000_0000_0000u64
    } else {
        addr & 0x0000_ffff_ffff_ffffu64
    }
}

/// Whether `addr` is a canonical virtual address.
pub fn is_canonical(addr: u64) -> (r: bool)
    ensures
        r == spec_is_canonical(addr),
{
    let top = addr >> 47;
    top == 0 || top == 0x1_ffff
}

/// Sign-extends bit 47 of `addr` into bits 63 to 48.
pub fn make_canonical(addr: u64) -> (r: u64)
    ensures
        r == spec_make_canonical(addr),
        spec_is_canonical(r),
        r & 0x0000_ffff_ffff_ffffu64 == addr & 0x0000_ffff_ffff_ffffu64,
{
    let r = if (addr & (1u64 << 47)) != 0 {
        addr | 0xffff_0000_0000_0000
    } else {
        addr & 0x0000_ffff_ffff_ffff
    };
    proof {
        assert(1u64 << 47u64 == 0x8000_0000_0000u64) by (bit_vector);
        assert(spec_is_canonical(r) && r & 0x0000_ffff_ffff_ffffu64 == addr & 0x0000_ffff_ffff_ffffu64)
            by (bit_vector)
            requires
                r == (if addr & 0x8000_0000_0000u64 != 0 {
                    addr | 0xffff_0000_0000_0000u64
                } else {
                    addr & 0x0000_ffff_ffff_ffffu64
                });
    }
    r
}

/// A size of page that the paging structures can map.
pub trait FrameSize: Copy {
    /// The base-two logarithm of the page size.
    spec fn spec_page_shift() -> nat;

    /// The page shift is small enough for a page to fit in the 48-bit
    /// virtual address space.
    proof fn lemma_page_shift_bound()
        ensures
            Self::spec_page_shift() < 48,
    ;

    fn page_shift() -> (r: u8)
        ensures
            r as nat == Self::spec_page_shift(),
    ;

    /// A short name of the page size.
    fn debug_str() -> &'static str;

    /// The size of a page in bytes.
    fn page_size() -> (r: u64)
        ensures
            r as nat == pow2(Self::spec_page_shift()),
            r > 0,
    {
        let shift = Self::page_shift();
        proof {
            Self::lemma_page_shift_bound();
            vstd::bits::lemma_u64_pow2_no_overflow(shift as nat);
            vstd::bits::lemma_u64_shl_is_mul(1, shift as u64);
        }
        1u64 << shift
    }

    /// The mask that keeps the page-number bits of an address.
    fn page_mask() -> (r: u64)
        ensures
            r == !((pow2(Self::spec_page_shift()) - 1) as u64),
    {
        let size = Self::page_size();
        !(size - 1)
    }
}

/// Pages of 4 KiB, mapped by the last level of the paging structures.
#[derive(Clone, Copy, Debug, PartialEq, Eq)]
pub struct FrameSize4K;

/// Pages of 2 MiB, mapped by page directory entries.
#[derive(Clone, Copy, Debug, PartialEq, Eq)]
pub struct FrameSize2M;

/// Pages of 1 GiB, mapped by page directory pointer entries.
#[derive(Clone, Copy, Debug, PartialEq, Eq)]
pub struct FrameSize1G;

impl FrameSize for FrameSize4K {
    open spec fn spec_page_shift() -> nat {
        12
    }

    proof fn lemma_page_shift_bound() {
    }

    fn page_shift() -> (r: u8) {
        12
    }

    fn debug_str() -> &'static str {
        "4K"
    }
}

impl FrameSize for FrameSize2M {
    open spec fn spec_page_shift() -> nat {
        21
    }

    proof fn lemma_page_shift_bound() {
    }

    fn page_shift() -> (r: u8) {
        21
    }

    fn debug_str() -> &'static str {
        "2M"
    }
}

impl FrameSize for FrameSize1G {
    open spec fn spec_page_shift() -> nat {
        30
    }

    proof fn lemma_page_shift_bound() {
    }

    fn page_shift() -> (r: u8) {
        30
    }

    fn debug_str() -> &'static str {
        "1G"
    }
}

/// The page size of ordinary mappings.
pub type DefaultFrameSize = FrameSize4K;

/// The size in bytes of an ordinary page.
pub const PAGE_SIZE: u64 = 4096;

/// The base-two logarithm of `PAGE_SIZE`.
pub const PAGE_SHIFT: u64 = 12;


/// Making an address canonical gives a canonical address, leaves canonical
/// addresses unchanged, and is idempotent.
pub proof fn lemma_make_canonical(addr: u64)
    ensures
        spec_is_canonical(spec_make_canonical(addr)),
        spec_is_canonical(addr) ==> spec_make_canonical(addr) == addr,
        spec_make_canonical(spec_make_canonical(addr)) == spec_make_canonical(addr),
{
    assert(spec_is_canonical(spec_make_canonical(addr))) by (bit_vector);
    assert(spec_is_canonical(addr) ==> spec_make_canonical(addr) == addr) by (bit_vector);
    assert(spec_make_canonical(spec_make_canonical(addr)) == spec_make_canonical(addr)) by (bit_vector);
}

} // verus!
