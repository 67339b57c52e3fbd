//! x86_64 paging structures: addresses, page-table entries and page tables.
use vstd::prelude::*;

use crate::arch::{spec_is_canonical, spec_make_canonical};

verus! {

/// The number of entries of a page table.
pub const PAGE_TABLE_SIZE: usize = 512;
/// The base-two logarithm of the page size.
pub const PAGE_SHIFT: u32 = 12;
/// The page-offset bits of an address.
pub const PAGE_MASK: u64 = 0xfff;
/// The size in bytes of a page.
pub const PAGE_SIZE: usize = 4096;
/// The size in bytes of a page, as a `u64`.
pub const PAGE_SIZE64: u64 = 4096;

/// The error of a virtual address that is not canonical.
#[derive(Clone, Copy, Debug, PartialEq, Eq)]
pub enum VaddrError {
    NonCanonical,
}

/// A canonical virtual address.
#[derive(Clone, Copy, PartialEq, Eq, PartialOrd, Ord, Hash, Default, Debug)]
pub struct VAddr(u64);

/// A physical address.
#[derive(Clone, Copy, PartialEq, Eq, PartialOrd, Ord, Hash, Default, Debug)]
pub struct PAddr(u64);

impl View for VAddr {
    type V = u64;

    closed spec fn view(&self) -> u64 {
        self.0
    }
}

impl View for PAddr {
    type V = u64;

    closed spec fn view(&self) -> u64 {
        self.0
    }
}

impl VAddr {
    pub fn new(v: u64) -> (r: Result<Self, VaddrError>)
        ensures
            r is Ok <==> spec_is_canonical(v),
            r is Ok ==> r->Ok_0@ == v,
            r is Err ==> r == Err::<Self, VaddrError>(VaddrError::NonCanonical),
    {
        let r = if v & (1 << 47) != 0 && v & 0xffff_0000_0000_0000 != 0xffff_0000_0000_0000 {
            Err(VaddrError::NonCanonical)
        } else if (v & (1 << 47)) == 0 && v & 0xffff_0000_0000_0000 != 0 {
            Err(VaddrError::NonCanonical)
        } else {
            Ok(Self(v))
        };
        proof {
            assert(1u64 << 47u64 == 0x8000_0000_0000u64) by (bit_vector);
            assert(spec_is_canonical(v) <==> !(
                (v & 0x8000_0000_0000u64 != 0 && v & 0xffff_0000_0000_0000u64 != 0xffff_0000_0000_0000u64)
                || (v & 0x8000_0000_0000u64 == 0 && v & 0xffff_0000_0000_0000u64 != 0))) by (bit_vector);
        }
        r
    }

    /// The canonical address that has the same low 47 bits as `v` and bit 47 of `v`,
    /// keeping the high bits of `v` that are already set.
    pub fn make_canonical(v: u64) -> (r: Self)
        ensures
            r@ == (if v & 0x8000_0000_0000u64 != 0 { v | 0xffff_0000_0000_0000u64 } else { v }),
    {
        let ghost v0 = v;
        let mut v = v;
        v |= if v & (1 << 47) != 0 { 0xffff_0000_0000_0000 } else { 0 };
        proof {
            assert(1u64 << 47u64 == 0x8000_0000_0000u64) by (bit_vector);
            assert(v0 | 0u64 == v0) by (bit_vector);
        }
        Self(v)
    }

    /// The four page-table indices of the address, from the top level down,
    /// and its offset in the page.
    pub fn split(self) -> (r: (u16, u16, u16, u16, u16))
        ensures
            r == spec_split16(self@),
    {
        let addr = self.0;
        let off = (addr & 0xfff) as u16;
        let p1 = ((addr & (0x1ff << 12)) >> 12) as u16;
        let p2 = ((addr & (0x1ff << 21)) >> 21) as u16;
        let p3 = ((addr & (0x1ff << 30)) >> 30) as u16;
        let p4 = ((addr & (0x1ff << 39)) >> 39) as u16;
        proof {
            assert(p1 == ((addr >> 12u64) & 0x1ffu64) as u16
                && p2 == ((addr >> 21u64) & 0x1ffu64) as u16
                && p3 == ((addr >> 30u64) & 0x1ffu64) as u16
                && p4 == ((addr >> 39u64) & 0x1ffu64) as u16) by (bit_vector)
                requires
                    p1 == ((addr & (0x1ffu64 << 12u64)) >> 12u64) as u16,
                    p2 == ((addr & (0x1ffu64 << 21u64)) >> 21u64) as u16,
                    p3 == ((addr & (0x1ffu64 << 30u64)) >> 30u64) as u16,
                    p4 == ((addr & (0x1ffu64 << 39u64)) >> 39u64) as u16;
        }
        (p4, p3, p2, p1, off)
    }
}

/// The page-table indices of `addr`, from the top level down, and its page offset.
pub open spec fn spec_split16(addr: u64) -> (u16, u16, u16, u16, u16) {
    (
        ((addr >> 39u64) & 0x1ffu64) as u16,
        ((addr >> 30u64) & 0x1ffu64) as u16,
        ((addr >> 21u64) & 0x1ffu64) as u16,
        ((addr >> 12u64) & 0x1ffu64) as u16,
        (addr & 0xfffu64) as u16,
    )
}

/// The split of an address recomposes it: each page-table index is below
/// 512 and the page offset below 4096, and the top-level index shifted to
/// bit 39, the next ones to bits 30, 21 and 12, and the offset together give
/// the low 48 bits of the address.
pub proof fn lemma_split_recomposes(addr: u64)
    ensures
        spec_split16(addr).0 < 512,
        spec_split16(addr).1 < 512,
        spec_split16(addr).2 < 512,
        spec_split16(addr).3 < 512,
        spec_split16(addr).4 < 4096,
        addr & 0xffff_ffff_ffffu64 == ((spec_split16(addr).0 as u64) << 39u64) | ((spec_split16(addr).1 as u64)
            << 30u64) | ((spec_split16(addr).2 as u64) << 21u64) | ((spec_split16(addr).3 as u64) << 12u64)
            | (spec_split16(addr).4 as u64),
{
    let p4 = spec_split16(addr).0;
    let p3 = spec_split16(addr).1;
    let p2 = spec_split16(addr).2;
    let p1 = spec_split16(addr).3;
    let off = spec_split16(addr).4;
    assert(p4 < 512 && p3 < 512 && p2 < 512 && p1 < 512 && off < 4096
        && addr & 0xffff_ffff_ffffu64 == ((p4 as u64) << 39u64) | ((p3 as u64) << 30u64) | ((p2 as u64)
        << 21u64) | ((p1 as u64) << 12u64) | (off as u64)) by (bit_vector)
        requires
            p4 == ((addr >> 39u64) & 0x1ffu64) as u16,
            p3 == ((addr >> 30u64) & 0x1ffu64) as u16,
            p2 == ((addr >> 21u64) & 0x1ffu64) as u16,
            p1 == ((addr >> 12u64) & 0x1ffu64) as u16,
            off == (addr & 0xfffu64) as u16,
    ;
}

impl PAddr {
    pub fn new(v: u64) -> (r: Self)
        ensures
            r@ == v,
    {
        Self(v)
    }
}

impl VAddr {
    pub fn as_u64(self) -> (r: u64)
        ensures
            r == self@,
    {
        self.0
    }

    pub fn is_page_aligned(self) -> (r: bool)
        ensures
            r <==> self@ % 4096 == 0,
    {
        proof { crate::mm::addr::lemma_page_down(self.0); }
        self.0 & PAGE_MASK == 0
    }

    /// The address rounded down to a page boundary.
    pub fn align_page(self) -> (r: Self)
        ensures
            r@ % 4096 == 0,
            r@ <= self@ < r@ + 4096,
    {
        proof { crate::mm::addr::lemma_page_down(self.0); }
        Self(self.0 & !PAGE_MASK)
    }

    /// The address rounded up to a page boundary.
    pub fn align_page_up(self) -> (r: Self)
        requires
            self@ + PAGE_SIZE64 <= u64::MAX,
        ensures
            crate::integer::is_align_up(self@ as int, 4096, r@ as int),
    {
        proof {
            crate::integer::lemma_ceil_div(self@ as int, 4096);
            let q = (self@ as int + 4095) / 4096;
            assert(crate::integer::is_align_up(self@ as int, 4096, q * 4096) && q * 4096 <= u64::MAX)
                by (nonlinear_arith)
                requires q == (self@ as int + 4095) / 4096, self@ >= 0, self@ + 4095 <= u64::MAX;
        }
        Self((self.0 + PAGE_SIZE64 - 1) / PAGE_SIZE64 * PAGE_SIZE64)
    }

    pub fn page(self) -> (r: u64)
        ensures
            r == self@ / 4096,
    {
        proof { crate::mm::addr::lemma_page_down(self.0); }
        self.0 >> 12
    }

    /// The address moved by `o` bytes.
    pub fn offset(self, o: i64) -> (r: Self)
        requires
            o > i64::MIN,
            0 <= self@ + o <= u64::MAX,
        ensures
            r@ == self@ + o,
    {
        if o < 0 {
            Self(self.0 - (-o as u64))
        } else {
            Self(self.0 + o as u64)
        }
    }

    pub fn add(self, o: u64) -> (r: Self)
        requires
            self@ + o <= u64::MAX,
        ensures
            r@ == self@ + o,
    {
        Self(self.0 + o)
    }

    pub fn sub(self, o: u64) -> (r: Self)
        requires
            o <= self@,
        ensures
            r@ == self@ - o,
    {
        Self(self.0 - o)
    }
}

impl PAddr {
    pub fn as_u64(self) -> (r: u64)
        ensures
            r == self@,
    {
        self.0
    }

    pub fn is_page_aligned(self) -> (r: bool)
        ensures
            r <==> self@ % 4096 == 0,
    {
        proof { crate::mm::addr::lemma_page_down(self.0); }
        self.0 & PAGE_MASK == 0
    }

    /// The address rounded down to a page boundary.
    pub fn align_page(self) -> (r: Self)
        ensures
            r@ % 4096 == 0,
            r@ <= self@ < r@ + 4096,
    {
        proof { crate::mm::addr::lemma_page_down(self.0); }
        Self(self.0 & !PAGE_MASK)
    }

    /// The address rounded up to a page boundary.
    pub fn align_page_up(self) -> (r: Self)
        requires
            self@ + PAGE_SIZE64 <= u64::MAX,
        ensures
            crate::integer::is_align_up(self@ as int, 4096, r@ as int),
    {
        proof {
            crate::integer::lemma_ceil_div(self@ as int, 4096);
            let q = (self@ as int + 4095) / 4096;
            assert(crate::integer::is_align_up(self@ as int, 4096, q * 4096) && q * 4096 <= u64::MAX)
                by (nonlinear_arith)
                requires q == (self@ as int + 4095) / 4096, self@ >= 0, self@ + 4095 <= u64::MAX;
        }
        Self((self.0 + PAGE_SIZE64 - 1) / PAGE_SIZE64 * PAGE_SIZE64)
    }

    pub fn page(self) -> (r: u64)
        ensures
            r == self@ / 4096,
    {
        proof { crate::mm::addr::lemma_page_down(self.0); }
        self.0 >> 12
    }

    /// The address moved by `o` bytes.
    pub fn offset(self, o: i64) -> (r: Self)
        requires
            o > i64::MIN,
            0 <= self@ + o <= u64::MAX,
        ensures
            r@ == self@ + o,
    {
        if o < 0 {
            Self(self.0 - (-o as u64))
        } else {
            Self(self.0 + o as u64)
        }
    }

    pub fn add(self, o: u64) -> (r: Self)
        requires
            self@ + o <= u64::MAX,
        ensures
            r@ == self@ + o,
    {
        Self(self.0 + o)
    }

    pub fn sub(self, o: u64) -> (r: Self)
        requires
            o <= self@,
        ensures
            r@ == self@ - o,
    {
        Self(self.0 - o)
    }
}

/// The mask of the low `width` bits.
pub open spec fn field_mask(width: u64) -> u64 {
    ((1u64 << width) - 1) as u64
}

/// The field of `width` bits of `x` that starts at bit `lo`.
pub open spec fn get_field(x: u64, lo: u64, width: u64) -> u64 {
    (x >> lo) & field_mask(width)
}

/// `x` with the field of `width` bits at bit `lo` replaced by the low bits of `v`.
pub open spec fn set_field(x: u64, lo: u64, width: u64, v: u64) -> u64 {
    (x & !(field_mask(width) << lo)) | ((v & field_mask(width)) << lo)
}

/// Reading a field after writing it gives the low bits of what was written,
/// and writing a field leaves every field that does not overlap it unchanged.
pub proof fn lemma_field_set_get(x: u64, lo: u64, width: u64, v: u64, lo2: u64, width2: u64)
    requires
        1 <= width < 64,
        lo + width <= 64,
        1 <= width2 < 64,
        lo2 + width2 <= 64,
    ensures
        get_field(set_field(x, lo, width, v), lo, width) == v & field_mask(width),
        lo2 + width2 <= lo || lo + width <= lo2 ==>
            get_field(set_field(x, lo, width, v), lo2, width2) == get_field(x, lo2, width2),
{
    assert(get_field(set_field(x, lo, width, v), lo, width) == v & field_mask(width)) by (bit_vector)
        requires
            1 <= width < 64,
            lo + width <= 64;
    assert(lo2 + width2 <= lo || lo + width <= lo2 ==>
            get_field(set_field(x, lo, width, v), lo2, width2) == get_field(x, lo2, width2)) by (bit_vector)
        requires
            1 <= width < 64,
            lo + width <= 64,
            1 <= width2 < 64,
            lo2 + width2 <= 64;
}

/// The masks of the field widths that the entries use.
pub proof fn lemma_field_masks()
    by (bit_vector)
    ensures
        field_mask(1) == 1,
        field_mask(3) == 0x7,
        field_mask(4) == 0xf,
        field_mask(5) == 0x1f,
        field_mask(8) == 0xff,
        field_mask(11) == 0x7ff,
        field_mask(16) == 0xffff,
        field_mask(32) == 0xffff_ffff,
        field_mask(40) == 0xff_ffff_ffff,
{
}

/// Reads the field of `width` bits of `x` that starts at bit `lo`.
pub(crate) fn read_field(x: u64, lo: u64, width: u64) -> (r: u64)
    requires
        1 <= width < 64,
        lo + width <= 64,
    ensures
        r == get_field(x, lo, width),
        r <= field_mask(width),
{
    proof {
        assert(1u64 << width >= 1 && (x >> lo) & (((1u64 << width) - 1) as u64) <= ((1u64
            << width) - 1) as u64) by (bit_vector)
            requires
                1 <= width < 64,
                lo + width <= 64;
    }
    let m = (1u64 << width) - 1;
    (x >> lo) & m
}

/// Replaces the field of `width` bits of `x` that starts at bit `lo` by the low bits of `v`.
pub(crate) fn write_field(x: u64, lo: u64, width: u64, v: u64) -> (r: u64)
    requires
        1 <= width < 64,
        lo + width <= 64,
    ensures
        r == set_field(x, lo, width, v),
{
    proof {
        assert(1u64 << width >= 1) by (bit_vector)
            requires
                1 <= width < 64;
    }
    let m = (1u64 << width) - 1;
    (x & !(m << lo)) | ((v & m) << lo)
}

/// An entry of a page table.
#[derive(Clone, Copy, Debug)]
pub struct PageEntry(u64);

impl View for PageEntry {
    type V = u64;

    closed spec fn view(&self) -> u64 {
        self.0
    }
}

impl PageEntry {
    pub fn new(v: u64) -> (r: Self)
        ensures
            r@ == v,
    {
        PageEntry(v)
    }

    /// The raw value of the entry.
    pub fn raw(&self) -> (r: u64)
        ensures
            r == self@,
    {
        self.0
    }

    pub fn zero() -> (r: Self)
        ensures
            r@ == 0,
    {
        Self::new(0)
    }

    pub fn no_execute(&self) -> (r: bool)
        ensures
            r == (get_field(self@, 63, 1) == 1),
    {
        read_field(self.0, 63, 1) == 1
    }

    pub fn set_no_execute(&mut self, v: bool) -> (r: &mut Self)
        ensures
            r@ == set_field(old(self)@, 63, 1, if v { 1 } else { 0 }),
            *final(self) == *final(r),
    {
        let b: u64 = if v { 1 } else { 0 };
        self.0 = write_field(self.0, 63, 1, b);
        self
    }

    pub fn os1(&self) -> (r: u16)
        ensures
            r as u64 == get_field(self@, 52, 11),
    {
        let r = read_field(self.0, 52, 11);
        proof {
            lemma_field_masks();
        }
        r as u16
    }

    pub fn set_os1(&mut self, v: u16) -> (r: &mut Self)
        ensures
            r@ == set_field(old(self)@, 52, 11, v as u64),
            *final(self) == *final(r),
    {
        self.0 = write_field(self.0, 52, 11, v as u64);
        self
    }

    fn addr(&self) -> (r: u64)
        ensures
            r as u64 == get_field(self@, 12, 40),
    {
        read_field(self.0, 12, 40)
    }

    fn set_addr(&mut self, v: u64) -> (r: &mut Self)
        ensures
            r@ == set_field(old(self)@, 12, 40, v as u64),
            *final(self) == *final(r),
    {
        self.0 = write_field(self.0, 12, 40, v as u64);
        self
    }

    pub fn os0(&self) -> (r: u8)
        ensures
            r as u64 == get_field(self@, 9, 3),
    {
        let r = read_field(self.0, 9, 3);
        proof {
            lemma_field_masks();
        }
        r as u8
    }

    pub fn set_os0(&mut self, v: u8) -> (r: &mut Self)
        ensures
            r@ == set_field(old(self)@, 9, 3, v as u64),
            *final(self) == *final(r),
    {
        self.0 = write_field(self.0, 9, 3, v as u64);
        self
    }

    pub fn global(&self) -> (r: bool)
        ensures
            r == (get_field(self@, 8, 1) == 1),
    {
        read_field(self.0, 8, 1) == 1
    }

    pub fn set_global(&mut self, v: bool) -> (r: &mut Self)
        ensures
            r@ == set_field(old(self)@, 8, 1, if v { 1 } else { 0 }),
            *final(self) == *final(r),
    {
        let b: u64 = if v { 1 } else { 0 };
        self.0 = write_field(self.0, 8, 1, b);
        self
    }

    pub fn huge_page(&self) -> (r: bool)
        ensures
            r == (get_field(self@, 7, 1) == 1),
    {
        read_field(self.0, 7, 1) == 1
    }

    pub fn set_huge_page(&mut self, v: bool) -> (r: &mut Self)
        ensures
            r@ == set_field(old(self)@, 7, 1, if v { 1 } else { 0 }),
            *final(self) == *final(r),
    {
        let b: u64 = if v { 1 } else { 0 };
        self.0 = write_field(self.0, 7, 1, b);
        self
    }

    pub fn dirty(&self) -> (r: bool)
        ensures
            r == (get_field(self@, 6, 1) == 1),
    {
        read_field(self.0, 6, 1) == 1
    }

    pub fn set_dirty(&mut self, v: bool) -> (r: &mut Self)
        ensures
            r@ == set_field(old(self)@, 6, 1, if v { 1 } else { 0 }),
            *final(self) == *final(r),
    {
        let b: u64 = if v { 1 } else { 0 };
        self.0 = write_field(self.0, 6, 1, b);
        self
    }

    pub fn accessed(&self) -> (r: bool)
        ensures
            r == (get_field(self@, 5, 1) == 1),
    {
        read_field(self.0, 5, 1) == 1
    }

    pub fn set_accessed(&mut self, v: bool) -> (r: &mut Self)
        ensures
            r@ == set_field(old(self)@, 5, 1, if v { 1 } else { 0 }),
            *final(self) == *final(r),
    {
        let b: u64 = if v { 1 } else { 0 };
        self.0 = write_field(self.0, 5, 1, b);
        self
    }

    pub fn no_cache(&self) -> (r: bool)
        ensures
            r == (get_field(self@, 4, 1) == 1),
    {
        read_field(self.0, 4, 1) == 1
    }

    pub fn set_no_cache(&mut self, v: bool) -> (r: &mut Self)
        ensures
            r@ == set_field(old(self)@, 4, 1, if v { 1 } else { 0 }),
            *final(self) == *final(r),
    {
        let b: u64 = if v { 1 } else { 0 };
        self.0 = write_field(self.0, 4, 1, b);
        self
    }

    pub fn write_trough(&self) -> (r: bool)
        ensures
            r == (get_field(self@, 3, 1) == 1),
    {
        read_field(self.0, 3, 1) == 1
    }

    pub fn set_write_through(&mut self, v: bool) -> (r: &mut Self)
        ensures
            r@ == set_field(old(self)@, 3, 1, if v { 1 } else { 0 }),
            *final(self) == *final(r),
    {
        let b: u64 = if v { 1 } else { 0 };
        self.0 = write_field(self.0, 3, 1, b);
        self
    }

    pub fn user(&self) -> (r: bool)
        ensures
            r == (get_field(self@, 2, 1) == 1),
    {
        read_field(self.0, 2, 1) == 1
    }

    pub fn set_user(&mut self, v: bool) -> (r: &mut Self)
        ensures
            r@ == set_field(old(self)@, 2, 1, if v { 1 } else { 0 }),
            *final(self) == *final(r),
    {
        let b: u64 = if v { 1 } else { 0 };
        self.0 = write_field(self.0, 2, 1, b);
        self
    }

    pub fn writable(&self) -> (r: bool)
        ensures
            r == (get_field(self@, 1, 1) == 1),
    {
        read_field(self.0, 1, 1) == 1
    }

    pub fn set_writable(&mut self, v: bool) -> (r: &mut Self)
        ensures
            r@ == set_field(old(self)@, 1, 1, if v { 1 } else { 0 }),
            *final(self) == *final(r),
    {
        let b: u64 = if v { 1 } else { 0 };
        self.0 = write_field(self.0, 1, 1, b);
        self
    }

    pub fn present(&self) -> (r: bool)
        ensures
            r == (get_field(self@, 0, 1) == 1),
    {
        read_field(self.0, 0, 1) == 1
    }

    pub fn set_present(&mut self, v: bool) -> (r: &mut Self)
        ensures
            r@ == set_field(old(self)@, 0, 1, if v { 1 } else { 0 }),
            *final(self) == *final(r),
    {
        let b: u64 = if v { 1 } else { 0 };
        self.0 = write_field(self.0, 0, 1, b);
        self
    }

    /// The physical address of the page or table that the entry points to.
    pub fn phys_addr(&self) -> (r: PAddr)
        ensures
            r@ == get_field(self@, 12, 40) * 4096,
    {
        let a = self.addr();
        proof {
            let x = self.0;
            assert(get_field(x, 12, 40) < 0x100_0000_0000) by (bit_vector);
            assert(vstd::arithmetic::power2::pow2(12) == 4096) by {
                vstd::arithmetic::power2::lemma2_to64();
            }
            assert(a * 4096 < 0x1_0000_0000_0000_0000) by (nonlinear_arith)
                requires a < 0x100_0000_0000;
            vstd::bits::lemma_u64_shl_is_mul(a, 12);
        }
        PAddr::new(a << 12)
    }

    /// Points the entry to the page-aligned physical address `addr`.
    pub fn set_phys_addr(&mut self, addr: PAddr) -> (r: &mut Self)
        requires
            addr@ % 4096 == 0,
        ensures
            r@ == set_field(old(self)@, 12, 40, addr@ / 4096),
            *final(self) == *final(r),
            addr@ < 0x10_0000_0000_0000 ==> get_field(r@, 12, 40) * 4096 == addr@
                && r@ & !0x000f_ffff_ffff_f000u64 == old(self)@ & !0x000f_ffff_ffff_f000u64,
    {
        proof {
            if addr@ < 0x10_0000_0000_0000 {
                lemma_set_phys_addr(self@, addr@);
            }
        }
        self.set_addr(addr.page())
    }
}

/// Pointing an entry to a page-aligned physical address below 2^52 makes the
/// entry point to that address, and keeps every bit outside bits 12 to 51:
/// the flags, the bits left to the system and the no-execute bit.
pub proof fn lemma_set_phys_addr(e: u64, addr: u64)
    requires
        addr % 4096 == 0,
        addr < 0x10_0000_0000_0000,
    ensures
        get_field(set_field(e, 12, 40, addr / 4096), 12, 40) * 4096 == addr,
        set_field(e, 12, 40, addr / 4096) & !0x000f_ffff_ffff_f000u64 == e & !0x000f_ffff_ffff_f000u64,
{
    let v: u64 = addr / 4096;
    lemma_field_set_get(e, 12, 40, v, 12, 40);
    lemma_field_masks();
    assert(v < 0x100_0000_0000);
    assert(v & 0xff_ffff_ffffu64 == v) by (bit_vector)
        requires v < 0x100_0000_0000u64;
    assert(((e & !(0xff_ffff_ffffu64 << 12u64)) | ((v & 0xff_ffff_ffffu64) << 12u64)) & !0x000f_ffff_ffff_f000u64
        == e & !0x000f_ffff_ffff_f000u64) by (bit_vector);
}

/// A page table: 512 entries, each mapping a page or pointing to a table of the next level.
#[derive(Clone, Debug)]
pub struct PageTable {
    entries: [PageEntry; 512],
}

impl PageTable {
    /// The entries of the table.
    pub closed spec fn spec_entries(&self) -> Seq<PageEntry> {
        self.entries@
    }

    pub fn empty() -> (r: Self)
        ensures
            r.spec_entries().len() == 512,
            forall|i: int| 0 <= i < 512 ==> #[trigger] r.spec_entries()[i]@ == 0,
    {
        Self { entries: [PageEntry(0); 512] }
    }

    /// The entry at `index`.
    pub fn index(&self, index: u16) -> (r: &PageEntry)
        requires
            index < 512,
        ensures
            *r == self.spec_entries()[index as int],
    {
        &self.entries[index as usize]
    }

    /// Replaces the entry at `index`.
    pub fn set_entry(&mut self, index: u16, entry: PageEntry)
        requires
            index < 512,
        ensures
            final(self).spec_entries() == old(self).spec_entries().update(index as int, entry),
    {
        self.entries[index as usize] = entry;
    }
}

/// Sign-extends bit 47 of `addr` into bits 63 to 48.
pub fn make_canonical(addr: u64) -> (r: u64)
    ensures
        r == spec_make_canonical(addr),
        spec_is_canonical(r),
{
    crate::arch::make_canonical(addr)
}


/// Pointing an entry to a page-aligned physical address below 2^52 and
/// reading the address back gives that address.
pub proof fn lemma_phys_addr_round_trip(x: u64, a: u64)
    requires
        a % 4096 == 0,
        a < 0x10_0000_0000_0000,
    ensures
        get_field(set_field(x, 12, 40, a / 4096), 12, 40) * 4096 == a,
{
    let p = a / 4096;
    assert(p < 0x100_0000_0000);
    assert(get_field(set_field(x, 12, 40, p), 12, 40) == p) by (bit_vector)
        requires p < 0x100_0000_0000u64;
}

} // verus!
