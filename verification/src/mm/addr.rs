//! Physical and virtual addresses.
use vstd::prelude::*;

use crate::arch::{is_canonical, make_canonical, spec_is_canonical, spec_make_canonical};
use crate::integer::{align_upu64, is_align_up};

verus! {

/// The address rounded down to a page boundary.
pub open spec fn spec_page_down(a: u64) -> u64 {
    (a as int / 4096 * 4096) as u64
}

/// Proof that clearing the page-offset bits rounds down to a page boundary.
pub proof fn lemma_page_down(a: u64)
    ensures
        spec_page_down(a) <= a,
        a < spec_page_down(a) + 4096,
        spec_page_down(a) % 4096 == 0,
        spec_page_down(a) == a & !0xfffu64,
        (a & 0xfffu64) == a - spec_page_down(a),
        (a & 0xfffu64) == 0 <==> a % 4096 == 0,
        a >> 12u64 == a / 4096,
{
    assert(a as int / 4096 * 4096 <= a) by (nonlinear_arith);
    assert(a < a as int / 4096 * 4096 + 4096) by (nonlinear_arith);
    assert((a as int / 4096 * 4096) % 4096 == 0) by (nonlinear_arith);
    assert(a / 4096 * 4096 == a & !0xfffu64) by (bit_vector);
    assert((a & 0xfffu64) == a % 4096) by (bit_vector);
    assert(a >> 12u64 == a / 4096) by (bit_vector);
}

/// A physical address.
#[derive(Clone, Copy, PartialEq, Eq, PartialOrd, Ord, Hash, Default, Debug)]
pub struct PAddr(u64);

impl View for PAddr {
    type V = u64;

    closed spec fn view(&self) -> u64 {
        self.0
    }
}

impl PAddr {
    pub fn null() -> (r: Self)
        ensures
            r@ == 0,
    {
        Self(0)
    }

    pub fn new(v: u64) -> (r: Self)
        ensures
            r@ == v,
    {
        Self(v)
    }

    pub fn from_u64(v: u64) -> (r: Self)
        ensures
            r@ == v,
    {
        Self::new(v)
    }

    pub fn from_usize(v: usize) -> (r: Self)
        ensures
            r@ == v as u64,
    {
        Self::new(v as u64)
    }

    pub fn as_repr(self) -> (r: u64)
        ensures
            r == self@,
    {
        self.0
    }

    pub fn as_u64(self) -> (r: u64)
        ensures
            r == self@,
    {
        self.0
    }

    pub fn as_usize(self) -> (r: usize)
        ensures
            r == self@ as usize,
    {
        self.0 as usize
    }

    pub fn is_page_aligned(self) -> (r: bool)
        ensures
            r <==> self@ % 4096 == 0,
    {
        proof { lemma_page_down(self.0); }
        (self.0 & 0xfff) == 0
    }

    pub fn align_page_up(self) -> (r: Self)
        requires
            self@ + 4096 <= u64::MAX,
            (self@ as int + 4095) / 4096 * 4096 <= u64::MAX,
        ensures
            is_align_up(self@ as int, 4096, r@ as int),
    {
        Self::new(align_upu64(self.0, 4096))
    }

    pub fn align_page_down(self) -> (r: Self)
        ensures
            r@ == spec_page_down(self@),
            r@ % 4096 == 0,
            r@ <= self@ < r@ + 4096,
    {
        proof { lemma_page_down(self.0); }
        Self::new(self.0 / 4096 * 4096)
    }

    pub fn page(self) -> (r: u64)
        ensures
            r == self@ / 4096,
    {
        proof { lemma_page_down(self.0); }
        self.0 >> 12
    }

    pub fn add_u64(self, rhs: u64) -> (r: Self)
        requires
            self@ + rhs <= u64::MAX,
        ensures
            r@ == self@ + rhs,
    {
        Self::new(self.0 + rhs)
    }

    pub fn add_paddr(self, rhs: PAddr) -> (r: Self)
        requires
            self@ + rhs@ <= u64::MAX,
        ensures
            r@ == self@ + rhs@,
    {
        Self::new(self.0 + rhs.0)
    }

    pub fn sub_u64(self, rhs: u64) -> (r: Self)
        requires
            rhs <= self@,
        ensures
            r@ == self@ - rhs,
    {
        Self::new(self.0 - rhs)
    }

    pub fn sub_paddr(self, rhs: PAddr) -> (r: Self)
        requires
            rhs@ <= self@,
        ensures
            r@ == self@ - rhs@,
    {
        Self::new(self.0 - rhs.0)
    }

    /// The virtual address equal to this physical address, in an identity mapping.
    pub fn identity(self) -> (r: VAddr)
        requires
            spec_is_canonical(self@),
        ensures
            r@ == self@,
    {
        VAddr::null().add_paddr(self)
    }
}

/// The error of an address that is not canonical.
#[derive(Clone, Copy, Debug, PartialEq, Eq)]
pub struct NonCanonicalError;

/// A canonical virtual address.
#[derive(Clone, Copy, PartialEq, Eq, PartialOrd, Ord, Hash, Default, Debug)]
pub struct VAddr(u64);

impl View for VAddr {
    type V = u64;

    closed spec fn view(&self) -> u64 {
        self.0
    }
}

impl VAddr {
    pub fn null() -> (r: Self)
        ensures
            r@ == 0,
    {
        Self(0)
    }

    pub fn try_new(addr: u64) -> (r: Result<Self, NonCanonicalError>)
        ensures
            r == Self::spec_try_new(addr),
            spec_is_canonical(addr) ==> r == Ok::<Self, NonCanonicalError>(Self::spec_new(addr)),
            !spec_is_canonical(addr) ==> r == Err::<Self, NonCanonicalError>(NonCanonicalError),
    {
        if is_canonical(addr) {
            Ok(Self(addr))
        } else {
            Err(NonCanonicalError)
        }
    }

    /// The address whose value is `addr`.
    pub closed spec fn spec_new(addr: u64) -> Self {
        Self(addr)
    }

    /// What `try_new` gives for `addr`: the address whose value is `addr`
    /// when `addr` is canonical, else the error.
    pub open spec fn spec_try_new(addr: u64) -> Result<Self, NonCanonicalError> {
        if spec_is_canonical(addr) {
            Ok(Self::spec_new(addr))
        } else {
            Err(NonCanonicalError)
        }
    }

    /// `new` is `try_new` unwrapped: `new` accepts exactly the addresses on
    /// which `try_new` succeeds (its `requires` is that `addr` is canonical),
    /// and gives the address that `try_new` gives, whose value is `addr`.
    pub proof fn lemma_new_is_try_new_unwrapped(addr: u64)
        ensures
            spec_is_canonical(addr) <==> Self::spec_try_new(addr) is Ok,
            spec_is_canonical(addr) ==> Self::spec_try_new(addr)->Ok_0 == Self::spec_new(addr)
                && Self::spec_try_new(addr)->Ok_0@ == addr,
    {
    }

    /// The address built from `addr` has the value `addr`. With the
    /// contracts of `try_new` and `new`, this is the law that `new` is
    /// `try_new` unwrapped: `new` accepts exactly the addresses that `try_new`
    /// accepts, the canonical ones, and gives the same address, whose
    /// `as_u64` is `addr`.
    pub proof fn lemma_spec_new(addr: u64)
        ensures
            #[trigger] Self::spec_new(addr)@ == addr,
    {
    }

    pub fn try_from_usize(v: usize) -> (r: Result<Self, NonCanonicalError>)
        ensures
            spec_is_canonical(v as u64) ==> r is Ok && r->Ok_0@ == v as u64,
            !spec_is_canonical(v as u64) ==> r == Err::<Self, NonCanonicalError>(NonCanonicalError),
    {
        Self::try_new(v as u64)
    }

    pub fn new(addr: u64) -> (r: Self)
        requires
            spec_is_canonical(addr),
        ensures
            r == Self::spec_try_new(addr)->Ok_0,
            r == Self::spec_new(addr),
            r@ == addr,
    {
        match Self::try_new(addr) {
            Ok(vaddr) => vaddr,
            Err(_) => Self(0),
        }
    }

    pub fn from_usize(v: usize) -> (r: Self)
        requires
            spec_is_canonical(v as u64),
        ensures
            r@ == v as u64,
    {
        Self::new(v as u64)
    }

    pub fn make_canonical(addr: u64) -> (r: Self)
        ensures
            r@ == spec_make_canonical(addr),
            spec_is_canonical(r@),
    {
        VAddr(make_canonical(addr))
    }

    pub fn as_u64(self) -> (r: u64)
        ensures
            r == self@,
    {
        self.0
    }

    pub fn as_usize(self) -> (r: usize)
        ensures
            r == self@ as usize,
    {
        self.0 as usize
    }

    pub fn is_page_aligned(self) -> (r: bool)
        ensures
            r <==> self@ % 4096 == 0,
    {
        proof { lemma_page_down(self.0); }
        (self.0 & 0xfff) == 0
    }

    pub fn align_page_up(self) -> (r: Self)
        requires
            self@ + 4096 <= u64::MAX,
            (self@ as int + 4095) / 4096 * 4096 <= u64::MAX,
            spec_is_canonical(((self@ as int + 4095) / 4096 * 4096) as u64),
        ensures
            is_align_up(self@ as int, 4096, r@ as int),
    {
        let v = align_upu64(self.0, 4096);
        proof {
            let q = ((self@ as int + 4095) / 4096);
            assert(v as int == q * 4096) by {
                crate::integer::lemma_ceil_div(self@ as int, 4096);
                assert(is_align_up(self@ as int, 4096, q * 4096)) by (nonlinear_arith)
                    requires q == (self@ as int + 4095) / 4096, self@ >= 0;
                lemma_align_up_unique(self@ as int, 4096, v as int, q * 4096);
            }
        }
        Self::new(v)
    }

    pub fn align_page_down(self) -> (r: Self)
        requires
            spec_is_canonical(self@),
        ensures
            r@ == spec_page_down(self@),
            r@ % 4096 == 0,
            r@ <= self@ < r@ + 4096,
    {
        proof {
            lemma_page_down(self.0);
            let a = self.0;
            assert(spec_is_canonical(a & !0xfffu64)) by (bit_vector)
                requires spec_is_canonical(a);
        }
        Self::new(self.0 / 4096 * 4096)
    }

    pub fn page(self) -> (r: u64)
        ensures
            r == self@ / 4096,
    {
        proof { lemma_page_down(self.0); }
        self.0 >> 12
    }

    pub fn try_add_u64(self, other: u64) -> (r: Result<Self, NonCanonicalError>)
        requires
            self@ + other <= u64::MAX,
        ensures
            r is Ok <==> spec_is_canonical((self@ + other) as u64),
            r is Ok ==> r->Ok_0@ == self@ + other,
    {
        Self::try_new(self.0 + other)
    }

    pub fn add_u64(self, other: u64) -> (r: Self)
        requires
            self@ + other <= u64::MAX,
            spec_is_canonical((self@ + other) as u64),
        ensures
            r@ == self@ + other,
    {
        Self::new(self.0 + other)
    }

    pub fn try_add_paddr(self, other: PAddr) -> (r: Result<Self, NonCanonicalError>)
        requires
            self@ + other@ <= u64::MAX,
        ensures
            r is Ok <==> spec_is_canonical((self@ + other@) as u64),
            r is Ok ==> r->Ok_0@ == self@ + other@,
    {
        Self::try_new(self.0 + other.0)
    }

    pub fn add_paddr(self, other: PAddr) -> (r: Self)
        requires
            self@ + other@ <= u64::MAX,
            spec_is_canonical((self@ + other@) as u64),
        ensures
            r@ == self@ + other@,
    {
        Self::new(self.0 + other.0)
    }

    pub fn try_add_vaddr(self, other: VAddr) -> (r: Result<Self, NonCanonicalError>)
        requires
            self@ + other@ <= u64::MAX,
        ensures
            r is Ok <==> spec_is_canonical((self@ + other@) as u64),
            r is Ok ==> r->Ok_0@ == self@ + other@,
    {
        Self::try_new(self.0 + other.0)
    }

    pub fn add_vaddr(self, other: VAddr) -> (r: Self)
        requires
            self@ + other@ <= u64::MAX,
            spec_is_canonical((self@ + other@) as u64),
        ensures
            r@ == self@ + other@,
    {
        Self::new(self.0 + other.0)
    }

    pub fn try_sub_u64(self, other: u64) -> (r: Result<Self, NonCanonicalError>)
        requires
            other <= self@,
        ensures
            r is Ok <==> spec_is_canonical((self@ - other) as u64),
            r is Ok ==> r->Ok_0@ == self@ - other,
    {
        Self::try_new(self.0 - other)
    }

    pub fn sub_u64(self, other: u64) -> (r: Self)
        requires
            other <= self@,
            spec_is_canonical((self@ - other) as u64),
        ensures
            r@ == self@ - other,
    {
        Self::new(self.0 - other)
    }

    pub fn try_sub_paddr(self, other: PAddr) -> (r: Result<Self, NonCanonicalError>)
        requires
            other@ <= self@,
        ensures
            r is Ok <==> spec_is_canonical((self@ - other@) as u64),
            r is Ok ==> r->Ok_0@ == self@ - other@,
    {
        Self::try_new(self.0 - other.0)
    }

    pub fn sub_paddr(self, other: PAddr) -> (r: Self)
        requires
            other@ <= self@,
            spec_is_canonical((self@ - other@) as u64),
        ensures
            r@ == self@ - other@,
    {
        Self::new(self.0 - other.0)
    }

    pub fn try_sub_vaddr(self, other: VAddr) -> (r: Result<Self, NonCanonicalError>)
        requires
            other@ <= self@,
        ensures
            r is Ok <==> spec_is_canonical((self@ - other@) as u64),
            r is Ok ==> r->Ok_0@ == self@ - other@,
    {
        Self::try_new(self.0 - other.0)
    }

    pub fn sub_vaddr(self, other: VAddr) -> (r: Self)
        requires
            other@ <= self@,
            spec_is_canonical((self@ - other@) as u64),
        ensures
            r@ == self@ - other@,
    {
        Self::new(self.0 - other.0)
    }

    /// The four page-table indices of the address, from the top level down,
    /// and its offset in the page.
    pub fn split(self) -> (r: (u16, u16, u16, u16, u64))
        ensures
            r == spec_split(self@),
    {
        let addr = self.0;
        let off = addr & 0xfff;
        let p1 = ((addr & (0x1ff << 12)) >> 12) as u16;
        let p2 = ((addr & (0x1ff << 21)) >> 21) as u16;
        let p3 = ((addr & (0x1ff << 30)) >> 30) as u16;
        let p4 = ((addr & (0x1ff << 39)) >> 39) as u16;
        proof {
            assert(p1 == ((addr >> 12u64) & 0x1ffu64) as u16
                && p2 == ((addr >> 21u64) & 0x1ffu64) as u16
                && p3 == ((addr >> 30u64) & 0x1ffu64) as u16
                && p4 == ((addr >> 39u64) & 0x1ffu64) as u16) by (bit_vector)
                requires
                    p1 == ((addr & (0x1ffu64 << 12u64)) >> 12u64) as u16,
                    p2 == ((addr & (0x1ffu64 << 21u64)) >> 21u64) as u16,
                    p3 == ((addr & (0x1ffu64 << 30u64)) >> 30u64) as u16,
                    p4 == ((addr & (0x1ffu64 << 39u64)) >> 39u64) as u16;
        }
        (p4, p3, p2, p1, off)
    }
}

/// The page-table indices of `addr`, from the top level down, and its page offset.
pub open spec fn spec_split(addr: u64) -> (u16, u16, u16, u16, u64) {
    (
        ((addr >> 39u64) & 0x1ffu64) as u16,
        ((addr >> 30u64) & 0x1ffu64) as u16,
        ((addr >> 21u64) & 0x1ffu64) as u16,
        ((addr >> 12u64) & 0x1ffu64) as u16,
        addr & 0xfffu64,
    )
}

/// The low 48 bits of an address are recovered from its page-table indices
/// and page offset, each index below 512 and the offset below 4096.
pub proof fn lemma_split_recompose(addr: u64)
    ensures
        ({
            let (p4, p3, p2, p1, off) = spec_split(addr);
            &&& p4 < 512 && p3 < 512 && p2 < 512 && p1 < 512 && off < 4096
            &&& addr & 0xffff_ffff_ffffu64 == ((p4 as u64) << 39u64) | ((p3 as u64) << 30u64)
                | ((p2 as u64) << 21u64) | ((p1 as u64) << 12u64) | off
        }),
{
    let p4 = ((addr >> 39u64) & 0x1ffu64) as u16;
    let p3 = ((addr >> 30u64) & 0x1ffu64) as u16;
    let p2 = ((addr >> 21u64) & 0x1ffu64) as u16;
    let p1 = ((addr >> 12u64) & 0x1ffu64) as u16;
    let off = addr & 0xfffu64;
    assert(p4 < 512 && p3 < 512 && p2 < 512 && p1 < 512 && off < 4096
        && addr & 0xffff_ffff_ffffu64 == ((p4 as u64) << 39u64) | ((p3 as u64) << 30u64)
            | ((p2 as u64) << 21u64) | ((p1 as u64) << 12u64) | off) by (bit_vector)
        requires
            p4 == ((addr >> 39u64) & 0x1ffu64) as u16,
            p3 == ((addr >> 30u64) & 0x1ffu64) as u16,
            p2 == ((addr >> 21u64) & 0x1ffu64) as u16,
            p1 == ((addr >> 12u64) & 0x1ffu64) as u16,
            off == addr & 0xfffu64;
}

proof fn lemma_align_up_unique(v: int, align: int, r1: int, r2: int)
    requires
        align > 0,
        is_align_up(v, align, r1),
        is_align_up(v, align, r2),
    ensures
        r1 == r2,
{
    let q1 = r1 / align;
    let q2 = r2 / align;
    assert(r1 == q1 * align && r2 == q2 * align) by (nonlinear_arith)
        requires align > 0, r1 % align == 0, r2 % align == 0, q1 == r1 / align, q2 == r2 / align;
    crate::integer::lemma_ceil_div_unique(v, align, q1, q2);
}

} // verus!
