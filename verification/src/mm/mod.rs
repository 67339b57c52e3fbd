//! Memory management: addresses, frames and mappings.
pub mod addr;

use core::marker::PhantomData;

use vstd::prelude::*;
use vstd::arithmetic::power2::pow2;
use vstd::math::{max, min};

use crate::arch::{spec_is_canonical, FrameSize};
use crate::elf::program::{Elf64Phdr, ProgramEntryFlags, ProgramEntryType, PT_LOAD};
use crate::elf::{program_entries, Elf};
use crate::integer::{ceil_divu64, is_align_up, lemma_ceil_div, lemma_ceil_div_unique};
pub use self::addr::{PAddr, VAddr};

verus! {

/// The error of an address that is not aligned on a page boundary.
#[derive(Copy, Clone, Debug, PartialEq, Eq)]
pub struct FrameAlignError;

/// The size in bytes of a page of size `S`.
pub open spec fn frame_bytes<S: FrameSize>() -> nat {
    pow2(S::spec_page_shift())
}

/// A page-aligned PAddr of a page of size `S`.
#[derive(Debug)]
pub struct PFrame<S: FrameSize> {
    addr: PAddr,
    size: PhantomData<S>,
}

impl<S: FrameSize> Clone for PFrame<S> {
    fn clone(&self) -> (r: Self)
        ensures
            r == *self,
    {
        PFrame { addr: self.addr, size: PhantomData }
    }
}

impl<S: FrameSize> Copy for PFrame<S> {
}

impl<S: FrameSize> PFrame<S> {
    /// The address of the frame.
    pub closed spec fn spec_addr(self) -> PAddr {
        self.addr
    }

    pub fn null() -> (r: Self)
        ensures
            r.spec_addr()@ == 0,
    {
        Self { addr: PAddr::null(), size: PhantomData }
    }

    pub fn new(addr: PAddr) -> (r: Self)
        requires
            addr@ as nat % frame_bytes::<S>() == 0,
        ensures
            r.spec_addr() == addr,
    {
        match Self::try_new(addr) {
            Ok(frame) => frame,
            Err(_) => Self { addr, size: PhantomData },
        }
    }

    pub fn try_new(addr: PAddr) -> (r: Result<Self, FrameAlignError>)
        ensures
            r is Ok <==> addr@ as nat % frame_bytes::<S>() == 0,
            r is Ok ==> r->Ok_0.spec_addr() == addr,
            r is Err ==> r == Err::<Self, FrameAlignError>(FrameAlignError),
    {
        if addr.as_u64() % S::page_size() == 0 {
            Ok(Self { addr, size: PhantomData })
        } else {
            Err(FrameAlignError)
        }
    }

    /// The frame that starts at `addr` rounded up to a page boundary.
    pub fn new_align_up(addr: PAddr) -> (r: Self)
        requires
            addr@ + frame_bytes::<S>() <= u64::MAX,
            (addr@ as int + frame_bytes::<S>() - 1) / (frame_bytes::<S>() as int)
                * (frame_bytes::<S>() as int) <= u64::MAX,
        ensures
            is_align_up(addr@ as int, frame_bytes::<S>() as int, r.spec_addr()@ as int),
    {
        let size = S::page_size();
        let q = ceil_divu64(addr.as_u64(), size);
        proof {
            lemma_ceil_div(addr@ as int, size as int);
            lemma_ceil_div_unique(addr@ as int, size as int, q as int, (addr@ as int + size - 1) / (size as int));
            assert((q as int * size) % (size as int) == 0) by (nonlinear_arith)
                requires size > 0;
        }
        Self { addr: PAddr::new(q * size), size: PhantomData }
    }

    /// The frame that contains `addr`.
    pub fn new_align_down(addr: PAddr) -> (r: Self)
        requires
        ensures
            r.spec_addr()@ as int == addr@ as int / (frame_bytes::<S>() as int) * (frame_bytes::<S>() as int),
            r.spec_addr()@ as nat % frame_bytes::<S>() == 0,
            r.spec_addr()@ <= addr@ < r.spec_addr()@ + frame_bytes::<S>(),
    {
        let size = S::page_size();
        proof {
            let a = addr@ as int;
            let s = size as int;
            assert(a / s * s <= a && a < a / s * s + s && (a / s * s) % s == 0 && a / s * s >= 0)
                by (nonlinear_arith)
                requires s > 0, a >= 0;
        }
        Self { addr: PAddr::new(addr.as_u64() / size * size), size: PhantomData }
    }

    pub fn addr(&self) -> (r: PAddr)
        ensures
            r == self.spec_addr(),
    {
        self.addr
    }

    /// The frame `count` pages above this one.
    pub fn add(self, count: u64) -> (r: Self)
        requires
            count * frame_bytes::<S>() <= u64::MAX,
            self.spec_addr()@ + count * frame_bytes::<S>() <= u64::MAX,
        ensures
            r.spec_addr()@ == self.spec_addr()@ + count * frame_bytes::<S>(),
    {
        let size = S::page_size();
        Self { addr: self.addr.add_u64(count * size), size: PhantomData }
    }

    /// The frame `count` pages below this one.
    pub fn sub(self, count: u64) -> (r: Self)
        requires
            count * frame_bytes::<S>() <= self.spec_addr()@,
        ensures
            r.spec_addr()@ == self.spec_addr()@ - count * frame_bytes::<S>(),
    {
        let size = S::page_size();
        proof {
            assert(count * size <= u64::MAX);
        }
        Self { addr: self.addr.sub_u64(count * size), size: PhantomData }
    }
}

/// The frames from `start` included to `end` excluded.
#[derive(Debug)]
pub struct PFrameRange<S: FrameSize> {
    start: PFrame<S>,
    end: PFrame<S>,
}

impl<S: FrameSize> Clone for PFrameRange<S> {
    fn clone(&self) -> (r: Self)
        ensures
            r == *self,
    {
        PFrameRange { start: self.start, end: self.end }
    }
}

impl<S: FrameSize> Copy for PFrameRange<S> {
}

impl<S: FrameSize> PFrameRange<S> {
    /// The first frame of the range.
    pub closed spec fn spec_start(self) -> PFrame<S> {
        self.start
    }

    /// The frame just past the range.
    pub closed spec fn spec_end(self) -> PFrame<S> {
        self.end
    }

    /// The range's bounds, as addresses.
    pub open spec fn bounds(self) -> (u64, u64) {
        (self.spec_start().spec_addr()@, self.spec_end().spec_addr()@)
    }

    pub fn new(start: PFrame<S>, end: PFrame<S>) -> (r: Self)
        requires
            start.spec_addr()@ <= end.spec_addr()@,
        ensures
            r.spec_start() == start,
            r.spec_end() == end,
    {
        Self { start, end }
    }

    pub fn start(&self) -> (r: PFrame<S>)
        ensures
            r == self.spec_start(),
    {
        self.start
    }

    pub fn end(&self) -> (r: PFrame<S>)
        ensures
            r == self.spec_end(),
    {
        self.end
    }

    /// The number of whole pages in the range.
    pub fn frame_count(&self) -> (r: u64)
        requires
            self.bounds().0 <= self.bounds().1,
        ensures
            r as int == (self.bounds().1 - self.bounds().0) / (frame_bytes::<S>() as int),
    {
        (self.end.addr().as_u64() - self.start.addr().as_u64()) / S::page_size()
    }

    /// Whether `rhs` lies within this range.
    pub fn contains(&self, rhs: &Self) -> (r: bool)
        ensures
            r <==> self.bounds().0 <= rhs.bounds().0 && self.bounds().1 >= rhs.bounds().1,
    {
        self.start.addr().as_u64() <= rhs.start.addr().as_u64()
            && self.end.addr().as_u64() >= rhs.end.addr().as_u64()
    }

    /// Whether this range ends at or after the start of `rhs` and `rhs` ends
    /// at or before the start of this range.
    pub fn intesects(&self, rhs: &Self) -> (r: bool)
        ensures
            r <==> self.bounds().1 >= rhs.bounds().0 && rhs.bounds().1 <= self.bounds().0,
    {
        self.end.addr().as_u64() >= rhs.start.addr().as_u64()
            && rhs.end.addr().as_u64() <= self.start.addr().as_u64()
    }

    /// The range from the higher start to the lower end of the two ranges,
    /// when `intesects` holds of them.
    pub fn intersection(self, rhs: Self) -> (r: Option<Self>)
        requires
            self.bounds().1 >= rhs.bounds().0 && rhs.bounds().1 <= self.bounds().0 ==>
                max(self.bounds().0 as int, rhs.bounds().0 as int) <= min(self.bounds().1 as int, rhs.bounds().1 as int),
        ensures
            r is Some <==> self.bounds().1 >= rhs.bounds().0 && rhs.bounds().1 <= self.bounds().0,
            r is Some ==> r->Some_0.bounds() == (
                max(self.bounds().0 as int, rhs.bounds().0 as int) as u64,
                min(self.bounds().1 as int, rhs.bounds().1 as int) as u64,
            ),
    {
        if self.intesects(&rhs) {
            let start = if self.start.addr().as_u64() >= rhs.start.addr().as_u64() {
                self.start
            } else {
                rhs.start
            };
            let end = if self.end.addr().as_u64() <= rhs.end.addr().as_u64() {
                self.end
            } else {
                rhs.end
            };
            Some(Self::new(start, end))
        } else {
            None
        }
    }

    /// Takes the first frame of the range, if the range is not empty.
    pub fn next(&mut self) -> (r: Option<PFrame<S>>)
        requires
            old(self).bounds().0 < old(self).bounds().1 ==> old(self).bounds().0 + frame_bytes::<S>() <= u64::MAX,
        ensures
            old(self).bounds().0 < old(self).bounds().1 ==> r == Some(old(self).spec_start())
                && final(self).bounds() == (
                    (old(self).bounds().0 + frame_bytes::<S>()) as u64,
                    old(self).bounds().1,
                ),
            old(self).bounds().0 >= old(self).bounds().1 ==> r is None && *final(self) == *old(self),
    {
        if self.start.addr().as_u64() < self.end.addr().as_u64() {
            let frame = self.start;
            self.start = PFrame { addr: self.start.addr().add_u64(S::page_size()), size: PhantomData };
            Some(frame)
        } else {
            None
        }
    }
}

/// A page-aligned VAddr of a page of size `S`.
#[derive(Debug)]
pub struct VFrame<S: FrameSize> {
    addr: VAddr,
    size: PhantomData<S>,
}

impl<S: FrameSize> Clone for VFrame<S> {
    fn clone(&self) -> (r: Self)
        ensures
            r == *self,
    {
        VFrame { addr: self.addr, size: PhantomData }
    }
}

impl<S: FrameSize> Copy for VFrame<S> {
}

impl<S: FrameSize> VFrame<S> {
    /// The address of the frame.
    pub closed spec fn spec_addr(self) -> VAddr {
        self.addr
    }

    pub fn null() -> (r: Self)
        ensures
            r.spec_addr()@ == 0,
    {
        Self { addr: VAddr::null(), size: PhantomData }
    }

    pub fn new(addr: VAddr) -> (r: Self)
        requires
            addr@ as nat % frame_bytes::<S>() == 0,
        ensures
            r.spec_addr() == addr,
    {
        match Self::try_new(addr) {
            Ok(frame) => frame,
            Err(_) => Self { addr, size: PhantomData },
        }
    }

    pub fn try_new(addr: VAddr) -> (r: Result<Self, FrameAlignError>)
        ensures
            r is Ok <==> addr@ as nat % frame_bytes::<S>() == 0,
            r is Ok ==> r->Ok_0.spec_addr() == addr,
            r is Err ==> r == Err::<Self, FrameAlignError>(FrameAlignError),
    {
        if addr.as_u64() % S::page_size() == 0 {
            Ok(Self { addr, size: PhantomData })
        } else {
            Err(FrameAlignError)
        }
    }

    /// The frame that starts at `addr` rounded up to a page boundary.
    pub fn new_align_up(addr: VAddr) -> (r: Self)
        requires
            addr@ + frame_bytes::<S>() <= u64::MAX,
            (addr@ as int + frame_bytes::<S>() - 1) / (frame_bytes::<S>() as int)
                * (frame_bytes::<S>() as int) <= u64::MAX,
            spec_is_canonical(((addr@ as int + frame_bytes::<S>() - 1) / (frame_bytes::<S>() as int)
                * (frame_bytes::<S>() as int)) as u64),
        ensures
            is_align_up(addr@ as int, frame_bytes::<S>() as int, r.spec_addr()@ as int),
    {
        let size = S::page_size();
        let q = ceil_divu64(addr.as_u64(), size);
        proof {
            lemma_ceil_div(addr@ as int, size as int);
            lemma_ceil_div_unique(addr@ as int, size as int, q as int, (addr@ as int + size - 1) / (size as int));
            assert((q as int * size) % (size as int) == 0) by (nonlinear_arith)
                requires size > 0;
        }
        Self { addr: VAddr::new(q * size), size: PhantomData }
    }

    /// The frame that contains `addr`.
    pub fn new_align_down(addr: VAddr) -> (r: Self)
        requires
            spec_is_canonical((addr@ as int / (frame_bytes::<S>() as int) * (frame_bytes::<S>() as int)) as u64),
        ensures
            r.spec_addr()@ as int == addr@ as int / (frame_bytes::<S>() as int) * (frame_bytes::<S>() as int),
            r.spec_addr()@ as nat % frame_bytes::<S>() == 0,
            r.spec_addr()@ <= addr@ < r.spec_addr()@ + frame_bytes::<S>(),
    {
        let size = S::page_size();
        proof {
            let a = addr@ as int;
            let s = size as int;
            assert(a / s * s <= a && a < a / s * s + s && (a / s * s) % s == 0 && a / s * s >= 0)
                by (nonlinear_arith)
                requires s > 0, a >= 0;
        }
        Self { addr: VAddr::new(addr.as_u64() / size * size), size: PhantomData }
    }

    pub fn addr(&self) -> (r: VAddr)
        ensures
            r == self.spec_addr(),
    {
        self.addr
    }

    /// The frame `count` pages above this one.
    pub fn add(self, count: u64) -> (r: Self)
        requires
            count * frame_bytes::<S>() <= u64::MAX,
            self.spec_addr()@ + count * frame_bytes::<S>() <= u64::MAX,
            spec_is_canonical((self.spec_addr()@ + count * frame_bytes::<S>()) as u64),
        ensures
            r.spec_addr()@ == self.spec_addr()@ + count * frame_bytes::<S>(),
    {
        let size = S::page_size();
        Self { addr: self.addr.add_u64(count * size), size: PhantomData }
    }

    /// The frame `count` pages below this one.
    pub fn sub(self, count: u64) -> (r: Self)
        requires
            count * frame_bytes::<S>() <= self.spec_addr()@,
            spec_is_canonical((self.spec_addr()@ - count * frame_bytes::<S>()) as u64),
        ensures
            r.spec_addr()@ == self.spec_addr()@ - count * frame_bytes::<S>(),
    {
        let size = S::page_size();
        proof {
            assert(count * size <= u64::MAX);
        }
        Self { addr: self.addr.sub_u64(count * size), size: PhantomData }
    }
}

/// The frames from `start` included to `end` excluded.
#[derive(Debug)]
pub struct VFrameRange<S: FrameSize> {
    start: VFrame<S>,
    end: VFrame<S>,
}

impl<S: FrameSize> Clone for VFrameRange<S> {
    fn clone(&self) -> (r: Self)
        ensures
            r == *self,
    {
        VFrameRange { start: self.start, end: self.end }
    }
}

impl<S: FrameSize> Copy for VFrameRange<S> {
}

impl<S: FrameSize> VFrameRange<S> {
    /// The first frame of the range.
    pub closed spec fn spec_start(self) -> VFrame<S> {
        self.start
    }

    /// The frame just past the range.
    pub closed spec fn spec_end(self) -> VFrame<S> {
        self.end
    }

    /// The range's bounds, as addresses.
    pub open spec fn bounds(self) -> (u64, u64) {
        (self.spec_start().spec_addr()@, self.spec_end().spec_addr()@)
    }

    pub fn new(start: VFrame<S>, end: VFrame<S>) -> (r: Self)
        requires
            start.spec_addr()@ <= end.spec_addr()@,
        ensures
            r.spec_start() == start,
            r.spec_end() == end,
    {
        Self { start, end }
    }

    pub fn start(&self) -> (r: VFrame<S>)
        ensures
            r == self.spec_start(),
    {
        self.start
    }

    pub fn end(&self) -> (r: VFrame<S>)
        ensures
            r == self.spec_end(),
    {
        self.end
    }

    /// The number of whole pages in the range.
    pub fn frame_count(&self) -> (r: u64)
        requires
            self.bounds().0 <= self.bounds().1,
        ensures
            r as int == (self.bounds().1 - self.bounds().0) / (frame_bytes::<S>() as int),
    {
        (self.end.addr().as_u64() - self.start.addr().as_u64()) / S::page_size()
    }

    /// Whether `rhs` lies within this range.
    pub fn contains(&self, rhs: &Self) -> (r: bool)
        ensures
            r <==> self.bounds().0 <= rhs.bounds().0 && self.bounds().1 >= rhs.bounds().1,
    {
        self.start.addr().as_u64() <= rhs.start.addr().as_u64()
            && self.end.addr().as_u64() >= rhs.end.addr().as_u64()
    }

    /// Whether this range ends at or after the start of `rhs` and `rhs` ends
    /// at or before the start of this range.
    pub fn intesects(&self, rhs: &Self) -> (r: bool)
        ensures
            r <==> self.bounds().1 >= rhs.bounds().0 && rhs.bounds().1 <= self.bounds().0,
    {
        self.end.addr().as_u64() >= rhs.start.addr().as_u64()
            && rhs.end.addr().as_u64() <= self.start.addr().as_u64()
    }

    /// The range from the higher start to the lower end of the two ranges,
    /// when `intesects` holds of them.
    pub fn intersection(self, rhs: Self) -> (r: Option<Self>)
        requires
            self.bounds().1 >= rhs.bounds().0 && rhs.bounds().1 <= self.bounds().0 ==>
                max(self.bounds().0 as int, rhs.bounds().0 as int) <= min(self.bounds().1 as int, rhs.bounds().1 as int),
        ensures
            r is Some <==> self.bounds().1 >= rhs.bounds().0 && rhs.bounds().1 <= self.bounds().0,
            r is Some ==> r->Some_0.bounds() == (
                max(self.bounds().0 as int, rhs.bounds().0 as int) as u64,
                min(self.bounds().1 as int, rhs.bounds().1 as int) as u64,
            ),
    {
        if self.intesects(&rhs) {
            let start = if self.start.addr().as_u64() >= rhs.start.addr().as_u64() {
                self.start
            } else {
                rhs.start
            };
            let end = if self.end.addr().as_u64() <= rhs.end.addr().as_u64() {
                self.end
            } else {
                rhs.end
            };
            Some(Self::new(start, end))
        } else {
            None
        }
    }

    /// Takes the first frame of the range, if the range is not empty.
    pub fn next(&mut self) -> (r: Option<VFrame<S>>)
        requires
            old(self).bounds().0 < old(self).bounds().1 ==> old(self).bounds().0 + frame_bytes::<S>() <= u64::MAX,
            old(self).bounds().0 < old(self).bounds().1 ==> spec_is_canonical((old(self).bounds().0 + frame_bytes::<S>()) as u64),
        ensures
            old(self).bounds().0 < old(self).bounds().1 ==> r == Some(old(self).spec_start())
                && final(self).bounds() == (
                    (old(self).bounds().0 + frame_bytes::<S>()) as u64,
                    old(self).bounds().1,
                ),
            old(self).bounds().0 >= old(self).bounds().1 ==> r is None && *final(self) == *old(self),
    {
        if self.start.addr().as_u64() < self.end.addr().as_u64() {
            let frame = self.start;
            self.start = VFrame { addr: self.start.addr().add_u64(S::page_size()), size: PhantomData };
            Some(frame)
        } else {
            None
        }
    }
}

/// Access rights and attributes of a mapping.
#[derive(Clone, Copy, Debug, PartialEq, Eq, Hash)]
pub struct MapFlags {
    bits: u8,
}

/// Every bit that names a mapping flag.
pub open spec fn map_flags_all_bits() -> u8 {
    0b0111_0011u8
}

#[allow(non_snake_case)]
impl MapFlags {
    /// The bits of the flags.
    pub closed spec fn spec_bits(self) -> u8 {
        self.bits
    }

    pub fn WRITE() -> (r: Self)
        ensures
            r.spec_bits() == 0b0000_0001u8,
    {
        MapFlags { bits: 0b0000_0001 }
    }

    pub fn EXEC() -> (r: Self)
        ensures
            r.spec_bits() == 0b0000_0010u8,
    {
        MapFlags { bits: 0b0000_0010 }
    }

    pub fn GLOBAL() -> (r: Self)
        ensures
            r.spec_bits() == 0b0001_0000u8,
    {
        MapFlags { bits: 0b0001_0000 }
    }

    pub fn NOCACHE() -> (r: Self)
        ensures
            r.spec_bits() == 0b0010_0000u8,
    {
        MapFlags { bits: 0b0010_0000 }
    }

    pub fn USER() -> (r: Self)
        ensures
            r.spec_bits() == 0b0100_0000u8,
    {
        MapFlags { bits: 0b0100_0000 }
    }

    pub fn empty() -> (r: Self)
        ensures
            r.spec_bits() == 0,
    {
        MapFlags { bits: 0 }
    }

    pub fn all() -> (r: Self)
        ensures
            r.spec_bits() == map_flags_all_bits(),
    {
        MapFlags { bits: 0b0111_0011 }
    }

    pub fn bits(&self) -> (r: u8)
        ensures
            r == self.spec_bits(),
    {
        self.bits
    }

    /// The flags named by `bits`, unless `bits` holds a bit that names no flag.
    pub fn from_bits(bits: u8) -> (r: Option<Self>)
        ensures
            r is Some <==> bits & !map_flags_all_bits() == 0,
            r is Some ==> r->Some_0.spec_bits() == bits,
    {
        if bits & !0b0111_0011u8 == 0 {
            Some(MapFlags { bits })
        } else {
            None
        }
    }

    /// The flags named by `bits`, ignoring the bits that name no flag.
    pub fn from_bits_truncate(bits: u8) -> (r: Self)
        ensures
            r.spec_bits() == bits & map_flags_all_bits(),
    {
        MapFlags { bits: bits & 0b0111_0011 }
    }

    pub fn is_empty(&self) -> (r: bool)
        ensures
            r <==> self.spec_bits() == 0,
    {
        self.bits == 0
    }

    /// Whether every flag of `other` is set in `self`.
    pub fn contains(&self, other: Self) -> (r: bool)
        ensures
            r <==> self.spec_bits() & other.spec_bits() == other.spec_bits(),
    {
        self.bits & other.bits == other.bits
    }

    /// Whether some flag of `other` is set in `self`.
    pub fn intersects(&self, other: Self) -> (r: bool)
        ensures
            r <==> self.spec_bits() & other.spec_bits() != 0,
    {
        self.bits & other.bits != 0
    }

    /// Sets the flags of `other`.
    pub fn insert(&mut self, other: Self)
        ensures
            final(self).spec_bits() == old(self).spec_bits() | other.spec_bits(),
    {
        self.bits = self.bits | other.bits;
    }

    /// Clears the flags of `other`.
    pub fn remove(&mut self, other: Self)
        ensures
            final(self).spec_bits() == old(self).spec_bits() & !other.spec_bits(),
    {
        self.bits = self.bits & !other.bits;
    }

    /// The flags set in either operand.
    pub fn union(self, other: Self) -> (r: Self)
        ensures
            r.spec_bits() == self.spec_bits() | other.spec_bits(),
    {
        MapFlags { bits: self.bits | other.bits }
    }
}

/// Once inserted, a flag is contained; once removed, it is not.
pub proof fn lemma_map_flags_insert_remove(a: u8, b: u8)
    ensures
        (a | b) & b == b,
        b != 0 ==> (a & !b) & b != b,
{
    assert((a | b) & b == b) by (bit_vector);
    assert(b != 0 ==> (a & !b) & b != b) by (bit_vector);
}

/// The error of a mapping request.
#[derive(Clone, Copy, Debug, PartialEq, Eq)]
pub enum MapError<FE> {
    AlreadyMapped,
    FrameAllocError(FE),
}

/// The error of mapping the loadable segments of an ELF image.
#[derive(Clone, Copy, Debug, PartialEq, Eq)]
pub enum MapElfError<FE> {
    AlreadyMapped,
    InvalidAlignment,
    FrameAllocError(FE),
}

impl<FE> MapError<FE> {
    pub fn from_frame_alloc_error(fe: FE) -> (r: Self)
        ensures
            r == MapError::FrameAllocError(fe),
    {
        MapError::FrameAllocError(fe)
    }
}

/// The error of mapping a page of the ELF image, as an error of mapping the image.
pub open spec fn spec_map_elf_error<FE>(e: MapError<FE>) -> MapElfError<FE> {
    match e {
        MapError::AlreadyMapped => MapElfError::AlreadyMapped,
        MapError::FrameAllocError(fe) => MapElfError::FrameAllocError(fe),
    }
}

impl<FE> From<MapError<FE>> for MapElfError<FE> {
    fn from(e: MapError<FE>) -> (r: Self) {
        match e {
            MapError::AlreadyMapped => MapElfError::AlreadyMapped,
            MapError::FrameAllocError(fe) => MapElfError::FrameAllocError(fe),
        }
    }
}

impl<FE> vstd::std_specs::convert::FromSpecImpl<MapError<FE>> for MapElfError<FE> {
    open spec fn obeys_from_spec() -> bool {
        true
    }

    open spec fn from_spec(e: MapError<FE>) -> Self {
        spec_map_elf_error(e)
    }
}

/// The error of an unmapping request.
#[derive(Clone, Copy, Debug, PartialEq, Eq)]
pub enum UnmapError<FE> {
    NotMapped,
    InvalidSize,
    FrameAllocError(FE),
}

/// The outcome of a mapping request: its flush, or which error it met.
pub open spec fn map_outcome<F, FE>(r: Result<F, MapError<FE>>) -> Result<F, MapError<()>> {
    match r {
        Ok(f) => Ok(f),
        Err(MapError::AlreadyMapped) => Err(MapError::AlreadyMapped),
        Err(MapError::FrameAllocError(_)) => Err(MapError::FrameAllocError(())),
    }
}

/// The outcome of an unmapping request: its flush, or which error it met.
pub open spec fn unmap_outcome<F, FE>(r: Result<F, UnmapError<FE>>) -> Result<F, UnmapError<()>> {
    match r {
        Ok(f) => Ok(f),
        Err(UnmapError::NotMapped) => Err(UnmapError::NotMapped),
        Err(UnmapError::InvalidSize) => Err(UnmapError::InvalidSize),
        Err(UnmapError::FrameAllocError(_)) => Err(UnmapError::FrameAllocError(())),
    }
}

/// A mapper that hands each request, unchanged, to the mapper it wraps and
/// gives back its outcome; it writes no log of its own.
pub struct LoggingMapper<M> {
    mapper: M,
}

impl<M> LoggingMapper<M> {
    /// The wrapped mapper.
    pub closed spec fn spec_inner(&self) -> M {
        self.mapper
    }

    pub fn new(mapper: M) -> (r: Self)
        ensures
            r.spec_inner() == mapper,
    {
        Self { mapper }
    }

    pub fn inner(&self) -> (r: &M)
        ensures
            *r == self.spec_inner(),
    {
        &self.mapper
    }

    pub fn inner_mut(&mut self) -> (r: &mut M)
        ensures
            *r == old(self).spec_inner(),
            final(self).spec_inner() == *final(r),
    {
        &mut self.mapper
    }
}

/// Masking the low bits of a value gives the value minus its remainder, and
/// keeps the bits from 47 on when fewer than 48 bits are masked.
proof fn lemma_page_mask(x: u64, k: u64)
    requires
        k < 48,
    ensures
        (x & !(((1u64 << k) - 1) as u64)) == x - (x & (((1u64 << k) - 1) as u64)),
        (x & !(((1u64 << k) - 1) as u64)) >> 47u64 == x >> 47u64,
        (x & !(((1u64 << k) - 1) as u64)) <= x,
{
    assert((x & !(((1u64 << k) - 1) as u64)) == x - (x & (((1u64 << k) - 1) as u64))
        && (x & !(((1u64 << k) - 1) as u64)) >> 47u64 == x >> 47u64
        && (x & !(((1u64 << k) - 1) as u64)) <= x) by (bit_vector)
        requires
            k < 48;
}

/// The frame of size `S` that holds the address `x`, and the offset of `x` in it.
proof fn lemma_frame_offset<S: FrameSize>(x: u64, mask: u64)
    requires
        mask == !((pow2(S::spec_page_shift()) - 1) as u64),
    ensures
        x & mask == x as int / (frame_bytes::<S>() as int) * (frame_bytes::<S>() as int),
        x & !mask == x as int % (frame_bytes::<S>() as int),
        (x & mask) >> 47u64 == x >> 47u64,
{
    let k = S::spec_page_shift();
    S::lemma_page_shift_bound();
    vstd::bits::lemma_u64_pow2_no_overflow(k);
    vstd::bits::lemma_u64_shl_is_mul(1, k as u64);
    vstd::arithmetic::power2::lemma_pow2_pos(k);
    let low = ((1u64 << (k as u64)) - 1) as u64;
    assert(low == (pow2(k) - 1) as u64);
    assert(!mask == low) by (bit_vector)
        requires
            mask == !low;
    vstd::bits::lemma_u64_low_bits_mask_is_mod(x, k);
    lemma_page_mask(x, k as u64);
    let p = pow2(k) as int;
    vstd::arithmetic::div_mod::lemma_fundamental_div_mod(x as int, p);
    assert(p * (x as int / p) == x as int / p * p) by (nonlinear_arith);
}

impl PAddr {
    /// The frame of size `S` that holds the address, and the address's offset in it.
    pub fn frame_offset<S: FrameSize>(&self) -> (r: (PFrame<S>, u64))
        ensures
            r.0.spec_addr()@ as int == self@ as int / (frame_bytes::<S>() as int) * (frame_bytes::<S>() as int),
            r.1 == self@ as int % (frame_bytes::<S>() as int),
    {
        let mask = S::page_mask();
        let x = self.as_u64();
        proof {
            lemma_frame_offset::<S>(x, mask);
        }
        (PFrame { addr: PAddr::new(x & mask), size: PhantomData }, x & !mask)
    }
}

impl VAddr {
    /// The frame of size `S` that holds the address, and the address's offset in it.
    pub fn frame_offset<S: FrameSize>(&self) -> (r: (VFrame<S>, u64))
        requires
            spec_is_canonical(self@),
        ensures
            r.0.spec_addr()@ as int == self@ as int / (frame_bytes::<S>() as int) * (frame_bytes::<S>() as int),
            r.1 == self@ as int % (frame_bytes::<S>() as int),
    {
        let mask = S::page_mask();
        let x = self.as_u64();
        proof {
            lemma_frame_offset::<S>(x, mask);
        }
        (VFrame { addr: VAddr::new(x & mask), size: PhantomData }, x & !mask)
    }
}

/// An allocator of the frames that hold page tables.
pub trait FrameAllocator<S: FrameSize> {
    type Error;

    fn alloc_frame(&mut self) -> Result<VFrame<S>, Self::Error>;

    fn dealloc_frame(&mut self, frame: VFrame<S>) -> Result<(), Self::Error>;
}

/// The translation-cache flushes that a change of mappings calls for.
pub trait MapperFlush: Sized {
    /// This flush flushes nothing, as each implementation states it; nothing
    /// by default.
    open spec fn flushes_nothing(&self) -> bool {
        true
    }

    /// This flush performs both `first` and `second`, as each implementation
    /// states it; nothing by default.
    open spec fn performs_both(&self, first: Self, second: Self) -> bool {
        true
    }

    /// The flush that flushes nothing.
    fn none() -> (r: Self)
        ensures
            r.flushes_nothing(),
    ;

    /// Performs the flush.
    fn flush(self);

    /// Drops the flush without performing it.
    fn ignore(self) {
    }

    /// The flush that performs both flushes.
    fn combine(self, rhs: Self) -> (r: Self)
        ensures
            r.performs_both(self, rhs),
    ;
}

/// A page table that maps frames of size `S`.
pub trait Mapper<S: FrameSize> {
    type Flush: MapperFlush;

    /// The size of the frames that hold the page tables.
    type PGTFrameSize: FrameSize;

    /// What a mapping request that took this page table to `after`, with the
    /// outcome `r`, tells, as each implementation states it; nothing by default.
    open spec fn maps(
        &self,
        after: &Self,
        pframe: PFrame<S>,
        vframe: VFrame<S>,
        flags: MapFlags,
        r: Result<Self::Flush, MapError<()>>,
    ) -> bool {
        true
    }

    /// What an unmapping request that took this page table to `after`, with
    /// the outcome `r`, tells, as each implementation states it; nothing by default.
    open spec fn unmaps(
        &self,
        after: &Self,
        vframe: VFrame<S>,
        r: Result<Self::Flush, UnmapError<()>>,
    ) -> bool {
        true
    }

    /// What a request to map a range that took this page table to `after`,
    /// with the outcome `r`, tells, as each implementation states it; nothing
    /// by default.
    open spec fn maps_range(
        &self,
        after: &Self,
        prange: PFrameRange<S>,
        vbase: VFrame<S>,
        flags: MapFlags,
        r: Result<Self::Flush, MapError<()>>,
    ) -> bool {
        true
    }

    /// What a request to unmap a range that took this page table to `after`,
    /// with the outcome `r`, tells, as each implementation states it; nothing
    /// by default.
    open spec fn unmaps_range(
        &self,
        after: &Self,
        vrange: VFrameRange<S>,
        r: Result<Self::Flush, UnmapError<()>>,
    ) -> bool {
        true
    }

    /// Maps `vframe` to `pframe` with `flags`, allocating page tables from `alloc`.
    fn map<A: FrameAllocator<Self::PGTFrameSize>>(
        &mut self,
        pframe: PFrame<S>,
        vframe: VFrame<S>,
        flags: MapFlags,
        alloc: &mut A,
    ) -> (r: Result<Self::Flush, MapError<A::Error>>)
        ensures
            old(self).maps(&*final(self), pframe, vframe, flags, map_outcome(r)),
    ;

    /// Removes the mapping of `vframe`.
    fn unmap<A: FrameAllocator<Self::PGTFrameSize>>(
        &mut self,
        vframe: VFrame<S>,
        alloc: &mut A,
    ) -> (r: Result<Self::Flush, UnmapError<A::Error>>)
        ensures
            old(self).unmaps(&*final(self), vframe, unmap_outcome(r)),
    ;
}

/// The request that maps one loadable segment of an ELF image.
#[derive(Clone, Copy)]
pub struct LoadMapping<S: FrameSize> {
    /// The physical frames of the segment.
    pub prange: PFrameRange<S>,
    /// The first virtual frame of the segment.
    pub vbase: VFrame<S>,
    pub flags: MapFlags,
}

/// The test that picks the segments to load.
pub open spec fn load_pred() -> spec_fn(Elf64Phdr) -> bool {
    |e: Elf64Phdr| e.typ == PT_LOAD
}

/// The segments to load among the program header entries `es`, in order.
pub open spec fn load_segments(es: Seq<Elf64Phdr>) -> Seq<Elf64Phdr> {
    es.filter(load_pred())
}

/// Every segment to load among `es` is aligned on pages of size `S`.
pub open spec fn load_segments_aligned<S: FrameSize>(es: Seq<Elf64Phdr>) -> bool {
    forall|i: int| 0 <= i < es.len() && #[trigger] es[i].typ == PT_LOAD ==> es[i].align == frame_bytes::<S>()
}

/// The addresses that mapping the segment `e` at `pbase` and `vbase` computes
/// fit in 64 bits, and the virtual ones are canonical.
pub open spec fn segment_fits<S: FrameSize>(e: Elf64Phdr, pbase: u64, vbase: u64) -> bool {
    let p = frame_bytes::<S>() as int;
    let v = vbase + e.paddr;
    &&& pbase + e.paddr + e.memsz + p <= u64::MAX
    &&& v <= u64::MAX
    &&& spec_is_canonical(v as u64)
    &&& spec_is_canonical((v / p * p) as u64)
}

/// Every segment to load among `es` fits when mapped at `pbase` and `vbase`.
pub open spec fn load_segments_fit<S: FrameSize>(es: Seq<Elf64Phdr>, pbase: u64, vbase: u64) -> bool {
    forall|i: int| 0 <= i < es.len() && #[trigger] es[i].typ == PT_LOAD ==> segment_fits::<S>(es[i], pbase, vbase)
}

/// The mapping flags of the segment `e`: the bits `base`, with execution
/// allowed for an executable segment and writes for a writable one.
pub open spec fn segment_map_flags(e: Elf64Phdr, base: u8) -> u8 {
    let f = if (e.flags & 7) & 1 == 1 { base | 2 } else { base };
    if (e.flags & 7) & 2 == 2 { f | 1 } else { f }
}

/// `m` maps the segment `e` of an image loaded at `pbase` and `vbase`: the
/// frames from the one holding `pbase + paddr` to the one past
/// `pbase + paddr + memsz`, at the virtual frame holding `vbase + paddr`.
pub open spec fn is_segment_mapping<S: FrameSize>(
    m: LoadMapping<S>,
    e: Elf64Phdr,
    pbase: u64,
    vbase: u64,
    base: u8,
) -> bool {
    let p = frame_bytes::<S>() as int;
    let pa = pbase + e.paddr;
    &&& m.prange.bounds().0 == pa / p * p
    &&& is_align_up(pa + e.memsz, p, m.prange.bounds().1 as int)
    &&& m.vbase.spec_addr()@ == (vbase + e.paddr) / p * p
    &&& m.flags.spec_bits() == segment_map_flags(e, base)
}

/// `ms` maps, in order, the segments to load among `es`.
pub open spec fn is_load_plan<S: FrameSize>(
    ms: Seq<LoadMapping<S>>,
    es: Seq<Elf64Phdr>,
    pbase: u64,
    vbase: u64,
    base: u8,
) -> bool {
    &&& ms.len() == load_segments(es).len()
    &&& forall|i: int| 0 <= i < ms.len() ==> #[trigger] is_segment_mapping(ms[i], load_segments(es)[i], pbase, vbase, base)
}

/// The request that maps the segment `e`.
fn segment_mapping<S: FrameSize>(
    e: &Elf64Phdr,
    pbase: PFrame<S>,
    vbase: VFrame<S>,
    base_flags: MapFlags,
) -> (r: LoadMapping<S>)
    requires
        segment_fits::<S>(*e, pbase.spec_addr()@, vbase.spec_addr()@),
    ensures
        is_segment_mapping(r, *e, pbase.spec_addr()@, vbase.spec_addr()@, base_flags.spec_bits()),
{
    let mut flags = base_flags;
    let eflags = ProgramEntryFlags::from_bits_truncate(e.flags);
    if eflags.contains(ProgramEntryFlags::EXEC()) {
        flags.insert(MapFlags::EXEC());
    }
    if eflags.contains(ProgramEntryFlags::WRITE()) {
        flags.insert(MapFlags::WRITE());
    }
    let size = S::page_size();
    let pa = pbase.addr().add_paddr(PAddr::new(e.paddr));
    let start = PFrame::<S>::new_align_down(pa);
    proof {
        let a = pa@ as int + e.memsz;
        let s = size as int;
        assert((a + s - 1) / s * s <= a + s - 1) by (nonlinear_arith)
            requires s > 0, a >= 0;
    }
    let end = PFrame::<S>::new_align_up(pa.add_u64(e.memsz));
    let va = vbase.addr().add_u64(e.paddr);
    let vstart = VFrame::<S>::new_align_down(va);
    LoadMapping { prange: PFrameRange::new(start, end), vbase: vstart, flags }
}

/// The requests that map the segments to load of `elf` at `pbase` and
/// `vbase`, or `None` when one of them is not aligned on pages of size `S`.
pub fn elf_load_mappings<S: FrameSize>(
    elf: &Elf,
    pbase: PFrame<S>,
    vbase: VFrame<S>,
    base_flags: MapFlags,
) -> (r: Option<Vec<LoadMapping<S>>>)
    requires
        load_segments_aligned::<S>(program_entries(elf.spec_data())) ==> load_segments_fit::<S>(
            program_entries(elf.spec_data()),
            pbase.spec_addr()@,
            vbase.spec_addr()@,
        ),
    ensures
        r is None <==> !load_segments_aligned::<S>(program_entries(elf.spec_data())),
        r matches Some(ms) ==> is_load_plan(
            ms@,
            program_entries(elf.spec_data()),
            pbase.spec_addr()@,
            vbase.spec_addr()@,
            base_flags.spec_bits(),
        ),
{
    let program = elf.program();
    let ghost es = program.spec_entries();
    let n = program.len();
    let size = S::page_size();
    let mut i: usize = 0;
    while i < n
        invariant
            0 <= i <= n,
            n == es.len(),
            es == program.spec_entries(),
            es == program_entries(elf.spec_data()),
            size == frame_bytes::<S>(),
            forall|j: int| 0 <= j < i && #[trigger] es[j].typ == PT_LOAD ==> es[j].align == frame_bytes::<S>(),
        decreases n - i,
    {
        if let Some(e) = program.get(i) {
            if let ProgramEntryType::Load = e.typ() {
                if e.align() != size {
                    assert(es[i as int].typ == PT_LOAD && es[i as int].align != frame_bytes::<S>());
                    return None;
                }
            }
        }
        i = i + 1;
    }
    let mut ms: Vec<LoadMapping<S>> = Vec::new();
    let mut i: usize = 0;
    while i < n
        invariant
            0 <= i <= n,
            n == es.len(),
            es == program.spec_entries(),
            es == program_entries(elf.spec_data()),
            load_segments_fit::<S>(es, pbase.spec_addr()@, vbase.spec_addr()@),
            is_load_plan(ms@, es.take(i as int), pbase.spec_addr()@, vbase.spec_addr()@, base_flags.spec_bits()),
        decreases n - i,
    {
        let ghost prev = ms@;
        proof {
            assert(es.take(i + 1) =~= es.take(i as int).push(es[i as int]));
            es.take(i as int).lemma_filter_push(es[i as int], load_pred());
        }
        if let Some(e) = program.get(i) {
            if let ProgramEntryType::Load = e.typ() {
                assert(es[i as int].typ == PT_LOAD);
                let m = segment_mapping(e.raw(), pbase, vbase, base_flags);
                ms.push(m);
                assert forall|j: int| 0 <= j < ms@.len() implies #[trigger] is_segment_mapping(
                    ms@[j],
                    load_segments(es.take(i + 1))[j],
                    pbase.spec_addr()@,
                    vbase.spec_addr()@,
                    base_flags.spec_bits(),
                ) by {
                    if j < prev.len() {
                        assert(ms@[j] == prev[j]);
                    }
                }
            }
        }
        i = i + 1;
    }
    assert(es.take(n as int) =~= es);
    Some(ms)
}

/// Request `i` of `ms` succeeded: it took the page table from `states[i]` to
/// `states[i + 1]` and gave the flush `flushes[i]`.
pub open spec fn mapped_step<S: FrameSize, M: Mapper<S>>(
    ms: Seq<LoadMapping<S>>,
    states: Seq<M>,
    flushes: Seq<<M as Mapper<S>>::Flush>,
    i: int,
) -> bool {
    states[i].maps_range(&states[i + 1], ms[i].prange, ms[i].vbase, ms[i].flags, Ok(flushes[i]))
}

/// `acc[i + 1]` performs `acc[i]` and then `flushes[i]`.
pub open spec fn combined_step<F: MapperFlush>(flushes: Seq<F>, acc: Seq<F>, i: int) -> bool {
    acc[i + 1].performs_both(acc[i], flushes[i])
}

/// The page-table states `states`, the flushes `flushes` and their running
/// combinations `acc` witness that making the range requests `ms` one after
/// the other, on the page table `pre` that ends as `post`, had the outcome
/// `r`: the first requests succeeded one after the other; on success all of
/// them did, and `r`'s flush combines theirs, starting from one that
/// flushes nothing; on failure the next request failed with `r`'s error and
/// no request was made after it.
pub open spec fn load_run_witness<S: FrameSize, M: Mapper<S>>(
    pre: M,
    post: M,
    ms: Seq<LoadMapping<S>>,
    r: Result<<M as Mapper<S>>::Flush, MapError<()>>,
    states: Seq<M>,
    flushes: Seq<<M as Mapper<S>>::Flush>,
    acc: Seq<<M as Mapper<S>>::Flush>,
) -> bool {
    let k = flushes.len() as int;
    &&& states.len() >= 1
    &&& states[0] == pre
    &&& forall|i: int| 0 <= i < k ==> #[trigger] mapped_step(ms, states, flushes, i)
    &&& match r {
        Ok(total) => {
            &&& k == ms.len()
            &&& states.len() == k + 1
            &&& states[k] == post
            &&& acc.len() == k + 1
            &&& acc[0].flushes_nothing()
            &&& forall|i: int| 0 <= i < k ==> #[trigger] combined_step(flushes, acc, i)
            &&& acc[k] == total
        },
        Err(e) => {
            &&& k < ms.len()
            &&& states.len() == k + 2
            &&& states[k + 1] == post
            &&& states[k].maps_range(&post, ms[k].prange, ms[k].vbase, ms[k].flags, Err(e))
        },
    }
}

/// Making the range requests `ms` one after the other, on the page table
/// `pre` that ends as `post`, had the outcome `r` (see `load_run_witness`).
pub open spec fn load_run<S: FrameSize, M: Mapper<S>>(
    pre: M,
    post: M,
    ms: Seq<LoadMapping<S>>,
    r: Result<<M as Mapper<S>>::Flush, MapError<()>>,
) -> bool {
    exists|states: Seq<M>, flushes: Seq<<M as Mapper<S>>::Flush>, acc: Seq<<M as Mapper<S>>::Flush>|
        #[trigger] load_run_witness(pre, post, ms, r, states, flushes, acc)
}

/// The outcome of mapping an image's segments as the outcome of the
/// mapping requests: its flush, or which error the failing request met. The
/// alignment error, which no request gives, is not such an outcome; it is
/// sent to the first error.
pub open spec fn elf_map_outcome<F, FE>(r: Result<F, MapElfError<FE>>) -> Result<F, MapError<()>> {
    match r {
        Ok(f) => Ok(f),
        Err(MapElfError::FrameAllocError(_)) => Err(MapError::FrameAllocError(())),
        Err(_) => Err(MapError::AlreadyMapped),
    }
}

/// A page table that can map ranges of frames at once.
pub trait RangeMapper<S: FrameSize>: Mapper<S> {
    /// Maps the frames of `prange`, in order, from `vbase` on.
    fn map_range<A: FrameAllocator<Self::PGTFrameSize>>(
        &mut self,
        prange: PFrameRange<S>,
        vbase: VFrame<S>,
        flags: MapFlags,
        alloc: &mut A,
    ) -> (r: Result<Self::Flush, MapError<A::Error>>)
        ensures
            old(self).maps_range(&*final(self), prange, vbase, flags, map_outcome(r)),
    ;

    /// Removes the mappings of the frames of `vrange`.
    fn unmap_range<A: FrameAllocator<Self::PGTFrameSize>>(
        &mut self,
        vrange: VFrameRange<S>,
        alloc: &mut A,
    ) -> (r: Result<Self::Flush, UnmapError<A::Error>>)
        ensures
            old(self).unmaps_range(&*final(self), vrange, unmap_outcome(r)),
    ;

    /// Maps each segment to load of `elf`, in order, with the requests of
    /// `elf_load_mappings`, and combines their flushes. Nothing is mapped
    /// when a segment is not aligned on pages of size `S`; the first request
    /// that fails ends the work with its error.
    fn map_elf_load_sections<A: FrameAllocator<Self::PGTFrameSize>>(
        &mut self,
        elf: &Elf,
        pbase: PFrame<S>,
        vbase: VFrame<S>,
        base_flags: MapFlags,
        alloc: &mut A,
    ) -> (r: Result<Self::Flush, MapElfError<A::Error>>) where Self: Sized
        requires
            load_segments_aligned::<S>(program_entries(elf.spec_data())) ==> load_segments_fit::<S>(
                program_entries(elf.spec_data()),
                pbase.spec_addr()@,
                vbase.spec_addr()@,
            ),
        ensures
            r matches Err(MapElfError::InvalidAlignment) <==> !load_segments_aligned::<S>(
                program_entries(elf.spec_data()),
            ),
            r matches Err(MapElfError::InvalidAlignment) ==> *final(self) == *old(self) && *final(alloc)
                == *old(alloc),
            load_segments_aligned::<S>(program_entries(elf.spec_data())) && load_segments(
                program_entries(elf.spec_data()),
            ).len() == 0 ==> r is Ok,
            load_segments_aligned::<S>(program_entries(elf.spec_data())) ==> exists|ms: Seq<LoadMapping<S>>|
                #[trigger] is_load_plan(
                    ms,
                    program_entries(elf.spec_data()),
                    pbase.spec_addr()@,
                    vbase.spec_addr()@,
                    base_flags.spec_bits(),
                ) && load_run(*old(self), *final(self), ms, elf_map_outcome(r)),
    {
        let ghost es = program_entries(elf.spec_data());
        let ghost pre = *self;
        let ms = match elf_load_mappings(elf, pbase, vbase, base_flags) {
            None => return Err(MapElfError::InvalidAlignment),
            Some(ms) => ms,
        };
        let ghost plan = ms@;
        let mut total_flush = Self::Flush::none();
        let ghost mut states: Seq<Self> = seq![*self];
        let ghost mut flushes: Seq<Self::Flush> = Seq::empty();
        let ghost mut acc: Seq<Self::Flush> = seq![total_flush];
        let n = ms.len();
        let mut i: usize = 0;
        while i < n
            invariant
                0 <= i <= n,
                n == ms.len(),
                ms@ == plan,
                load_segments_aligned::<S>(es),
                es == program_entries(elf.spec_data()),
                is_load_plan(plan, es, pbase.spec_addr()@, vbase.spec_addr()@, base_flags.spec_bits()),
                states.len() == i + 1,
                flushes.len() == i,
                acc.len() == i + 1,
                states[0] == pre,
                pre == *old(self),
                states[i as int] == *self,
                forall|j: int| 0 <= j < i ==> #[trigger] mapped_step(plan, states, flushes, j),
                acc[0].flushes_nothing(),
                forall|j: int| 0 <= j < i ==> #[trigger] combined_step(flushes, acc, j),
                acc[i as int] == total_flush,
            decreases n - i,
        {
            let m = ms[i];
            let ghost before = *self;
            let ghost prev_states = states;
            let ghost prev_flushes = flushes;
            let res = self.map_range(m.prange, m.vbase, m.flags, alloc);
            proof {
                assert(m == plan[i as int]);
                assert(before.maps_range(&*self, m.prange, m.vbase, m.flags, map_outcome(res)));
            }
            match res {
                Ok(flush) => {
                    proof {
                        states = states.push(*self);
                        flushes = flushes.push(flush);
                        assert(map_outcome(res) == Ok::<Self::Flush, MapError<()>>(flush));
                        assert(before.maps_range(&*self, m.prange, m.vbase, m.flags, Ok(flush)));
                        assert(mapped_step(plan, states, flushes, i as int));
                        assert forall|j: int| 0 <= j < i + 1 implies #[trigger] mapped_step(plan, states, flushes, j) by {
                            if j < i {
                                assert(mapped_step(plan, prev_states, prev_flushes, j));
                                assert(states[j] == prev_states[j] && states[j + 1] == prev_states[j + 1]);
                                assert(flushes[j] == prev_flushes[j]);
                            }
                        }
                    }
                    total_flush = total_flush.combine(flush);
                    proof {
                        let ghost prev_acc = acc;
                        acc = acc.push(total_flush);
                        assert forall|j: int| 0 <= j < i + 1 implies #[trigger] combined_step(flushes, acc, j) by {
                            if j < i {
                                assert(combined_step(prev_flushes, prev_acc, j));
                                assert(acc[j] == prev_acc[j] && acc[j + 1] == prev_acc[j + 1]);
                                assert(flushes[j] == prev_flushes[j]);
                            }
                        }
                    }
                },
                Err(MapError::AlreadyMapped) => {
                    proof {
                        let st = states.push(*self);
                        assert forall|j: int| 0 <= j < i implies #[trigger] mapped_step(plan, st, flushes, j) by {
                            assert(mapped_step(plan, states, flushes, j));
                            assert(st[j] == states[j] && st[j + 1] == states[j + 1]);
                        }
                        assert(map_outcome(res) == Err::<Self::Flush, MapError<()>>(MapError::AlreadyMapped));
                        assert(load_run_witness(pre, *self, plan, Err(MapError::AlreadyMapped), st, flushes, acc));
                    }
                    let r: Result<Self::Flush, MapElfError<A::Error>> = Err(MapElfError::AlreadyMapped);
                    proof {
                        assert(elf_map_outcome(r) == Err::<Self::Flush, MapError<()>>(MapError::AlreadyMapped));
                        assert(load_run(pre, *self, plan, elf_map_outcome(r)));
                    }
                    return r;
                },
                Err(MapError::FrameAllocError(fe)) => {
                    proof {
                        let st = states.push(*self);
                        assert forall|j: int| 0 <= j < i implies #[trigger] mapped_step(plan, st, flushes, j) by {
                            assert(mapped_step(plan, states, flushes, j));
                            assert(st[j] == states[j] && st[j + 1] == states[j + 1]);
                        }
                        assert(load_run_witness(pre, *self, plan, Err(MapError::FrameAllocError(())), st, flushes, acc));
                    }
                    let r: Result<Self::Flush, MapElfError<A::Error>> = Err(MapElfError::FrameAllocError(fe));
                    proof {
                        assert(elf_map_outcome(r) == Err::<Self::Flush, MapError<()>>(MapError::FrameAllocError(())));
                        assert(load_run(pre, *self, plan, elf_map_outcome(r)));
                    }
                    return r;
                },
            }
            i = i + 1;
        }
        proof {
            assert(load_run_witness(pre, *self, plan, Ok(total_flush), states, flushes, acc));
        }
        Ok(total_flush)
    }
}

/// A page table that can tell which physical address a virtual address maps to.
pub trait PAddrResolver {
    /// What a resolution of `vaddr` that gave `r` tells of this page table,
    /// as each implementation states it; nothing by default.
    open spec fn resolves(&self, vaddr: VAddr, r: Option<PAddr>) -> bool {
        true
    }

    fn paddr_of(&self, vaddr: VAddr) -> (r: Option<PAddr>)
        ensures
            self.resolves(vaddr, r),
    ;
}

impl<S: FrameSize, M: Mapper<S>> Mapper<S> for LoggingMapper<M> {
    type Flush = M::Flush;

    type PGTFrameSize = M::PGTFrameSize;

    /// What the wrapped mapper states of the request.
    open spec fn maps(
        &self,
        after: &Self,
        pframe: PFrame<S>,
        vframe: VFrame<S>,
        flags: MapFlags,
        r: Result<Self::Flush, MapError<()>>,
    ) -> bool {
        self.spec_inner().maps(&after.spec_inner(), pframe, vframe, flags, r)
    }

    /// What the wrapped mapper states of the request.
    open spec fn unmaps(
        &self,
        after: &Self,
        vframe: VFrame<S>,
        r: Result<Self::Flush, UnmapError<()>>,
    ) -> bool {
        self.spec_inner().unmaps(&after.spec_inner(), vframe, r)
    }

    /// What the wrapped mapper states of the request.
    open spec fn maps_range(
        &self,
        after: &Self,
        prange: PFrameRange<S>,
        vbase: VFrame<S>,
        flags: MapFlags,
        r: Result<Self::Flush, MapError<()>>,
    ) -> bool {
        self.spec_inner().maps_range(&after.spec_inner(), prange, vbase, flags, r)
    }

    /// What the wrapped mapper states of the request.
    open spec fn unmaps_range(
        &self,
        after: &Self,
        vrange: VFrameRange<S>,
        r: Result<Self::Flush, UnmapError<()>>,
    ) -> bool {
        self.spec_inner().unmaps_range(&after.spec_inner(), vrange, r)
    }

    fn map<A: FrameAllocator<Self::PGTFrameSize>>(
        &mut self,
        pframe: PFrame<S>,
        vframe: VFrame<S>,
        flags: MapFlags,
        alloc: &mut A,
    ) -> (r: Result<Self::Flush, MapError<A::Error>>) {
        self.mapper.map(pframe, vframe, flags, alloc)
    }

    fn unmap<A: FrameAllocator<Self::PGTFrameSize>>(
        &mut self,
        vframe: VFrame<S>,
        alloc: &mut A,
    ) -> (r: Result<Self::Flush, UnmapError<A::Error>>) {
        self.mapper.unmap(vframe, alloc)
    }
}

impl<S: FrameSize, M: RangeMapper<S>> RangeMapper<S> for LoggingMapper<M> {
    fn map_range<A: FrameAllocator<Self::PGTFrameSize>>(
        &mut self,
        prange: PFrameRange<S>,
        vbase: VFrame<S>,
        flags: MapFlags,
        alloc: &mut A,
    ) -> (r: Result<Self::Flush, MapError<A::Error>>) {
        let r = self.mapper.map_range(prange, vbase, flags, alloc);
        assert(old(self).maps_range(&*self, prange, vbase, flags, map_outcome(r)));
        r
    }

    fn unmap_range<A: FrameAllocator<Self::PGTFrameSize>>(
        &mut self,
        vrange: VFrameRange<S>,
        alloc: &mut A,
    ) -> (r: Result<Self::Flush, UnmapError<A::Error>>) {
        self.mapper.unmap_range(vrange, alloc)
    }
}

impl<M: PAddrResolver> PAddrResolver for LoggingMapper<M> {
    /// What the wrapped page table states of the resolution.
    open spec fn resolves(&self, vaddr: VAddr, r: Option<PAddr>) -> bool {
        self.spec_inner().resolves(vaddr, r)
    }

    fn paddr_of(&self, vaddr: VAddr) -> (r: Option<PAddr>) {
        self.mapper.paddr_of(vaddr)
    }
}

} // verus!
