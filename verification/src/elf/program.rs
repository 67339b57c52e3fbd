//! The program header table: the segments of the image and how to load them.
use vstd::prelude::*;

use super::{le_u32, le_u64, read_u32, read_u64};

verus! {

/// The size in bytes of a program header entry.
pub const PHDR_SIZE: usize = 56;

/// The tag of a segment to load.
pub const PT_LOAD: u32 = 1;

/// The kinds of segment.
#[derive(Clone, Copy, Debug, PartialEq, Eq)]
pub enum ProgramEntryType {
    Null,
    Load,
    Dynamic,
    Interp,
    Note,
    Shlib,
    Phdr,
    Tls,
    GnuEhFrame,
    GnuStack,
    GnuRelro,
    Unknown(u32),
}

/// The kind of segment that the tag `t` names.
pub open spec fn spec_program_type(t: u32) -> ProgramEntryType {
    if t == 0 {
        ProgramEntryType::Null
    } else if t == 1 {
        ProgramEntryType::Load
    } else if t == 2 {
        ProgramEntryType::Dynamic
    } else if t == 3 {
        ProgramEntryType::Interp
    } else if t == 4 {
        ProgramEntryType::Note
    } else if t == 5 {
        ProgramEntryType::Shlib
    } else if t == 6 {
        ProgramEntryType::Phdr
    } else if t == 7 {
        ProgramEntryType::Tls
    } else if t == 0x6474e550 {
        ProgramEntryType::GnuEhFrame
    } else if t == 0x6474e551 {
        ProgramEntryType::GnuStack
    } else if t == 0x6474e552 {
        ProgramEntryType::GnuRelro
    } else {
        ProgramEntryType::Unknown(t)
    }
}

/// The access rights of a segment.
#[derive(Clone, Copy, Debug, PartialEq, Eq)]
pub struct ProgramEntryFlags {
    bits: u32,
}

#[allow(non_snake_case)]
impl ProgramEntryFlags {
    /// The bits of the flags.
    pub closed spec fn spec_bits(self) -> u32 {
        self.bits
    }

    pub fn EXEC() -> (r: Self)
        ensures
            r.spec_bits() == 1,
    {
        ProgramEntryFlags { bits: 1 }
    }

    pub fn WRITE() -> (r: Self)
        ensures
            r.spec_bits() == 2,
    {
        ProgramEntryFlags { bits: 2 }
    }

    pub fn READ() -> (r: Self)
        ensures
            r.spec_bits() == 4,
    {
        ProgramEntryFlags { bits: 4 }
    }

    /// The flags named by `bits`, ignoring the bits that name no flag.
    pub fn from_bits_truncate(bits: u32) -> (r: Self)
        ensures
            r.spec_bits() == bits & 7,
    {
        ProgramEntryFlags { bits: bits & 7 }
    }

    pub fn bits(&self) -> (r: u32)
        ensures
            r == self.spec_bits(),
    {
        self.bits
    }

    /// Whether every flag of `other` is set in `self`.
    pub fn contains(&self, other: Self) -> (r: bool)
        ensures
            r <==> self.spec_bits() & other.spec_bits() == other.spec_bits(),
    {
        self.bits & other.bits == other.bits
    }
}

/// A program header entry, field by field.
#[derive(Clone, Copy, Debug)]
pub struct Elf64Phdr {
    pub typ: u32,
    pub flags: u32,
    pub offset: u64,
    pub vaddr: u64,
    pub paddr: u64,
    pub filesz: u64,
    pub memsz: u64,
    pub align: u64,
}

/// The program header entry at byte `off` of `d`.
pub open spec fn phdr_at(d: Seq<u8>, off: int) -> Elf64Phdr {
    Elf64Phdr {
        typ: le_u32(d, off),
        flags: le_u32(d, off + 4),
        offset: le_u64(d, off + 8),
        vaddr: le_u64(d, off + 16),
        paddr: le_u64(d, off + 24),
        filesz: le_u64(d, off + 32),
        memsz: le_u64(d, off + 40),
        align: le_u64(d, off + 48),
    }
}

/// The number of whole entries of `entsize` bytes in a table of `len` bytes;
/// none when an entry is too small to hold a program header.
pub open spec fn phdr_count(len: nat, entsize: nat) -> nat {
    if entsize >= PHDR_SIZE {
        len / entsize
    } else {
        0
    }
}

/// The entries of the program header table `d`, whose entries are `entsize` bytes apart.
pub open spec fn phdrs(d: Seq<u8>, entsize: nat) -> Seq<Elf64Phdr> {
    Seq::new(phdr_count(d.len(), entsize), |i: int| phdr_at(d, i * entsize))
}

/// A segment of the image.
#[derive(Clone, Copy, Debug)]
pub struct ProgramEntry {
    hdr: Elf64Phdr,
}

impl ProgramEntry {
    /// The fields of the entry.
    pub closed spec fn spec_hdr(&self) -> Elf64Phdr {
        self.hdr
    }

    pub fn typ(&self) -> (r: ProgramEntryType)
        ensures
            r == spec_program_type(self.spec_hdr().typ),
    {
        let t = self.hdr.typ;
        if t == 0 {
            ProgramEntryType::Null
        } else if t == 1 {
            ProgramEntryType::Load
        } else if t == 2 {
            ProgramEntryType::Dynamic
        } else if t == 3 {
            ProgramEntryType::Interp
        } else if t == 4 {
            ProgramEntryType::Note
        } else if t == 5 {
            ProgramEntryType::Shlib
        } else if t == 6 {
            ProgramEntryType::Phdr
        } else if t == 7 {
            ProgramEntryType::Tls
        } else if t == 0x6474e550 {
            ProgramEntryType::GnuEhFrame
        } else if t == 0x6474e551 {
            ProgramEntryType::GnuStack
        } else if t == 0x6474e552 {
            ProgramEntryType::GnuRelro
        } else {
            ProgramEntryType::Unknown(t)
        }
    }

    pub fn flags(&self) -> (r: ProgramEntryFlags)
        ensures
            r.spec_bits() == self.spec_hdr().flags & 7,
    {
        ProgramEntryFlags::from_bits_truncate(self.hdr.flags)
    }

    /// Where the segment starts in the image.
    pub fn offset(&self) -> (r: u64)
        ensures
            r == self.spec_hdr().offset,
    {
        self.hdr.offset
    }

    pub fn vaddr(&self) -> (r: u64)
        ensures
            r == self.spec_hdr().vaddr,
    {
        self.hdr.vaddr
    }

    pub fn paddr(&self) -> (r: u64)
        ensures
            r == self.spec_hdr().paddr,
    {
        self.hdr.paddr
    }

    /// The size of the segment in the image.
    pub fn file_size(&self) -> (r: u64)
        ensures
            r == self.spec_hdr().filesz,
    {
        self.hdr.filesz
    }

    /// The size of the segment in memory.
    pub fn mem_size(&self) -> (r: u64)
        ensures
            r == self.spec_hdr().memsz,
    {
        self.hdr.memsz
    }

    pub fn align(&self) -> (r: u64)
        ensures
            r == self.spec_hdr().align,
    {
        self.hdr.align
    }

    pub fn raw(&self) -> (r: &Elf64Phdr)
        ensures
            *r == self.spec_hdr(),
    {
        &self.hdr
    }
}

/// The program header table of an image.
#[derive(Clone, Copy)]
pub struct Program<'a> {
    buf: &'a [u8],
    entsize: usize,
}

impl<'a> Program<'a> {
    /// The entries of the table.
    pub closed spec fn spec_entries(&self) -> Seq<Elf64Phdr> {
        phdrs(self.buf@, self.entsize as nat)
    }

    /// The table held in `buf`, with entries `entsize` bytes apart; bytes past
    /// the last whole entry are ignored.
    pub fn new(buf: &'a [u8], entsize: usize) -> (r: Self)
        ensures
            r.spec_entries() == phdrs(buf@, entsize as nat),
    {
        Self { buf, entsize }
    }

    /// The number of entries.
    pub fn len(&self) -> (r: usize)
        ensures
            r == self.spec_entries().len(),
    {
        if self.entsize >= PHDR_SIZE {
            self.buf.len() / self.entsize
        } else {
            0
        }
    }

    /// The entry at `index`, if the table has one.
    pub fn get(&self, index: usize) -> (r: Option<ProgramEntry>)
        ensures
            index < self.spec_entries().len() ==> r is Some && r->Some_0.spec_hdr()
                == self.spec_entries()[index as int],
            index >= self.spec_entries().len() ==> r is None,
    {
        if index >= self.len() {
            return None;
        }
        let n = self.buf.len();
        let es = self.entsize;
        assert(index * es + 56 <= n) by (nonlinear_arith)
            requires
                index < n / es,
                es >= 56,
        {
            assert(index + 1 <= n / es);
            assert((index + 1) * es <= n / es * es);
            assert(n / es * es <= n);
        }
        let off = index * es;
        let d = self.buf;
        Some(
            ProgramEntry {
                hdr: Elf64Phdr {
                    typ: read_u32(d, off),
                    flags: read_u32(d, off + 4),
                    offset: read_u64(d, off + 8),
                    vaddr: read_u64(d, off + 16),
                    paddr: read_u64(d, off + 24),
                    filesz: read_u64(d, off + 32),
                    memsz: read_u64(d, off + 40),
                    align: read_u64(d, off + 48),
                },
            },
        )
    }
}

} // verus!
