//! The section header table: where each section of the image lies.
use vstd::prelude::*;

use super::{le_u32, le_u64, read_u32, read_u64};

verus! {

/// The size in bytes of a section header entry.
pub const SHDR_SIZE: usize = 64;

/// A section header entry, field by field.
#[derive(Clone, Copy, Debug)]
pub struct Elf64Shdr {
    pub name: u32,
    pub typ: u32,
    pub flags: u64,
    pub addr: u64,
    pub offset: u64,
    pub size: u64,
    pub link: u32,
    pub info: u32,
    pub addralign: u64,
    pub entsize: u64,
}

/// The section header entry at byte `off` of `d`.
pub open spec fn shdr_at(d: Seq<u8>, off: int) -> Elf64Shdr {
    Elf64Shdr {
        name: le_u32(d, off),
        typ: le_u32(d, off + 4),
        flags: le_u64(d, off + 8),
        addr: le_u64(d, off + 16),
        offset: le_u64(d, off + 24),
        size: le_u64(d, off + 32),
        link: le_u32(d, off + 40),
        info: le_u32(d, off + 44),
        addralign: le_u64(d, off + 48),
        entsize: le_u64(d, off + 56),
    }
}

/// The number of whole entries of `entsize` bytes in a table of `len` bytes;
/// none when an entry is too small to hold a section header.
pub open spec fn shdr_count(len: nat, entsize: nat) -> nat {
    if entsize >= SHDR_SIZE {
        len / entsize
    } else {
        0
    }
}

/// The entries of the section header table `d`, whose entries are `entsize` bytes apart.
pub open spec fn shdrs(d: Seq<u8>, entsize: nat) -> Seq<Elf64Shdr> {
    Seq::new(shdr_count(d.len(), entsize), |i: int| shdr_at(d, i * entsize))
}

/// A section of the image.
#[derive(Clone, Copy, Debug)]
pub struct Section {
    hdr: Elf64Shdr,
}

impl Section {
    /// The fields of the entry.
    pub closed spec fn spec_hdr(&self) -> Elf64Shdr {
        self.hdr
    }

    /// Where the section starts in the image.
    pub fn offset(&self) -> (r: u64)
        ensures
            r == self.spec_hdr().offset,
    {
        self.hdr.offset
    }

    /// The size of the section in the image.
    pub fn size(&self) -> (r: u64)
        ensures
            r == self.spec_hdr().size,
    {
        self.hdr.size
    }

    /// The address of the section in memory.
    pub fn addr(&self) -> (r: u64)
        ensures
            r == self.spec_hdr().addr,
    {
        self.hdr.addr
    }

    pub fn raw(&self) -> (r: &Elf64Shdr)
        ensures
            *r == self.spec_hdr(),
    {
        &self.hdr
    }
}

/// The section header table of an image.
#[derive(Clone, Copy)]
pub struct Sections<'a> {
    buf: &'a [u8],
    entsize: usize,
}

impl<'a> Sections<'a> {
    /// The entries of the table.
    pub closed spec fn spec_entries(&self) -> Seq<Elf64Shdr> {
        shdrs(self.buf@, self.entsize as nat)
    }

    /// The table held in `buf`, with entries `entsize` bytes apart; bytes past
    /// the last whole entry are ignored.
    pub fn new(buf: &'a [u8], entsize: usize) -> (r: Self)
        ensures
            r.spec_entries() == shdrs(buf@, entsize as nat),
    {
        Self { buf, entsize }
    }

    /// The number of entries.
    pub fn len(&self) -> (r: usize)
        ensures
            r == self.spec_entries().len(),
    {
        if self.entsize >= SHDR_SIZE {
            self.buf.len() / self.entsize
        } else {
            0
        }
    }

    /// The entry at `index`, if the table has one.
    pub fn get(&self, index: usize) -> (r: Option<Section>)
        ensures
            index < self.spec_entries().len() ==> r is Some && r->Some_0.spec_hdr()
                == self.spec_entries()[index as int],
            index >= self.spec_entries().len() ==> r is None,
    {
        if index >= self.len() {
            return None;
        }
        let n = self.buf.len();
        let es = self.entsize;
        assert(index * es + 64 <= n) by (nonlinear_arith)
            requires
                index < n / es,
                es >= 64,
        {
            assert(index + 1 <= n / es);
            assert((index + 1) * es <= n / es * es);
            assert(n / es * es <= n);
        }
        let off = index * es;
        let d = self.buf;
        Some(
            Section {
                hdr: Elf64Shdr {
                    name: read_u32(d, off),
                    typ: read_u32(d, off + 4),
                    flags: read_u64(d, off + 8),
                    addr: read_u64(d, off + 16),
                    offset: read_u64(d, off + 24),
                    size: read_u64(d, off + 32),
                    link: read_u32(d, off + 40),
                    info: read_u32(d, off + 44),
                    addralign: read_u64(d, off + 48),
                    entsize: read_u64(d, off + 56),
                },
            },
        )
    }
}

} // verus!
