//! Relocation tables with addends.
use vstd::prelude::*;

use super::{le_u64, read_u64};

verus! {

/// The size in bytes of a relocation entry.
pub const RELA_SIZE: usize = 24;

/// A relocation entry, field by field.
#[derive(Clone, Copy, Debug)]
pub struct Elf64Rela {
    /// Where the relocation applies.
    pub offset: u64,
    /// The symbol and the kind of the relocation.
    pub info: u64,
    pub addend: i64,
}

/// The relocation entry at byte `off` of `d`.
pub open spec fn rela_at(d: Seq<u8>, off: int) -> Elf64Rela {
    Elf64Rela { offset: le_u64(d, off), info: le_u64(d, off + 8), addend: le_u64(d, off + 16) as i64 }
}

/// The whole entries of the relocation table `d`.
pub open spec fn rela_entries(d: Seq<u8>) -> Seq<Elf64Rela> {
    Seq::new(d.len() / 24, |i: int| rela_at(d, i * 24))
}

/// A relocation with an addend.
#[derive(Clone, Copy, Debug)]
pub struct RelaEntry {
    raw: Elf64Rela,
}

impl RelaEntry {
    /// The fields of the entry.
    pub closed spec fn spec_raw(&self) -> Elf64Rela {
        self.raw
    }

    /// Where the relocation applies.
    pub fn offset(&self) -> (r: u64)
        ensures
            r == self.spec_raw().offset,
    {
        self.raw.offset
    }

    pub fn info(&self) -> (r: u64)
        ensures
            r == self.spec_raw().info,
    {
        self.raw.info
    }

    pub fn addend(&self) -> (r: i64)
        ensures
            r == self.spec_raw().addend,
    {
        self.raw.addend
    }

    /// The index of the symbol of the relocation: the high half of its info.
    pub fn sym(&self) -> (r: u32)
        ensures
            r == self.spec_raw().info / 0x1_0000_0000,
    {
        (self.raw.info / 0x1_0000_0000) as u32
    }

    /// The kind of the relocation: the low half of its info.
    pub fn typ(&self) -> (r: u32)
        ensures
            r == self.spec_raw().info % 0x1_0000_0000,
    {
        (self.raw.info % 0x1_0000_0000) as u32
    }

    pub fn raw(&self) -> (r: &Elf64Rela)
        ensures
            *r == self.spec_raw(),
    {
        &self.raw
    }
}

/// A relocation table.
#[derive(Clone, Copy)]
pub struct Rela<'a> {
    buf: &'a [u8],
}

impl<'a> Rela<'a> {
    /// The entries of the table.
    pub closed spec fn spec_entries(&self) -> Seq<Elf64Rela> {
        rela_entries(self.buf@)
    }

    /// The table held in `buf`; bytes past the last whole entry are ignored.
    pub fn new(buf: &'a [u8]) -> (r: Self)
        ensures
            r.spec_entries() == rela_entries(buf@),
    {
        Self { buf }
    }

    /// The number of entries.
    pub fn len(&self) -> (r: usize)
        ensures
            r == self.spec_entries().len(),
    {
        self.buf.len() / RELA_SIZE
    }

    /// The entry at `index`.
    pub fn get(&self, index: usize) -> (r: RelaEntry)
        requires
            index < self.spec_entries().len(),
        ensures
            r.spec_raw() == self.spec_entries()[index as int],
    {
        let n = self.buf.len();
        let off = index * RELA_SIZE;
        assert(off + 24 <= n) by (nonlinear_arith)
            requires
                index < n / 24,
                off == index * 24,
        {
        }
        let d = self.buf;
        RelaEntry {
            raw: Elf64Rela {
                offset: read_u64(d, off),
                info: read_u64(d, off + 8),
                addend: read_u64(d, off + 16) as i64,
            },
        }
    }
}

} // verus!
