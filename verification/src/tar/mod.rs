//! Reading tar archives.
pub mod raw;
pub mod util;

use vstd::prelude::*;

use self::raw::{name_first_bytes, name_valid, octal_field, octal_field_ok, FileHeader};

verus! {

/// The error of an archive whose length is not a whole number of blocks.
#[derive(Debug, Clone, Copy, PartialEq, Eq)]
pub struct InvalidSizeError;

/// The ways in which an entry of an archive can be invalid.
pub enum InvalidTarEntry {
    InvalidSize,
}

/// The size in bytes of a block of an archive.
pub const BLOCK_SIZE: usize = 512;

/// The header block of the archive `a` that starts at `p`.
pub open spec fn header_at(a: Seq<u8>, p: int) -> Seq<u8> {
    a.subrange(p, p + 512)
}

/// The size of the contents of the entry whose header starts at `p`.
pub open spec fn entry_size(a: Seq<u8>, p: int) -> int {
    octal_field(header_at(a, p), 124, 12)
}

/// The header at `p` describes an entry: it has contents or a name. Other
/// headers, such as the zero blocks that end an archive, are skipped.
pub open spec fn is_entry(a: Seq<u8>, p: int) -> bool {
    entry_size(a, p) != 0 || name_first_bytes(header_at(a, p)).len() != 0
}

/// The header at `p` can be read: its size field is octal and its name is UTF-8.
pub open spec fn header_ok(a: Seq<u8>, p: int) -> bool {
    octal_field_ok(header_at(a, p), 124, 12) && name_valid(header_at(a, p))
}

/// The position of the first header at or after `p` that describes an entry.
pub open spec fn scan(a: Seq<u8>, p: int) -> Option<int>
    decreases a.len() - p,
{
    if p < 0 || p + 512 > a.len() {
        None
    } else if is_entry(a, p) {
        Some(p)
    } else {
        scan(a, p + 512)
    }
}

/// Every header that a reader starting at `p` reads can be read, up to the
/// next entry, and that entry's contents lie within the archive.
pub open spec fn scan_ok(a: Seq<u8>, p: int) -> bool
    decreases a.len() - p,
{
    if p < 0 || p + 512 > a.len() {
        true
    } else {
        header_ok(a, p) && if is_entry(a, p) {
            p + 512 + entry_size(a, p) <= a.len()
        } else {
            scan_ok(a, p + 512)
        }
    }
}

/// The position after the entry whose header is at `p`: past its header and
/// its contents rounded up to whole blocks, or the end of the archive.
pub open spec fn after_entry(a: Seq<u8>, p: int) -> int {
    let q = p + 512 + (entry_size(a, p) + 511) / 512 * 512;
    if q <= a.len() {
        q
    } else {
        a.len() as int
    }
}

/// An entry of an archive: its header and its contents.
pub struct TarEntry<'a> {
    header: FileHeader<'a>,
    contents: &'a [u8],
}

impl<'a> TarEntry<'a> {
    /// The header of the entry.
    pub closed spec fn spec_header(&self) -> FileHeader<'a> {
        self.header
    }

    /// The contents of the entry.
    pub closed spec fn spec_contents(&self) -> Seq<u8> {
        self.contents@
    }

    pub fn contents(&self) -> (r: &'a [u8])
        ensures
            r@ == self.spec_contents(),
    {
        self.contents
    }

    /// The header of the entry.
    pub fn header(&self) -> (r: &FileHeader<'a>)
        ensures
            *r == self.spec_header(),
    {
        &self.header
    }
}

/// A tar archive: a sequence of 512-byte blocks.
pub struct Tar<'a> {
    bytes: &'a [u8],
}

impl<'a> Tar<'a> {
    /// The bytes of the archive.
    pub closed spec fn spec_bytes(&self) -> Seq<u8> {
        self.bytes@
    }

    /// The archive made of `bytes`, unless they are not a whole number of blocks.
    pub fn new(bytes: &'a [u8]) -> (r: Result<Self, InvalidSizeError>)
        ensures
            r is Ok <==> bytes@.len() % 512 == 0,
            r is Ok ==> r->Ok_0.spec_bytes() == bytes@,
            r is Err ==> r == Err::<Self, InvalidSizeError>(InvalidSizeError),
    {
        if bytes.len() % 512 == 0 {
            Ok(Self { bytes })
        } else {
            Err(InvalidSizeError)
        }
    }

    /// A reader of the entries of the archive, from the first block on.
    pub fn iter(&self) -> (r: TarIter<'a>)
        requires
            self.spec_bytes().len() % 512 == 0,
        ensures
            r.spec_bytes() == self.spec_bytes(),
            r.spec_pos() == 0,
            r.wf(),
    {
        TarIter { bytes: self.bytes, pos: 0 }
    }
}

/// Reads the entries of an archive in order.
pub struct TarIter<'a> {
    bytes: &'a [u8],
    pos: usize,
}

impl<'a> TarIter<'a> {
    /// The bytes of the archive.
    pub closed spec fn spec_bytes(&self) -> Seq<u8> {
        self.bytes@
    }

    /// The position of the next block to read.
    pub closed spec fn spec_pos(&self) -> int {
        self.pos as int
    }

    /// The reader is at a block boundary within the archive.
    pub closed spec fn wf(&self) -> bool {
        &&& self.bytes@.len() % 512 == 0
        &&& self.pos % 512 == 0
        &&& self.pos <= self.bytes@.len()
    }

    /// Reads the next entry, skipping the headers that describe none.
    pub fn next(&mut self) -> (r: Option<TarEntry<'a>>)
        requires
            old(self).wf(),
            scan_ok(old(self).spec_bytes(), old(self).spec_pos()),
        ensures
            final(self).wf(),
            final(self).spec_bytes() == old(self).spec_bytes(),
            ({
                let a = old(self).spec_bytes();
                match scan(a, old(self).spec_pos()) {
                    None => r is None && final(self).spec_pos() == a.len(),
                    Some(p) => {
                        &&& r is Some
                        &&& r->Some_0.spec_header().bytes() == header_at(a, p)
                        &&& r->Some_0.spec_header().wf()
                        &&& r->Some_0.spec_contents() == a.subrange(p + 512, p + 512 + entry_size(a, p))
                        &&& final(self).spec_pos() == after_entry(a, p)
                    },
                }
            }),
    {
        let ghost a = self.bytes@;
        let ghost p0 = self.pos as int;
        while self.pos < self.bytes.len()
            invariant
                self.bytes@ == a,
                a == old(self).spec_bytes(),
                p0 == old(self).spec_pos(),
                a.len() % 512 == 0,
                self.pos % 512 == 0,
                self.pos <= a.len(),
                scan(a, self.pos as int) == scan(a, p0),
                scan_ok(a, self.pos as int),
            decreases a.len() - self.pos,
        {
            let p = self.pos;
            assert(p + 512 <= a.len()) by (nonlinear_arith)
                requires p % 512 == 0, a.len() % 512 == 0, p < a.len();
            let block = vstd::slice::slice_subrange(self.bytes, p, p + 512);
            let header = FileHeader::from_raw(block);
            let size = header.size();
            let (name, _) = header.name();
            if size != 0 || name.as_bytes().len() != 0 {
                let start = p + 512;
                let end = start + size as usize;
                let contents = vstd::slice::slice_subrange(self.bytes, start, end);
                let rounded = (size as usize + 511) / 512 * 512;
                proof {
                    let s = size as int;
                    assert((s + 511) / 512 * 512 <= s + 511) by (nonlinear_arith)
                        requires s >= 0;
                    assert(((s + 511) / 512 * 512) % 512 == 0) by (nonlinear_arith);
                }
                if rounded <= self.bytes.len() - start {
                    self.pos = start + rounded;
                } else {
                    self.pos = self.bytes.len();
                }
                proof {
                    assert((p + 512 + rounded) % 512 == 0) by (nonlinear_arith)
                        requires p % 512 == 0, rounded % 512 == 0;
                }
                return Some(TarEntry { header, contents });
            } else {
                self.pos = p + 512;
            }
        }
        None
    }
}

} // verus!
