//! Reading ELF64 images: the file header, the program and section header
//! tables, the dynamic section, relocation, string and symbol tables.
pub mod dynamic;
pub mod program;
pub mod rela;
pub mod section;
pub mod strtab;
pub mod symtab;

use vstd::prelude::*;

pub use self::dynamic::{Dynamic, DynamicEntry, DynamicEntryType};
pub use self::program::{Program, ProgramEntry, ProgramEntryFlags, ProgramEntryType};
pub use self::rela::{Rela, RelaEntry};
pub use self::section::{Section, Sections};
pub use self::strtab::StrTab;
pub use self::symtab::{LookupStrategy, Symtab, SymtabEntry, SymtabEntryBind, SymtabEntryType};

verus! {

/// The kinds of invalid image.
#[derive(Copy, Clone, Debug, PartialEq, Eq)]
pub enum ElfErrorKind {
    InvalidSize,
    InvalidSignature,
}

/// The error of an invalid image: its kind and a description.
#[derive(Copy, Clone, Debug)]
pub struct ElfError {
    pub kind: ElfErrorKind,
    pub msg: &'static str,
}

impl ElfError {
    pub fn new(kind: ElfErrorKind, msg: &'static str) -> (r: Self)
        ensures
            r.kind == kind,
            r.msg == msg,
    {
        Self { kind, msg }
    }
}

/// The size in bytes of the ELF64 file header.
pub const ELF64_HDR_SIZE: usize = 64;

/// The little-endian `u16` at byte `off` of `d`.
pub open spec fn le_u16(d: Seq<u8>, off: int) -> u16 {
    vstd::bytes::spec_u16_from_le_bytes(d.subrange(off, off + 2))
}

/// The little-endian `u32` at byte `off` of `d`.
pub open spec fn le_u32(d: Seq<u8>, off: int) -> u32 {
    vstd::bytes::spec_u32_from_le_bytes(d.subrange(off, off + 4))
}

/// The little-endian `u64` at byte `off` of `d`.
pub open spec fn le_u64(d: Seq<u8>, off: int) -> u64 {
    vstd::bytes::spec_u64_from_le_bytes(d.subrange(off, off + 8))
}

/// The bytes that start every ELF image.
pub open spec fn elf_magic() -> Seq<u8> {
    seq![0x7fu8, 0x45u8, 0x4cu8, 0x46u8]
}

/// The end of the program header table described by the header `d`.
pub open spec fn ph_end(d: Seq<u8>) -> int {
    le_u64(d, 32) + le_u16(d, 54) * le_u16(d, 56)
}

/// The end of the section header table described by the header `d`.
pub open spec fn sh_end(d: Seq<u8>) -> int {
    le_u64(d, 40) + le_u16(d, 58) * le_u16(d, 60)
}

/// The outcome of checking the image `d`: `None` for a valid image, or the
/// kind of its first defect.
pub open spec fn elf_check(d: Seq<u8>) -> Option<ElfErrorKind> {
    if d.len() < 64 {
        Some(ElfErrorKind::InvalidSize)
    } else if d.subrange(0, 4) != elf_magic() {
        Some(ElfErrorKind::InvalidSignature)
    } else if ph_end(d) > d.len() {
        Some(ElfErrorKind::InvalidSize)
    } else if sh_end(d) > d.len() {
        Some(ElfErrorKind::InvalidSize)
    } else {
        None
    }
}

/// The message that goes with the first defect of the image `d`.
pub open spec fn elf_check_msg(d: Seq<u8>) -> Seq<char> {
    if d.len() < 64 {
        "Buffer is too small for header"@
    } else if d.subrange(0, 4) != elf_magic() {
        "ELF signature is invalid"@
    } else if ph_end(d) > d.len() {
        "Buffer is too small for program header"@
    } else {
        "Buffer is too small for section header"@
    }
}

/// The table ends that the check of `d` computes fit in 64 bits.
pub open spec fn elf_ends_fit(d: Seq<u8>) -> bool {
    d.len() >= 64 && d.subrange(0, 4) == elf_magic() ==> {
        &&& ph_end(d) <= u64::MAX
        &&& ph_end(d) <= d.len() ==> sh_end(d) <= u64::MAX
    }
}

/// The file header of an ELF64 image.
#[derive(Copy, Clone, Debug)]
pub struct Elf64Hdr {
    pub ident: [u8; 16],
    pub typ: u16,
    pub machine: u16,
    pub version: u32,
    pub entry: u64,
    pub phoff: u64,
    pub shoff: u64,
    pub flags: u32,
    pub ehsize: u16,
    pub phentsize: u16,
    pub phnum: u16,
    pub shentsize: u16,
    pub shnum: u16,
    pub shstrndx: u16,
}

/// The header read from the first bytes of `d`.
pub open spec fn spec_hdr_fields(h: Elf64Hdr, d: Seq<u8>) -> bool {
    &&& h.ident@ == d.subrange(0, 16)
    &&& h.typ == le_u16(d, 16)
    &&& h.machine == le_u16(d, 18)
    &&& h.version == le_u32(d, 20)
    &&& h.entry == le_u64(d, 24)
    &&& h.phoff == le_u64(d, 32)
    &&& h.shoff == le_u64(d, 40)
    &&& h.flags == le_u32(d, 48)
    &&& h.ehsize == le_u16(d, 52)
    &&& h.phentsize == le_u16(d, 54)
    &&& h.phnum == le_u16(d, 56)
    &&& h.shentsize == le_u16(d, 58)
    &&& h.shnum == le_u16(d, 60)
    &&& h.shstrndx == le_u16(d, 62)
}

pub(crate) fn read_u16(d: &[u8], off: usize) -> (r: u16)
    requires
        off + 2 <= d@.len(),
    ensures
        r == le_u16(d@, off as int),
{
    let size: usize = d.len();
    assert(off + 2 <= size);
    vstd::bytes::u16_from_le_bytes(vstd::slice::slice_subrange(d, off, off + 2))
}

pub(crate) fn read_u32(d: &[u8], off: usize) -> (r: u32)
    requires
        off + 4 <= d@.len(),
    ensures
        r == le_u32(d@, off as int),
{
    let size: usize = d.len();
    assert(off + 4 <= size);
    vstd::bytes::u32_from_le_bytes(vstd::slice::slice_subrange(d, off, off + 4))
}

pub(crate) fn read_u64(d: &[u8], off: usize) -> (r: u64)
    requires
        off + 8 <= d@.len(),
    ensures
        r == le_u64(d@, off as int),
{
    let size: usize = d.len();
    assert(off + 8 <= size);
    vstd::bytes::u64_from_le_bytes(vstd::slice::slice_subrange(d, off, off + 8))
}

/// Reads the file header from the first 64 bytes of `d`.
fn read_hdr(d: &[u8]) -> (r: Elf64Hdr)
    requires
        d@.len() >= 64,
    ensures
        spec_hdr_fields(r, d@),
{
    let mut ident = [0u8; 16];
    let mut i: usize = 0;
    while i < 16
        invariant
            0 <= i <= 16,
            d@.len() >= 64,
            forall|k: int| 0 <= k < i ==> #[trigger] ident@[k] == d@[k],
        decreases 16 - i,
    {
        ident[i] = d[i];
        i = i + 1;
    }
    assert(ident@ =~= d@.subrange(0, 16));
    Elf64Hdr {
        ident,
        typ: read_u16(d, 16),
        machine: read_u16(d, 18),
        version: read_u32(d, 20),
        entry: read_u64(d, 24),
        phoff: read_u64(d, 32),
        shoff: read_u64(d, 40),
        flags: read_u32(d, 48),
        ehsize: read_u16(d, 52),
        phentsize: read_u16(d, 54),
        phnum: read_u16(d, 56),
        shentsize: read_u16(d, 58),
        shnum: read_u16(d, 60),
        shstrndx: read_u16(d, 62),
    }
}

/// An ELF64 image whose header and header tables lie within its bytes.
pub struct Elf<'a> {
    hdr: Elf64Hdr,
    data: &'a [u8],
}

/// The entries of the program header table of the image `d`.
pub open spec fn program_entries(d: Seq<u8>) -> Seq<program::Elf64Phdr> {
    program::phdrs(d.subrange(le_u64(d, 32) as int, ph_end(d)), le_u16(d, 54) as nat)
}

/// The entries of the section header table of the image `d`.
pub open spec fn section_entries(d: Seq<u8>) -> Seq<section::Elf64Shdr> {
    section::shdrs(d.subrange(le_u64(d, 40) as int, sh_end(d)), le_u16(d, 58) as nat)
}

impl<'a> Elf<'a> {
    #[verifier::type_invariant]
    closed spec fn inv(self) -> bool {
        &&& spec_hdr_fields(self.hdr, self.data@)
        &&& elf_check(self.data@) is None
    }

    /// The bytes of the image.
    pub closed spec fn spec_data(&self) -> Seq<u8> {
        self.data@
    }

    /// The file header of the image.
    pub closed spec fn spec_hdr(&self) -> Elf64Hdr {
        self.hdr
    }

    /// Checks that `data` holds an ELF64 image whose header tables lie within it.
    pub fn new(data: &'a [u8]) -> (r: Result<Self, ElfError>)
        requires
            elf_ends_fit(data@),
        ensures
            r is Ok <==> elf_check(data@) is None,
            r is Ok ==> r->Ok_0.spec_data() == data@ && spec_hdr_fields(r->Ok_0.spec_hdr(), data@),
            r is Err ==> elf_check(data@) == Some(r->Err_0.kind) && r->Err_0.msg@ == elf_check_msg(data@),
    {
        if data.len() < ELF64_HDR_SIZE {
            return Err(ElfError::new(ElfErrorKind::InvalidSize, "Buffer is too small for header"));
        }
        let hdr = read_hdr(data);
        let magic_ok = data[0] == 0x7f && data[1] == 0x45 && data[2] == 0x4c && data[3] == 0x46;
        proof {
            if magic_ok {
                assert(data@.subrange(0, 4) =~= elf_magic());
            } else {
                assert(data@.subrange(0, 4) != elf_magic()) by {
                    let m = data@.subrange(0, 4);
                    assert(m[0] == data@[0] && m[1] == data@[1] && m[2] == data@[2] && m[3] == data@[3]);
                }
            }
        }
        if !magic_ok {
            return Err(ElfError::new(ElfErrorKind::InvalidSignature, "ELF signature is invalid"));
        }
        let len = data.len() as u64;
        if hdr.phoff + (hdr.phentsize as u64 * hdr.phnum as u64) > len {
            return Err(ElfError::new(ElfErrorKind::InvalidSize, "Buffer is too small for program header"));
        }
        if hdr.shoff + (hdr.shentsize as u64 * hdr.shnum as u64) > len {
            return Err(ElfError::new(ElfErrorKind::InvalidSize, "Buffer is too small for section header"));
        }
        Ok(Self { hdr, data })
    }

    /// The `len` bytes of the image that start at `offset`.
    pub fn get_buffer(&self, offset: usize, len: usize) -> (r: &'a [u8])
        requires
            offset + len <= self.spec_data().len(),
        ensures
            r@ == self.spec_data().subrange(offset as int, offset + len),
    {
        let size: usize = self.data.len();
        assert(offset + len <= size);
        vstd::slice::slice_subrange(self.data, offset, offset + len)
    }

    /// The program header table of the image.
    pub fn program(&self) -> (r: Program<'a>)
        ensures
            r.spec_entries() == program_entries(self.spec_data()),
    {
        proof {
            use_type_invariant(self);
        }
        let size: usize = self.data.len();
        let off = self.hdr.phoff as usize;
        assert(off + self.hdr.phentsize * self.hdr.phnum <= size);
        let len = self.hdr.phentsize as usize * self.hdr.phnum as usize;
        Program::new(self.get_buffer(off, len), self.hdr.phentsize as usize)
    }

    /// The section header table of the image.
    pub fn sections(&self) -> (r: Sections<'a>)
        ensures
            r.spec_entries() == section_entries(self.spec_data()),
    {
        proof {
            use_type_invariant(self);
        }
        let size: usize = self.data.len();
        let off = self.hdr.shoff as usize;
        assert(off + self.hdr.shentsize * self.hdr.shnum <= size);
        let len = self.hdr.shentsize as usize * self.hdr.shnum as usize;
        Sections::new(self.get_buffer(off, len), self.hdr.shentsize as usize)
    }

    pub fn raw(&self) -> (r: &Elf64Hdr)
        ensures
            *r == self.spec_hdr(),
    {
        &self.hdr
    }

    pub fn data(&self) -> (r: &[u8])
        ensures
            r@ == self.spec_data(),
    {
        self.data
    }
}

} // verus!
