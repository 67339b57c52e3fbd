//! Symbol tables.
use vstd::prelude::*;
use vstd::string::StringSliceAdditionalSpecFns;

use super::{le_u16, le_u32, le_u64};
use super::strtab::{spec_get_string, StrTab};
use crate::tar::util::trim_len;

verus! {

/// The size in bytes of a symbol table entry.
pub const SYM_ENTRY_SIZE: usize = 24;

/// A symbol table entry, as it is stored.
#[derive(Copy, Clone, Debug, PartialEq, Eq)]
pub struct Elf64Sym {
    pub name: u32,
    pub info: u8,
    pub other: u8,
    pub shndx: u16,
    pub value: u64,
    pub size: u64,
}

/// The entry stored at byte `off` of `b`.
pub open spec fn sym_at(b: Seq<u8>, off: int) -> Elf64Sym {
    Elf64Sym {
        name: le_u32(b, off),
        info: b[off + 4],
        other: b[off + 5],
        shndx: le_u16(b, off + 6),
        value: le_u64(b, off + 8),
        size: le_u64(b, off + 16),
    }
}

/// The whole entries stored in `b`.
pub open spec fn sym_entries(b: Seq<u8>) -> Seq<Elf64Sym> {
    Seq::new((b.len() / 24) as nat, |i: int| sym_at(b, 24 * i))
}

/// The position of the first entry from `k` on whose name in the string
/// table `strtab` is `name`.
pub open spec fn first_named(syms: Seq<Elf64Sym>, strtab: Seq<u8>, name: Seq<u8>, k: int) -> Option<int>
    decreases syms.len() - k,
{
    if k < 0 || k >= syms.len() {
        None
    } else if spec_get_string(strtab, syms[k].name as int) == Some(name) {
        Some(k)
    } else {
        first_named(syms, strtab, name, k + 1)
    }
}

/// The string at `off` of the table `d` ends with a zero byte within the
/// table, or starts past its end.
pub open spec fn name_terminated(d: Seq<u8>, off: int) -> bool {
    off < d.len() ==> trim_len(d.subrange(off, d.len() as int)) < d.len() - off
}

/// A lookup of `name` among `syms` reads the name of entry `k`: no entry
/// before it has that name.
pub open spec fn lookup_reaches(syms: Seq<Elf64Sym>, strtab: Seq<u8>, name: Seq<u8>, k: int) -> bool {
    match first_named(syms, strtab, name, 0) {
        None => true,
        Some(m) => k <= m,
    }
}

/// The name of every entry that a lookup of `name` reads ends within the
/// string table.
pub open spec fn lookup_names_terminated(syms: Seq<Elf64Sym>, strtab: Seq<u8>, name: Seq<u8>) -> bool {
    forall|k: int| 0 <= k < syms.len() && lookup_reaches(syms, strtab, name, k)
        ==> #[trigger] name_terminated(strtab, syms[k].name as int)
}

/// The entry that the search from `k` finds is not before `k`.
proof fn lemma_first_named_from(syms: Seq<Elf64Sym>, strtab: Seq<u8>, name: Seq<u8>, k: int)
    requires
        0 <= k,
    ensures
        first_named(syms, strtab, name, k) matches Some(m) ==> k <= m,
    decreases syms.len() - k,
{
    if k < syms.len() && spec_get_string(strtab, syms[k].name as int) != Some(name) {
        lemma_first_named_from(syms, strtab, name, k + 1);
    }
}

/// The binding of a symbol.
#[derive(Copy, Clone, Debug, PartialEq, Eq)]
pub enum SymtabEntryBind {
    Local,
    Global,
    Weak,
    Unknown(u8),
}

/// The kind of a symbol.
#[derive(Copy, Clone, Debug, PartialEq, Eq)]
pub enum SymtabEntryType {
    NoType,
    Object,
    Func,
    Section,
    File,
    Common,
    Tls,
    Unknown(u8),
}

/// The ELF `STT_*` value of each kind of symbol: no type 0, object 1,
/// function 2, section 3, file 4, common 5, thread-local storage 6; an
/// unknown kind carries its own value.
pub open spec fn stt_value(k: SymtabEntryType) -> u8 {
    match k {
        SymtabEntryType::NoType => 0,
        SymtabEntryType::Object => 1,
        SymtabEntryType::Func => 2,
        SymtabEntryType::Section => 3,
        SymtabEntryType::File => 4,
        SymtabEntryType::Common => 5,
        SymtabEntryType::Tls => 6,
        SymtabEntryType::Unknown(t) => t,
    }
}

/// The kind of a symbol follows the `STT_*` value in the low four bits of
/// its `info`: it is a known kind exactly when those bits are that kind's
/// value, and otherwise an unknown kind that carries them; the high four
/// bits play no part.
pub proof fn lemma_sym_type_table(info: u8)
    ensures
        forall|k: SymtabEntryType| !(k is Unknown) ==> (#[trigger] spec_sym_type(info) == k <==> info & 0xfu8
            == stt_value(k)),
        spec_sym_type(info) is Unknown ==> spec_sym_type(info) == SymtabEntryType::Unknown(info & 0xfu8),
        spec_sym_type(info) == spec_sym_type(info & 0xfu8),
{
    assert((info & 0xfu8) & 0xfu8 == info & 0xfu8) by (bit_vector);
    assert forall|k: SymtabEntryType| !(k is Unknown) implies (#[trigger] spec_sym_type(info) == k <==> info & 0xfu8
        == stt_value(k)) by {
        match k {
            SymtabEntryType::NoType => {},
            SymtabEntryType::Object => {},
            SymtabEntryType::Func => {},
            SymtabEntryType::Section => {},
            SymtabEntryType::File => {},
            SymtabEntryType::Common => {},
            SymtabEntryType::Tls => {},
            SymtabEntryType::Unknown(_) => {},
        }
    }
}

/// The binding that the high half of `info` names.
pub open spec fn spec_bind(info: u8) -> SymtabEntryBind {
    let b = info >> 4u8;
    if b == 0 {
        SymtabEntryBind::Local
    } else if b == 1 {
        SymtabEntryBind::Global
    } else if b == 2 {
        SymtabEntryBind::Weak
    } else {
        SymtabEntryBind::Unknown(b)
    }
}

/// The kind that the low half of `info` names.
pub open spec fn spec_sym_type(info: u8) -> SymtabEntryType {
    let t = info & 0xfu8;
    if t == 0 {
        SymtabEntryType::NoType
    } else if t == 1 {
        SymtabEntryType::Object
    } else if t == 2 {
        SymtabEntryType::Func
    } else if t == 3 {
        SymtabEntryType::Section
    } else if t == 4 {
        SymtabEntryType::File
    } else if t == 5 {
        SymtabEntryType::Common
    } else if t == 6 {
        SymtabEntryType::Tls
    } else {
        SymtabEntryType::Unknown(t)
    }
}

/// How a symbol table is searched.
#[derive(Copy, Clone)]
pub enum LookupStrategy {
    Linear,
}

/// A symbol table.
#[derive(Copy, Clone)]
pub struct Symtab<'a> {
    buf: &'a [u8],
    strat: LookupStrategy,
}

/// An entry of a symbol table.
#[derive(Copy, Clone)]
pub struct SymtabEntry {
    hdr: Elf64Sym,
}

/// Whether two byte strings are equal.
fn bytes_eq(a: &[u8], b: &[u8]) -> (r: bool)
    ensures
        r == (a@ == b@),
{
    if a.len() != b.len() {
        return false;
    }
    let mut i: usize = 0;
    while i < a.len()
        invariant
            0 <= i <= a@.len(),
            a@.len() == b@.len(),
            forall|k: int| 0 <= k < i ==> a@[k] == b@[k],
        decreases a@.len() - i,
    {
        if a[i] != b[i] {
            return false;
        }
        i = i + 1;
    }
    assert(a@ =~= b@);
    true
}

impl<'a> Symtab<'a> {
    /// The entries of the table.
    pub closed spec fn spec_entries(&self) -> Seq<Elf64Sym> {
        sym_entries(self.buf@)
    }

    /// The symbol table held in `buf`, searched with `strat`; bytes past the
    /// last whole entry are ignored.
    pub fn new(buf: &'a [u8], strat: LookupStrategy) -> (r: Self)
        ensures
            r.spec_entries() == sym_entries(buf@),
    {
        Self { buf, strat }
    }

    /// The number of entries.
    pub fn len(&self) -> (r: usize)
        ensures
            r == self.spec_entries().len(),
    {
        self.buf.len() / SYM_ENTRY_SIZE
    }

    /// The entry at `index`.
    pub fn get(&self, index: usize) -> (r: SymtabEntry)
        requires
            index < self.spec_entries().len(),
        ensures
            r.spec_raw() == self.spec_entries()[index as int],
    {
        let size: usize = self.buf.len();
        let off = index * SYM_ENTRY_SIZE;
        assert(off + 24 <= size) by (nonlinear_arith)
            requires index < size / 24, off == index * 24;
        let b = self.buf;
        let hdr = Elf64Sym {
            name: vstd::bytes::u32_from_le_bytes(vstd::slice::slice_subrange(b, off, off + 4)),
            info: b[off + 4],
            other: b[off + 5],
            shndx: vstd::bytes::u16_from_le_bytes(vstd::slice::slice_subrange(b, off + 6, off + 8)),
            value: vstd::bytes::u64_from_le_bytes(vstd::slice::slice_subrange(b, off + 8, off + 16)),
            size: vstd::bytes::u64_from_le_bytes(vstd::slice::slice_subrange(b, off + 16, off + 24)),
        };
        SymtabEntry { hdr }
    }

    /// The first symbol named `name` in the string table `strtab`.
    pub fn lookup(&self, name: &str, strtab: &StrTab<'a>) -> (r: Option<SymtabEntry>)
        requires
            lookup_names_terminated(self.spec_entries(), strtab.spec_data(), name.spec_bytes()),
            strtab.spec_data().len() <= isize::MAX,
        ensures
            match first_named(self.spec_entries(), strtab.spec_data(), name.spec_bytes(), 0) {
                None => r is None,
                Some(k) => r is Some && r->Some_0.spec_raw() == self.spec_entries()[k],
            },
    {
        match self.strat {
            LookupStrategy::Linear => self.lookup_linear(name, strtab),
        }
    }

    fn lookup_linear(&self, name: &str, strtab: &StrTab<'a>) -> (r: Option<SymtabEntry>)
        requires
            lookup_names_terminated(self.spec_entries(), strtab.spec_data(), name.spec_bytes()),
            strtab.spec_data().len() <= isize::MAX,
        ensures
            match first_named(self.spec_entries(), strtab.spec_data(), name.spec_bytes(), 0) {
                None => r is None,
                Some(k) => r is Some && r->Some_0.spec_raw() == self.spec_entries()[k],
            },
    {
        let n = self.len();
        let name_bytes = name.as_bytes();
        let mut i: usize = 0;
        while i < n
            invariant
                0 <= i <= n,
                n == self.spec_entries().len(),
                name_bytes@ == name.spec_bytes(),
                lookup_names_terminated(self.spec_entries(), strtab.spec_data(), name.spec_bytes()),
                strtab.spec_data().len() <= isize::MAX,
                first_named(self.spec_entries(), strtab.spec_data(), name.spec_bytes(), i as int)
                    == first_named(self.spec_entries(), strtab.spec_data(), name.spec_bytes(), 0),
            decreases n - i,
        {
            let sym = self.get(i);
            let off = sym.hdr.name as usize;
            proof {
                lemma_first_named_from(self.spec_entries(), strtab.spec_data(), name.spec_bytes(), i as int);
                assert(lookup_reaches(self.spec_entries(), strtab.spec_data(), name.spec_bytes(), i as int));
                assert(name_terminated(strtab.spec_data(), self.spec_entries()[i as int].name as int));
            }
            if let Some(symname) = sym.name(strtab) {
                if bytes_eq(symname.as_bytes(), name_bytes) {
                    return Some(sym);
                }
            }
            i = i + 1;
        }
        None
    }
}

impl SymtabEntry {
    /// The entry as it is stored.
    pub closed spec fn spec_raw(&self) -> Elf64Sym {
        self.hdr
    }

    /// The name of the symbol in the string table `strtab`.
    pub fn name<'a>(&self, strtab: &StrTab<'a>) -> (r: Option<&'a str>)
        requires
            strtab.spec_data().len() <= isize::MAX,
            name_terminated(strtab.spec_data(), self.spec_raw().name as int),
        ensures
            r is Some <==> spec_get_string(strtab.spec_data(), self.spec_raw().name as int) is Some,
            r is Some ==> r->Some_0.spec_bytes()
                == spec_get_string(strtab.spec_data(), self.spec_raw().name as int)->Some_0,
    {
        strtab.get_string(self.hdr.name as usize)
    }

    pub fn info(&self) -> (r: u8)
        ensures
            r == self.spec_raw().info,
    {
        self.hdr.info
    }

    pub fn bind(&self) -> (r: SymtabEntryBind)
        ensures
            r == spec_bind(self.spec_raw().info),
    {
        match self.hdr.info >> 4 {
            0 => SymtabEntryBind::Local,
            1 => SymtabEntryBind::Global,
            2 => SymtabEntryBind::Weak,
            b => SymtabEntryBind::Unknown(b),
        }
    }

    pub fn typ(&self) -> (r: SymtabEntryType)
        ensures
            r == spec_sym_type(self.spec_raw().info),
    {
        match self.hdr.info & 0xf {
            0 => SymtabEntryType::NoType,
            1 => SymtabEntryType::Object,
            2 => SymtabEntryType::Func,
            3 => SymtabEntryType::Section,
            4 => SymtabEntryType::File,
            5 => SymtabEntryType::Common,
            6 => SymtabEntryType::Tls,
            t => SymtabEntryType::Unknown(t),
        }
    }

    pub fn other(&self) -> (r: u8)
        ensures
            r == self.spec_raw().other,
    {
        self.hdr.other
    }

    pub fn shndx(&self) -> (r: u16)
        ensures
            r == self.spec_raw().shndx,
    {
        self.hdr.shndx
    }

    pub fn value(&self) -> (r: u64)
        ensures
            r == self.spec_raw().value,
    {
        self.hdr.value
    }

    pub fn size(&self) -> (r: u64)
        ensures
            r == self.spec_raw().size,
    {
        self.hdr.size
    }

    pub fn raw(&self) -> (r: &Elf64Sym)
        ensures
            *r == self.spec_raw(),
    {
        &self.hdr
    }
}

} // verus!
