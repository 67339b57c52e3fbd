//! The dynamic section: a table of tagged values.
use vstd::prelude::*;

use super::{le_u64, section_entries, Elf};
use super::section::Elf64Shdr;
use super::strtab::StrTab;
use super::rela::{rela_entries, Rela};
use super::symtab::{sym_entries, LookupStrategy, Symtab};

verus! {

/// The size in bytes of an entry of the dynamic section.
pub const DYN_ENTRY_SIZE: usize = 16;

/// The tag and value of each whole entry of the dynamic section `b`.
pub open spec fn dyn_entries(b: Seq<u8>) -> Seq<(u64, u64)> {
    Seq::new((b.len() / 16) as nat, |i: int| (le_u64(b, 16 * i), le_u64(b, 16 * i + 8)))
}

/// Scanning the entries from position `k` on, having seen the value `a` for
/// the tag `ta` and `b` for `tb`: the latest values of both tags at the first
/// entry where both have been seen.
pub open spec fn find_pair(
    es: Seq<(u64, u64)>,
    ta: u64,
    tb: u64,
    k: int,
    a: Option<u64>,
    b: Option<u64>,
) -> Option<(u64, u64)>
    decreases es.len() - k,
{
    if k < 0 || k >= es.len() {
        None
    } else {
        let a2 = if es[k].0 == ta { Some(es[k].1) } else { a };
        let b2 = if es[k].0 == tb { Some(es[k].1) } else { b };
        if a2 is Some && b2 is Some {
            Some((a2->Some_0, b2->Some_0))
        } else {
            find_pair(es, ta, tb, k + 1, a2, b2)
        }
    }
}

/// The value of the first entry at or after position `k` whose tag is `tag`.
pub open spec fn first_tag_value(es: Seq<(u64, u64)>, tag: u64, k: int) -> Option<u64>
    decreases es.len() - k,
{
    if k < 0 || k >= es.len() {
        None
    } else if es[k].0 == tag {
        Some(es[k].1)
    } else {
        first_tag_value(es, tag, k + 1)
    }
}

/// The first section at or after position `k` that starts at `offset`.
pub open spec fn first_section_at(ss: Seq<Elf64Shdr>, offset: u64, k: int) -> Option<Elf64Shdr>
    decreases ss.len() - k,
{
    if k < 0 || k >= ss.len() {
        None
    } else if ss[k].offset == offset {
        Some(ss[k])
    } else {
        first_section_at(ss, offset, k + 1)
    }
}

/// The section that holds the symbol table that the entries `es` of the
/// dynamic section of the image `d` locate.
pub open spec fn symtab_section(es: Seq<(u64, u64)>, d: Seq<u8>) -> Option<Elf64Shdr> {
    match first_tag_value(es, DT_SYMTAB, 0) {
        None => None,
        Some(v) => first_section_at(section_entries(d), v, 0),
    }
}

/// Scanning the entries from position `k` on, having seen the value `a` for
/// the tag of the address of the PLT relocations, `b` for their size, and
/// `plt` whether their kind was given as relocations with addends: the latest
/// address and size at the first entry where all three are known.
pub open spec fn find_relaplt(es: Seq<(u64, u64)>, k: int, a: Option<u64>, b: Option<u64>, plt: bool) -> Option<(u64, u64)>
    decreases es.len() - k,
{
    if k < 0 || k >= es.len() {
        None
    } else {
        let a2 = if es[k].0 == DT_JMPREL { Some(es[k].1) } else { a };
        let b2 = if es[k].0 == DT_PLTRELSZ { Some(es[k].1) } else { b };
        let p2 = if es[k].0 == DT_PLTREL && es[k].1 == DT_RELA { true } else { plt };
        if a2 is Some && b2 is Some && p2 {
            Some((a2->Some_0, b2->Some_0))
        } else {
            find_relaplt(es, k + 1, a2, b2, p2)
        }
    }
}

/// The tag of the address of the relocations with addends.
pub const DT_RELA: u64 = 7;
/// The tag of the size of the relocations with addends.
pub const DT_RELASZ: u64 = 8;
/// The tag of the address of the PLT relocations.
pub const DT_JMPREL: u64 = 23;
/// The tag of the size of the PLT relocations.
pub const DT_PLTRELSZ: u64 = 2;
/// The tag of the kind of the PLT relocations.
pub const DT_PLTREL: u64 = 20;

/// The tag of the address of the symbol table.
pub const DT_SYMTAB: u64 = 6;
/// The tag of the address of the string table.
pub const DT_STRTAB: u64 = 5;
/// The tag of the size of the string table.
pub const DT_STRSZ: u64 = 10;

/// The kinds of entry of the dynamic section.
#[derive(Clone, Copy, Debug, PartialEq, Eq)]
pub enum DynamicEntryType {
    Null,
    PltRelSz,
    PltGot,
    StrTab,
    SymTab,
    Rela,
    RelaSz,
    RelaEnt,
    StrSz,
    SymEnt,
    Init,
    PltRel,
    JmpRel,
    InitArray,
    InitArraySz,
    GnuHash,
    Unknown(u64),
}

/// The kind of entry that the tag `t` names.
pub open spec fn spec_dyn_type(t: u64) -> DynamicEntryType {
    if t == 0 {
        DynamicEntryType::Null
    } else if t == 2 {
        DynamicEntryType::PltRelSz
    } else if t == 3 {
        DynamicEntryType::PltGot
    } else if t == 5 {
        DynamicEntryType::StrTab
    } else if t == 6 {
        DynamicEntryType::SymTab
    } else if t == 7 {
        DynamicEntryType::Rela
    } else if t == 8 {
        DynamicEntryType::RelaSz
    } else if t == 9 {
        DynamicEntryType::RelaEnt
    } else if t == 10 {
        DynamicEntryType::StrSz
    } else if t == 11 {
        DynamicEntryType::SymEnt
    } else if t == 12 {
        DynamicEntryType::Init
    } else if t == 20 {
        DynamicEntryType::PltRel
    } else if t == 23 {
        DynamicEntryType::JmpRel
    } else if t == 25 {
        DynamicEntryType::InitArray
    } else if t == 27 {
        DynamicEntryType::InitArraySz
    } else if t == 0x6ffffef5 {
        DynamicEntryType::GnuHash
    } else {
        DynamicEntryType::Unknown(t)
    }
}

/// The ELF `DT_*` tag of each kind of dynamic entry: `DT_NULL` 0,
/// `DT_PLTRELSZ` 2, `DT_PLTGOT` 3, `DT_STRTAB` 5, `DT_SYMTAB` 6, `DT_RELA` 7,
/// `DT_RELASZ` 8, `DT_RELAENT` 9, `DT_STRSZ` 10, `DT_SYMENT` 11, `DT_INIT` 12,
/// `DT_PLTREL` 20, `DT_JMPREL` 23, `DT_INIT_ARRAY` 25, `DT_INIT_ARRAYSZ` 27
/// and `DT_GNU_HASH` 0x6ffffef5; an unknown kind carries its own tag.
pub open spec fn dt_tag(k: DynamicEntryType) -> u64 {
    match k {
        DynamicEntryType::Null => 0,
        DynamicEntryType::PltRelSz => 2,
        DynamicEntryType::PltGot => 3,
        DynamicEntryType::StrTab => 5,
        DynamicEntryType::SymTab => 6,
        DynamicEntryType::Rela => 7,
        DynamicEntryType::RelaSz => 8,
        DynamicEntryType::RelaEnt => 9,
        DynamicEntryType::StrSz => 10,
        DynamicEntryType::SymEnt => 11,
        DynamicEntryType::Init => 12,
        DynamicEntryType::PltRel => 20,
        DynamicEntryType::JmpRel => 23,
        DynamicEntryType::InitArray => 25,
        DynamicEntryType::InitArraySz => 27,
        DynamicEntryType::GnuHash => 0x6fff_fef5,
        DynamicEntryType::Unknown(t) => t,
    }
}

/// The kind of a dynamic entry follows the ELF `DT_*` value of its tag: it
/// is a known kind exactly when the tag is that kind's value, and otherwise
/// an unknown kind that carries the tag.
pub proof fn lemma_dyn_type_table(t: u64)
    ensures
        forall|k: DynamicEntryType| !(k is Unknown) ==> (#[trigger] spec_dyn_type(t) == k <==> t == dt_tag(k)),
        spec_dyn_type(t) is Unknown ==> spec_dyn_type(t) == DynamicEntryType::Unknown(t),
{
    assert forall|k: DynamicEntryType| !(k is Unknown) implies (#[trigger] spec_dyn_type(t) == k <==> t == dt_tag(k)) by {
        match k {
            DynamicEntryType::Null => {},
            DynamicEntryType::PltRelSz => {},
            DynamicEntryType::PltGot => {},
            DynamicEntryType::StrTab => {},
            DynamicEntryType::SymTab => {},
            DynamicEntryType::Rela => {},
            DynamicEntryType::RelaSz => {},
            DynamicEntryType::RelaEnt => {},
            DynamicEntryType::StrSz => {},
            DynamicEntryType::SymEnt => {},
            DynamicEntryType::Init => {},
            DynamicEntryType::PltRel => {},
            DynamicEntryType::JmpRel => {},
            DynamicEntryType::InitArray => {},
            DynamicEntryType::InitArraySz => {},
            DynamicEntryType::GnuHash => {},
            DynamicEntryType::Unknown(_) => {},
        }
    }
}

/// An entry of the dynamic section.
#[derive(Clone, Copy)]
pub struct DynamicEntry {
    tag: u64,
    val: u64,
}

impl DynamicEntry {
    /// The tag of the entry.
    pub closed spec fn spec_tag(&self) -> u64 {
        self.tag
    }

    /// The value of the entry.
    pub closed spec fn spec_val(&self) -> u64 {
        self.val
    }

    fn new(tag: u64, val: u64) -> (r: Self)
        ensures
            r.spec_tag() == tag,
            r.spec_val() == val,
    {
        Self { tag, val }
    }

    pub fn typ(&self) -> (r: DynamicEntryType)
        ensures
            r == spec_dyn_type(self.spec_tag()),
    {
        match self.tag {
            0 => DynamicEntryType::Null,
            2 => DynamicEntryType::PltRelSz,
            3 => DynamicEntryType::PltGot,
            5 => DynamicEntryType::StrTab,
            6 => DynamicEntryType::SymTab,
            7 => DynamicEntryType::Rela,
            8 => DynamicEntryType::RelaSz,
            9 => DynamicEntryType::RelaEnt,
            10 => DynamicEntryType::StrSz,
            11 => DynamicEntryType::SymEnt,
            12 => DynamicEntryType::Init,
            20 => DynamicEntryType::PltRel,
            23 => DynamicEntryType::JmpRel,
            25 => DynamicEntryType::InitArray,
            27 => DynamicEntryType::InitArraySz,
            0x6ffffef5 => DynamicEntryType::GnuHash,
            t => DynamicEntryType::Unknown(t),
        }
    }

    pub fn val(&self) -> (r: u64)
        ensures
            r == self.spec_val(),
    {
        self.val
    }
}

/// The dynamic section of an image.
#[derive(Clone, Copy)]
pub struct Dynamic<'a> {
    buf: &'a [u8],
}

impl<'a> Dynamic<'a> {
    /// The entries of the section.
    pub closed spec fn spec_entries(&self) -> Seq<(u64, u64)> {
        dyn_entries(self.buf@)
    }

    /// The dynamic section held in `buf`; bytes past the last whole entry are ignored.
    pub fn new(buf: &'a [u8]) -> (r: Self)
        ensures
            r.spec_entries() == dyn_entries(buf@),
    {
        Self { buf }
    }

    /// The number of entries.
    pub fn len(&self) -> (r: usize)
        ensures
            r == self.spec_entries().len(),
    {
        self.buf.len() / DYN_ENTRY_SIZE
    }

    /// The entry at `index`.
    pub fn get(&self, index: usize) -> (r: DynamicEntry)
        requires
            index < self.spec_entries().len(),
        ensures
            (r.spec_tag(), r.spec_val()) == self.spec_entries()[index as int],
    {
        let size: usize = self.buf.len();
        let off = index * DYN_ENTRY_SIZE;
        assert(off + 16 <= size) by (nonlinear_arith)
            requires index < size / 16, off == index * 16;
        let tag = vstd::bytes::u64_from_le_bytes(vstd::slice::slice_subrange(self.buf, off, off + 8));
        let val = vstd::bytes::u64_from_le_bytes(vstd::slice::slice_subrange(self.buf, off + 8, off + 16));
        DynamicEntry::new(tag, val)
    }

    /// The string table that the section locates: the table at the latest
    /// address and size given up to the first entry where both are known.
    pub fn strtab(&self, elf: &Elf<'a>) -> (r: Option<StrTab<'a>>)
        requires
            find_pair(self.spec_entries(), DT_STRTAB, DT_STRSZ, 0, None, None) matches Some((o, l))
                ==> o + l <= elf.spec_data().len(),
        ensures
            match find_pair(self.spec_entries(), DT_STRTAB, DT_STRSZ, 0, None, None) {
                None => r is None,
                Some((o, l)) => r is Some && r->Some_0.spec_data() == elf.spec_data().subrange(o as int, o + l),
            },
    {
        let mut strtab: Option<u64> = None;
        let mut strtabsz: Option<u64> = None;
        let n = self.len();
        let mut i: usize = 0;
        while i < n
            invariant
                0 <= i <= n,
                n == self.spec_entries().len(),
                find_pair(self.spec_entries(), DT_STRTAB, DT_STRSZ, i as int, strtab, strtabsz)
                    == find_pair(self.spec_entries(), DT_STRTAB, DT_STRSZ, 0, None, None),
                !(strtab is Some && strtabsz is Some),
                find_pair(self.spec_entries(), DT_STRTAB, DT_STRSZ, 0, None, None) matches Some((o, l))
                    ==> o + l <= elf.spec_data().len(),
            decreases n - i,
        {
            let e = self.get(i);
            let ghost old_a = strtab;
            let ghost old_b = strtabsz;
            match e.typ() {
                DynamicEntryType::StrTab => strtab = Some(e.val()),
                DynamicEntryType::StrSz => strtabsz = Some(e.val()),
                _ => (),
            }
            if let (Some(o), Some(l)) = (strtab, strtabsz) {
                assert(find_pair(self.spec_entries(), DT_STRTAB, DT_STRSZ, i as int, old_a, old_b) == Some((o, l)));
                let size: usize = elf.data().len();
                assert(o + l <= size);
                return Some(StrTab::new(elf.get_buffer(o as usize, l as usize)));
            }
            i = i + 1;
        }
        None
    }

    /// The symbol table that the section locates: the section of the image
    /// that starts where the first symbol table entry points.
    pub fn symtab(&self, elf: &Elf<'a>) -> (r: Option<Symtab<'a>>)
        requires
            symtab_section(self.spec_entries(), elf.spec_data()) matches Some(s)
                ==> s.offset + s.size <= elf.spec_data().len(),
        ensures
            match symtab_section(self.spec_entries(), elf.spec_data()) {
                None => r is None,
                Some(s) => r is Some && r->Some_0.spec_entries() == sym_entries(
                    elf.spec_data().subrange(s.offset as int, s.offset + s.size),
                ),
            },
    {
        let n = self.len();
        let mut i: usize = 0;
        let mut found: Option<u64> = None;
        while i < n
            invariant_except_break
                found is None,
                first_tag_value(self.spec_entries(), DT_SYMTAB, i as int) == first_tag_value(
                    self.spec_entries(),
                    DT_SYMTAB,
                    0,
                ),
            invariant
                0 <= i <= n,
                n == self.spec_entries().len(),
            ensures
                found is None ==> i == n && first_tag_value(self.spec_entries(), DT_SYMTAB, i as int)
                    == first_tag_value(self.spec_entries(), DT_SYMTAB, 0),
                found is Some ==> found == first_tag_value(self.spec_entries(), DT_SYMTAB, 0),
            decreases n - i,
        {
            let e = self.get(i);
            if let DynamicEntryType::SymTab = e.typ() {
                assert(self.spec_entries()[i as int].0 == DT_SYMTAB);
                found = Some(e.val());
                break;
            }
            i = i + 1;
        }
        let v = match found {
            None => {
                assert(first_tag_value(self.spec_entries(), DT_SYMTAB, i as int) is None);
                return None;
            },
            Some(v) => v,
        };
        assert(first_tag_value(self.spec_entries(), DT_SYMTAB, 0) == Some(v));
        let sections = elf.sections();
        let m = sections.len();
        let mut j: usize = 0;
        while j < m
            invariant
                0 <= j <= m,
                m == sections.spec_entries().len(),
                sections.spec_entries() == section_entries(elf.spec_data()),
                first_section_at(sections.spec_entries(), v, j as int) == symtab_section(
                    self.spec_entries(),
                    elf.spec_data(),
                ),
                symtab_section(self.spec_entries(), elf.spec_data()) matches Some(s)
                    ==> s.offset + s.size <= elf.spec_data().len(),
            decreases m - j,
        {
            let s = match sections.get(j) {
                Some(s) => s,
                None => return None,
            };
            if s.offset() == v {
                let size: usize = elf.data().len();
                assert(s.spec_hdr().offset + s.spec_hdr().size <= size);
                let buf = elf.get_buffer(s.offset() as usize, s.size() as usize);
                return Some(Symtab::new(buf, LookupStrategy::Linear));
            }
            j = j + 1;
        }
        None
    }

    /// The relocation table that the section locates: the table at the latest
    /// address and size given up to the first entry where both are known.
    pub fn rela(&self, elf: &Elf<'a>) -> (r: Option<Rela<'a>>)
        requires
            find_pair(self.spec_entries(), DT_RELA, DT_RELASZ, 0, None, None) matches Some((o, l))
                ==> o + l <= elf.spec_data().len(),
        ensures
            match find_pair(self.spec_entries(), DT_RELA, DT_RELASZ, 0, None, None) {
                None => r is None,
                Some((o, l)) => r is Some && r->Some_0.spec_entries() == rela_entries(
                    elf.spec_data().subrange(o as int, o + l),
                ),
            },
    {
        let mut rela: Option<u64> = None;
        let mut relasz: Option<u64> = None;
        let n = self.len();
        let mut i: usize = 0;
        while i < n
            invariant
                0 <= i <= n,
                n == self.spec_entries().len(),
                find_pair(self.spec_entries(), DT_RELA, DT_RELASZ, i as int, rela, relasz)
                    == find_pair(self.spec_entries(), DT_RELA, DT_RELASZ, 0, None, None),
                !(rela is Some && relasz is Some),
                find_pair(self.spec_entries(), DT_RELA, DT_RELASZ, 0, None, None) matches Some((o, l))
                    ==> o + l <= elf.spec_data().len(),
            decreases n - i,
        {
            let e = self.get(i);
            let ghost old_a = rela;
            let ghost old_b = relasz;
            match e.typ() {
                DynamicEntryType::Rela => rela = Some(e.val()),
                DynamicEntryType::RelaSz => relasz = Some(e.val()),
                _ => (),
            }
            if let (Some(o), Some(l)) = (rela, relasz) {
                assert(find_pair(self.spec_entries(), DT_RELA, DT_RELASZ, i as int, old_a, old_b) == Some((o, l)));
                let size: usize = elf.data().len();
                assert(o + l <= size);
                return Some(Rela::new(elf.get_buffer(o as usize, l as usize)));
            }
            i = i + 1;
        }
        None
    }

    /// The PLT relocation table that the section locates: the table at the
    /// latest address and size given up to the first entry where both are
    /// known and the relocations were said to have addends.
    pub fn relaplt(&self, elf: &Elf<'a>) -> (r: Option<Rela<'a>>)
        requires
            find_relaplt(self.spec_entries(), 0, None, None, false) matches Some((o, l))
                ==> o + l <= elf.spec_data().len(),
        ensures
            match find_relaplt(self.spec_entries(), 0, None, None, false) {
                None => r is None,
                Some((o, l)) => r is Some && r->Some_0.spec_entries() == rela_entries(
                    elf.spec_data().subrange(o as int, o + l),
                ),
            },
    {
        let mut rela: Option<u64> = None;
        let mut relasz: Option<u64> = None;
        let mut relaplt = false;
        let n = self.len();
        let mut i: usize = 0;
        while i < n
            invariant
                0 <= i <= n,
                n == self.spec_entries().len(),
                find_relaplt(self.spec_entries(), i as int, rela, relasz, relaplt)
                    == find_relaplt(self.spec_entries(), 0, None, None, false),
                !(rela is Some && relasz is Some && relaplt),
                find_relaplt(self.spec_entries(), 0, None, None, false) matches Some((o, l))
                    ==> o + l <= elf.spec_data().len(),
            decreases n - i,
        {
            let e = self.get(i);
            let ghost old_a = rela;
            let ghost old_b = relasz;
            let ghost old_p = relaplt;
            match e.typ() {
                DynamicEntryType::JmpRel => rela = Some(e.val()),
                DynamicEntryType::PltRelSz => relasz = Some(e.val()),
                DynamicEntryType::PltRel => {
                    if e.val() == DT_RELA {
                        relaplt = true;
                    }
                },
                _ => (),
            }
            if let (Some(o), Some(l), true) = (rela, relasz, relaplt) {
                assert(find_relaplt(self.spec_entries(), i as int, old_a, old_b, old_p) == Some((o, l)));
                let size: usize = elf.data().len();
                assert(o + l <= size);
                return Some(Rela::new(elf.get_buffer(o as usize, l as usize)));
            }
            i = i + 1;
        }
        None
    }
}

} // verus!
