//! The header block of a tar archive entry.
use vstd::prelude::*;
use vstd::utf8::valid_utf8;
use vstd::string::StringSliceAdditionalSpecFns;

use super::util::{
    all_octal, lemma_octal_bound, lemma_pow8_increases, lemma_short_octal_fits, lemma_trim_len, octal_value, pow8,
    read_ascii_octal_trim, spec_trim_nulls, trim_nulls,
};

verus! {

/// The kind of link that an entry is.
pub enum FileLink {
    Normal,
    Link,
    Symlink,
}

/// The kind of file that an entry holds.
#[derive(Clone, Copy, Debug, PartialEq, Eq)]
pub enum EntryType {
    File,
    Link,
    Symlink,
    Dir,
    Unknown(u8),
}

/// The kind of file that the type byte `t` names.
pub open spec fn spec_entry_type(t: u8) -> EntryType {
    if t == 0 || t == 0x30 {
        EntryType::File
    } else if t == 0x31 {
        EntryType::Link
    } else if t == 0x32 {
        EntryType::Symlink
    } else if t == 0x35 {
        EntryType::Dir
    } else {
        EntryType::Unknown(t)
    }
}

/// The ustar type flag of a regular file, the character `'0'`.
pub const TYPEFLAG_FILE: u8 = 48;
/// The ustar type flag of a hard link, the character `'1'`.
pub const TYPEFLAG_LINK: u8 = 49;
/// The ustar type flag of a symbolic link, the character `'2'`.
pub const TYPEFLAG_SYMLINK: u8 = 50;
/// The ustar type flag of a directory, the character `'5'`.
pub const TYPEFLAG_DIR: u8 = 53;

/// The ustar type flag of each kind of entry: `'0'` for a regular file,
/// `'1'` for a hard link, `'2'` for a symbolic link and `'5'` for a
/// directory; an unknown kind carries its own flag.
pub open spec fn ustar_typeflag(k: EntryType) -> u8 {
    match k {
        EntryType::File => TYPEFLAG_FILE,
        EntryType::Link => TYPEFLAG_LINK,
        EntryType::Symlink => TYPEFLAG_SYMLINK,
        EntryType::Dir => TYPEFLAG_DIR,
        EntryType::Unknown(t) => t,
    }
}

/// The type byte of a header is read by the ustar type-flag table: it names
/// a known kind exactly when it is that kind's flag (or, for a regular file,
/// the zero byte of old archives), and any other byte names an unknown kind
/// that carries the byte.
pub proof fn lemma_entry_type_table(t: u8)
    ensures
        forall|k: EntryType| !(k is Unknown) ==> (#[trigger] spec_entry_type(t) == k <==> (t == ustar_typeflag(k) || (
            k == EntryType::File && t == 0))),
        spec_entry_type(t) is Unknown ==> spec_entry_type(t) == EntryType::Unknown(t),
{
    assert forall|k: EntryType| !(k is Unknown) implies (#[trigger] spec_entry_type(t) == k <==> (t == ustar_typeflag(k)
        || (k == EntryType::File && t == 0))) by {
        match k {
            EntryType::File => {},
            EntryType::Link => {},
            EntryType::Symlink => {},
            EntryType::Dir => {},
            EntryType::Unknown(_) => {},
        }
    }
}

/// The size in bytes of the header fields.
pub const HEADER_LEN: usize = 500;

/// The field of the header `h` that starts at byte `off` and is `len` bytes long.
pub open spec fn field(h: Seq<u8>, off: int, len: int) -> Seq<u8> {
    h.subrange(off, off + len)
}

/// The signature of a header in the GNU format of ustar.
pub open spec fn ustar_sig() -> Seq<u8> {
    seq![0x75u8, 0x73u8, 0x74u8, 0x61u8, 0x72u8, 0x20u8]
}

/// The header `h` carries the ustar signature.
pub open spec fn spec_is_ustar(h: Seq<u8>) -> bool {
    field(h, 257, 6) == ustar_sig()
}

/// The name field of `h`, without its trailing zeros.
pub open spec fn name_bytes(h: Seq<u8>) -> Seq<u8> {
    spec_trim_nulls(field(h, 0, 100))
}

/// The name prefix field of `h`, without its trailing zeros.
pub open spec fn name_pre_bytes(h: Seq<u8>) -> Seq<u8> {
    spec_trim_nulls(field(h, 345, 155))
}

/// The bytes of the first component of the name of `h`: the prefix of a
/// ustar header that has one, or else the name field.
pub open spec fn name_first_bytes(h: Seq<u8>) -> Seq<u8> {
    if spec_is_ustar(h) && name_pre_bytes(h).len() != 0 {
        name_pre_bytes(h)
    } else {
        name_bytes(h)
    }
}

/// The fields of `h` that its name is read from are valid UTF-8.
pub open spec fn name_valid(h: Seq<u8>) -> bool {
    &&& spec_is_ustar(h) ==> valid_utf8(name_pre_bytes(h))
    &&& (!spec_is_ustar(h) || name_pre_bytes(h).len() == 0) ==> valid_utf8(name_bytes(h))
}

/// The size field of `h`, without its trailing zeros.
pub open spec fn size_bytes(h: Seq<u8>) -> Seq<u8> {
    spec_trim_nulls(field(h, 124, 12))
}

/// The numeric field of `h` at `off`, `len` bytes long, is octal digits up to its first zero.
pub open spec fn octal_field_ok(h: Seq<u8>, off: int, len: int) -> bool {
    all_octal(spec_trim_nulls(field(h, off, len)))
}

/// The value of the numeric field of `h` at `off`, `len` bytes long.
pub open spec fn octal_field(h: Seq<u8>, off: int, len: int) -> int {
    octal_value(spec_trim_nulls(field(h, off, len)))
}

/// Decodes bytes that are valid UTF-8.
fn decode<'a>(v: &'a [u8]) -> (r: &'a str)
    requires
        valid_utf8(v@),
    ensures
        r.spec_bytes() == v@,
{
    match crate::str::from_utf8(v) {
        Ok(s) => s,
        Err(_) => "",
    }
}

/// The header of an entry of a tar archive: the first 500 bytes of its block.
pub struct FileHeader<'a> {
    raw: &'a [u8],
}

impl<'a> FileHeader<'a> {
    /// The bytes of the header.
    pub closed spec fn bytes(&self) -> Seq<u8> {
        self.raw@
    }

    /// The header holds all its fields.
    pub closed spec fn wf(&self) -> bool {
        self.raw@.len() >= HEADER_LEN
    }

    /// The header made of the first bytes of `raw`.
    pub(crate) fn from_raw(raw: &'a [u8]) -> (r: Self)
        requires
            raw@.len() >= HEADER_LEN,
        ensures
            r.wf(),
            r.bytes() == raw@,
    {
        FileHeader { raw }
    }

    fn field(&self, off: usize, len: usize) -> (r: &'a [u8])
        requires
            self.wf(),
            off + len <= HEADER_LEN,
        ensures
            r@ == field(self.bytes(), off as int, len as int),
    {
        vstd::slice::slice_subrange(self.raw, off, off + len)
    }

    /// The name of the entry: the name prefix and, repeated, that prefix
    /// for a ustar header that has a prefix; the name field otherwise.
    pub fn name(&self) -> (r: (&'a str, Option<&'a str>))
        requires
            self.wf(),
            name_valid(self.bytes()),
        ensures
            r.0.spec_bytes() == name_first_bytes(self.bytes()),
            spec_is_ustar(self.bytes()) && name_pre_bytes(self.bytes()).len() != 0 ==>
                r.1 is Some && r.1->Some_0.spec_bytes() == name_pre_bytes(self.bytes()),
            !(spec_is_ustar(self.bytes()) && name_pre_bytes(self.bytes()).len() != 0) ==> r.1 is None,
    {
        if self.is_ustar() {
            let name_pre = decode(trim_nulls(self.field(345, 155)));
            if name_pre.as_bytes().len() == 0 {
                (decode(trim_nulls(self.field(0, 100))), None)
            } else {
                (name_pre, Some(decode(trim_nulls(self.field(345, 155)))))
            }
        } else {
            (decode(trim_nulls(self.field(0, 100))), None)
        }
    }

    /// The size in bytes of the entry's contents.
    pub fn size(&self) -> (r: u64)
        requires
            self.wf(),
            octal_field_ok(self.bytes(), 124, 12),
        ensures
            r == octal_field(self.bytes(), 124, 12),
    {
        self.octal(124, 12)
    }

    fn octal(&self, off: usize, len: usize) -> (r: u64)
        requires
            self.wf(),
            off + len <= HEADER_LEN,
            len <= 12,
            octal_field_ok(self.bytes(), off as int, len as int),
        ensures
            r == octal_field(self.bytes(), off as int, len as int),
            r < pow8(len as nat),
    {
        let f = self.field(off, len);
        proof {
            lemma_trim_len(f@);
            lemma_short_octal_fits(spec_trim_nulls(f@));
            lemma_octal_bound(spec_trim_nulls(f@));
            lemma_pow8_increases(spec_trim_nulls(f@).len(), len as nat);
        }
        match read_ascii_octal_trim(f) {
            Ok(v) => v,
            Err(_) => 0,
        }
    }

    /// The kind of file of the entry.
    pub fn typ(&self) -> (r: EntryType)
        requires
            self.wf(),
        ensures
            r == spec_entry_type(self.bytes()[156]),
    {
        match self.raw[156] {
            0 | 0x30 => EntryType::File,
            0x31 => EntryType::Link,
            0x32 => EntryType::Symlink,
            0x35 => EntryType::Dir,
            t => EntryType::Unknown(t),
        }
    }

    /// The user id of the entry's owner.
    pub fn uid(&self) -> (r: u32)
        requires
            self.wf(),
            octal_field_ok(self.bytes(), 108, 8),
        ensures
            r == octal_field(self.bytes(), 108, 8),
    {
        proof { lemma_pow8_8(); }
        self.octal(108, 8) as u32
    }

    /// The name of the entry's owner, in a ustar header.
    pub fn user_name(&self) -> (r: Option<&'a str>)
        requires
            self.wf(),
            spec_is_ustar(self.bytes()) ==> valid_utf8(spec_trim_nulls(field(self.bytes(), 265, 32))),
        ensures
            r is Some <==> spec_is_ustar(self.bytes()),
            r is Some ==> r->Some_0.spec_bytes() == spec_trim_nulls(field(self.bytes(), 265, 32)),
    {
        if self.is_ustar() {
            Some(decode(trim_nulls(self.field(265, 32))))
        } else {
            None
        }
    }

    /// The group id of the entry's owner.
    pub fn gid(&self) -> (r: u32)
        requires
            self.wf(),
            octal_field_ok(self.bytes(), 116, 8),
        ensures
            r == octal_field(self.bytes(), 116, 8),
    {
        proof { lemma_pow8_8(); }
        self.octal(116, 8) as u32
    }

    /// The name of the entry's owning group, in a ustar header.
    pub fn group_name(&self) -> (r: Option<&'a str>)
        requires
            self.wf(),
            spec_is_ustar(self.bytes()) ==> valid_utf8(spec_trim_nulls(field(self.bytes(), 297, 32))),
        ensures
            r is Some <==> spec_is_ustar(self.bytes()),
            r is Some ==> r->Some_0.spec_bytes() == spec_trim_nulls(field(self.bytes(), 297, 32)),
    {
        if self.is_ustar() {
            Some(decode(trim_nulls(self.field(297, 32))))
        } else {
            None
        }
    }

    /// The permission bits of the entry.
    pub fn mode(&self) -> (r: u32)
        requires
            self.wf(),
            octal_field_ok(self.bytes(), 100, 8),
        ensures
            r == octal_field(self.bytes(), 100, 8),
    {
        proof { lemma_pow8_8(); }
        self.octal(100, 8) as u32
    }

    /// Whether the header carries the ustar signature.
    fn is_ustar(&self) -> (r: bool)
        requires
            self.wf(),
        ensures
            r == spec_is_ustar(self.bytes()),
    {
        let r = self.raw[257] == 0x75 && self.raw[258] == 0x73 && self.raw[259] == 0x74
            && self.raw[260] == 0x61 && self.raw[261] == 0x72 && self.raw[262] == 0x20;
        proof {
            if r {
                assert(field(self.bytes(), 257, 6) =~= ustar_sig());
            } else {
                let f = field(self.bytes(), 257, 6);
                assert(f[0] == self.bytes()[257] && f[1] == self.bytes()[258] && f[2] == self.bytes()[259]
                    && f[3] == self.bytes()[260] && f[4] == self.bytes()[261] && f[5] == self.bytes()[262]);
            }
        }
        r
    }
}

/// Eight to the power eight fits in a `u32`.
proof fn lemma_pow8_8()
    ensures
        pow8(8) == 0x100_0000,
{
    reveal_with_fuel(pow8, 9);
}

} // verus!
