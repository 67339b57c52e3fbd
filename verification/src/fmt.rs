//! Formatting helpers: byte counts split into binary units, and a writer
//! that counts the bytes written to it.
use vstd::prelude::*;
use vstd::string::StringSliceAdditionalSpecFns;

verus! {

/// A number of bytes.
#[derive(Debug, Clone, Copy, PartialEq, Eq, PartialOrd, Ord, Hash)]
pub struct Bytes(pub u64);

/// The number of bytes in a kibibyte.
pub const KB: u64 = 1024;
/// The number of bytes in a mebibyte.
pub const MB: u64 = 1024 * 1024;
/// The number of bytes in a gibibyte.
pub const GB: u64 = 1024 * 1024 * 1024;

impl Bytes {
    /// The count split into gibibytes, mebibytes, kibibytes and bytes, the
    /// last three below 1024 and the gibibytes truncated to 16 bits.
    pub fn split(self) -> (r: (u16, u16, u16, u16))
        ensures
            r.0 == (self.0 as int / 0x4000_0000) as u16,
            r.1 == (self.0 as int % 0x4000_0000) / 0x10_0000,
            r.2 == (self.0 as int % 0x10_0000) / 0x400,
            r.3 == self.0 as int % 0x400,
    {
        let mut b = self.0;
        let gb = b / GB;
        b -= gb * GB;
        let mb = b / MB;
        b -= mb * MB;
        let kb = b / KB;
        b -= kb * KB;
        proof {
            let x = self.0 as int;
            assert(x - x / 0x4000_0000 * 0x4000_0000 == x % 0x4000_0000) by (nonlinear_arith);
            let y = x % 0x4000_0000;
            assert(y - y / 0x10_0000 * 0x10_0000 == y % 0x10_0000) by (nonlinear_arith);
            assert(y % 0x10_0000 == x % 0x10_0000) by (nonlinear_arith)
                requires y == x % 0x4000_0000, x >= 0;
            let z = x % 0x10_0000;
            assert(z - z / 0x400 * 0x400 == z % 0x400) by (nonlinear_arith);
            assert(z % 0x400 == x % 0x400) by (nonlinear_arith)
                requires z == x % 0x10_0000, x >= 0;
            assert(y / 0x10_0000 < 0x400) by (nonlinear_arith)
                requires y == x % 0x4000_0000, x >= 0;
            assert(z / 0x400 < 0x400) by (nonlinear_arith)
                requires z == x % 0x10_0000, x >= 0;
        }
        (gb as u16, mb as u16, kb as u16, b as u16)
    }
}

/// The units in which a count of bytes is written.
#[derive(Clone, Copy, Debug, PartialEq, Eq)]
pub enum ByteUnit {
    GiB,
    MiB,
    KiB,
    B,
}

/// The parts of the text of the count split into `(gb, mb, kb, b)`: each
/// number with its unit, from the largest unit that is not zero down to bytes,
/// which are always written.
pub open spec fn spec_bytes_parts(gb: u16, mb: u16, kb: u16, b: u16) -> Seq<(u16, ByteUnit)> {
    let g = if gb != 0 { seq![(gb, ByteUnit::GiB)] } else { Seq::empty() };
    let m = if gb != 0 || mb != 0 { seq![(mb, ByteUnit::MiB)] } else { Seq::empty() };
    let k = if gb != 0 || mb != 0 || kb != 0 { seq![(kb, ByteUnit::KiB)] } else { Seq::empty() };
    g + m + k + seq![(b, ByteUnit::B)]
}

/// The parts in which the count `bytes` is written, between parentheses and
/// each number followed by its unit.
pub fn fmt_bytes(bytes: Bytes) -> (r: Vec<(u16, ByteUnit)>)
    ensures
        ({
            let (gb, mb, kb, b) = (
                (bytes.0 as int / 0x4000_0000) as u16,
                ((bytes.0 as int % 0x4000_0000) / 0x10_0000) as u16,
                ((bytes.0 as int % 0x10_0000) / 0x400) as u16,
                (bytes.0 as int % 0x400) as u16,
            );
            r@ == spec_bytes_parts(gb, mb, kb, b)
        }),
{
    let (gb, mb, kb, b) = bytes.split();
    let mut parts: Vec<(u16, ByteUnit)> = Vec::new();
    if gb != 0 {
        parts.push((gb, ByteUnit::GiB));
    }
    if gb != 0 || mb != 0 {
        parts.push((mb, ByteUnit::MiB));
    }
    if gb != 0 || mb != 0 || kb != 0 {
        parts.push((kb, ByteUnit::KiB));
    }
    parts.push((b, ByteUnit::B));
    assert(parts@ =~= spec_bytes_parts(gb, mb, kb, b));
    parts
}

/// A writer that keeps only the number of bytes written to it.
#[derive(Debug)]
pub struct SizeWriter {
    size: usize,
}

impl SizeWriter {
    /// The number of bytes written so far.
    pub closed spec fn spec_size(&self) -> nat {
        self.size as nat
    }

    pub fn new() -> (r: Self)
        ensures
            r.spec_size() == 0,
    {
        Self { size: 0 }
    }

    pub fn size(&self) -> (r: usize)
        ensures
            r == self.spec_size(),
    {
        self.size
    }

    /// Counts the bytes of `s`.
    pub fn write_str(&mut self, s: &str) -> (r: Result<(), ()>)
        requires
            old(self).spec_size() + s.spec_bytes().len() <= usize::MAX,
        ensures
            r is Ok,
            final(self).spec_size() == old(self).spec_size() + s.spec_bytes().len(),
    {
        let n = s.as_bytes().len();
        self.size = self.size + n;
        Ok(())
    }
}


/// The units of a count below 2^46 bytes add back up to the count.
pub proof fn lemma_bytes_split(x: u64)
    requires
        x < 0x4000_0000_0000,
    ensures
        (x as int / 0x4000_0000) as u16 * 0x4000_0000 + ((x as int % 0x4000_0000) / 0x10_0000) * 0x10_0000
            + ((x as int % 0x10_0000) / 0x400) * 0x400 + x as int % 0x400 == x,
{
    let xi = x as int;
    assert(xi / 0x4000_0000 < 0x10000) by (nonlinear_arith)
        requires 0 <= xi < 0x4000_0000_0000;
    assert(xi / 0x4000_0000 * 0x4000_0000 + xi % 0x4000_0000 == xi) by (nonlinear_arith);
    let y = xi % 0x4000_0000;
    assert(y / 0x10_0000 * 0x10_0000 + y % 0x10_0000 == y) by (nonlinear_arith);
    assert(y % 0x10_0000 == xi % 0x10_0000) by (nonlinear_arith)
        requires y == xi % 0x4000_0000, xi >= 0;
    let z = xi % 0x10_0000;
    assert(z / 0x400 * 0x400 + z % 0x400 == z) by (nonlinear_arith);
    assert(z % 0x400 == xi % 0x400) by (nonlinear_arith)
        requires z == xi % 0x10_0000, xi >= 0;
}

} // verus!
