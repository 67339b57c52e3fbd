//! Integer helpers: rounding division, alignment, base-two logarithms and
//! splitting an integer into its high and low halves.
use vstd::prelude::*;
use vstd::arithmetic::power2::{pow2, lemma_pow2_unfold, lemma_pow2_pos, lemma_pow2_strictly_increases};
use vstd::std_specs::bits::{u64_leading_zeros, axiom_u64_leading_zeros};
use vstd::bits::lemma_u64_shl_is_mul;

verus! {

/// `q` is `a / b` rounded towards positive infinity.
pub open spec fn is_ceil_div(a: int, b: int, q: int) -> bool {
    q * b >= a && q * b < a + b
}

/// `r` is the smallest multiple of `align` that is not below `v`.
pub open spec fn is_align_up(v: int, align: int, r: int) -> bool {
    r % align == 0 && r >= v && r < v + align
}

/// `n` is a power of two.
pub open spec fn is_power_of_two(n: int) -> bool {
    exists|k: nat| pow2(k) == n
}

/// Rounding the quotient up gives the ceiling of the exact quotient.
pub proof fn lemma_ceil_div(a: int, b: int)
    requires
        a >= 0,
        b > 0,
    ensures
        is_ceil_div(a, b, (a + b - 1) / b),
        (a + b - 1) / b >= 0,
{
    let q = (a + b - 1) / b;
    let r = (a + b - 1) % b;
    assert((a + b - 1) == q * b + r && 0 <= r < b) by (nonlinear_arith)
        requires b > 0, q == (a + b - 1) / b, r == (a + b - 1) % b;
    assert(q >= 0) by (nonlinear_arith)
        requires b > 0, a >= 0, q == (a + b - 1) / b;
}

/// The ceiling of a quotient is unique.
pub proof fn lemma_ceil_div_unique(a: int, b: int, q1: int, q2: int)
    requires
        b > 0,
        is_ceil_div(a, b, q1),
        is_ceil_div(a, b, q2),
    ensures
        q1 == q2,
{
    if q1 < q2 {
        assert(q1 * b + b <= q2 * b) by (nonlinear_arith)
            requires q1 < q2, b > 0;
    } else if q2 < q1 {
        assert(q2 * b + b <= q1 * b) by (nonlinear_arith)
            requires q2 < q1, b > 0;
    }
}

proof fn lemma_align_up(v: int, align: int, q: int)
    requires
        v >= 0,
        align > 0,
        is_ceil_div(v, align, q),
    ensures
        is_align_up(v, align, q * align),
{
    assert((q * align) % align == 0) by (nonlinear_arith)
        requires align > 0;
}

/// `a / b` rounded up.
pub fn ceil_divu8(a: u8, b: u8) -> (q: u8)
    requires
        b > 0,
        a + b <= u8::MAX,
    ensures
        is_ceil_div(a as int, b as int, q as int),
{
    proof { lemma_ceil_div(a as int, b as int); }
    (a + b - 1) / b
}

/// The smallest multiple of `align` that is at least `v`.
pub fn align_upu8(v: u8, align: u8) -> (r: u8)
    requires
        align > 0,
        v + align <= u8::MAX,
        (v as int + align as int - 1) / (align as int) * (align as int) <= u8::MAX,
    ensures
        is_align_up(v as int, align as int, r as int),
{
    let q = ceil_divu8(v, align);
    proof {
        lemma_align_up(v as int, align as int, q as int);
    }
    q * align
}

/// `a / b` rounded up.
pub fn ceil_divu16(a: u16, b: u16) -> (q: u16)
    requires
        b > 0,
        a + b <= u16::MAX,
    ensures
        is_ceil_div(a as int, b as int, q as int),
{
    proof { lemma_ceil_div(a as int, b as int); }
    (a + b - 1) / b
}

/// The smallest multiple of `align` that is at least `v`.
pub fn align_upu16(v: u16, align: u16) -> (r: u16)
    requires
        align > 0,
        v + align <= u16::MAX,
        (v as int + align as int - 1) / (align as int) * (align as int) <= u16::MAX,
    ensures
        is_align_up(v as int, align as int, r as int),
{
    let q = ceil_divu16(v, align);
    proof {
        lemma_align_up(v as int, align as int, q as int);
    }
    q * align
}

/// `a / b` rounded up.
pub fn ceil_divu32(a: u32, b: u32) -> (q: u32)
    requires
        b > 0,
        a + b <= u32::MAX,
    ensures
        is_ceil_div(a as int, b as int, q as int),
{
    proof { lemma_ceil_div(a as int, b as int); }
    (a + b - 1) / b
}

/// The smallest multiple of `align` that is at least `v`.
pub fn align_upu32(v: u32, align: u32) -> (r: u32)
    requires
        align > 0,
        v + align <= u32::MAX,
        (v as int + align as int - 1) / (align as int) * (align as int) <= u32::MAX,
    ensures
        is_align_up(v as int, align as int, r as int),
{
    let q = ceil_divu32(v, align);
    proof {
        lemma_align_up(v as int, align as int, q as int);
    }
    q * align
}

/// `a / b` rounded up.
pub fn ceil_divu64(a: u64, b: u64) -> (q: u64)
    requires
        b > 0,
        a + b <= u64::MAX,
    ensures
        is_ceil_div(a as int, b as int, q as int),
{
    proof { lemma_ceil_div(a as int, b as int); }
    (a + b - 1) / b
}

/// The smallest multiple of `align` that is at least `v`.
pub fn align_upu64(v: u64, align: u64) -> (r: u64)
    requires
        align > 0,
        v + align <= u64::MAX,
        (v as int + align as int - 1) / (align as int) * (align as int) <= u64::MAX,
    ensures
        is_align_up(v as int, align as int, r as int),
{
    let q = ceil_divu64(v, align);
    proof {
        lemma_align_up(v as int, align as int, q as int);
    }
    q * align
}

/// `a / b` rounded up.
pub fn ceil_divu128(a: u128, b: u128) -> (q: u128)
    requires
        b > 0,
        a + b <= u128::MAX,
    ensures
        is_ceil_div(a as int, b as int, q as int),
{
    proof { lemma_ceil_div(a as int, b as int); }
    (a + b - 1) / b
}

/// The smallest multiple of `align` that is at least `v`.
pub fn align_upu128(v: u128, align: u128) -> (r: u128)
    requires
        align > 0,
        v + align <= u128::MAX,
        (v as int + align as int - 1) / (align as int) * (align as int) <= u128::MAX,
    ensures
        is_align_up(v as int, align as int, r as int),
{
    let q = ceil_divu128(v, align);
    proof {
        lemma_align_up(v as int, align as int, q as int);
    }
    q * align
}

/// `a / b` rounded up.
pub fn ceil_divusize(a: usize, b: usize) -> (q: usize)
    requires
        b > 0,
        a + b <= usize::MAX,
    ensures
        is_ceil_div(a as int, b as int, q as int),
{
    proof { lemma_ceil_div(a as int, b as int); }
    (a + b - 1) / b
}

/// The smallest multiple of `align` that is at least `v`.
pub fn align_upusize(v: usize, align: usize) -> (r: usize)
    requires
        align > 0,
        v + align <= usize::MAX,
        (v as int + align as int - 1) / (align as int) * (align as int) <= usize::MAX,
    ensures
        is_align_up(v as int, align as int, r as int),
{
    let q = ceil_divusize(v, align);
    proof {
        lemma_align_up(v as int, align as int, q as int);
    }
    q * align
}

/// `r` is the base-two logarithm of `v`, rounded down.
pub open spec fn is_floor_log2(v: int, r: int) -> bool {
    r >= 0 && pow2(r as nat) <= v < pow2((r + 1) as nat)
}

/// `r` is the base-two logarithm of `v`, rounded up.
pub open spec fn is_ceil_log2(v: int, r: int) -> bool {
    r >= 0 && v <= pow2(r as nat) && (r == 0 || pow2((r - 1) as nat) < v)
}

/// The number of significant bits of a non-zero value bounds it between
/// two consecutive powers of two.
proof fn lemma_leading_zeros_log2(i: u64)
    requires
        i > 0,
    ensures
        0 <= u64_leading_zeros(i) < 64,
        is_floor_log2(i as int, 63 - u64_leading_zeros(i)),
    decreases i,
{
    reveal(u64_leading_zeros);
    axiom_u64_leading_zeros(i);
    if i == 1 {
        assert(u64_leading_zeros(0) == 64);
        assert(u64_leading_zeros(1) == 63);
        lemma_pow2_unfold(1);
        assert(pow2(0) == 1) by { vstd::arithmetic::power2::lemma2_to64(); }
    } else {
        lemma_leading_zeros_log2(i / 2);
        let k = 63 - u64_leading_zeros(i / 2);
        assert(u64_leading_zeros(i) == u64_leading_zeros(i / 2) - 1);
        lemma_pow2_unfold((k + 1) as nat);
        lemma_pow2_unfold((k + 2) as nat);
    }
}

/// Powers of two are strictly increasing, so a floor logarithm is unique.
pub proof fn lemma_floor_log2_unique(v: int, r1: int, r2: int)
    requires
        is_floor_log2(v, r1),
        is_floor_log2(v, r2),
    ensures
        r1 == r2,
{
    if r1 < r2 {
        if r1 + 1 < r2 {
            lemma_pow2_strictly_increases((r1 + 1) as nat, r2 as nat);
        }
    } else if r2 < r1 {
        if r2 + 1 < r1 {
            lemma_pow2_strictly_increases((r2 + 1) as nat, r1 as nat);
        }
    }
}

/// Base-two logarithm of `value`, rounded down.
pub fn log2u64(value: u64) -> (r: u32)
    requires
        value != 0,
    ensures
        is_floor_log2(value as int, r as int),
{
    proof { lemma_leading_zeros_log2(value); }
    63 - value.leading_zeros()
}

/// Smearing the highest set bit of `x` downwards yields a mask of all bits
/// up to and including it.
proof fn lemma_smear(x: u64, j: u64)
    requires
        1 <= j <= 63,
        (x >> (j - 1) as u64) & 1 == 1,
        x >> j == 0,
    ensures
        ({
            let a = x | (x >> 1u64);
            let b = a | (a >> 2u64);
            let c = b | (b >> 4u64);
            let d = c | (c >> 8u64);
            let e = d | (d >> 16u64);
            let f = e | (e >> 32u64);
            f == (1u64 << j) - 1
        }),
{
    assert({
        let a = x | (x >> 1u64);
        let b = a | (a >> 2u64);
        let c = b | (b >> 4u64);
        let d = c | (c >> 8u64);
        let e = d | (d >> 16u64);
        let f = e | (e >> 32u64);
        f == (1u64 << j) - 1
    }) by (bit_vector)
        requires
            1 <= j <= 63,
            (x >> ((j - 1) as u64)) & 1 == 1,
            x >> j == 0;
}

/// The smallest power of two that is at least `value`.
pub fn next_pow2u64(value: u64) -> (r: u64)
    requires
        1 <= value <= 0x8000_0000_0000_0000,
    ensures
        is_power_of_two(r as int),
        value <= r < 2 * value,
{
    let ghost x = (value - 1) as u64;
    let mut value = value;
    value -= 1;
    value |= value >> 1;
    value |= value >> 2;
    value |= value >> 4;
    value |= value >> 8;
    value |= value >> 16;
    value |= value >> 32;
    proof {
        if x == 0 {
            assert(value == 0) by (bit_vector)
                requires
                    value == ({
                        let a = x | (x >> 1u64);
                        let b = a | (a >> 2u64);
                        let c = b | (b >> 4u64);
                        let d = c | (c >> 8u64);
                        let e = d | (d >> 16u64);
                        e | (e >> 32u64)
                    }),
                    x == 0;
            assert(pow2(0) == 1) by { vstd::arithmetic::power2::lemma2_to64(); }
        } else {
            lemma_leading_zeros_log2(x);
            axiom_u64_leading_zeros(x);
            let n = u64_leading_zeros(x);
            let j = (64 - n) as u64;
            assert(j <= 63) by {
                if n == 0 {
                    lemma_pow2_strictly_increases(63, 64);
                    assert(pow2(63) == 0x8000_0000_0000_0000) by {
                        vstd::arithmetic::power2::lemma2_to64_rest();
                    }
                }
            }
            let y = x >> (j - 1) as u64;
            assert(y & 1 != 0);
            assert(y & 1 == 1) by (bit_vector)
                requires y & 1 != 0;
            assert(x >> j == 0);
            lemma_smear(x, j);
            vstd::bits::lemma_u64_pow2_no_overflow(j as nat);
            lemma_u64_shl_is_mul(1, j);
            assert(value + 1 == pow2(j as nat));
            lemma_pow2_unfold(j as nat);
        }
    }
    value + 1
}

/// Base-two logarithm of `value`, rounded up.
pub fn ceil_log2u64(value: u64) -> (r: u32)
    requires
        1 <= value <= 0x8000_0000_0000_0000,
    ensures
        is_ceil_log2(value as int, r as int),
{
    if value == 1 {
        proof { assert(pow2(0) == 1) by { vstd::arithmetic::power2::lemma2_to64(); } }
        0
    } else {
        let p = next_pow2u64(value);
        let r = log2u64(p);
        proof {
            let k = choose|k: nat| pow2(k) == p as int;
            lemma_pow2_unfold(k + 1);
            lemma_floor_log2_unique(p as int, r as int, k as int);
            if k > 0 {
                lemma_pow2_unfold(k);
            } else {
                assert(pow2(0) == 1) by { vstd::arithmetic::power2::lemma2_to64(); }
            }
        }
        r
    }
}

/// Rounding division and alignment, as a method on each unsigned integer type.
pub trait CeilDiv: Sized {
    /// The inputs on which the rounding division does not overflow.
    spec fn ceil_div_ok(self, rhs: Self) -> bool;
    /// The inputs on which the alignment does not overflow.
    spec fn align_up_ok(self, align: Self) -> bool;
    /// `q` is the rounded-up quotient of `self` by `rhs`.
    spec fn is_ceil_div_of(self, rhs: Self, q: Self) -> bool;
    /// `r` is `self` rounded up to a multiple of `align`.
    spec fn is_align_up_of(self, align: Self, r: Self) -> bool;

    fn ceil_div(self, rhs: Self) -> (q: Self)
        requires
            self.ceil_div_ok(rhs),
        ensures
            self.is_ceil_div_of(rhs, q),
    ;

    fn align_up(self, align: Self) -> (r: Self)
        requires
            self.align_up_ok(align),
        ensures
            self.is_align_up_of(align, r),
    ;
}

impl CeilDiv for u8 {
    open spec fn ceil_div_ok(self, rhs: Self) -> bool {
        rhs > 0 && self + rhs <= u8::MAX
    }

    open spec fn align_up_ok(self, align: Self) -> bool {
        align > 0 && self + align <= u8::MAX
            && (self as int + align as int - 1) / (align as int) * (align as int) <= u8::MAX
    }

    open spec fn is_ceil_div_of(self, rhs: Self, q: Self) -> bool {
        is_ceil_div(self as int, rhs as int, q as int)
    }

    open spec fn is_align_up_of(self, align: Self, r: Self) -> bool {
        is_align_up(self as int, align as int, r as int)
    }

    fn ceil_div(self, rhs: Self) -> (q: Self) {
        ceil_divu8(self, rhs)
    }

    fn align_up(self, align: Self) -> (r: Self) {
        align_upu8(self, align)
    }
}

impl CeilDiv for u16 {
    open spec fn ceil_div_ok(self, rhs: Self) -> bool {
        rhs > 0 && self + rhs <= u16::MAX
    }

    open spec fn align_up_ok(self, align: Self) -> bool {
        align > 0 && self + align <= u16::MAX
            && (self as int + align as int - 1) / (align as int) * (align as int) <= u16::MAX
    }

    open spec fn is_ceil_div_of(self, rhs: Self, q: Self) -> bool {
        is_ceil_div(self as int, rhs as int, q as int)
    }

    open spec fn is_align_up_of(self, align: Self, r: Self) -> bool {
        is_align_up(self as int, align as int, r as int)
    }

    fn ceil_div(self, rhs: Self) -> (q: Self) {
        ceil_divu16(self, rhs)
    }

    fn align_up(self, align: Self) -> (r: Self) {
        align_upu16(self, align)
    }
}

impl CeilDiv for u32 {
    open spec fn ceil_div_ok(self, rhs: Self) -> bool {
        rhs > 0 && self + rhs <= u32::MAX
    }

    open spec fn align_up_ok(self, align: Self) -> bool {
        align > 0 && self + align <= u32::MAX
            && (self as int + align as int - 1) / (align as int) * (align as int) <= u32::MAX
    }

    open spec fn is_ceil_div_of(self, rhs: Self, q: Self) -> bool {
        is_ceil_div(self as int, rhs as int, q as int)
    }

    open spec fn is_align_up_of(self, align: Self, r: Self) -> bool {
        is_align_up(self as int, align as int, r as int)
    }

    fn ceil_div(self, rhs: Self) -> (q: Self) {
        ceil_divu32(self, rhs)
    }

    fn align_up(self, align: Self) -> (r: Self) {
        align_upu32(self, align)
    }
}

impl CeilDiv for u64 {
    open spec fn ceil_div_ok(self, rhs: Self) -> bool {
        rhs > 0 && self + rhs <= u64::MAX
    }

    open spec fn align_up_ok(self, align: Self) -> bool {
        align > 0 && self + align <= u64::MAX
            && (self as int + align as int - 1) / (align as int) * (align as int) <= u64::MAX
    }

    open spec fn is_ceil_div_of(self, rhs: Self, q: Self) -> bool {
        is_ceil_div(self as int, rhs as int, q as int)
    }

    open spec fn is_align_up_of(self, align: Self, r: Self) -> bool {
        is_align_up(self as int, align as int, r as int)
    }

    fn ceil_div(self, rhs: Self) -> (q: Self) {
        ceil_divu64(self, rhs)
    }

    fn align_up(self, align: Self) -> (r: Self) {
        align_upu64(self, align)
    }
}

impl CeilDiv for u128 {
    open spec fn ceil_div_ok(self, rhs: Self) -> bool {
        rhs > 0 && self + rhs <= u128::MAX
    }

    open spec fn align_up_ok(self, align: Self) -> bool {
        align > 0 && self + align <= u128::MAX
            && (self as int + align as int - 1) / (align as int) * (align as int) <= u128::MAX
    }

    open spec fn is_ceil_div_of(self, rhs: Self, q: Self) -> bool {
        is_ceil_div(self as int, rhs as int, q as int)
    }

    open spec fn is_align_up_of(self, align: Self, r: Self) -> bool {
        is_align_up(self as int, align as int, r as int)
    }

    fn ceil_div(self, rhs: Self) -> (q: Self) {
        ceil_divu128(self, rhs)
    }

    fn align_up(self, align: Self) -> (r: Self) {
        align_upu128(self, align)
    }
}

impl CeilDiv for usize {
    open spec fn ceil_div_ok(self, rhs: Self) -> bool {
        rhs > 0 && self + rhs <= usize::MAX
    }

    open spec fn align_up_ok(self, align: Self) -> bool {
        align > 0 && self + align <= usize::MAX
            && (self as int + align as int - 1) / (align as int) * (align as int) <= usize::MAX
    }

    open spec fn is_ceil_div_of(self, rhs: Self, q: Self) -> bool {
        is_ceil_div(self as int, rhs as int, q as int)
    }

    open spec fn is_align_up_of(self, align: Self, r: Self) -> bool {
        is_align_up(self as int, align as int, r as int)
    }

    fn ceil_div(self, rhs: Self) -> (q: Self) {
        ceil_divusize(self, rhs)
    }

    fn align_up(self, align: Self) -> (r: Self) {
        align_upusize(self, align)
    }
}

/// Splitting an integer into its high and low halves, and joining them back.
pub trait IntSplit: Sized {
    type Split;

    /// The halves of `self`, high half first.
    spec fn spec_split(self) -> (Self::Split, Self::Split);
    /// The integer whose halves are `h` and `l`.
    spec fn spec_join(h: Self::Split, l: Self::Split) -> Self;

    fn split(self) -> (r: (Self::Split, Self::Split))
        ensures
            r == self.spec_split(),
    ;

    fn join(h: Self::Split, l: Self::Split) -> (r: Self)
        ensures
            r == Self::spec_join(h, l),
    ;
}

impl IntSplit for u128 {
    type Split = u64;

    open spec fn spec_split(self) -> (u64, u64) {
        ((self as int / 0x1_0000_0000_0000_0000) as u64, (self as int % 0x1_0000_0000_0000_0000) as u64)
    }

    open spec fn spec_join(h: u64, l: u64) -> u128 {
        (h as int * 0x1_0000_0000_0000_0000 + l as int) as u128
    }

    fn split(self) -> (r: (u64, u64)) {
        let h = (self >> 64u32) as u64;
        let l = (self & 0xffff_ffff_ffff_ffffu128) as u64;
        proof {
            let x = self;
            assert(h as int == x as int / 0x1_0000_0000_0000_0000 && l as int == x as int % 0x1_0000_0000_0000_0000) by (bit_vector)
                requires
                    h == (x >> 64u32) as u64,
                    l == (x & 0xffff_ffff_ffff_ffffu128) as u64;
        }
        (h, l)
    }

    fn join(h: u64, l: u64) -> (r: u128) {
        let r = ((h as u128) << 64u32) | (l as u128);
        proof {
            assert(r as int == h as int * 0x1_0000_0000_0000_0000 + l as int) by (bit_vector)
                requires
                    r == ((h as u128) << 64u32) | (l as u128);
        }
        r
    }
}

/// Joining the halves of an integer gives the integer back, and splitting a
/// joined integer gives back its halves.
pub proof fn lemma_split_join_u128(x: u128, h: u64, l: u64)
    ensures
        u128::spec_join(x.spec_split().0, x.spec_split().1) == x,
        u128::spec_join(h, l).spec_split() == (h, l),
{
    assert(h as int * 0x1_0000_0000_0000_0000 + l as int <= u128::MAX) by (nonlinear_arith)
        requires h <= u64::MAX, l <= u64::MAX;
    assert((h as int * 0x1_0000_0000_0000_0000 + l as int) / 0x1_0000_0000_0000_0000 == h as int) by (nonlinear_arith)
        requires 0 <= l < 0x1_0000_0000_0000_0000;
    assert((h as int * 0x1_0000_0000_0000_0000 + l as int) % 0x1_0000_0000_0000_0000 == l as int) by (nonlinear_arith)
        requires 0 <= l < 0x1_0000_0000_0000_0000;
    assert((x as int / 0x1_0000_0000_0000_0000) * 0x1_0000_0000_0000_0000 + x as int % 0x1_0000_0000_0000_0000 == x as int) by (nonlinear_arith);
    assert(x as int / 0x1_0000_0000_0000_0000 <= u64::MAX) by (nonlinear_arith)
        requires 0 <= x <= u128::MAX;
}

impl IntSplit for u64 {
    type Split = u32;

    open spec fn spec_split(self) -> (u32, u32) {
        ((self as int / 0x1_0000_0000) as u32, (self as int % 0x1_0000_0000) as u32)
    }

    open spec fn spec_join(h: u32, l: u32) -> u64 {
        (h as int * 0x1_0000_0000 + l as int) as u64
    }

    fn split(self) -> (r: (u32, u32)) {
        let h = (self >> 32u32) as u32;
        let l = (self & 0xffff_ffffu64) as u32;
        proof {
            let x = self;
            assert(h as int == x as int / 0x1_0000_0000 && l as int == x as int % 0x1_0000_0000) by (bit_vector)
                requires
                    h == (x >> 32u32) as u32,
                    l == (x & 0xffff_ffffu64) as u32;
        }
        (h, l)
    }

    fn join(h: u32, l: u32) -> (r: u64) {
        let r = ((h as u64) << 32u32) | (l as u64);
        proof {
            assert(r as int == h as int * 0x1_0000_0000 + l as int) by (bit_vector)
                requires
                    r == ((h as u64) << 32u32) | (l as u64);
        }
        r
    }
}

/// Joining the halves of an integer gives the integer back, and splitting a
/// joined integer gives back its halves.
pub proof fn lemma_split_join_u64(x: u64, h: u32, l: u32)
    ensures
        u64::spec_join(x.spec_split().0, x.spec_split().1) == x,
        u64::spec_join(h, l).spec_split() == (h, l),
{
    assert(h as int * 0x1_0000_0000 + l as int <= u64::MAX) by (nonlinear_arith)
        requires h <= u32::MAX, l <= u32::MAX;
    assert((h as int * 0x1_0000_0000 + l as int) / 0x1_0000_0000 == h as int) by (nonlinear_arith)
        requires 0 <= l < 0x1_0000_0000;
    assert((h as int * 0x1_0000_0000 + l as int) % 0x1_0000_0000 == l as int) by (nonlinear_arith)
        requires 0 <= l < 0x1_0000_0000;
    assert((x as int / 0x1_0000_0000) * 0x1_0000_0000 + x as int % 0x1_0000_0000 == x as int) by (nonlinear_arith);
    assert(x as int / 0x1_0000_0000 <= u32::MAX) by (nonlinear_arith)
        requires 0 <= x <= u64::MAX;
}

impl IntSplit for u32 {
    type Split = u16;

    open spec fn spec_split(self) -> (u16, u16) {
        ((self as int / 0x1_0000) as u16, (self as int % 0x1_0000) as u16)
    }

    open spec fn spec_join(h: u16, l: u16) -> u32 {
        (h as int * 0x1_0000 + l as int) as u32
    }

    fn split(self) -> (r: (u16, u16)) {
        let h = (self >> 16u32) as u16;
        let l = (self & 0xffffu32) as u16;
        proof {
            let x = self;
            assert(h as int == x as int / 0x1_0000 && l as int == x as int % 0x1_0000) by (bit_vector)
                requires
                    h == (x >> 16u32) as u16,
                    l == (x & 0xffffu32) as u16;
        }
        (h, l)
    }

    fn join(h: u16, l: u16) -> (r: u32) {
        let r = ((h as u32) << 16u32) | (l as u32);
        proof {
            assert(r as int == h as int * 0x1_0000 + l as int) by (bit_vector)
                requires
                    r == ((h as u32) << 16u32) | (l as u32);
        }
        r
    }
}

/// Joining the halves of an integer gives the integer back, and splitting a
/// joined integer gives back its halves.
pub proof fn lemma_split_join_u32(x: u32, h: u16, l: u16)
    ensures
        u32::spec_join(x.spec_split().0, x.spec_split().1) == x,
        u32::spec_join(h, l).spec_split() == (h, l),
{
    assert(h as int * 0x1_0000 + l as int <= u32::MAX) by (nonlinear_arith)
        requires h <= u16::MAX, l <= u16::MAX;
    assert((h as int * 0x1_0000 + l as int) / 0x1_0000 == h as int) by (nonlinear_arith)
        requires 0 <= l < 0x1_0000;
    assert((h as int * 0x1_0000 + l as int) % 0x1_0000 == l as int) by (nonlinear_arith)
        requires 0 <= l < 0x1_0000;
    assert((x as int / 0x1_0000) * 0x1_0000 + x as int % 0x1_0000 == x as int) by (nonlinear_arith);
    assert(x as int / 0x1_0000 <= u16::MAX) by (nonlinear_arith)
        requires 0 <= x <= u32::MAX;
}

impl IntSplit for u16 {
    type Split = u8;

    open spec fn spec_split(self) -> (u8, u8) {
        ((self as int / 0x100) as u8, (self as int % 0x100) as u8)
    }

    open spec fn spec_join(h: u8, l: u8) -> u16 {
        (h as int * 0x100 + l as int) as u16
    }

    fn split(self) -> (r: (u8, u8)) {
        let h = (self >> 8u32) as u8;
        let l = (self & 0xffu16) as u8;
        proof {
            let x = self;
            assert(h as int == x as int / 0x100 && l as int == x as int % 0x100) by (bit_vector)
                requires
                    h == (x >> 8u32) as u8,
                    l == (x & 0xffu16) as u8;
        }
        (h, l)
    }

    fn join(h: u8, l: u8) -> (r: u16) {
        let r = ((h as u16) << 8u32) | (l as u16);
        proof {
            assert(r as int == h as int * 0x100 + l as int) by (bit_vector)
                requires
                    r == ((h as u16) << 8u32) | (l as u16);
        }
        r
    }
}

/// Joining the halves of an integer gives the integer back, and splitting a
/// joined integer gives back its halves.
pub proof fn lemma_split_join_u16(x: u16, h: u8, l: u8)
    ensures
        u16::spec_join(x.spec_split().0, x.spec_split().1) == x,
        u16::spec_join(h, l).spec_split() == (h, l),
{
    assert(h as int * 0x100 + l as int <= u16::MAX) by (nonlinear_arith)
        requires h <= u8::MAX, l <= u8::MAX;
    assert((h as int * 0x100 + l as int) / 0x100 == h as int) by (nonlinear_arith)
        requires 0 <= l < 0x100;
    assert((h as int * 0x100 + l as int) % 0x100 == l as int) by (nonlinear_arith)
        requires 0 <= l < 0x100;
    assert((x as int / 0x100) * 0x100 + x as int % 0x100 == x as int) by (nonlinear_arith);
    assert(x as int / 0x100 <= u8::MAX) by (nonlinear_arith)
        requires 0 <= x <= u16::MAX;
}


/// There is one power of two in `[v, 2v)`, so the result of `next_pow2u64`
/// is the only value that its contract allows; in particular a power of two
/// is its own next power of two.
pub proof fn lemma_pow2_in_range_unique(v: int, p: int, q: int)
    requires
        v >= 1,
        is_power_of_two(p),
        is_power_of_two(q),
        v <= p < 2 * v,
        v <= q < 2 * v,
    ensures
        p == q,
{
    let i = choose|k: nat| pow2(k) == p;
    let j = choose|k: nat| pow2(k) == q;
    if i < j {
        lemma_pow2_strictly_increases(i, j);
        lemma_pow2_unfold(j);
        if i + 1 < j {
            lemma_pow2_strictly_increases(i, (j - 1) as nat);
        }
    } else if j < i {
        lemma_pow2_strictly_increases(j, i);
        lemma_pow2_unfold(i);
        if j + 1 < i {
            lemma_pow2_strictly_increases(j, (i - 1) as nat);
        }
    }
}

} // verus!
