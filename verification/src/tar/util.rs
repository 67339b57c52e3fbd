//! Parsing helpers for the fields of tar headers.
use vstd::prelude::*;

verus! {

/// The error of a field that holds a byte that is not an octal digit.
#[derive(Debug, Clone, Copy, PartialEq, Eq)]
pub struct InvalidOctalError;

/// `b` is one of the ASCII digits `0` to `7`.
pub open spec fn is_octal_digit(b: u8) -> bool {
    0x30 <= b <= 0x37
}

/// Every byte of `s` is an octal digit.
pub open spec fn all_octal(s: Seq<u8>) -> bool {
    forall|i: int| 0 <= i < s.len() ==> #[trigger] is_octal_digit(s[i])
}

/// The number that the octal digits `s` write, most significant first.
pub open spec fn octal_value(s: Seq<u8>) -> int
    decreases s.len(),
{
    if s.len() == 0 {
        0
    } else {
        octal_value(s.drop_last()) * 8 + (s.last() - 0x30)
    }
}

/// The value of the digit `b`, or zero for a byte that is not a digit.
pub open spec fn digit_or_zero(b: u8) -> int {
    if is_octal_digit(b) {
        b - 0x30
    } else {
        0
    }
}

/// Reading the octal digits `s` one by one never exceeds `u64::MAX`, up to
/// the first byte that is not a digit.
pub open spec fn octal_fits(s: Seq<u8>) -> bool {
    forall|i: int|
        0 <= i < s.len() && all_octal(#[trigger] s.subrange(0, i)) ==>
            octal_value(s.subrange(0, i)) * 8 + digit_or_zero(s[i]) <= u64::MAX
}

/// The number of bytes of `s` before its first zero byte, or its length.
pub open spec fn trim_len(s: Seq<u8>) -> int
    decreases s.len(),
{
    if s.len() == 0 {
        0
    } else if s[0] == 0 {
        0
    } else {
        1 + trim_len(s.drop_first())
    }
}

/// The bytes of `s` before its first zero byte.
pub open spec fn spec_trim_nulls(s: Seq<u8>) -> Seq<u8> {
    s.subrange(0, trim_len(s))
}

/// The number of bytes before the first zero is within the sequence, no
/// byte before it is zero, and the byte at it is zero when it is within.
pub proof fn lemma_trim_len(s: Seq<u8>)
    ensures
        0 <= trim_len(s) <= s.len(),
        forall|i: int| 0 <= i < trim_len(s) ==> s[i] != 0,
        trim_len(s) < s.len() ==> s[trim_len(s)] == 0,
    decreases s.len(),
{
    if s.len() > 0 && s[0] != 0 {
        lemma_trim_len(s.drop_first());
        assert forall|i: int| 0 <= i < trim_len(s) implies s[i] != 0 by {
            if i > 0 {
                assert(s[i] == s.drop_first()[i - 1]);
            }
        }
    }
}

/// The number of bytes before the first zero is determined by the positions of zeros.
proof fn lemma_trim_len_unique(s: Seq<u8>, n: int)
    requires
        0 <= n <= s.len(),
        forall|i: int| 0 <= i < n ==> s[i] != 0,
        n < s.len() ==> s[n] == 0,
    ensures
        trim_len(s) == n,
    decreases s.len(),
{
    if s.len() > 0 && s[0] != 0 {
        lemma_trim_len_unique(s.drop_first(), n - 1);
    }
}

/// Eight to the power `n`.
pub open spec fn pow8(n: nat) -> int
    decreases n,
{
    if n == 0 {
        1
    } else {
        8 * pow8((n - 1) as nat)
    }
}

/// Powers of eight grow with the exponent.
pub proof fn lemma_pow8_increases(a: nat, b: nat)
    requires
        a <= b,
    ensures
        0 < pow8(a) <= pow8(b),
    decreases b,
{
    if b > 0 {
        if a < b {
            lemma_pow8_increases(a, (b - 1) as nat);
        } else {
            lemma_pow8_increases((a - 1) as nat, (b - 1) as nat);
        }
    }
}

/// A value of `n` octal digits is below `8^n`.
pub proof fn lemma_octal_bound(s: Seq<u8>)
    requires
        all_octal(s),
    ensures
        0 <= octal_value(s) < pow8(s.len()),
    decreases s.len(),
{
    if s.len() > 0 {
        assert(all_octal(s.drop_last())) by {
            assert forall|i: int| 0 <= i < s.drop_last().len() implies #[trigger] is_octal_digit(s.drop_last()[i]) by {
                assert(is_octal_digit(s[i]));
            }
        }
        lemma_octal_bound(s.drop_last());
        assert(is_octal_digit(s[s.len() - 1]));
        let p = pow8((s.len() - 1) as nat);
        let v = octal_value(s.drop_last());
        assert(v * 8 + 7 < p * 8) by (nonlinear_arith)
            requires v < p, 0 <= v;
    }
}

/// Octal fields of at most 21 digits are read without overflow.
pub proof fn lemma_short_octal_fits(s: Seq<u8>)
    requires
        s.len() <= 21,
    ensures
        octal_fits(s),
{
    assert(pow8(20) == 0x1000000000000000) by {
        reveal_with_fuel(pow8, 21);
    }
    assert forall|i: int| 0 <= i < s.len() && all_octal(#[trigger] s.subrange(0, i)) implies
        octal_value(s.subrange(0, i)) * 8 + digit_or_zero(s[i]) <= u64::MAX by {
        lemma_octal_bound(s.subrange(0, i));
        lemma_pow8_increases(i as nat, 20);
    }
}

/// The number that the octal digits `o` write, or an error if `o` holds a
/// byte that is not an octal digit.
pub fn read_ascii_octal(o: &[u8]) -> (r: Result<u64, InvalidOctalError>)
    requires
        octal_fits(o@),
    ensures
        r is Ok <==> all_octal(o@),
        r is Ok ==> r->Ok_0 == octal_value(o@),
        r is Err ==> r == Err::<u64, InvalidOctalError>(InvalidOctalError),
{
    let mut res: u64 = 0;
    let mut i: usize = 0;
    while i < o.len()
        invariant
            0 <= i <= o@.len(),
            octal_fits(o@),
            all_octal(o@.subrange(0, i as int)),
            res == octal_value(o@.subrange(0, i as int)),
        decreases o@.len() - i,
    {
        let b = o[i];
        assert(octal_value(o@.subrange(0, i as int)) * 8 + digit_or_zero(o@[i as int]) <= u64::MAX);
        res = res * 8;
        if 0x30 <= b && b <= 0x37 {
            res = res + (b - 0x30) as u64;
            proof {
                let next = o@.subrange(0, i + 1);
                assert(next.drop_last() =~= o@.subrange(0, i as int));
                assert(all_octal(next)) by {
                    assert forall|k: int| 0 <= k < next.len() implies #[trigger] is_octal_digit(next[k]) by {
                        if k < i {
                            assert(next[k] == o@.subrange(0, i as int)[k]);
                        }
                    }
                }
            }
        } else {
            proof {
                assert(!all_octal(o@)) by {
                    assert(!is_octal_digit(o@[i as int]));
                }
            }
            return Err(InvalidOctalError);
        }
        i = i + 1;
    }
    proof {
        assert(o@.subrange(0, o@.len() as int) =~= o@);
    }
    Ok(res)
}

/// The bytes of `b` before its first zero byte.
pub fn trim_nulls(b: &[u8]) -> (r: &[u8])
    ensures
        r@ == spec_trim_nulls(b@),
{
    let mut idx: usize = 0;
    while idx < b.len() && b[idx] != 0
        invariant
            0 <= idx <= b@.len(),
            forall|i: int| 0 <= i < idx ==> b@[i] != 0,
        decreases b@.len() - idx,
    {
        idx = idx + 1;
    }
    proof {
        lemma_trim_len_unique(b@, idx as int);
    }
    vstd::slice::slice_subrange(b, 0, idx)
}

/// The number that the octal digits of `o` before its first zero byte
/// write, or an error if one of them is not an octal digit.
pub fn read_ascii_octal_trim(o: &[u8]) -> (r: Result<u64, InvalidOctalError>)
    requires
        octal_fits(spec_trim_nulls(o@)),
    ensures
        r is Ok <==> all_octal(spec_trim_nulls(o@)),
        r is Ok ==> r->Ok_0 == octal_value(spec_trim_nulls(o@)),
{
    read_ascii_octal(trim_nulls(o))
}

} // verus!
