//! Zero-terminated UTF-8 strings stored in byte buffers.
use vstd::prelude::*;
use vstd::utf8::valid_utf8;
use vstd::string::StringSliceAdditionalSpecFns;

use crate::tar::util::{lemma_trim_len, spec_trim_nulls, trim_len};

verus! {

#[verifier::external_type_specification]
#[verifier::external_body]
pub struct ExUtf8Error(core::str::Utf8Error);

/// Decodes `v` as UTF-8.
///
/// Calls `core::str::from_utf8`. Its documentation states that it succeeds
/// exactly when `v` is valid UTF-8, and that the string it returns is made of
/// the bytes of `v`; this contract claims those two facts and nothing of the
/// error's contents.
#[verifier::external_body]
pub fn from_utf8(v: &[u8]) -> (r: Result<&str, core::str::Utf8Error>)
    ensures
        r is Ok <==> valid_utf8(v@),
        r is Ok ==> r->Ok_0.spec_bytes() == v@,
{
    core::str::from_utf8(v)
}

/// The error of reading a zero-terminated string.
pub enum BoundedError {
    Utf8Error(core::str::Utf8Error),
    BoundError,
}

/// The index of the first zero byte of `s`, unless more than `max + 1` bytes
/// come before it.
pub open spec fn spec_strlen_bounded(s: Seq<u8>, max: int) -> Option<int> {
    if trim_len(s) > max + 1 {
        None
    } else {
        Some(trim_len(s))
    }
}

/// A reader of `s` that stops at its first zero byte or past `max + 1`
/// bytes stays within `s`.
pub open spec fn strlen_in_bounds(s: Seq<u8>, max: int) -> bool {
    trim_len(s) < s.len() || max + 1 < s.len()
}

/// The length of the zero-terminated string at the start of `s`, unless it
/// is longer than `max + 1` bytes.
pub fn strlen_bounded(s: &[u8], max: usize) -> (r: Option<usize>)
    requires
        max <= isize::MAX,
        strlen_in_bounds(s@, max as int),
    ensures
        r is Some <==> spec_strlen_bounded(s@, max as int) is Some,
        r is Some ==> r->Some_0 == spec_strlen_bounded(s@, max as int)->Some_0,
{
    proof { lemma_trim_len(s@); }
    let mut cur: usize = 0;
    while s[cur] != 0
        invariant
            0 <= cur < s@.len(),
            cur <= max + 1,
            cur <= trim_len(s@),
            strlen_in_bounds(s@, max as int),
            max <= isize::MAX,
            0 <= trim_len(s@) <= s@.len(),
            forall|i: int| 0 <= i < trim_len(s@) ==> s@[i] != 0,
            trim_len(s@) < s@.len() ==> s@[trim_len(s@)] == 0,
        decreases s@.len() - cur,
    {
        if cur > max {
            return None;
        }
        cur = cur + 1;
    }
    Some(cur)
}

/// The length of the zero-terminated string at the start of `s`.
pub fn strlen(s: &[u8]) -> (r: usize)
    requires
        trim_len(s@) < s@.len(),
        s@.len() <= isize::MAX,
    ensures
        r == trim_len(s@),
{
    proof { lemma_trim_len(s@); }
    match strlen_bounded(s, isize::MAX as usize) {
        Some(n) => n,
        None => 0,
    }
}

/// The zero-terminated string at the start of `s`, decoded as UTF-8.
pub fn from_cstring_utf8(s: &[u8]) -> (r: Result<&str, core::str::Utf8Error>)
    requires
        trim_len(s@) < s@.len(),
        s@.len() <= isize::MAX,
    ensures
        r is Ok <==> valid_utf8(spec_trim_nulls(s@)),
        r is Ok ==> r->Ok_0.spec_bytes() == spec_trim_nulls(s@),
{
    proof { lemma_trim_len(s@); }
    let n = strlen(s);
    from_utf8(vstd::slice::slice_subrange(s, 0, n))
}

/// The zero-terminated string at the start of `s`, decoded as UTF-8, unless
/// it is longer than `max + 1` bytes.
pub fn from_cstring_utf8_bounded(s: &[u8], max: usize) -> (r: Result<&str, BoundedError>)
    requires
        max <= isize::MAX,
        strlen_in_bounds(s@, max as int),
    ensures
        spec_strlen_bounded(s@, max as int) is None ==> r is Err && r->Err_0 is BoundError,
        spec_strlen_bounded(s@, max as int) is Some ==> {
            &&& r is Ok <==> valid_utf8(spec_trim_nulls(s@))
            &&& r is Ok ==> r->Ok_0.spec_bytes() == spec_trim_nulls(s@)
            &&& r is Err ==> r->Err_0 is Utf8Error
        },
{
    proof { lemma_trim_len(s@); }
    let len = match strlen_bounded(s, max) {
        Some(len) => len,
        None => return Err(BoundedError::BoundError),
    };
    match from_utf8(vstd::slice::slice_subrange(s, 0, len)) {
        Ok(v) => Ok(v),
        Err(e) => Err(BoundedError::Utf8Error(e)),
    }
}

} // verus!
