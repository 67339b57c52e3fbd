//! String tables: zero-terminated UTF-8 strings packed in a section.
use vstd::prelude::*;
use vstd::utf8::valid_utf8;
use vstd::string::StringSliceAdditionalSpecFns;

use crate::str::from_cstring_utf8_bounded;
use crate::tar::util::{lemma_trim_len, spec_trim_nulls, trim_len};

verus! {

/// The string that starts at `offset` of the table `data`: `None` when the
/// offset is past the table or when its bytes are not valid UTF-8.
pub open spec fn spec_get_string(data: Seq<u8>, offset: int) -> Option<Seq<u8>> {
    let rest = data.subrange(offset, data.len() as int);
    if offset >= data.len() {
        None
    } else if !valid_utf8(spec_trim_nulls(rest)) {
        None
    } else {
        Some(spec_trim_nulls(rest))
    }
}

/// A table of strings.
#[derive(Clone, Copy)]
pub struct StrTab<'a> {
    data: &'a [u8],
}

impl<'a> StrTab<'a> {
    /// The bytes of the table.
    pub closed spec fn spec_data(&self) -> Seq<u8> {
        self.data@
    }

    pub fn new(data: &'a [u8]) -> (r: Self)
        ensures
            r.spec_data() == data@,
    {
        Self { data }
    }

    /// The string that starts at `offset`, if the offset is within the table
    /// and the string is valid UTF-8. A zero byte must end the string within
    /// the table.
    pub fn get_string(&self, offset: usize) -> (r: Option<&'a str>)
        requires
            self.spec_data().len() <= isize::MAX,
            offset < self.spec_data().len() ==>
                trim_len(self.spec_data().subrange(offset as int, self.spec_data().len() as int))
                < self.spec_data().len() - offset,
        ensures
            r is Some <==> spec_get_string(self.spec_data(), offset as int) is Some,
            r is Some ==> r->Some_0.spec_bytes() == spec_get_string(self.spec_data(), offset as int)->Some_0,
    {
        if offset >= self.data.len() {
            return None;
        }
        let rest = vstd::slice::slice_subrange(self.data, offset, self.data.len());
        proof { lemma_trim_len(rest@); }
        match from_cstring_utf8_bounded(rest, self.data.len() - offset) {
            Ok(s) => Some(s),
            Err(_) => None,
        }
    }
}

} // verus!
