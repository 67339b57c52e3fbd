//! Intrusive collections: lists and hash tables whose links live in the
//! values they hold.
pub mod hash_table;
pub mod list;
pub mod slist;

use core::marker::PhantomData;

use vstd::prelude::*;

verus! {

/// The operations on pointers of type `P` that an adapter uses by default.
pub struct DefaultPointerOps<P>(PhantomData<P>);

impl<P> Clone for DefaultPointerOps<P> {
    fn clone(&self) -> (r: Self) {
        DefaultPointerOps(PhantomData)
    }
}

impl<P> Copy for DefaultPointerOps<P> {
}

impl<P> DefaultPointerOps<P> {
    pub fn new() -> (r: Self) {
        Self(PhantomData)
    }
}

} // verus!
