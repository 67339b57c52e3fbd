//! The x86_64 architecture: paging structures, interrupt controllers and timers.
pub mod apic;
pub mod hpet;
pub mod ioapic;
pub mod paging;

use vstd::prelude::*;

verus! {

} // verus!
