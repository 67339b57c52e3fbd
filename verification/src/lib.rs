pub mod arch;
pub mod elf;
pub mod fmt;
pub mod integer;
pub mod intrusive;
pub mod iter;
pub mod log;
pub mod mm;
pub mod pool;
pub mod queue;
pub mod str;
pub mod sync;
pub mod tar;
pub mod x64;

use vstd::prelude::*;

verus! {

} // verus!
