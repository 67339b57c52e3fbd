//! The high precision event timer: the fields of its capability and
//! configuration registers.
use vstd::prelude::*;

use super::paging::{get_field, lemma_field_masks, read_field, set_field, write_field};

verus! {

/// The period of the main counter, in femtoseconds, from the capabilities `caps`.
pub fn hpet_period(caps: u64) -> (r: u32)
    ensures
        r == get_field(caps, 32, 32),
{
    proof {
        lemma_field_masks();
    }
    read_field(caps, 32, 32) as u32
}

/// The vendor of the timer, from the capabilities `caps`.
pub fn hpet_vendor_id(caps: u64) -> (r: u16)
    ensures
        r == get_field(caps, 16, 16),
{
    proof {
        lemma_field_masks();
    }
    read_field(caps, 16, 16) as u16
}

/// The number of comparators of the timer: one more than the index of the
/// last one, from the capabilities `caps`.
pub fn hpet_timer_count(caps: u64) -> (r: u8)
    ensures
        r == get_field(caps, 8, 5) + 1,
{
    proof {
        lemma_field_masks();
    }
    read_field(caps, 8, 5) as u8 + 1
}

/// Whether the main counter runs, from the configuration `config`.
pub fn hpet_enabled(config: u64) -> (r: bool)
    ensures
        r == (get_field(config, 0, 1) == 1),
{
    read_field(config, 0, 1) == 1
}

/// The configuration `config` with the main counter running or stopped.
pub fn hpet_with_enabled(config: u64, e: bool) -> (r: u64)
    ensures
        r == set_field(config, 0, 1, if e { 1 } else { 0 }),
{
    write_field(config, 0, 1, if e { 1 } else { 0 })
}

/// The offset, from the base of the timer's registers, of the registers of comparator `n`.
pub fn timer_registers_offset(n: u8) -> (r: usize)
    ensures
        r == 0x100 + 0x20 * n,
{
    0x100 + 0x20 * n as usize
}

/// The interrupt routing of a comparator, from its configuration `config`.
pub fn timer_int_route(config: u64) -> (r: u8)
    ensures
        r == get_field(config, 9, 5),
{
    proof {
        lemma_field_masks();
    }
    read_field(config, 9, 5) as u8
}

/// The configuration `config` of a comparator routed to interrupt `route`.
pub fn timer_with_int_route(config: u64, route: u8) -> (r: u64)
    requires
        route < 32,
    ensures
        r == set_field(config, 9, 5, route as u64),
{
    write_field(config, 9, 5, route as u64)
}

/// Whether a comparator raises interrupts, from its configuration `config`.
pub fn timer_enabled(config: u64) -> (r: bool)
    ensures
        r == (get_field(config, 2, 1) == 1),
{
    read_field(config, 2, 1) == 1
}

/// The configuration `config` of a comparator that raises interrupts or not.
pub fn timer_with_enabled(config: u64, e: bool) -> (r: u64)
    ensures
        r == set_field(config, 2, 1, if e { 1 } else { 0 }),
{
    write_field(config, 2, 1, if e { 1 } else { 0 })
}

} // verus!
