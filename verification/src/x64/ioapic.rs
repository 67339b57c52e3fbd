//! Redirection entries of the I/O APIC: how an interrupt pin is delivered.
use vstd::prelude::*;

use super::paging::{field_mask, get_field, lemma_field_masks, lemma_field_set_get, read_field, set_field, write_field};

verus! {

/// When an interrupt pin is asserted.
#[derive(Copy, Clone, Debug, PartialEq, Eq)]
pub enum TriggerMode {
    Edge,
    Level,
}

/// Whether an interrupt is waiting to be delivered.
#[derive(Copy, Clone, Debug, PartialEq, Eq)]
pub enum DeliveryStatus {
    Idle,
    Pending,
}

/// The level at which an interrupt pin is active.
#[derive(Copy, Clone, Debug, PartialEq, Eq)]
pub enum PinPolarity {
    HighActive,
    LowActive,
}

/// How an interrupt is delivered to its destination.
#[derive(Copy, Clone, Debug, PartialEq, Eq)]
pub enum DeliveryMode {
    Fixed,
    LowPriority,
    SMI,
    NMI,
    Init,
    ExInt,
}

/// The processors that an interrupt is delivered to.
#[derive(Copy, Clone, Debug, PartialEq, Eq)]
pub enum Destination {
    Physical(u8),
    Logical(u8),
}

/// The bits that encode a delivery mode.
pub open spec fn delivery_mode_bits(d: DeliveryMode) -> u64 {
    match d {
        DeliveryMode::Fixed => 0,
        DeliveryMode::LowPriority => 1,
        DeliveryMode::SMI => 2,
        DeliveryMode::NMI => 4,
        DeliveryMode::Init => 5,
        DeliveryMode::ExInt => 6,
    }
}

/// The bits `b` encode a delivery mode.
pub open spec fn is_delivery_mode_bits(b: u64) -> bool {
    b == 0 || b == 1 || b == 2 || b == 4 || b == 5 || b == 6
}

/// The delivery mode that the bits `b` encode.
pub open spec fn spec_delivery_mode(b: u64) -> DeliveryMode {
    if b == 0 {
        DeliveryMode::Fixed
    } else if b == 1 {
        DeliveryMode::LowPriority
    } else if b == 2 {
        DeliveryMode::SMI
    } else if b == 4 {
        DeliveryMode::NMI
    } else if b == 5 {
        DeliveryMode::Init
    } else {
        DeliveryMode::ExInt
    }
}

/// Reading the delivery mode of an entry gives back the mode last set: in
/// any entry value `e`, the bits that setting the mode `d` writes encode a
/// mode, and that mode is `d`.
pub proof fn lemma_delivery_mode_round_trip(e: u64, d: DeliveryMode)
    ensures
        is_delivery_mode_bits(get_field(set_field(e, 8, 3, delivery_mode_bits(d)), 8, 3)),
        spec_delivery_mode(get_field(set_field(e, 8, 3, delivery_mode_bits(d)), 8, 3)) == d,
{
    lemma_field_set_get(e, 8, 3, delivery_mode_bits(d), 8, 3);
    lemma_field_masks();
    let b = delivery_mode_bits(d);
    assert(b < 8);
    assert(b & 0x7u64 == b) by (bit_vector)
        requires b < 8u64;
}

/// A redirection entry: a 64-bit register value made of the interrupt
/// vector (bits 0 to 7), the delivery mode (8 to 10), the destination mode
/// (11), the delivery status (12), the pin polarity (13), the remote IRR
/// (14), the trigger mode (15), the mask (16) and the destination (56 to 63).
#[derive(Copy, Clone, PartialEq, Eq, Debug)]
pub struct RedirectionEntry {
    inner: u64,
}

impl View for RedirectionEntry {
    type V = u64;

    closed spec fn view(&self) -> u64 {
        self.inner
    }
}

impl RedirectionEntry {
    pub fn new(value: u64) -> (r: Self)
        ensures
            r@ == value,
    {
        Self { inner: value }
    }

    /// The register value of the entry.
    pub fn value(&self) -> (r: u64)
        ensures
            r == self@,
    {
        self.inner
    }

    fn get(&self, lo: u64, width: u64) -> (r: u64)
        requires
            1 <= width < 64,
            lo + width <= 64,
        ensures
            r == get_field(self@, lo, width),
            r <= field_mask(width),
    {
        read_field(self.inner, lo, width)
    }

    fn set(&mut self, lo: u64, width: u64, v: u64)
        requires
            1 <= width < 64,
            lo + width <= 64,
        ensures
            final(self)@ == set_field(old(self)@, lo, width, v),
    {
        self.inner = write_field(self.inner, lo, width, v);
    }

    /// Sets a fixed delivery of vector zero to the physical destination zero,
    /// active high, edge triggered, and masks the entry.
    pub fn set_defaults(&mut self)
        ensures
            final(self)@ == set_field(set_field(set_field(set_field(set_field(set_field(set_field(
                old(self)@, 0, 8, 0), 8, 3, 0), 11, 1, 0), 56, 8, 0), 13, 1, 0), 15, 1, 0), 16, 1, 1),
    {
        self.set_vector(0);
        self.set_delivery_mode(DeliveryMode::Fixed);
        self.set_destination(Destination::Physical(0));
        self.set_pin_polarity(PinPolarity::HighActive);
        self.set_trigger_mode(TriggerMode::Edge);
        self.disable();
    }

    pub fn vector(&self) -> (r: u8)
        ensures
            r == get_field(self@, 0, 8),
    {
        proof { lemma_field_masks(); }
        self.get(0, 8) as u8
    }

    pub fn set_vector(&mut self, v: u8)
        ensures
            final(self)@ == set_field(old(self)@, 0, 8, v as u64),
    {
        self.set(0, 8, v as u64);
    }

    /// The delivery mode of the entry, whose bits must encode one.
    pub fn delivery_mode(&self) -> (r: DeliveryMode)
        requires
            is_delivery_mode_bits(get_field(self@, 8, 3)),
        ensures
            r == spec_delivery_mode(get_field(self@, 8, 3)),
    {
        proof { lemma_field_masks(); }
        match self.get(8, 3) {
            0 => DeliveryMode::Fixed,
            1 => DeliveryMode::LowPriority,
            2 => DeliveryMode::SMI,
            4 => DeliveryMode::NMI,
            5 => DeliveryMode::Init,
            _ => DeliveryMode::ExInt,
        }
    }

    pub fn set_delivery_mode(&mut self, d: DeliveryMode)
        ensures
            final(self)@ == set_field(old(self)@, 8, 3, delivery_mode_bits(d)),
    {
        let b: u64 = match d {
            DeliveryMode::Fixed => 0,
            DeliveryMode::LowPriority => 1,
            DeliveryMode::SMI => 2,
            DeliveryMode::NMI => 4,
            DeliveryMode::Init => 5,
            DeliveryMode::ExInt => 6,
        };
        self.set(8, 3, b);
    }

    pub fn destination(&self) -> (r: Destination)
        ensures
            get_field(self@, 11, 1) == 0 ==> r == Destination::Physical(get_field(self@, 56, 8) as u8),
            get_field(self@, 11, 1) != 0 ==> r == Destination::Logical(get_field(self@, 56, 8) as u8),
    {
        proof { lemma_field_masks(); }
        let v = self.get(56, 8) as u8;
        if self.get(11, 1) == 0 {
            Destination::Physical(v)
        } else {
            Destination::Logical(v)
        }
    }

    pub fn set_destination(&mut self, d: Destination)
        ensures
            match d {
                Destination::Physical(v) => final(self)@ == set_field(set_field(old(self)@, 11, 1, 0), 56, 8, v as u64),
                Destination::Logical(v) => final(self)@ == set_field(set_field(old(self)@, 11, 1, 1), 56, 8, v as u64),
            },
    {
        let mode: u64;
        let dest: u8;
        match d {
            Destination::Physical(v) => {
                mode = 0;
                dest = v;
            }
            Destination::Logical(v) => {
                mode = 1;
                dest = v;
            }
        }
        self.set(11, 1, mode);
        self.set(56, 8, dest as u64);
    }

    pub fn delivery_status(&self) -> (r: DeliveryStatus)
        ensures
            r == (if get_field(self@, 12, 1) == 0 { DeliveryStatus::Idle } else { DeliveryStatus::Pending }),
    {
        if self.get(12, 1) == 0 {
            DeliveryStatus::Idle
        } else {
            DeliveryStatus::Pending
        }
    }

    pub fn pin_polarity(&self) -> (r: PinPolarity)
        ensures
            r == (if get_field(self@, 13, 1) == 0 { PinPolarity::HighActive } else { PinPolarity::LowActive }),
    {
        if self.get(13, 1) == 0 {
            PinPolarity::HighActive
        } else {
            PinPolarity::LowActive
        }
    }

    pub fn set_pin_polarity(&mut self, p: PinPolarity)
        ensures
            final(self)@ == set_field(old(self)@, 13, 1, if p == PinPolarity::HighActive { 0 } else { 1 }),
    {
        let b: u64 = match p {
            PinPolarity::HighActive => 0,
            PinPolarity::LowActive => 1,
        };
        self.set(13, 1, b);
    }

    pub fn trigger_mode(&self) -> (r: TriggerMode)
        ensures
            r == (if get_field(self@, 15, 1) == 0 { TriggerMode::Edge } else { TriggerMode::Level }),
    {
        if self.get(15, 1) == 0 {
            TriggerMode::Edge
        } else {
            TriggerMode::Level
        }
    }

    pub fn set_trigger_mode(&mut self, m: TriggerMode)
        ensures
            final(self)@ == set_field(old(self)@, 15, 1, if m == TriggerMode::Edge { 0 } else { 1 }),
    {
        let b: u64 = match m {
            TriggerMode::Edge => 0,
            TriggerMode::Level => 1,
        };
        self.set(15, 1, b);
    }

    /// Whether the entry is unmasked.
    pub fn enabled(&self) -> (r: bool)
        ensures
            r == (get_field(self@, 16, 1) == 0),
    {
        self.get(16, 1) == 0
    }

    pub fn enable(&mut self)
        ensures
            final(self)@ == set_field(old(self)@, 16, 1, 0),
    {
        self.set_enabled(true);
    }

    pub fn disable(&mut self)
        ensures
            final(self)@ == set_field(old(self)@, 16, 1, 1),
    {
        self.set_enabled(false);
    }

    /// Unmasks the entry when `e` holds, masks it otherwise.
    pub fn set_enabled(&mut self, e: bool)
        ensures
            final(self)@ == set_field(old(self)@, 16, 1, if e { 0 } else { 1 }),
    {
        let mask: u64 = if e { 0 } else { 1 };
        self.set(16, 1, mask);
    }
}

/// The register number of the identification register.
pub const IOAPIC_ID_REGISTER: u32 = 0x0;
/// The register number of the version register.
pub const IOAPIC_VERSION_REGISTER: u32 = 0x1;

/// The identifier of the I/O APIC, from its identification register `v`.
pub fn ioapic_id(v: u32) -> (r: u8)
    ensures
        r == get_field(v as u64, 24, 4),
{
    proof {
        lemma_field_masks();
    }
    read_field(v as u64, 24, 4) as u8
}

/// The version of the I/O APIC, from its version register `v`.
pub fn ioapic_version(v: u32) -> (r: u8)
    ensures
        r == get_field(v as u64, 0, 8),
{
    proof {
        lemma_field_masks();
    }
    read_field(v as u64, 0, 8) as u8
}

/// The number of redirection entries, from the version register `v`: one
/// more than the index of the last entry.
pub fn ioapic_max_red_entries(v: u32) -> (r: u8)
    requires
        get_field(v as u64, 16, 8) < 0xff,
    ensures
        r == get_field(v as u64, 16, 8) + 1,
{
    proof {
        lemma_field_masks();
    }
    read_field(v as u64, 16, 8) as u8 + 1
}

/// The register numbers of the low and high halves of redirection entry `n`.
pub fn redirection_registers(n: u8) -> (r: (u32, u32))
    ensures
        r.0 == 0x10 + 2 * n,
        r.1 == 0x10 + 2 * n + 1,
{
    let n = n as u32;
    (0x10 + 2 * n, 0x10 + 2 * n + 1)
}

/// The redirection entry whose register halves read `low` and `high`.
pub fn join_redirection(low: u32, high: u32) -> (r: RedirectionEntry)
    ensures
        r@ == high as int * 0x1_0000_0000 + low as int,
{
    let value = ((high as u64) << 32) | (low as u64);
    proof {
        assert(value == high as int * 0x1_0000_0000 + low as int) by (bit_vector)
            requires value == ((high as u64) << 32u64) | (low as u64);
    }
    RedirectionEntry::new(value)
}

/// The register halves, high and then low, of a redirection entry.
pub fn split_redirection(red: RedirectionEntry) -> (r: (u32, u32))
    ensures
        r.0 as int * 0x1_0000_0000 + r.1 as int == red@,
{
    let value = red.value();
    let high = (value >> 32) as u32;
    let low = (value & 0xffff_ffff) as u32;
    proof {
        assert(high as int * 0x1_0000_0000 + low as int == value) by (bit_vector)
            requires
                high == (value >> 32u64) as u32,
                low == (value & 0xffff_ffffu64) as u32;
    }
    (high, low)
}


/// Splitting an entry into its register halves and joining them back gives
/// the entry's value back.
pub proof fn lemma_redirection_halves(v: u64)
    ensures
        (v as int / 0x1_0000_0000) * 0x1_0000_0000 + v as int % 0x1_0000_0000 == v,
        v as int / 0x1_0000_0000 <= u32::MAX,
{
    assert((v as int / 0x1_0000_0000) * 0x1_0000_0000 + v as int % 0x1_0000_0000 == v) by (nonlinear_arith);
    assert(v as int / 0x1_0000_0000 <= u32::MAX) by (nonlinear_arith)
        requires v <= u64::MAX;
}

} // verus!
