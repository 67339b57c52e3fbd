//! The local APIC: the values that its registers are written with.
use vstd::prelude::*;

verus! {

/// Whether the timer counts down once or reloads its count.
#[derive(Clone, Copy, Debug, PartialEq, Eq)]
pub enum TimerMode {
    Periodic,
    OneShot,
}

/// How the local APIC timer is programmed.
#[derive(Clone, Copy, Debug)]
pub struct TimerConfig {
    /// The vector of the timer interrupt.
    pub interrupt: u8,
    /// The divide configuration.
    pub divisor: u32,
    /// The initial count.
    pub count: u32,
    pub mode: TimerMode,
}

/// The facts on the bits of the register values below.
proof fn lemma_register_bits(v: u32, n: u8, id: u8)
    by (bit_vector)
    ensures
        ((v & !0xffu32) | n as u32) & 0xff == n as u32,
        ((v & !0xffu32) | n as u32) & !0xffu32 == v & !0xffu32,
        (v | 0x1_0000u32) & 0x1_0000 != 0,
        (v | 0x1_0000u32) & !0x1_0000u32 == v & !0x1_0000u32,
        (v & !0x1_0000u32) & 0x1_0000 == 0,
        (v & !0x1_0000u32) & !0x1_0000u32 == v & !0x1_0000u32,
        ((v & 0x00ff_ffffu32) | ((id as u32) << 24u32)) >> 24u32 == id as u32,
        ((v & 0x00ff_ffffu32) | ((id as u32) << 24u32)) & 0x00ff_ffff == v & 0x00ff_ffff,
        ((v & 0xfff0_0000u32) | 0xc500u32) & 0x000f_ffff == 0xc500,
        ((v & 0xfff0_0000u32) | 0xc500u32) & 0xfff0_0000 == v & 0xfff0_0000,
        ((v & 0xfff0_0000u32) | 0x8500u32) & 0x000f_ffff == 0x8500,
        ((v & 0xfff0_0000u32) | 0x8500u32) & 0xfff0_0000 == v & 0xfff0_0000,
        ((v & 0xfff0_f800u32) | 0x0608u32) & 0x000f_07ff == 0x0608,
        ((v & 0xfff0_f800u32) | 0x0608u32) & 0xfff0_f800 == v & 0xfff0_f800,
        0x100u32 | n as u32 == 0x100 + n as u32,
{
}

/// The entry `v` of the local vector table set to deliver vector `n`: its
/// low byte is `n` and its other bits are kept.
pub fn lvt_with_vector(v: u32, n: u8) -> (r: u32)
    ensures
        r & 0xff == n as u32,
        r & !0xffu32 == v & !0xffu32,
{
    proof {
        lemma_register_bits(v, n, 0);
    }
    (v & !0xff) | n as u32
}

/// The entry `v` of the local vector table masked (bit 16 set), its other bits kept.
pub fn lvt_masked(v: u32) -> (r: u32)
    ensures
        r & 0x1_0000 != 0,
        r & !0x1_0000u32 == v & !0x1_0000u32,
{
    proof {
        lemma_register_bits(v, 0, 0);
    }
    v | 0x1_0000
}

/// The entry `v` of the local vector table unmasked (bit 16 clear), its other bits kept.
pub fn lvt_unmasked(v: u32) -> (r: u32)
    ensures
        r & 0x1_0000 == 0,
        r & !0x1_0000u32 == v & !0x1_0000u32,
{
    proof {
        lemma_register_bits(v, 0, 0);
    }
    v & !0x1_0000
}

/// The spurious interrupt vector register: the APIC enabled, with spurious vector `spurious`.
pub fn spurious_vector_value(spurious: u8) -> (r: u32)
    ensures
        r == 0x100 + spurious as u32,
{
    proof {
        lemma_register_bits(0, spurious, 0);
    }
    0x100 | spurious as u32
}

/// The high half `v` of the interrupt command register aimed at the APIC `lapic_id`.
pub fn icr_with_destination(v: u32, lapic_id: u8) -> (r: u32)
    ensures
        r >> 24u32 == lapic_id as u32,
        r & 0x00ff_ffff == v & 0x00ff_ffff,
{
    proof {
        lemma_register_bits(v, 0, lapic_id);
    }
    (v & 0x00ff_ffff) | ((lapic_id as u32) << 24)
}

/// The low half `v` of the interrupt command register set to assert an INIT
/// interrupt at level, its reserved bits kept.
pub fn icr_init(v: u32) -> (r: u32)
    ensures
        r & 0x000f_ffff == 0xc500,
        r & 0xfff0_0000 == v & 0xfff0_0000,
{
    proof {
        lemma_register_bits(v, 0, 0);
    }
    (v & 0xfff0_0000) | 0x0000_c500
}

/// The low half `v` of the interrupt command register set to deassert the INIT
/// interrupt, its reserved bits kept.
pub fn icr_init_deassert(v: u32) -> (r: u32)
    ensures
        r & 0x000f_ffff == 0x8500,
        r & 0xfff0_0000 == v & 0xfff0_0000,
{
    proof {
        lemma_register_bits(v, 0, 0);
    }
    (v & 0xfff0_0000) | 0x0000_8500
}

/// The low half `v` of the interrupt command register set to send a start-up
/// interrupt with vector 8, its reserved bits kept.
pub fn icr_startup(v: u32) -> (r: u32)
    ensures
        r & 0x000f_07ff == 0x0608,
        r & 0xfff0_f800 == v & 0xfff0_f800,
{
    proof {
        lemma_register_bits(v, 0, 0);
    }
    (v & 0xfff0_f800) | 0x000608
}

/// Whether the low half `v` of the interrupt command register shows an
/// interrupt still being sent (bit 12).
pub fn icr_delivery_pending(v: u32) -> (r: bool)
    ensures
        r == (v & 0x1000 != 0),
{
    v & 0x1000 != 0
}

} // verus!
