use chos_lib::x64::hpet::{
    hpet_enabled, hpet_period, hpet_timer_count, hpet_vendor_id, hpet_with_enabled, timer_enabled,
    timer_int_route, timer_registers_offset, timer_with_enabled, timer_with_int_route,
};
use chos_lib::x64::ioapic::{ioapic_id, ioapic_max_red_entries, ioapic_version};
use chos_lib::x64::apic::{
    icr_delivery_pending, icr_init, icr_init_deassert, icr_startup, icr_with_destination,
    lvt_masked, lvt_unmasked, lvt_with_vector, spurious_vector_value, TimerConfig, TimerMode,
};

#[test]
fn apic_register_values() {
    assert_eq!(lvt_with_vector(0x0001_00ff, 0x20), 0x0001_0020);
    assert_eq!(lvt_masked(0x20), 0x0001_0020);
    assert_eq!(lvt_unmasked(0x0001_0020), 0x20);
    assert_eq!(spurious_vector_value(0xff), 0x1ff);
    assert_eq!(icr_with_destination(0xab12_3456, 3), 0x0312_3456);
    assert_eq!(icr_init(0xfff0_1234), 0xfff0_c500);
    assert_eq!(icr_init_deassert(0x1234_5678), 0x1230_8500);
    assert_eq!(icr_startup(0xffff_ffff), 0xfff0_fe08);
    assert!(icr_delivery_pending(0x1000));
    assert!(!icr_delivery_pending(0x0fff));
}

#[test]
fn apic_timer_config() {
    let c = TimerConfig { interrupt: 32, divisor: 3, count: 1000, mode: TimerMode::Periodic };
    assert_eq!(c.mode, TimerMode::Periodic);
    assert_eq!(c.interrupt, 32);
}

#[test]
fn hpet_register_fields() {
    use_hpet();
}

fn use_hpet() {
    let caps: u64 = 0x0098_9680_8086_a201;
    assert_eq!(hpet_period(caps), 0x0098_9680);
    assert_eq!(hpet_vendor_id(caps), 0x8086);
    assert_eq!(hpet_timer_count(caps), 3);
    assert!(!hpet_enabled(0x2));
    assert_eq!(hpet_with_enabled(0x2, true), 0x3);
    assert_eq!(hpet_with_enabled(0x3, false), 0x2);
    assert_eq!(timer_registers_offset(2), 0x140);
    assert_eq!(timer_int_route(0x0000_0000_0000_2800), 0x14);
    assert_eq!(timer_with_int_route(0xffff_ffff_ffff_ffff, 0), 0xffff_ffff_ffff_c1ff);
    assert!(timer_enabled(0x4));
    assert_eq!(timer_with_enabled(0x4, false), 0);
}

#[test]
fn ioapic_register_fields() {
    assert_eq!(ioapic_id(0x0a00_0000), 0xa);
    assert_eq!(ioapic_id(0xf0ff_ffff), 0);
    assert_eq!(ioapic_version(0x0017_0020), 0x20);
    assert_eq!(ioapic_max_red_entries(0x0017_0020), 0x18);
}
