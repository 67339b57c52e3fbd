use chos_lib::x64::ioapic::{
    join_redirection, redirection_registers, split_redirection, DeliveryMode, DeliveryStatus,
    Destination, PinPolarity, RedirectionEntry, TriggerMode,
};
use chos_lib::x64::paging::{make_canonical, PAddr, PageEntry, PageTable, VAddr, VaddrError};

#[test]
fn x64_vaddr() {
    assert_eq!(VAddr::new(0x0000_8000_0000_0000), Err(VaddrError::NonCanonical));
    assert!(VAddr::new(0xffff_8000_0000_0000).is_ok());
    let v = VAddr::new(0x0000_0000_0040_2abc).unwrap();
    assert_eq!(v.split(), (0, 0, 2, 2, 0xabc));
    assert_eq!(v.align_page().as_u64(), 0x40_2000);
    assert_eq!(v.align_page_up().as_u64(), 0x40_3000);
    assert_eq!(v.page(), 0x402);
    assert_eq!(v.offset(-0xabc).as_u64(), 0x40_2000);
    assert_eq!(VAddr::make_canonical(0x8000_0000_0000).as_u64(), 0xffff_8000_0000_0000);
    assert_eq!(make_canonical(0x1_0000_0000_0000), 0);
    assert_eq!(PAddr::new(5).add(3).as_u64(), 8);
}

#[test]
fn page_entry_fields() {
    let mut e = PageEntry::zero();
    e.set_present(true).set_writable(true);
    e.set_phys_addr(PAddr::new(0x1234_5000));
    assert!(e.present());
    assert!(e.writable());
    assert!(!e.user());
    assert_eq!(e.phys_addr().as_u64(), 0x1234_5000);
    assert_eq!(e.raw(), 0x1234_5003);
    e.set_no_execute(true);
    assert_eq!(e.raw() >> 63, 1);
    e.set_os1(0x7ff);
    assert_eq!(e.os1(), 0x7ff);
    assert_eq!(e.phys_addr().as_u64(), 0x1234_5000);
    e.set_os0(5);
    assert_eq!(e.os0(), 5);
    let t = PageTable::empty();
    assert_eq!(t.index(511).raw(), 0);
}

#[test]
fn redirection_entry_fields() {
    let mut r = RedirectionEntry::new(u64::MAX);
    r.set_defaults();
    assert_eq!(r.vector(), 0);
    assert_eq!(r.delivery_mode(), DeliveryMode::Fixed);
    assert_eq!(r.destination(), Destination::Physical(0));
    assert_eq!(r.pin_polarity(), PinPolarity::HighActive);
    assert_eq!(r.trigger_mode(), TriggerMode::Edge);
    assert!(!r.enabled());
    r.set_vector(0x30);
    r.set_delivery_mode(DeliveryMode::NMI);
    r.set_destination(Destination::Logical(3));
    r.enable();
    assert_eq!(r.vector(), 0x30);
    assert_eq!(r.delivery_mode(), DeliveryMode::NMI);
    assert_eq!(r.destination(), Destination::Logical(3));
    assert!(r.enabled());
    assert_eq!(RedirectionEntry::new(1 << 12).delivery_status(), DeliveryStatus::Pending);
}

#[test]
fn redirection_registers_and_halves() {
    assert_eq!(redirection_registers(0), (0x10, 0x11));
    assert_eq!(redirection_registers(3), (0x16, 0x17));
    let r = join_redirection(0x0000_0030, 0x0300_0000);
    assert_eq!(r.value(), 0x0300_0000_0000_0030);
    assert_eq!(split_redirection(r), (0x0300_0000, 0x30));
}

#[test]
fn set_phys_addr_keeps_bits_outside_the_address() {
    let mut e = PageEntry::new(0xfff0_0000_0000_0fff);
    e.set_phys_addr(PAddr::new(0x000f_ffff_ffff_f000));
    assert_eq!(e.phys_addr().as_u64(), 0x000f_ffff_ffff_f000);
    assert_eq!(e.raw(), u64::MAX);
    e.set_phys_addr(PAddr::new(0x2000));
    assert_eq!(e.phys_addr().as_u64(), 0x2000);
    assert_eq!(e.raw() & !0x000f_ffff_ffff_f000, 0xfff0_0000_0000_0fff);
}
