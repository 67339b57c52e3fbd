use chos_lib::arch::{is_canonical, make_canonical, FrameSize4K};
use chos_lib::mm::addr::{NonCanonicalError, PAddr, VAddr};
use chos_lib::mm::{MapElfError, MapError, MapFlags, PFrame, PFrameRange, VFrame};

#[test]
fn paddr_arith() {
    let p = PAddr::new(0x1234);
    assert_eq!(p.as_u64(), 0x1234);
    assert!(!p.is_page_aligned());
    assert_eq!(p.align_page_down().as_u64(), 0x1000);
    assert_eq!(p.align_page_up().as_u64(), 0x2000);
    assert_eq!(p.page(), 1);
    assert_eq!(p.add_u64(4).as_u64(), 0x1238);
    assert_eq!(p.sub_paddr(PAddr::new(0x234)).as_u64(), 0x1000);
    assert_eq!(PAddr::null().as_u64(), 0);
    assert_eq!(PAddr::from_usize(7).as_usize(), 7);
    assert_eq!(PAddr::new(0x8000).identity().as_u64(), 0x8000);
}

#[test]
fn vaddr_canonical() {
    assert_eq!(VAddr::try_new(0x0000_8000_0000_0000), Err(NonCanonicalError));
    assert!(VAddr::try_new(0xffff_8000_0000_0000).is_ok());
    assert!(VAddr::try_new(0x0000_7fff_ffff_ffff).is_ok());
    assert_eq!(VAddr::make_canonical(0x0000_8000_0000_0000).as_u64(), 0xffff_8000_0000_0000);
    assert_eq!(VAddr::make_canonical(0x1234_0000_0000_1000).as_u64(), 0x0000_0000_0000_1000);
    assert!(is_canonical(0));
    assert!(!is_canonical(0x0001_0000_0000_0000));
    assert_eq!(make_canonical(0xffff_ffff_ffff), 0xffff_ffff_ffff_ffff);
    assert!(VAddr::new(0x1000).try_add_u64(0x0000_7fff_ffff_f000).is_err());
    assert_eq!(VAddr::new(0x1000).sub_u64(0x1000), VAddr::null());
}

#[test]
fn vaddr_split() {
    let v = VAddr::new(0xffff_8000_0040_1abc);
    let (p4, p3, p2, p1, off) = v.split();
    assert_eq!(off, 0xabc);
    assert_eq!(p1, 1);
    assert_eq!(p2, 2);
    assert_eq!(p3, 0);
    assert_eq!(p4, 256);
}

#[test]
fn frames_and_ranges() {
    assert!(PFrame::<FrameSize4K>::try_new(PAddr::new(0x1001)).is_err());
    let f = PFrame::<FrameSize4K>::new(PAddr::new(0x3000));
    assert_eq!(f.add(2).addr().as_u64(), 0x5000);
    assert_eq!(f.sub(3).addr().as_u64(), 0);
    assert_eq!(PFrame::<FrameSize4K>::new_align_up(PAddr::new(0x3001)).addr().as_u64(), 0x4000);
    assert_eq!(VFrame::<FrameSize4K>::new_align_down(VAddr::new(0x3fff)).addr().as_u64(), 0x3000);
    let r = PFrameRange::new(f, f.add(4));
    assert_eq!(r.frame_count(), 4);
    let inner = PFrameRange::new(f.add(1), f.add(2));
    assert!(r.contains(&inner));
    assert!(!inner.contains(&r));
    let mut it = PFrameRange::new(f, f.add(2));
    assert_eq!(it.next().map(|x| x.addr().as_u64()), Some(0x3000));
    assert_eq!(it.next().map(|x| x.addr().as_u64()), Some(0x4000));
    assert!(it.next().is_none());
}

#[test]
fn range_intersection() {
    let f = PFrame::<FrameSize4K>::new(PAddr::new(0));
    let a = PFrameRange::new(f.add(2), f.add(4));
    let b = PFrameRange::new(f, f.add(2));
    assert!(a.intesects(&b));
    let i = a.intersection(b).unwrap();
    assert_eq!(i.start().addr().as_u64(), 0x2000);
    assert_eq!(i.end().addr().as_u64(), 0x2000);
    assert!(b.intersection(a).is_none());
}

#[test]
fn map_flags_ops() {
    let mut f = MapFlags::empty();
    assert!(f.is_empty());
    f.insert(MapFlags::WRITE());
    f.insert(MapFlags::EXEC());
    assert!(f.contains(MapFlags::WRITE()));
    assert_eq!(f.bits(), 0b11);
    f.remove(MapFlags::WRITE());
    assert!(!f.contains(MapFlags::WRITE()));
    assert!(MapFlags::from_bits(0b1000).is_none());
    assert_eq!(MapFlags::from_bits_truncate(0xff).bits(), MapFlags::all().bits());
    assert_eq!(MapFlags::USER().union(MapFlags::GLOBAL()).bits(), 0b0101_0000);
}

#[test]
fn map_error_conversion() {
    let e: MapElfError<u8> = MapError::<u8>::AlreadyMapped.into();
    assert_eq!(e, MapElfError::AlreadyMapped);
    let e: MapElfError<u8> = MapError::from_frame_alloc_error(3u8).into();
    assert_eq!(e, MapElfError::FrameAllocError(3));
}

#[test]
fn frame_offset_splits_address() {
    let (f, off) = chos_lib::mm::PAddr::new(0x12_3456).frame_offset::<chos_lib::arch::FrameSize4K>();
    assert_eq!((f.addr().as_u64(), off), (0x12_3000, 0x456));
    let (f, off) = chos_lib::mm::VAddr::new(0xffff_8000_0034_5678).frame_offset::<chos_lib::arch::FrameSize2M>();
    assert_eq!((f.addr().as_u64(), off), (0xffff_8000_0020_0000, 0x14_5678));
}

#[test]
fn vaddr_new_is_try_new_unwrapped() {
    for a in [0u64, 0x1234, 0x0000_7fff_ffff_ffff, 0xffff_8000_0000_0000, u64::MAX] {
        assert_eq!(VAddr::new(a), VAddr::try_new(a).unwrap());
        assert_eq!(VAddr::new(a).as_u64(), a);
    }
}
