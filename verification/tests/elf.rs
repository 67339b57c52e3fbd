use chos_lib::arch::FrameSize4K;
use chos_lib::elf::{Dynamic, Elf, ElfErrorKind, ProgramEntryFlags, ProgramEntryType, StrTab};
use chos_lib::mm::{
    FrameAllocator, LoggingMapper, MapElfError, MapError, MapFlags, Mapper, MapperFlush, PAddr, PFrame,
    PFrameRange, RangeMapper, UnmapError, VAddr, VFrame, VFrameRange,
};

fn put_u16(b: &mut Vec<u8>, off: usize, v: u16) {
    b[off..off + 2].copy_from_slice(&v.to_le_bytes());
}

fn put_u32(b: &mut Vec<u8>, off: usize, v: u32) {
    b[off..off + 4].copy_from_slice(&v.to_le_bytes());
}

fn put_u64(b: &mut Vec<u8>, off: usize, v: u64) {
    b[off..off + 8].copy_from_slice(&v.to_le_bytes());
}

const PHOFF: usize = 64;
const SHOFF: usize = PHOFF + 3 * 56;
const SYMOFF: usize = SHOFF + 2 * 64;
const STROFF: usize = SYMOFF + 2 * 24;

/// An image with three program headers (two loadable segments and a note),
/// two section headers (a null one and the symbol table), a symbol table of
/// two symbols and a string table.
fn image(align: u64) -> Vec<u8> {
    let strtab = b"\0start\0";
    let mut b = vec![0u8; STROFF + strtab.len()];
    b[0..4].copy_from_slice(&[0x7f, b'E', b'L', b'F']);
    put_u64(&mut b, 32, PHOFF as u64);
    put_u64(&mut b, 40, SHOFF as u64);
    put_u16(&mut b, 54, 56);
    put_u16(&mut b, 56, 3);
    put_u16(&mut b, 58, 64);
    put_u16(&mut b, 60, 2);
    // executable segment
    let p = PHOFF;
    put_u32(&mut b, p, 1);
    put_u32(&mut b, p + 4, 5);
    put_u64(&mut b, p + 24, 0x1000);
    put_u64(&mut b, p + 40, 0x1800);
    put_u64(&mut b, p + 48, align);
    // note
    let p = PHOFF + 56;
    put_u32(&mut b, p, 4);
    put_u64(&mut b, p + 48, 3);
    // writable segment
    let p = PHOFF + 112;
    put_u32(&mut b, p, 1);
    put_u32(&mut b, p + 4, 6);
    put_u64(&mut b, p + 24, 0x3000);
    put_u64(&mut b, p + 40, 0x10);
    put_u64(&mut b, p + 48, 0x1000);
    // the symbol table section
    let s = SHOFF + 64;
    put_u32(&mut b, s + 4, 2);
    put_u64(&mut b, s + 24, SYMOFF as u64);
    put_u64(&mut b, s + 32, 48);
    // second symbol: named "start", value 0x1234
    let y = SYMOFF + 24;
    put_u32(&mut b, y, 1);
    b[y + 4] = 0x12;
    put_u64(&mut b, y + 8, 0x1234);
    b[STROFF..].copy_from_slice(strtab);
    b
}

#[test]
fn elf_rejects_bad_images() {
    assert_eq!(Elf::new(&[0u8; 10]).err().map(|e| e.kind), Some(ElfErrorKind::InvalidSize));
    let mut b = image(0x1000);
    b[1] = b'X';
    assert_eq!(Elf::new(&b).err().map(|e| e.kind), Some(ElfErrorKind::InvalidSignature));
    let b = image(0x1000);
    assert_eq!(Elf::new(&b[..SHOFF]).err().map(|e| e.kind), Some(ElfErrorKind::InvalidSize));
}

#[test]
fn elf_error_messages() {
    assert_eq!(Elf::new(&[0u8; 16]).err().map(|e| e.msg), Some("Buffer is too small for header"));
    let mut b = image(0x1000);
    b[0] = 0;
    assert_eq!(Elf::new(&b).err().map(|e| e.msg), Some("ELF signature is invalid"));
    let b = image(0x1000);
    assert_eq!(
        Elf::new(&b[..SHOFF]).err().map(|e| e.msg),
        Some("Buffer is too small for section header")
    );
    assert_eq!(
        Elf::new(&b[..SHOFF - 1]).err().map(|e| e.msg),
        Some("Buffer is too small for program header")
    );
}

#[test]
fn elf_program_headers() {
    let b = image(0x1000);
    let elf = Elf::new(&b).unwrap();
    let program = elf.program();
    assert_eq!(program.len(), 3);
    let e = program.get(0).unwrap();
    assert_eq!(e.typ(), ProgramEntryType::Load);
    assert!(e.flags().contains(ProgramEntryFlags::EXEC()));
    assert!(!e.flags().contains(ProgramEntryFlags::WRITE()));
    assert_eq!(e.paddr(), 0x1000);
    assert_eq!(e.mem_size(), 0x1800);
    assert_eq!(e.align(), 0x1000);
    assert_eq!(program.get(1).unwrap().typ(), ProgramEntryType::Note);
    assert!(program.get(2).unwrap().flags().contains(ProgramEntryFlags::WRITE()));
    assert!(program.get(3).is_none());
}

#[test]
fn elf_sections_and_dynamic_symtab() {
    let b = image(0x1000);
    let elf = Elf::new(&b).unwrap();
    let sections = elf.sections();
    assert_eq!(sections.len(), 2);
    assert_eq!(sections.get(1).unwrap().offset(), SYMOFF as u64);
    assert_eq!(sections.get(1).unwrap().size(), 48);

    let mut d = Vec::new();
    for (tag, val) in [(1u64, 0u64), (6, SYMOFF as u64), (0, 0)] {
        d.extend_from_slice(&tag.to_le_bytes());
        d.extend_from_slice(&val.to_le_bytes());
    }
    let dynamic = Dynamic::new(&d);
    let symtab = dynamic.symtab(&elf).unwrap();
    assert_eq!(symtab.len(), 2);
    let strtab = StrTab::new(&b[STROFF..]);
    let sym = symtab.lookup("start", &strtab).unwrap();
    assert_eq!(sym.value(), 0x1234);
    assert!(symtab.lookup("stop", &strtab).is_none());

    let mut d = Vec::new();
    for (tag, val) in [(6u64, 12345u64)] {
        d.extend_from_slice(&tag.to_le_bytes());
        d.extend_from_slice(&val.to_le_bytes());
    }
    assert!(Dynamic::new(&d).symtab(&elf).is_none());
    assert!(Dynamic::new(&[]).symtab(&elf).is_none());
}

struct Flushes(u32);

impl MapperFlush for Flushes {
    fn none() -> Self {
        Flushes(0)
    }

    fn flush(self) {}

    fn combine(self, rhs: Self) -> Self {
        Flushes(self.0 + rhs.0)
    }
}

struct NoFrames;

impl FrameAllocator<FrameSize4K> for NoFrames {
    type Error = ();

    fn alloc_frame(&mut self) -> Result<VFrame<FrameSize4K>, ()> {
        Err(())
    }

    fn dealloc_frame(&mut self, _frame: VFrame<FrameSize4K>) -> Result<(), ()> {
        Err(())
    }
}

/// Records the ranges it is asked to map, and fails on the `fail_at`-th.
struct Recorder {
    calls: Vec<(u64, u64, u64, u8)>,
    fail_at: Option<usize>,
    out_of_frames: bool,
}

impl Mapper<FrameSize4K> for Recorder {
    type Flush = Flushes;
    type PGTFrameSize = FrameSize4K;

    fn map<A: FrameAllocator<FrameSize4K>>(
        &mut self,
        _pframe: PFrame<FrameSize4K>,
        _vframe: VFrame<FrameSize4K>,
        _flags: MapFlags,
        _alloc: &mut A,
    ) -> Result<Flushes, MapError<A::Error>> {
        Ok(Flushes(1))
    }

    fn unmap<A: FrameAllocator<FrameSize4K>>(
        &mut self,
        _vframe: VFrame<FrameSize4K>,
        _alloc: &mut A,
    ) -> Result<Flushes, UnmapError<A::Error>> {
        Err(UnmapError::NotMapped)
    }
}

impl RangeMapper<FrameSize4K> for Recorder {
    fn map_range<A: FrameAllocator<FrameSize4K>>(
        &mut self,
        prange: PFrameRange<FrameSize4K>,
        vbase: VFrame<FrameSize4K>,
        flags: MapFlags,
        alloc: &mut A,
    ) -> Result<Flushes, MapError<A::Error>> {
        if self.fail_at == Some(self.calls.len()) {
            if self.out_of_frames {
                return match alloc.alloc_frame() {
                    Err(e) => Err(MapError::from_frame_alloc_error(e)),
                    Ok(_) => Err(MapError::AlreadyMapped),
                };
            }
            return Err(MapError::AlreadyMapped);
        }
        self.calls.push((
            prange.start().addr().as_u64(),
            prange.end().addr().as_u64(),
            vbase.addr().as_u64(),
            flags.bits(),
        ));
        Ok(Flushes(1))
    }

    fn unmap_range<A: FrameAllocator<FrameSize4K>>(
        &mut self,
        _vrange: VFrameRange<FrameSize4K>,
        _alloc: &mut A,
    ) -> Result<Flushes, UnmapError<A::Error>> {
        Err(UnmapError::NotMapped)
    }
}

const VBASE: u64 = 0xffff_8000_0000_0000;

#[test]
fn map_elf_load_sections_maps_each_segment() {
    let b = image(0x1000);
    let elf = Elf::new(&b).unwrap();
    let mut mapper = Recorder { calls: Vec::new(), fail_at: None, out_of_frames: false };
    let pbase = PFrame::new(PAddr::new(0x10_0000));
    let vbase = VFrame::new(VAddr::new(VBASE));
    let r = mapper.map_elf_load_sections(&elf, pbase, vbase, MapFlags::GLOBAL(), &mut NoFrames);
    assert_eq!(r.ok().map(|f| f.0), Some(2));
    assert_eq!(
        mapper.calls,
        vec![
            (0x10_1000, 0x10_3000, VBASE + 0x1000, 0b0001_0010),
            (0x10_3000, 0x10_4000, VBASE + 0x3000, 0b0001_0001),
        ]
    );
}

#[test]
fn map_elf_load_sections_rejects_misaligned_segments() {
    let b = image(0x200);
    let elf = Elf::new(&b).unwrap();
    let mut mapper = Recorder { calls: Vec::new(), fail_at: None, out_of_frames: false };
    let pbase = PFrame::new(PAddr::new(0x10_0000));
    let vbase = VFrame::new(VAddr::new(VBASE));
    let r = mapper.map_elf_load_sections(&elf, pbase, vbase, MapFlags::empty(), &mut NoFrames);
    assert!(matches!(r, Err(MapElfError::InvalidAlignment)));
    assert!(mapper.calls.is_empty());
}

#[test]
fn map_elf_load_sections_stops_at_first_error() {
    let b = image(0x1000);
    let elf = Elf::new(&b).unwrap();
    let mut mapper = Recorder { calls: Vec::new(), fail_at: Some(1), out_of_frames: false };
    let pbase = PFrame::new(PAddr::new(0));
    let vbase = VFrame::new(VAddr::new(0));
    let r = mapper.map_elf_load_sections(&elf, pbase, vbase, MapFlags::empty(), &mut NoFrames);
    assert!(matches!(r, Err(MapElfError::AlreadyMapped)));
    assert_eq!(mapper.calls, vec![(0x1000, 0x3000, 0x1000, 0b0000_0010)]);
}

fn dynamic_bytes(entries: &[(u64, u64)]) -> Vec<u8> {
    let mut d = Vec::new();
    for (tag, val) in entries {
        d.extend_from_slice(&tag.to_le_bytes());
        d.extend_from_slice(&val.to_le_bytes());
    }
    d
}

#[test]
fn dynamic_rela_tables() {
    let b = image(0x1000);
    let elf = Elf::new(&b).unwrap();
    let d = dynamic_bytes(&[(7, SYMOFF as u64), (8, 48)]);
    let rela = Dynamic::new(&d).rela(&elf).unwrap();
    assert_eq!(rela.len(), 2);
    let e = rela.get(1);
    assert_eq!(e.offset(), 0x12_0000_0001);
    assert_eq!(e.info(), 0x1234);
    assert_eq!(e.sym(), 0);
    assert_eq!(e.typ(), 0x1234);
    assert_eq!(e.addend(), 0);
    assert!(Dynamic::new(&dynamic_bytes(&[(7, 0)])).rela(&elf).is_none());

    let d = dynamic_bytes(&[(23, SYMOFF as u64), (2, 24), (20, 7)]);
    assert_eq!(Dynamic::new(&d).relaplt(&elf).map(|r| r.len()), Some(1));
    let d = dynamic_bytes(&[(23, SYMOFF as u64), (2, 24), (20, 17)]);
    assert!(Dynamic::new(&d).relaplt(&elf).is_none());
    let d = dynamic_bytes(&[(20, 7), (23, 0), (2, 48)]);
    assert_eq!(Dynamic::new(&d).relaplt(&elf).map(|r| r.len()), Some(2));
}

#[test]
fn map_elf_load_sections_reports_allocation_failure() {
    let b = image(0x1000);
    let elf = Elf::new(&b).unwrap();
    let mut mapper = Recorder { calls: Vec::new(), fail_at: Some(0), out_of_frames: true };
    let pbase = PFrame::new(PAddr::new(0));
    let vbase = VFrame::new(VAddr::new(0));
    let r = mapper.map_elf_load_sections(&elf, pbase, vbase, MapFlags::empty(), &mut NoFrames);
    assert!(matches!(r, Err(MapElfError::FrameAllocError(()))));
    assert!(mapper.calls.is_empty());
}

#[test]
fn logging_mapper_forwards_requests() {
    let inner = Recorder { calls: Vec::new(), fail_at: Some(1), out_of_frames: false };
    let mut mapper = LoggingMapper::new(inner);
    let prange = PFrameRange::new(PFrame::new(PAddr::new(0x2000)), PFrame::new(PAddr::new(0x4000)));
    let vbase = VFrame::new(VAddr::new(0x8000));
    let r = mapper.map_range(prange, vbase, MapFlags::empty(), &mut NoFrames);
    assert_eq!(r.ok().map(|f| f.0), Some(1));
    let r = mapper.map_range(prange, vbase, MapFlags::empty(), &mut NoFrames);
    assert!(matches!(r, Err(MapError::AlreadyMapped)));
    assert!(matches!(
        mapper.unmap(vbase, &mut NoFrames),
        Err(UnmapError::NotMapped)
    ));
    assert_eq!(mapper.inner().calls, vec![(0x2000, 0x4000, 0x8000, 0)]);
}

#[test]
fn map_elf_load_sections_maps_nothing_when_a_later_segment_is_misaligned() {
    let mut b = image(0x1000);
    put_u64(&mut b, PHOFF + 112 + 48, 0x200);
    let elf = Elf::new(&b).unwrap();
    let mut mapper = Recorder { calls: Vec::new(), fail_at: None, out_of_frames: false };
    let pbase = PFrame::new(PAddr::new(0x10_0000));
    let vbase = VFrame::new(VAddr::new(VBASE));
    let r = mapper.map_elf_load_sections(&elf, pbase, vbase, MapFlags::empty(), &mut NoFrames);
    assert!(matches!(r, Err(MapElfError::InvalidAlignment)));
    assert!(mapper.calls.is_empty());
}

#[test]
fn symtab_lookup_needs_only_the_names_it_reads_terminated() {
    let b = image(0x1000);
    let elf = Elf::new(&b).unwrap();
    let mut d = Vec::new();
    for (tag, val) in [(6u64, SYMOFF as u64), (0, 0)] {
        d.extend_from_slice(&tag.to_le_bytes());
        d.extend_from_slice(&val.to_le_bytes());
    }
    let dynamic = Dynamic::new(&d);
    let symtab = dynamic.symtab(&elf).unwrap();
    let mut table = b[STROFF..].to_vec();
    table.extend_from_slice(b"tail");
    let strtab = StrTab::new(&table);
    assert_eq!(symtab.lookup("start", &strtab).unwrap().value(), 0x1234);
    assert!(symtab.lookup("stop", &strtab).is_none());
}
