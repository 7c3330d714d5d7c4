use umbra::elf::{copy_chunks, plan_elf, segment_kind, segment_pages, CopyChunk, ElfError, Segment, SegmentKind};

fn put(b: &mut [u8], at: usize, v: &[u8]) {
    b[at..at + v.len()].copy_from_slice(v);
}

/// (type, offset, vaddr, filesz, memsz)
fn elf64(entry: u64, phoff: u64, headers: &[(u32, u64, u64, u64, u64)], total: usize) -> Vec<u8> {
    let mut b = vec![0u8; total];
    put(&mut b, 0, &[0x7F, b'E', b'L', b'F', 2, 1, 1]);
    put(&mut b, 16, &2u16.to_le_bytes());
    put(&mut b, 18, &0x3Eu16.to_le_bytes());
    put(&mut b, 20, &1u32.to_le_bytes());
    put(&mut b, 24, &entry.to_le_bytes());
    put(&mut b, 32, &phoff.to_le_bytes());
    put(&mut b, 52, &64u16.to_le_bytes());
    put(&mut b, 54, &56u16.to_le_bytes());
    put(&mut b, 56, &(headers.len() as u16).to_le_bytes());
    for (i, &(t, off, vaddr, filesz, memsz)) in headers.iter().enumerate() {
        let s = phoff as usize + i * 56;
        if s + 56 > b.len() {
            continue;
        }
        put(&mut b, s, &t.to_le_bytes());
        put(&mut b, s + 4, &5u32.to_le_bytes());
        put(&mut b, s + 8, &off.to_le_bytes());
        put(&mut b, s + 16, &vaddr.to_le_bytes());
        put(&mut b, s + 24, &vaddr.to_le_bytes());
        put(&mut b, s + 32, &filesz.to_le_bytes());
        put(&mut b, s + 40, &memsz.to_le_bytes());
        put(&mut b, s + 48, &0x1000u64.to_le_bytes());
    }
    b
}

#[test]
fn plans_loadable_segments_in_order() {
    let bytes = elf64(
        0x40_1000,
        64,
        &[(1, 0x1000, 0x40_0000, 0x200, 0x200), (4, 0, 0, 0, 0), (1, 0x2000, 0x60_0000, 0x10, 0x3000)],
        0x3000,
    );
    let img = plan_elf(&bytes).unwrap();
    assert_eq!(img.entry, 0x40_1000);
    assert_eq!(
        img.segments,
        vec![
            Segment { kind: SegmentKind::Load, virt_start: 0x40_0000, mem_size: 0x200, file_offset: 0x1000, file_size: 0x200 },
            Segment { kind: SegmentKind::Load, virt_start: 0x60_0000, mem_size: 0x3000, file_offset: 0x2000, file_size: 0x10 },
        ]
    );
}

#[test]
fn rejects_what_is_not_elf() {
    assert_eq!(plan_elf(b"\x7fELG and more bytes than a header needs...........................").err(), Some(ElfError::NotElf));
    assert_eq!(plan_elf(&[0x7F, b'E', b'L', b'F']).err(), Some(ElfError::NotElf));
    let mut bad_class = elf64(0, 64, &[], 128);
    bad_class[4] = 3;
    assert_eq!(plan_elf(&bad_class).err(), Some(ElfError::NotElf));
    let short = elf64(0, 64, &[], 128);
    assert_eq!(plan_elf(&short[..60]).err(), Some(ElfError::NotElf));
}

#[test]
fn rejects_unknown_segment_types() {
    let bytes = elf64(0x1000, 64, &[(1, 0, 0x1000, 0, 0x10), (0x1234_5678, 0, 0, 0, 0)], 512);
    assert_eq!(plan_elf(&bytes).err(), Some(ElfError::InvalidSegmentType));
    let os = elf64(0x1000, 64, &[(0x6474_e552, 0, 0, 0, 0)], 512);
    assert!(plan_elf(&os).unwrap().segments.is_empty());
}

#[test]
fn reads_program_headers_at_any_offset_and_from_any_address() {
    for phoff in [65u64, 68, 72] {
        let bytes = elf64(0x1000, phoff, &[(1, 0, 0x1000, 0, 0x10)], 512);
        let img = plan_elf(&bytes).unwrap();
        assert_eq!(img.segments.len(), 1);
        assert_eq!(img.segments[0].virt_start, 0x1000);
        assert_eq!(img.segments[0].mem_size, 0x10);
    }
    // The same image one byte past an aligned address.
    let bytes = elf64(0x4000, 64, &[(1, 0x100, 0x2000, 0x20, 0x30)], 512);
    let mut shifted = vec![0u8; bytes.len() + 1];
    shifted[1..].copy_from_slice(&bytes);
    let img = plan_elf(&shifted[1..]).unwrap();
    assert_eq!(img.entry, 0x4000);
    assert_eq!(
        img.segments,
        vec![Segment { kind: SegmentKind::Load, virt_start: 0x2000, mem_size: 0x30, file_offset: 0x100, file_size: 0x20 }]
    );
}

#[test]
fn rejects_headers_past_the_end() {
    let bytes = elf64(0x1000, 64, &[(1, 0, 0x1000, 0, 0x10), (1, 0, 0x2000, 0, 0x10)], 64 + 56 + 20);
    assert_eq!(plan_elf(&bytes).err(), Some(ElfError::HeaderOutOfFile));
}

#[test]
fn no_program_header_table_means_no_segments() {
    let mut bytes = elf64(0x1234, 0, &[], 256);
    put(&mut bytes, 56, &3u16.to_le_bytes());
    let img = plan_elf(&bytes).unwrap();
    assert_eq!(img.entry, 0x1234);
    assert!(img.segments.is_empty());
}

#[test]
fn plans_32_bit_files() {
    let mut b = vec![0u8; 256];
    put(&mut b, 0, &[0x7F, b'E', b'L', b'F', 1, 1, 1]);
    put(&mut b, 24, &0x8048_000u32.to_le_bytes());
    put(&mut b, 28, &52u32.to_le_bytes());
    put(&mut b, 42, &32u16.to_le_bytes());
    put(&mut b, 44, &1u16.to_le_bytes());
    put(&mut b, 52, &1u32.to_le_bytes());
    put(&mut b, 56, &0x80u32.to_le_bytes());
    put(&mut b, 60, &0x8048_000u32.to_le_bytes());
    put(&mut b, 68, &0x40u32.to_le_bytes());
    put(&mut b, 72, &0x100u32.to_le_bytes());
    let img = plan_elf(&b).unwrap();
    assert_eq!(img.entry, 0x8048_000);
    assert_eq!(
        img.segments,
        vec![Segment { kind: SegmentKind::Load, virt_start: 0x8048_000, mem_size: 0x100, file_offset: 0x80, file_size: 0x40 }]
    );
}

#[test]
fn copy_is_split_at_page_boundaries() {
    let chunks = copy_chunks(0x40_0F00, 0x100, 0x1200);
    assert_eq!(
        chunks,
        vec![
            CopyChunk { virt: 0x40_0F00, src: 0x100, len: 0x100 },
            CopyChunk { virt: 0x40_1000, src: 0x200, len: 0x1000 },
            CopyChunk { virt: 0x40_2000, src: 0x1200, len: 0x100 },
        ]
    );
    assert!(copy_chunks(0x1000, 0, 0).is_empty());
    assert_eq!(copy_chunks(0x1000, 5, 10), vec![CopyChunk { virt: 0x1000, src: 5, len: 10 }]);
}

#[test]
fn segment_page_range() {
    let seg = Segment { kind: SegmentKind::Load, virt_start: 0x40_0123, mem_size: 0x2000, file_offset: 0, file_size: 0 };
    assert_eq!(segment_pages(&seg), (0x40_0000, 0x40_2000));
    let one = Segment { kind: SegmentKind::Load, virt_start: 0x5000, mem_size: 0x1000, file_offset: 0, file_size: 0 };
    assert_eq!(segment_pages(&one), (0x5000, 0x5000));
}

#[test]
fn reads_32_bit_program_headers() {
    let mut b = vec![0u8; 256];
    put(&mut b, 0, &[0x7F, b'E', b'L', b'F', 1, 1, 1]);
    put(&mut b, 24, &0x8000u32.to_le_bytes());
    put(&mut b, 28, &52u32.to_le_bytes());
    put(&mut b, 42, &32u16.to_le_bytes());
    put(&mut b, 44, &2u16.to_le_bytes());
    // A load segment, then a note.
    put(&mut b, 52, &1u32.to_le_bytes());
    put(&mut b, 56, &0x80u32.to_le_bytes());
    put(&mut b, 60, &0x9000u32.to_le_bytes());
    put(&mut b, 68, &0x10u32.to_le_bytes());
    put(&mut b, 72, &0x40u32.to_le_bytes());
    put(&mut b, 84, &4u32.to_le_bytes());
    let img = plan_elf(&b).unwrap();
    assert_eq!(img.entry, 0x8000);
    assert_eq!(
        img.segments,
        vec![Segment { kind: SegmentKind::Load, virt_start: 0x9000, mem_size: 0x40, file_offset: 0x80, file_size: 0x10 }]
    );
    assert_eq!(plan_elf(&b[..51]).err(), Some(ElfError::NotElf));
}

#[test]
fn segment_types_are_classified_as_the_format_defines() {
    assert_eq!(segment_kind(1), SegmentKind::Load);
    for t in [0u32, 2, 3, 4, 5, 6, 7, 0x6000_0000, 0x6474_E552, 0x6FFF_FFFF, 0x7000_0000, 0x7FFF_FFFF] {
        assert_eq!(segment_kind(t), SegmentKind::Other);
    }
    for t in [8u32, 0x5FFF_FFFF, 0x8000_0000, u32::MAX] {
        assert_eq!(segment_kind(t), SegmentKind::Invalid);
    }
}
