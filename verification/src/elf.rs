use vstd::prelude::*;
use vstd::bytes::*;

verus! {

/// Size of a page the loader maps.
pub const PAGE_SIZE: u64 = 4096;
/// Program header type of a loadable segment.
pub const PT_LOAD: u32 = 1;

/// Little-endian integers at a byte offset of a file.
pub open spec fn le16(b: Seq<u8>, at: int) -> u16 {
    spec_u16_from_le_bytes(b.subrange(at, at + 2))
}

pub open spec fn le32(b: Seq<u8>, at: int) -> u32 {
    spec_u32_from_le_bytes(b.subrange(at, at + 4))
}

pub open spec fn le64(b: Seq<u8>, at: int) -> u64 {
    spec_u64_from_le_bytes(b.subrange(at, at + 8))
}

/// The file uses the 64-bit layout (class byte 2); otherwise the 32-bit one.
pub open spec fn elf_is_64(b: Seq<u8>) -> bool {
    b[4] == 2
}

/// The file starts with a complete ELF header: the magic `7F 'E' 'L' 'F'`,
/// class 1 (32-bit, 52-byte header) or 2 (64-bit, 64-byte header).
pub open spec fn elf_header_ok(b: Seq<u8>) -> bool {
    &&& b.len() >= 16
    &&& b[0] == 0x7F && b[1] == 0x45 && b[2] == 0x4C && b[3] == 0x46
    &&& (b[4] == 1 && b.len() >= 52) || (b[4] == 2 && b.len() >= 64)
}

/// Header fields: entry point, program header table offset, entry size and count.
pub open spec fn elf_entry(b: Seq<u8>) -> u64 {
    if elf_is_64(b) { le64(b, 24) } else { le32(b, 24) as u64 }
}

pub open spec fn elf_ph_offset(b: Seq<u8>) -> u64 {
    if elf_is_64(b) { le64(b, 32) } else { le32(b, 28) as u64 }
}

pub open spec fn elf_ph_entry_size(b: Seq<u8>) -> u16 {
    if elf_is_64(b) { le16(b, 54) } else { le16(b, 42) }
}

pub open spec fn elf_ph_count(b: Seq<u8>) -> u16 {
    if elf_is_64(b) { le16(b, 56) } else { le16(b, 44) }
}

/// The file declares a program header table (non-zero offset and entry size).
pub open spec fn elf_has_program_headers(b: Seq<u8>) -> bool {
    elf_ph_offset(b) > 0 && elf_ph_entry_size(b) > 0
}

/// Where program header `i` starts.
pub open spec fn ph_start(b: Seq<u8>, i: int) -> int {
    elf_ph_offset(b) + i * elf_ph_entry_size(b)
}

/// Program header `i` lies inside the file, and its entry is large enough
/// for a header record (56 bytes in 64-bit files, 32 in 32-bit ones).
pub open spec fn ph_fits(b: Seq<u8>, i: int) -> bool {
    &&& ph_start(b, i) + elf_ph_entry_size(b) <= b.len()
    &&& (if elf_is_64(b) { 56int } else { 32int }) <= elf_ph_entry_size(b)
}

/// A program header type is one the ELF format defines: 0 to 7, or in the
/// OS- or processor-specific range.
pub open spec fn ph_type_known(t: u32) -> bool {
    t <= 7 || (0x6000_0000 <= t <= 0x7FFF_FFFF)
}

/// How the loader treats a segment.
#[derive(Debug, Clone, Copy, PartialEq, Eq)]
pub enum SegmentKind {
    Load,
    Other,
    Invalid,
}

/// The fields of a program header the loader uses.
#[derive(Debug, Clone, Copy, PartialEq, Eq)]
pub struct Segment {
    pub kind: SegmentKind,
    pub virt_start: u64,
    pub mem_size: u64,
    pub file_offset: u64,
    pub file_size: u64,
}

/// The kind of a program header type code.
pub open spec fn kind_of(t: u32) -> SegmentKind {
    if t == PT_LOAD {
        SegmentKind::Load
    } else if ph_type_known(t) {
        SegmentKind::Other
    } else {
        SegmentKind::Invalid
    }
}

/// Size of a program header record: 56 bytes in 64-bit files, 32 in 32-bit ones.
pub open spec fn record_size(is_64: bool) -> int {
    if is_64 { 56 } else { 32 }
}

/// The address and size fields of a program header.
#[derive(Debug, Clone, Copy, PartialEq, Eq)]
pub struct PhFields {
    pub virt_start: u64,
    pub mem_size: u64,
    pub file_offset: u64,
    pub file_size: u64,
}

/// The address and size fields of the record `r` (64-bit or 32-bit layout).
pub open spec fn record_fields(r: Seq<u8>, is_64: bool) -> PhFields {
    if is_64 {
        PhFields { virt_start: le64(r, 16), mem_size: le64(r, 40), file_offset: le64(r, 8), file_size: le64(r, 32) }
    } else {
        PhFields {
            virt_start: le32(r, 8) as u64,
            mem_size: le32(r, 20) as u64,
            file_offset: le32(r, 4) as u64,
            file_size: le32(r, 16) as u64,
        }
    }
}

/// How the loader treats a segment of type `t`, as xmas-elf's
/// `Type_::as_type` classifies type codes: 1 is a loadable segment, another
/// code the format defines (0 to 7, or in the OS- or processor-specific
/// range, which holds `PT_GNU_RELRO`) is some other segment, and any other
/// code is rejected.
pub fn segment_kind(t: u32) -> (k: SegmentKind)
    ensures
        k == kind_of(t),
{
    if t == PT_LOAD {
        SegmentKind::Load
    } else if t <= 7 || (0x6000_0000 <= t && t <= 0x7FFF_FFFF) {
        SegmentKind::Other
    } else {
        SegmentKind::Invalid
    }
}

/// The program header held in the record `r` (64-bit or 32-bit layout).
pub open spec fn record_segment(r: Seq<u8>, is_64: bool) -> Segment {
    if is_64 {
        Segment {
            kind: kind_of(le32(r, 0)),
            virt_start: le64(r, 16),
            mem_size: le64(r, 40),
            file_offset: le64(r, 8),
            file_size: le64(r, 32),
        }
    } else {
        Segment {
            kind: kind_of(le32(r, 0)),
            virt_start: le32(r, 8) as u64,
            mem_size: le32(r, 20) as u64,
            file_offset: le32(r, 4) as u64,
            file_size: le32(r, 16) as u64,
        }
    }
}

/// Program header `i` as recorded in the file.
pub open spec fn spec_segment(b: Seq<u8>, i: int) -> Segment {
    let s = ph_start(b, i);
    record_segment(b.subrange(s, s + record_size(elf_is_64(b))), elf_is_64(b))
}

/// The header fields of an ELF file.
#[derive(Debug, Clone, Copy)]
pub struct ElfHeader {
    pub entry: u64,
    pub ph_offset: u64,
    pub ph_entry_size: u16,
    pub ph_count: u16,
}

/// Reads an ELF header through `xmas_elf::ElfFile::new` and the header's
/// `entry_point`, `ph_offset`, `ph_entry_size` and `ph_count`, from `head`,
/// the first bytes of a file (at most 64: the largest header). The crate
/// reads its header records in place and panics unless they are aligned in
/// memory, so the bytes are first copied into cache-line-aligned storage
/// (`crossbeam_utils::CachePadded`). The parse succeeds exactly on a complete
/// header with the magic and class 1 or 2, and the fields are the file's
/// values. The crate reads them in the machine's byte order; they are stated
/// little-endian, the order of x86-64.
#[verifier::external_body]
fn elf_header(head: &[u8]) -> (r: Result<ElfHeader, &'static str>)
    requires
        head@.len() <= 64,
    ensures
        r is Ok <==> elf_header_ok(head@),
        r matches Ok(h) ==> {
            &&& h.entry == elf_entry(head@)
            &&& h.ph_offset == elf_ph_offset(head@)
            &&& h.ph_entry_size == elf_ph_entry_size(head@)
            &&& h.ph_count == elf_ph_count(head@)
        },
{
    let mut buf = crossbeam_utils::CachePadded::new([0u8; 64]);
    buf[..head.len()].copy_from_slice(head);
    let elf = xmas_elf::ElfFile::new(&buf[..head.len()])?;
    let pt2 = &elf.header.pt2;
    Ok(ElfHeader {
        entry: pt2.entry_point(),
        ph_offset: pt2.ph_offset(),
        ph_entry_size: pt2.ph_entry_size(),
        ph_count: pt2.ph_count(),
    })
}

/// Reads a 64-bit program header record with `zero::read` (the reader
/// xmas-elf itself uses) as an `xmas_elf::program::ProgramHeader64`, then the
/// header's `virtual_addr`, `mem_size`, `offset` and `file_size`. The record
/// is first copied into cache-line-aligned storage, since `zero::read` panics
/// on a misaligned record. The fields are the record's values (read in the
/// machine's byte order, stated little-endian as on x86-64).
#[verifier::external_body]
fn program_header64(record: &[u8]) -> (f: PhFields)
    requires
        record@.len() == 56,
    ensures
        f == record_fields(record@, true),
{
    let mut buf = crossbeam_utils::CachePadded::new([0u8; 56]);
    buf.copy_from_slice(record);
    let ph = xmas_elf::program::ProgramHeader::Ph64(zero::read(&buf[..]));
    PhFields { virt_start: ph.virtual_addr(), mem_size: ph.mem_size(), file_offset: ph.offset(), file_size: ph.file_size() }
}

/// Reads a 32-bit program header record with `zero::read` as an
/// `xmas_elf::program::ProgramHeader32`, then the header's `virtual_addr`,
/// `mem_size`, `offset` and `file_size`, widened to 64 bits. The record is
/// first copied into cache-line-aligned storage, since `zero::read` panics
/// on a misaligned record. The fields are the record's values
/// (little-endian, as on x86-64).
#[verifier::external_body]
fn program_header32(record: &[u8]) -> (f: PhFields)
    requires
        record@.len() == 32,
    ensures
        f == record_fields(record@, false),
{
    let mut buf = crossbeam_utils::CachePadded::new([0u8; 32]);
    buf.copy_from_slice(record);
    let ph = xmas_elf::program::ProgramHeader::Ph32(zero::read(&buf[..]));
    PhFields { virt_start: ph.virtual_addr(), mem_size: ph.mem_size(), file_offset: ph.offset(), file_size: ph.file_size() }
}

/// Why an ELF image cannot be loaded.
#[derive(Debug, Clone, Copy, PartialEq, Eq)]
pub enum ElfError {
    /// No complete ELF header.
    NotElf,
    /// A program header lies outside the file or is too small.
    HeaderOutOfFile,
    /// A program header has a type code the format does not define.
    InvalidSegmentType,
}

/// The loadable segments among program headers `0..k`, in file order, or the
/// error met first.
pub open spec fn spec_plan(b: Seq<u8>, k: nat) -> Result<Seq<Segment>, ElfError>
    decreases k,
{
    if k == 0 {
        Ok(Seq::empty())
    } else {
        match spec_plan(b, (k - 1) as nat) {
            Err(e) => Err(e),
            Ok(s) => if !ph_fits(b, k - 1) {
                Err(ElfError::HeaderOutOfFile)
            } else {
                let seg = spec_segment(b, k - 1);
                match seg.kind {
                    SegmentKind::Invalid => Err(ElfError::InvalidSegmentType),
                    SegmentKind::Load => Ok(s.push(seg)),
                    SegmentKind::Other => Ok(s),
                }
            },
        }
    }
}

/// The first `n = min(len, 64)` bytes of a file hold all of its header: the
/// header is complete in them exactly when it is in the file, with the same
/// fields.
proof fn lemma_header_prefix(b: Seq<u8>, n: int)
    requires
        n == (if b.len() < 64 { b.len() as int } else { 64 }),
    ensures
        elf_header_ok(b.subrange(0, n)) == elf_header_ok(b),
        elf_header_ok(b) ==> {
            let h = b.subrange(0, n);
            &&& elf_entry(h) == elf_entry(b)
            &&& elf_ph_offset(h) == elf_ph_offset(b)
            &&& elf_ph_entry_size(h) == elf_ph_entry_size(b)
            &&& elf_ph_count(h) == elf_ph_count(b)
        },
{
    let h = b.subrange(0, n);
    if elf_header_ok(b) {
        assert(h.subrange(24, 32) =~= b.subrange(24, 32));
        assert(h.subrange(24, 28) =~= b.subrange(24, 28));
        assert(h.subrange(32, 40) =~= b.subrange(32, 40));
        assert(h.subrange(28, 32) =~= b.subrange(28, 32));
        if elf_is_64(b) {
            assert(h.subrange(54, 56) =~= b.subrange(54, 56));
            assert(h.subrange(56, 58) =~= b.subrange(56, 58));
        } else {
            assert(h.subrange(42, 44) =~= b.subrange(42, 44));
            assert(h.subrange(44, 46) =~= b.subrange(44, 46));
        }
    }
}

/// Once the walk has failed, walking further headers reports the same error.
proof fn lemma_plan_error_stays(b: Seq<u8>, i: nat, k: nat)
    requires
        i <= k,
        spec_plan(b, i) is Err,
    ensures
        spec_plan(b, k) == spec_plan(b, i),
    decreases k - i,
{
    if i < k {
        lemma_plan_error_stays(b, i, (k - 1) as nat);
    }
}

/// Number of program headers the loader walks: all of them when the file
/// has a program header table, none otherwise.
pub open spec fn walked_headers(b: Seq<u8>) -> nat {
    if elf_has_program_headers(b) {
        elf_ph_count(b) as nat
    } else {
        0
    }
}

/// What loading an executable needs: its entry point and its loadable
/// segments in file order.
#[derive(Debug)]
pub struct ElfImage {
    pub entry: u64,
    pub segments: Vec<Segment>,
}

/// Reads an executable: its entry point and the `PT_LOAD` segments, in the
/// order of the program header table. The bytes may lie anywhere in memory:
/// the header and each program header record are read from aligned copies.
pub fn plan_elf(bytes: &[u8]) -> (r: Result<ElfImage, ElfError>)
    ensures
        !elf_header_ok(bytes@) ==> r == Err::<ElfImage, ElfError>(ElfError::NotElf),
        elf_header_ok(bytes@) ==> match spec_plan(bytes@, walked_headers(bytes@)) {
            Ok(s) => r matches Ok(img) && img.entry == elf_entry(bytes@) && img.segments@ == s,
            Err(e) => r == Err::<ElfImage, ElfError>(e),
        },
{
    let head_len: usize = if bytes.len() < 64 {
        bytes.len()
    } else {
        64
    };
    proof {
        lemma_header_prefix(bytes@, head_len as int);
    }
    let h = match elf_header(&bytes[0..head_len]) {
        Ok(h) => h,
        Err(_) => {
            return Err(ElfError::NotElf);
        },
    };
    let ghost b = bytes@;
    let n: u16 = if h.ph_offset > 0 && h.ph_entry_size > 0 {
        h.ph_count
    } else {
        0
    };
    let mut segments: Vec<Segment> = Vec::new();
    let mut i: u16 = 0;
    while i < n
        invariant
            b == bytes@,
            elf_header_ok(b),
            h.ph_offset == elf_ph_offset(b),
            h.ph_entry_size == elf_ph_entry_size(b),
            h.ph_count == elf_ph_count(b),
            n == walked_headers(b),
            i <= n,
            spec_plan(b, i as nat) == Ok::<Seq<Segment>, ElfError>(segments@),
        decreases n - i,
    {
        let entry_size = h.ph_entry_size as u64;
        assert((i as u128) * (entry_size as u128) <= 0xFFFF * 0xFFFF) by (nonlinear_arith)
            requires
                i <= 0xFFFF,
                entry_size <= 0xFFFF,
        ;
        let start: u128 = h.ph_offset as u128 + (i as u128) * (entry_size as u128);
        let record: u64 = if bytes.len() >= 4 && bytes[4] == 2 {
            56
        } else {
            32
        };
        if start + entry_size as u128 > bytes.len() as u128 || entry_size < record {
            proof {
                assert(!ph_fits(b, i as int));
                assert(spec_plan(b, (i + 1) as nat) == Err::<Seq<Segment>, ElfError>(
                    ElfError::HeaderOutOfFile,
                ));
                lemma_plan_error_stays(b, (i + 1) as nat, n as nat);
            }
            return Err(ElfError::HeaderOutOfFile);
        }
        let rec_start = start as usize;
        let fields = if record == 56 {
            program_header64(&bytes[rec_start..rec_start + 56])
        } else {
            program_header32(&bytes[rec_start..rec_start + 32])
        };
        let code = u32_from_le_bytes(&bytes[rec_start..rec_start + 4]);
        let seg = Segment {
            kind: segment_kind(code),
            virt_start: fields.virt_start,
            mem_size: fields.mem_size,
            file_offset: fields.file_offset,
            file_size: fields.file_size,
        };
        proof {
            let r = b.subrange(rec_start as int, rec_start + record);
            assert(r.subrange(0, 4) =~= b.subrange(rec_start as int, rec_start + 4));
        }
        assert(seg == spec_segment(b, i as int));
        match seg.kind {
            SegmentKind::Invalid => {
                proof {
                    assert(spec_plan(b, (i + 1) as nat) == Err::<Seq<Segment>, ElfError>(
                        ElfError::InvalidSegmentType,
                    ));
                    lemma_plan_error_stays(b, (i + 1) as nat, n as nat);
                }
                return Err(ElfError::InvalidSegmentType);
            },
            SegmentKind::Load => {
                segments.push(seg);
            },
            SegmentKind::Other => {},
        }
        i = i + 1;
    }
    Ok(ElfImage { entry: h.entry, segments })
}

/// The start of the page holding `a`.
pub open spec fn page_of(a: int) -> int {
    a - a % (PAGE_SIZE as int)
}

/// The first and last page a segment occupies in memory (the pages holding
/// its first and its last byte).
pub fn segment_pages(seg: &Segment) -> (r: (u64, u64))
    requires
        seg.virt_start + seg.mem_size >= 1,
        seg.virt_start + seg.mem_size <= u64::MAX,
    ensures
        r.0 == page_of(seg.virt_start as int),
        r.1 == page_of(seg.virt_start + seg.mem_size - 1),
{
    let last = seg.virt_start + seg.mem_size - 1;
    (seg.virt_start - seg.virt_start % PAGE_SIZE, last - last % PAGE_SIZE)
}

/// One copy of file bytes into a page: `len` bytes from file offset `src`
/// to virtual address `virt`.
#[derive(Debug, Clone, Copy, PartialEq, Eq)]
pub struct CopyChunk {
    pub virt: u64,
    pub src: usize,
    pub len: usize,
}

/// `chunks` copies `size` bytes from file offset `src` to address `virt`,
/// page by page: the chunks follow one another in the file and in memory,
/// none crosses a page boundary, every chunk but the last ends on one, and
/// together they cover the range exactly.
pub open spec fn tiles(chunks: Seq<CopyChunk>, virt: int, src: int, size: int) -> bool {
    &&& (chunks.len() == 0 <==> size == 0)
    &&& chunks.len() > 0 ==> chunks[0].virt == virt && chunks[0].src == src
    &&& forall|k: int|
        0 <= k < chunks.len() ==> #[trigger] chunks[k].len > 0 && chunks[k].virt % PAGE_SIZE + chunks[k].len <= PAGE_SIZE
    &&& forall|k: int|
        0 <= k < chunks.len() - 1 ==> {
            &&& #[trigger] chunks[k].virt % PAGE_SIZE + chunks[k].len == PAGE_SIZE
            &&& chunks[k + 1].virt == chunks[k].virt + chunks[k].len
            &&& chunks[k + 1].src == chunks[k].src + chunks[k].len
        }
    &&& chunks.len() > 0 ==> chunks.last().src + chunks.last().len == src + size
}

/// Splits the copy of a segment's file bytes into page-sized pieces, each
/// starting where the previous one ended.
pub fn copy_chunks(virt_start: u64, file_offset: usize, file_size: usize) -> (r: Vec<CopyChunk>)
    requires
        virt_start + file_size <= u64::MAX,
        file_offset + file_size <= usize::MAX,
    ensures
        tiles(r@, virt_start as int, file_offset as int, file_size as int),
{
    let mut chunks: Vec<CopyChunk> = Vec::new();
    let mut remaining = file_size;
    let mut src = file_offset;
    let mut virt = virt_start;
    while remaining > 0
        invariant
            virt_start + file_size <= u64::MAX,
            file_offset + file_size <= usize::MAX,
            remaining <= file_size,
            src == file_offset + (file_size - remaining),
            virt == virt_start + (file_size - remaining),
            (chunks@.len() == 0 <==> remaining == file_size),
            chunks@.len() > 0 ==> chunks@[0].virt == virt_start && chunks@[0].src == file_offset,
            forall|k: int|
                0 <= k < chunks@.len() ==> #[trigger] chunks@[k].len > 0 && chunks@[k].virt % PAGE_SIZE + chunks@[k].len <= PAGE_SIZE,
            forall|k: int|
                0 <= k < chunks@.len() - 1 ==> {
                    &&& #[trigger] chunks@[k].virt % PAGE_SIZE + chunks@[k].len
                        == PAGE_SIZE
                    &&& chunks@[k + 1].virt == chunks@[k].virt + chunks@[k].len
                    &&& chunks@[k + 1].src == chunks@[k].src + chunks@[k].len
                },
            chunks@.len() > 0 ==> chunks@.last().src + chunks@.last().len == src
                && chunks@.last().virt + chunks@.last().len == virt,
            chunks@.len() > 0 && remaining > 0 ==> chunks@.last().virt % PAGE_SIZE
                + chunks@.last().len == PAGE_SIZE,
        decreases remaining,
    {
        assert(virt & 0xFFF == virt % 4096) by (bit_vector);
        let page_offset = (virt & 0xFFF) as usize;
        let room = 4096 - page_offset;
        let len = if room < remaining {
            room
        } else {
            remaining
        };
        let ghost old_chunks = chunks@;
        chunks.push(CopyChunk { virt, src, len });
        proof {
            assert forall|k: int| 0 <= k < chunks@.len() - 1 implies {
                &&& #[trigger] chunks@[k].virt % PAGE_SIZE + chunks@[k].len == PAGE_SIZE
                &&& chunks@[k + 1].virt == chunks@[k].virt + chunks@[k].len
                &&& chunks@[k + 1].src == chunks@[k].src + chunks@[k].len
            } by {
                if k < old_chunks.len() - 1 {
                    assert(chunks@[k] == old_chunks[k]);
                    assert(chunks@[k + 1] == old_chunks[k + 1]);
                } else {
                    assert(chunks@[k] == old_chunks.last());
                }
            }
        }
        src = src + len;
        virt = virt + len as u64;
        remaining = remaining - len;
    }
    chunks
}

} // verus!
