use vstd::prelude::*;
use vstd::string::*;
use vstd::utf8::*;

verus! {

/// Size of a tar header block and the alignment of every entry.
pub const TAR_BLOCK: usize = 512;

/// A read-only view of a ustar archive held in memory.
pub struct TarArchive<'a> {
    data: &'a [u8],
}

/// A regular file found in an archive.
pub struct TarEntry<'a> {
    pub name: &'a str,
    pub size: usize,
    pub data: &'a [u8],
}

/// Walks the entries of an archive, one header block at a time.
pub struct TarIterator<'a> {
    data: &'a [u8],
    offset: usize,
}

/// Value of an octal field read from `field[i..]` onwards, `acc` being the
/// value of the digits before `i`: digits `'0'..='7'` are accumulated, a NUL
/// ends the field, a space ends it once a digit has been seen (leading spaces
/// are skipped), and any other byte is ignored.
pub open spec fn octal_from(field: Seq<u8>, i: int, acc: int) -> int
    decreases field.len() - i,
{
    if i < 0 || i >= field.len() {
        acc
    } else {
        let b = field[i];
        if 0x30 <= b <= 0x37 {
            octal_from(field, i + 1, acc * 8 + (b - 0x30))
        } else if b == 0 {
            acc
        } else if b == 0x20 && acc > 0 {
            acc
        } else {
            octal_from(field, i + 1, acc)
        }
    }
}

/// The header block starting at `o`.
pub open spec fn tar_header(data: Seq<u8>, o: int) -> Seq<u8> {
    data.subrange(o, o + TAR_BLOCK)
}

/// Entry size recorded in the header at `o` (octal, bytes 124..136).
pub open spec fn tar_size(data: Seq<u8>, o: int) -> int {
    octal_from(tar_header(data, o).subrange(124, 136), 0, 0)
}

/// Whether every byte of the header at `o` is zero (end of archive).
pub open spec fn tar_header_is_zero(data: Seq<u8>, o: int) -> bool {
    forall|k: int| 0 <= k < TAR_BLOCK ==> #[trigger] data[o + k] == 0
}

/// Whether the header at `o` describes a regular file (type flag `'0'` or NUL).
pub open spec fn tar_is_regular(data: Seq<u8>, o: int) -> bool {
    data[o + 156] == 0x30 || data[o + 156] == 0
}

/// `x` rounded up to a multiple of the block size.
pub open spec fn round_up_block(x: int) -> int {
    ((x + (TAR_BLOCK - 1)) / (TAR_BLOCK as int)) * TAR_BLOCK
}

/// Scanning from offset `o`: the header offset of the next regular file
/// whose data lies inside the archive (or `None`), and the offset the scan
/// stops at. The scan ends at the first position where no full header fits
/// or the header is all zeros; headers of other types are skipped; a regular
/// file whose data runs past the end stops the scan after that entry.
pub open spec fn tar_scan(data: Seq<u8>, o: int) -> (Option<int>, int)
    decreases (if o < data.len() {
        data.len() - o
    } else {
        0
    }),
{
    if o < 0 || o + TAR_BLOCK > data.len() {
        (None, o)
    } else if tar_header_is_zero(data, o) {
        (None, o)
    } else {
        let size = tar_size(data, o);
        let next = round_up_block(o + TAR_BLOCK + size);
        if tar_is_regular(data, o) {
            if o + TAR_BLOCK + size <= data.len() {
                (Some(o), next)
            } else {
                (None, next)
            }
        } else if next > o {
            tar_scan(data, next)
        } else {
            (None, next)
        }
    }
}

/// Bytes of the name field of the header at `o`, up to the first NUL.
pub open spec fn tar_name_bytes(data: Seq<u8>, o: int) -> Seq<u8> {
    let field = tar_header(data, o).subrange(0, 100);
    field.take(name_len(field))
}

/// Index of the first NUL in `field` at or after `i`, or the field's
/// length when there is none.
pub open spec fn nul_index(field: Seq<u8>, i: int) -> int
    decreases field.len() - i,
{
    if i < 0 || i >= field.len() {
        field.len() as int
    } else if field[i] == 0 {
        i
    } else {
        nul_index(field, i + 1)
    }
}

/// Length of a NUL-terminated field: the index of its first NUL, or its
/// full length when it has none.
pub open spec fn name_len(field: Seq<u8>) -> int {
    nul_index(field, 0)
}

/// `e` is the entry described by the header at `o`: its size, its data
/// (the bytes after the header) and its name (the name field decoded as
/// UTF-8, or the placeholder `<invalid utf8>` when it is not valid).
pub open spec fn entry_at(e: TarEntry, data: Seq<u8>, o: int) -> bool {
    let size = tar_size(data, o);
    let nb = tar_name_bytes(data, o);
    &&& e.size == size
    &&& e.data@ == data.subrange(o + TAR_BLOCK, o + TAR_BLOCK + size)
    &&& valid_utf8(nb) ==> e.name.spec_bytes() == nb
    &&& !valid_utf8(nb) ==> e.name@ == "<invalid utf8>"@
}

/// Decodes UTF-8 with `core::str::from_utf8`. Claims what the standard
/// library documents: the bytes come back as a `str` exactly when they are
/// valid UTF-8, and the `str` holds those same bytes.
#[verifier::external_body]
fn str_from_utf8(bytes: &[u8]) -> (r: Option<&str>)
    ensures
        r is Some <==> valid_utf8(bytes@),
        r matches Some(s) ==> s.spec_bytes() == bytes@,
{
    core::str::from_utf8(bytes).ok()
}

proof fn lemma_round_up(x: usize)
    requires
        x + 511 <= usize::MAX,
    ensures
        ((x + 511) as usize & !511usize) == round_up_block(x as int),
        round_up_block(x as int) >= x,
        round_up_block(x as int) <= x + 511,
        round_up_block(x as int) % 512 == 0,
{
    let y = (x + 511) as usize;
    assert(y & !511usize == y - y % 512) by (bit_vector);
}

proof fn lemma_octal_bound(field: Seq<u8>, i: int, acc: int)
    requires
        0 <= i <= field.len(),
        0 <= acc,
    ensures
        octal_from(field, i, acc) >= acc,
    decreases field.len() - i,
{
    if i < field.len() {
        let b = field[i];
        if 0x30 <= b <= 0x37 {
            lemma_octal_bound(field, i + 1, acc * 8 + (b - 0x30));
        } else if b == 0 {
        } else if b == 0x20 && acc > 0 {
        } else {
            lemma_octal_bound(field, i + 1, acc);
        }
    }
}

impl<'a> TarArchive<'a> {
    /// The archive held in `data`.
    pub fn new(data: &'a [u8]) -> (a: TarArchive<'a>)
        ensures
            a.bytes() == data@,
    {
        TarArchive { data }
    }

    /// The archive's bytes.
    pub closed spec fn bytes(&self) -> Seq<u8> {
        self.data@
    }

    /// An iterator positioned at the first header.
    pub fn iter(&self) -> (it: TarIterator<'a>)
        ensures
            it.bytes() == self.bytes(),
            it.position() == 0,
    {
        TarIterator { data: self.data, offset: 0 }
    }
}

/// Whether the 512 bytes at `o` are all zero.
fn header_is_zero(data: &[u8], o: usize) -> (b: bool)
    requires
        o + TAR_BLOCK <= data@.len(),
        data@.len() <= isize::MAX,
    ensures
        b == tar_header_is_zero(data@, o as int),
{
    let mut k: usize = 0;
    while k < TAR_BLOCK
        invariant
            k <= TAR_BLOCK,
            o + TAR_BLOCK <= data@.len(),
            data@.len() <= isize::MAX,
            forall|j: int| 0 <= j < k ==> #[trigger] data@[o + j] == 0,
        decreases TAR_BLOCK - k,
    {
        if data[o + k] != 0 {
            return false;
        }
        k = k + 1;
    }
    true
}

/// The size field of the header at `o`.
fn header_size(data: &[u8], o: usize) -> (size: usize)
    requires
        usize::MAX == u64::MAX,
        o + TAR_BLOCK <= data@.len(),
        data@.len() <= isize::MAX,
    ensures
        size == tar_size(data@, o as int),
        size <= 0xF_FFFF_FFFF,
{
    let ghost field = data@.subrange(o + 124, o + 136);
    assert(tar_header(data@, o as int).subrange(124, 136) =~= field);
    let mut size: usize = 0;
    let mut i: usize = 0;
    proof {
        lemma_octal_cap_12();
    }
    while i < 12
        invariant
            i <= 12,
            o + TAR_BLOCK <= data@.len(),
            data@.len() <= isize::MAX,
            usize::MAX == u64::MAX,
            octal_cap(12) == 0xF_FFFF_FFFF,
            field == data@.subrange(o + 124, o + 136),
            tar_header(data@, o as int).subrange(124, 136) == field,
            size <= octal_cap(i as nat),
            octal_from(field, i as int, size as int) == octal_from(field, 0, 0),
        decreases 12 - i,
    {
        let b = data[o + 124 + i];
        assert(b == field[i as int]);
        if b >= 0x30 && b <= 0x37 {
            proof {
                lemma_octal_cap_mono(i as nat);
            }
            size = size * 8 + (b - 0x30) as usize;
        } else if b == 0 || b == 0x20 {
            if size > 0 || b == 0 {
                proof {
                    lemma_octal_cap_upto(i as nat);
                }
                return size;
            }
        }
        proof {
            lemma_octal_cap_upto((i + 1) as nat);
        }
        i = i + 1;
    }
    size
}

/// Length of the NUL-terminated name in the header at `o`.
fn header_name_len(data: &[u8], o: usize) -> (n: usize)
    requires
        o + TAR_BLOCK <= data@.len(),
        data@.len() <= isize::MAX,
    ensures
        n <= 100,
        data@.subrange(o as int, o + n) == tar_name_bytes(data@, o as int),
{
    let ghost field = tar_header(data@, o as int).subrange(0, 100);
    let mut n: usize = 0;
    while n < 100 && data[o + n] != 0
        invariant
            n <= 100,
            o + TAR_BLOCK <= data@.len(),
            data@.len() <= isize::MAX,
            field == tar_header(data@, o as int).subrange(0, 100),
            nul_index(field, n as int) == nul_index(field, 0),
        decreases 100 - n,
    {
        assert(field[n as int] == data@[o + n]);
        n = n + 1;
    }
    proof {
        if n < 100 {
            assert(field[n as int] == data@[o + n]);
        }
        assert(data@.subrange(o as int, o + n) =~= field.take(n as int));
    }
    n
}

impl<'a> TarIterator<'a> {
    /// The archive's bytes.
    pub closed spec fn bytes(&self) -> Seq<u8> {
        self.data@
    }

    /// Offset of the next header to look at.
    pub closed spec fn position(&self) -> int {
        self.offset as int
    }

    /// The next regular file of the archive, as `tar_scan` describes.
    pub fn next(&mut self) -> (r: Option<TarEntry<'a>>)
        requires
            usize::MAX == u64::MAX,
            old(self).bytes().len() <= isize::MAX,
            old(self).position() <= old(self).bytes().len() + 0x20_0000_0000,
        ensures
            final(self).bytes() == old(self).bytes(),
            final(self).position() <= final(self).bytes().len() + 0x20_0000_0000,
            final(self).position() == tar_scan(old(self).bytes(), old(self).position()).1,
            match r {
                Some(e) => {
                    let h = tar_scan(old(self).bytes(), old(self).position()).0;
                    &&& h is Some
                    &&& entry_at(e, old(self).bytes(), h->Some_0)
                    &&& final(self).position() > old(self).position()
                },
                None => tar_scan(old(self).bytes(), old(self).position()).0 is None,
            },
    {
        let ghost start = self.offset as int;
        let data: &'a [u8] = self.data;
        while self.offset <= data.len() && TAR_BLOCK <= data.len() - self.offset
            invariant
                data@ == self.data@,
                data@.len() <= isize::MAX,
                usize::MAX == u64::MAX,
                self.data@ == old(self).data@,
                start == old(self).position(),
                start <= self.offset <= data@.len() + 0x20_0000_0000,
                tar_scan(data@, self.offset as int) == tar_scan(data@, start),
            decreases data@.len() + 0x20_0000_0000 - self.offset,
        {
            let o = self.offset;
            if header_is_zero(data, o) {
                return None;
            }
            let size = header_size(data, o);
            let data_offset = o + TAR_BLOCK;
            let data_len = size;
            proof {
                lemma_round_up((data_offset + size) as usize);
            }
            let next_offset = (data_offset + size + 511) & !511usize;
            self.offset = next_offset;
            let typeflag = data[o + 156];
            if typeflag == 0x30 || typeflag == 0 {
                if data_offset + data_len <= data.len() {
                    let name_len = header_name_len(data, o);
                    let name_bytes = &data[o..o + name_len];
                    let name = match str_from_utf8(name_bytes) {
                        Some(s) => s,
                        None => "<invalid utf8>",
                    };
                    let entry_data = &data[data_offset..data_offset + data_len];
                    return Some(TarEntry { name, size, data: entry_data });
                } else {
                    return None;
                }
            }
        }
        None
    }
}

/// Largest value of `n` octal digits.
pub open spec fn octal_cap(n: nat) -> nat
    decreases n,
{
    if n == 0 {
        0
    } else {
        octal_cap((n - 1) as nat) * 8 + 7
    }
}

proof fn lemma_octal_cap_mono(n: nat)
    requires
        n < 12,
    ensures
        octal_cap(n) * 8 + 7 == octal_cap(n + 1),
        octal_cap(n + 1) <= octal_cap(12),
    decreases 12 - n,
{
    if n + 1 < 12 {
        lemma_octal_cap_mono(n + 1);
    }
}

proof fn lemma_octal_cap_upto(n: nat)
    requires
        n <= 12,
    ensures
        octal_cap(n) <= octal_cap(12),
    decreases 12 - n,
{
    if n < 12 {
        lemma_octal_cap_mono(n);
        lemma_octal_cap_upto(n + 1);
    }
}

proof fn lemma_octal_cap_12()
    ensures
        octal_cap(12) == 0xF_FFFF_FFFF,
{
    reveal_with_fuel(octal_cap, 13);
}

proof fn lemma_round_up_ge(x: int)
    requires
        x >= 0,
    ensures
        round_up_block(x) >= x,
{
    assert(((x + 511) / 512) * 512 >= x) by (nonlinear_arith)
        requires
            x >= 0,
    ;
}

/// Each step of the scan that yields an entry moves strictly forward.
pub proof fn lemma_scan_progress(data: Seq<u8>, o: int)
    ensures
        tar_scan(data, o).0 matches Some(h) ==> {
            &&& o <= h
            &&& h + TAR_BLOCK <= data.len()
            &&& tar_scan(data, o).1 > o
            &&& tar_scan(data, o).1 > h
        },
    decreases (if o < data.len() {
        data.len() - o
    } else {
        0
    }),
{
    if !(o < 0 || o + TAR_BLOCK > data.len()) && !tar_header_is_zero(data, o) {
        let size = tar_size(data, o);
        let next = round_up_block(o + TAR_BLOCK + size);
        lemma_octal_bound(tar_header(data, o).subrange(124, 136), 0, 0);
        lemma_round_up_ge(o + TAR_BLOCK + size);
        if !tar_is_regular(data, o) && next > o {
            lemma_scan_progress(data, next);
        }
    }
}

/// Header offsets of the regular files that successive calls of
/// `TarIterator::next` yield, starting from offset `o`.
pub open spec fn tar_entry_offsets(data: Seq<u8>, o: int) -> Seq<int>
    decreases (if o < data.len() {
        data.len() - o
    } else {
        0
    }),
{
    proof {
        lemma_scan_progress(data, o);
    }
    match tar_scan(data, o).0 {
        Some(h) => seq![h] + tar_entry_offsets(data, tar_scan(data, o).1),
        None => Seq::empty(),
    }
}

proof fn lemma_round_up_aligned(x: int)
    requires
        x >= 0,
    ensures
        round_up_block(x) % 512 == 0,
{
    assert(((x + 511) / 512) * 512 % 512 == 0) by (nonlinear_arith)
        requires
            x >= 0,
    ;
}

/// A scan from a block boundary stops at a block boundary, and the entry it
/// finds starts at one, with a header that is not all zeros, the type of a
/// regular file, and its data inside the archive.
proof fn lemma_scan_aligned(data: Seq<u8>, o: int)
    requires
        o >= 0,
        o % 512 == 0,
    ensures
        tar_scan(data, o).1 % 512 == 0,
        tar_scan(data, o).0 matches Some(h) ==> {
            &&& h % 512 == 0
            &&& !tar_header_is_zero(data, h)
            &&& tar_is_regular(data, h)
            &&& h + TAR_BLOCK + tar_size(data, h) <= data.len()
        },
    decreases (if o < data.len() {
        data.len() - o
    } else {
        0
    }),
{
    if !(o + TAR_BLOCK > data.len()) && !tar_header_is_zero(data, o) {
        let size = tar_size(data, o);
        let next = round_up_block(o + TAR_BLOCK + size);
        lemma_octal_bound(tar_header(data, o).subrange(124, 136), 0, 0);
        lemma_round_up_aligned(o + TAR_BLOCK + size);
        if !tar_is_regular(data, o) && next > o {
            lemma_scan_aligned(data, next);
        }
    }
}

/// The regular files the iterator yields, starting from a block boundary
/// `o` (the start of the archive, say), have their headers at block
/// boundaries at or after `o`, inside the archive, not all zeros and typed
/// as regular files, with their data inside the archive; each comes after
/// the one before.
pub proof fn law_tar_entries_in_order(data: Seq<u8>, o: int)
    requires
        o >= 0,
        o % 512 == 0,
    ensures
        forall|i: int|
            0 <= i < tar_entry_offsets(data, o).len() ==> {
                let h = #[trigger] tar_entry_offsets(data, o)[i];
                &&& h % 512 == 0
                &&& o <= h
                &&& !tar_header_is_zero(data, h)
                &&& tar_is_regular(data, h)
                &&& h + TAR_BLOCK + tar_size(data, h) <= data.len()
            },
        forall|i: int, j: int|
            0 <= i < j < tar_entry_offsets(data, o).len() ==> tar_entry_offsets(data, o)[i]
                < tar_entry_offsets(data, o)[j],
    decreases (if o < data.len() {
        data.len() - o
    } else {
        0
    }),
{
    lemma_scan_progress(data, o);
    lemma_scan_aligned(data, o);
    match tar_scan(data, o).0 {
        Some(h) => {
            let next = tar_scan(data, o).1;
            law_tar_entries_in_order(data, next);
            let rest = tar_entry_offsets(data, next);
            let all = tar_entry_offsets(data, o);
            assert(all == seq![h] + rest);
            assert forall|i: int| 0 <= i < all.len() implies {
                let g = #[trigger] all[i];
                &&& g % 512 == 0
                &&& o <= g
                &&& !tar_header_is_zero(data, g)
                &&& tar_is_regular(data, g)
                &&& g + TAR_BLOCK + tar_size(data, g) <= data.len()
            } by {
                if i > 0 {
                    assert(all[i] == rest[i - 1]);
                }
            }
            assert forall|i: int, j: int| 0 <= i < j < all.len() implies all[i] < all[j] by {
                assert(all[j] == rest[j - 1]);
                if i > 0 {
                    assert(all[i] == rest[i - 1]);
                }
            }
        },
        None => {},
    }
}

proof fn lemma_positions_follow_offsets(data: Seq<u8>, ps: Seq<int>, k: int, i: int)
    requires
        0 <= i <= k,
        ps.len() == k + 1,
        ps[0] >= 0,
        forall|j: int|
            0 <= j < k ==> (#[trigger] tar_scan(data, ps[j])).0 is Some && ps[j + 1] == tar_scan(
                data,
                ps[j],
            ).1,
    ensures
        tar_entry_offsets(data, ps[0]).len() >= i,
        tar_entry_offsets(data, ps[i]) == tar_entry_offsets(data, ps[0]).skip(i),
    decreases i,
{
    if i == 0 {
        assert(tar_entry_offsets(data, ps[0]).skip(0) =~= tar_entry_offsets(data, ps[0]));
    } else {
        lemma_positions_follow_offsets(data, ps, k, i - 1);
        let j = i - 1;
        assert(tar_scan(data, ps[j]).0 is Some && ps[j + 1] == tar_scan(data, ps[j]).1);
        let all = tar_entry_offsets(data, ps[0]);
        let here = tar_entry_offsets(data, ps[j]);
        assert(here == seq![tar_scan(data, ps[j]).0->Some_0] + tar_entry_offsets(data, ps[i]));
        assert(tar_entry_offsets(data, ps[i]) =~= here.drop_first());
        assert(all.skip(j).drop_first() =~= all.skip(i));
    }
}

/// An iterator walked call after call from a block boundary `p0` (the start
/// of the archive for `TarArchive::iter`), each `next` moving it as its
/// contract says and yielding an entry: the headers of the entries it yields
/// are, in order, the first entries of `tar_entry_offsets(data, p0)`. With
/// `law_tar_entries_in_order`, every entry it yields lies inside the archive,
/// at a block boundary, after the one before.
pub proof fn law_iterator_yields_entry_offsets(data: Seq<u8>, ps: Seq<int>, k: int)
    requires
        k >= 0,
        ps.len() == k + 1,
        ps[0] >= 0,
        ps[0] % 512 == 0,
        forall|j: int|
            0 <= j < k ==> (#[trigger] tar_scan(data, ps[j])).0 is Some && ps[j + 1] == tar_scan(
                data,
                ps[j],
            ).1,
    ensures
        tar_entry_offsets(data, ps[0]).len() >= k,
        forall|j: int|
            0 <= j < k ==> (#[trigger] tar_scan(data, ps[j])).0->Some_0 == tar_entry_offsets(
                data,
                ps[0],
            )[j],
        forall|j: int|
            0 <= j < k ==> {
                let h = (#[trigger] tar_scan(data, ps[j])).0->Some_0;
                &&& h % 512 == 0
                &&& h + TAR_BLOCK + tar_size(data, h) <= data.len()
                &&& forall|j2: int| j < j2 < k ==> h < tar_scan(data, ps[j2]).0->Some_0
            },
{
    lemma_positions_follow_offsets(data, ps, k, k);
    law_tar_entries_in_order(data, ps[0]);
    let all = tar_entry_offsets(data, ps[0]);
    assert forall|j: int| 0 <= j < k implies (#[trigger] tar_scan(data, ps[j])).0->Some_0 == all[j] by {
        lemma_positions_follow_offsets(data, ps, k, j);
        let here = tar_entry_offsets(data, ps[j]);
        assert(here == seq![tar_scan(data, ps[j]).0->Some_0] + tar_entry_offsets(
            data,
            tar_scan(data, ps[j]).1,
        ));
        assert(here[0] == all.skip(j)[0]);
    }
    assert forall|j: int| 0 <= j < k implies {
        let h = (#[trigger] tar_scan(data, ps[j])).0->Some_0;
        &&& h % 512 == 0
        &&& h + TAR_BLOCK + tar_size(data, h) <= data.len()
        &&& forall|j2: int| j < j2 < k ==> h < tar_scan(data, ps[j2]).0->Some_0
    } by {
        assert(tar_scan(data, ps[j]).0->Some_0 == all[j]);
        assert forall|j2: int| j < j2 < k implies all[j] < tar_scan(data, ps[j2]).0->Some_0 by {
            assert(tar_scan(data, ps[j2]).0->Some_0 == all[j2]);
        }
    }
}

/// Two entries read from the same header of the same archive are the same:
/// same size, same data, same name. Since `next` moves an iterator to a
/// position determined by the archive and its position alone, two iterators
/// over one archive (each `TarArchive::iter` starts at the beginning) yield
/// equal entries, call for call.
pub proof fn law_entries_are_determined(e1: TarEntry, e2: TarEntry, data: Seq<u8>, h: int)
    requires
        entry_at(e1, data, h),
        entry_at(e2, data, h),
    ensures
        e1.size == e2.size,
        e1.data@ == e2.data@,
        valid_utf8(tar_name_bytes(data, h)) ==> e1.name.spec_bytes() == e2.name.spec_bytes(),
        !valid_utf8(tar_name_bytes(data, h)) ==> e1.name@ == e2.name@,
{
}

/// The bytes of the name `TarIterator::next` reports for the entry at `o`.
pub open spec fn entry_name_bytes(data: Seq<u8>, o: int) -> Seq<u8> {
    let nb = tar_name_bytes(data, o);
    if valid_utf8(nb) {
        nb
    } else {
        encode_utf8("<invalid utf8>"@)
    }
}

/// Whether the entry at `o` can be started under the name `name`: its
/// reported name is `name` and it is not empty.
pub open spec fn spawnable(data: Seq<u8>, o: int, name: Seq<u8>) -> bool {
    entry_name_bytes(data, o) == name && tar_size(data, o) > 0
}

fn bytes_equal(a: &[u8], b: &[u8]) -> (r: bool)
    ensures
        r == (a@ == b@),
{
    if a.len() != b.len() {
        return false;
    }
    let mut i: usize = 0;
    while i < a.len()
        invariant
            a@.len() == b@.len(),
            i <= a@.len(),
            forall|k: int| 0 <= k < i ==> a@[k] == b@[k],
        decreases a@.len() - i,
    {
        if a[i] != b[i] {
            return false;
        }
        i = i + 1;
    }
    assert(a@ =~= b@);
    true
}

impl<'a> TarArchive<'a> {
    /// `find_spawnable` for a name given as raw bytes (as a user process
    /// passes it): no entry when the bytes are not valid UTF-8.
    pub fn find_spawnable_bytes(&self, name: &[u8]) -> (r: Option<TarEntry<'a>>)
        requires
            usize::MAX == u64::MAX,
            self.bytes().len() <= isize::MAX,
        ensures
            !valid_utf8(name@) ==> r is None,
            valid_utf8(name@) ==> match r {
                Some(e) => exists|k: int|
                    0 <= k < tar_entry_offsets(self.bytes(), 0).len() && {
                        let h = #[trigger] tar_entry_offsets(self.bytes(), 0)[k];
                        &&& entry_at(e, self.bytes(), h)
                        &&& spawnable(self.bytes(), h, name@)
                        &&& forall|j: int|
                            0 <= j < k ==> !spawnable(
                                self.bytes(),
                                #[trigger] tar_entry_offsets(self.bytes(), 0)[j],
                                name@,
                            )
                    },
                None => forall|j: int|
                    0 <= j < tar_entry_offsets(self.bytes(), 0).len() ==> !spawnable(
                        self.bytes(),
                        #[trigger] tar_entry_offsets(self.bytes(), 0)[j],
                        name@,
                    ),
            },
    {
        match str_from_utf8(name) {
            Some(s) => self.find_spawnable(s),
            None => None,
        }
    }

    /// The first regular file, in archive order, that is named `name` and
    /// is not empty.
    pub fn find_spawnable(&self, name: &str) -> (r: Option<TarEntry<'a>>)
        requires
            usize::MAX == u64::MAX,
            self.bytes().len() <= isize::MAX,
        ensures
            match r {
                Some(e) => exists|k: int|
                    0 <= k < tar_entry_offsets(self.bytes(), 0).len() && {
                        let h = #[trigger] tar_entry_offsets(self.bytes(), 0)[k];
                        &&& entry_at(e, self.bytes(), h)
                        &&& spawnable(self.bytes(), h, name.spec_bytes())
                        &&& forall|j: int|
                            0 <= j < k ==> !spawnable(
                                self.bytes(),
                                #[trigger] tar_entry_offsets(self.bytes(), 0)[j],
                                name.spec_bytes(),
                            )
                    },
                None => forall|j: int|
                    0 <= j < tar_entry_offsets(self.bytes(), 0).len() ==> !spawnable(
                        self.bytes(),
                        #[trigger] tar_entry_offsets(self.bytes(), 0)[j],
                        name.spec_bytes(),
                    ),
            },
    {
        let wanted = name.as_bytes();
        let mut it = self.iter();
        let ghost all = tar_entry_offsets(self.bytes(), 0);
        let ghost mut seen: int = 0;
        loop
            invariant
                usize::MAX == u64::MAX,
                it.bytes() == self.bytes(),
                self.bytes().len() <= isize::MAX,
                it.position() <= it.bytes().len() + 0x20_0000_0000,
                wanted@ == name.spec_bytes(),
                all == tar_entry_offsets(self.bytes(), 0),
                0 <= seen <= all.len(),
                tar_entry_offsets(self.bytes(), it.position()) == all.subrange(seen, all.len() as int),
                forall|j: int| 0 <= j < seen ==> !spawnable(self.bytes(), #[trigger] all[j], wanted@),
            decreases it.bytes().len() + 0x20_0000_0000 - it.position(),
        {
            let ghost pos = it.position();
            proof {
                lemma_scan_progress(self.bytes(), pos);
            }
            match it.next() {
                Some(entry) => {
                    let ghost h = tar_scan(self.bytes(), pos).0->Some_0;
                    let ghost np = it.position();
                    assert(tar_entry_offsets(self.bytes(), pos) == seq![h] + tar_entry_offsets(
                        self.bytes(),
                        np,
                    ));
                    assert(all.subrange(seen, all.len() as int)[0] == all[seen]);
                    assert(all[seen] == h);
                    if bytes_equal(entry.name.as_bytes(), wanted) && entry.size > 0 {
                        assert(spawnable(self.bytes(), all[seen], wanted@));
                        return Some(entry);
                    }
                    proof {
                        assert(!spawnable(self.bytes(), all[seen], wanted@));
                        assert(all.subrange(seen + 1, all.len() as int) =~= all.subrange(
                            seen,
                            all.len() as int,
                        ).drop_first());
                        assert(tar_entry_offsets(self.bytes(), np) =~= (seq![h]
                            + tar_entry_offsets(self.bytes(), np)).drop_first());
                        seen = seen + 1;
                    }
                },
                None => {
                    proof {
                        assert(tar_entry_offsets(self.bytes(), pos).len() == 0);
                        assert(seen == all.len());
                    }
                    return None;
                },
            }
        }
    }
}

} // verus!
