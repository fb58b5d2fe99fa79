//! The header patcher: restores in the linked image the section virtual sizes
//! and the export, import and resource data-directory entries of the original.
use vstd::prelude::*;
use crate::layout::{
    parse_layout, pe_layout_of, read_section_entry_name, section_entry_parses, DataDir, DataDirectories, Layout, LayoutView,
};
use crate::link::first_raw_named;

verus! {

/// File offset of the little-endian pointer to the PE signature.
pub const SIGNATURE_POINTER_OFFSET: usize = 0x3c;

/// Size of the PE signature and the COFF header that follows it.
pub const SIGNATURE_AND_COFF_SIZE: usize = 0x18;

/// Size of the sixteen data-directory entries that end the optional header.
pub const DATA_DIRECTORY_TABLE_SIZE: usize = 0x80;

/// Offset of the virtual size within a section-table entry.
pub const VIRTUAL_SIZE_OFFSET: usize = 8;

/// The little-endian value of the four bytes of `b` at `off`.
pub open spec fn le_u32(b: Seq<u8>, off: int) -> int {
    b[off] + 256 * b[off + 1] + 65536 * b[off + 2] + 16777216 * b[off + 3]
}

/// The four little-endian bytes of `v`.
pub open spec fn le_bytes(v: u32) -> Seq<u8> {
    seq![(v % 256) as u8, ((v / 256) % 256) as u8, ((v / 65536) % 256) as u8, ((v / 16777216) % 256) as u8]
}

/// `img` with `bytes` written at `at`.
pub open spec fn write(img: Seq<u8>, at: int, bytes: Seq<u8>) -> Seq<u8> {
    Seq::new(img.len(), |p: int| if at <= p < at + bytes.len() { bytes[p - at] } else { img[p] })
}

/// The file offset of the section table of `linked`, whose layout is `ll`.
pub open spec fn table_offset(linked: Seq<u8>, ll: LayoutView) -> int {
    le_u32(linked, 0x3c) + 0x18 + ll.size_of_optional_header
}

/// The index of the first section-table entry from `e` on, below `n`, that the
/// decoder refuses.
pub open spec fn first_bad_entry(linked: Seq<u8>, table: int, n: int, e: int) -> Option<int>
    decreases n - e,
{
    if e < 0 || e >= n {
        None
    } else if table + 40 * e + 40 > linked.len() || !section_entry_parses(linked, table + 40 * e) {
        Some(e)
    } else {
        first_bad_entry(linked, table, n, e + 1)
    }
}

/// `img` after the virtual sizes of the first `k` entries of the table at
/// `table` were restored from the original layout `ol`, for the entries whose
/// raw name the original has.
pub open spec fn patched_sizes(img: Seq<u8>, linked: Seq<u8>, ol: LayoutView, table: int, k: int) -> Seq<u8>
    decreases k,
{
    if k <= 0 {
        img
    } else {
        let prev = patched_sizes(img, linked, ol, table, k - 1);
        let off = table + 40 * (k - 1);
        match first_raw_named(ol.sections, linked.subrange(off, off + 8), 0) {
            Some(c) => write(prev, off + 8, le_bytes(ol.sections[c].virtual_size)),
            None => prev,
        }
    }
}

/// The eight bytes of a data-directory entry.
pub open spec fn dir_bytes(d: DataDir) -> Seq<u8> {
    le_bytes(d.virtual_address) + le_bytes(d.size)
}

/// `img` with the entry at `at` written where `d` is present.
pub open spec fn write_dir(img: Seq<u8>, at: int, d: Option<DataDir>) -> Seq<u8> {
    match d {
        Some(x) => write(img, at, dir_bytes(x)),
        None => img,
    }
}

/// `img` with the export, import and resource entries of `dirs` written from `at` on.
pub open spec fn patched_dirs(img: Seq<u8>, at: int, dirs: DataDirectories) -> Seq<u8> {
    write_dir(write_dir(write_dir(img, at, dirs.export), at + 8, dirs.import), at + 16, dirs.resource)
}

/// Why the patcher refused its input.
pub enum PatchFault {
    OriginalFormat,
    LinkedFormat,
    SignatureOutOfRange,
    SectionEntry(usize),
    DirectoryOutOfRange,
}

/// Why the patcher refused its input.
#[derive(Debug)]
pub enum PatchError {
    /// The original executable could not be decoded; the decoder's message.
    OriginalFormat(String),
    /// The linked executable could not be decoded; the decoder's message.
    LinkedFormat(String),
    /// The linked executable is too short to hold the signature pointer.
    SignatureOutOfRange,
    /// The linked executable's section-table entry with this index could not be read.
    SectionEntry(usize),
    /// The linked executable's data directory lies outside it.
    DirectoryOutOfRange,
}

impl View for PatchError {
    type V = PatchFault;

    open spec fn view(&self) -> PatchFault {
        match self {
            PatchError::OriginalFormat(_) => PatchFault::OriginalFormat,
            PatchError::LinkedFormat(_) => PatchFault::LinkedFormat,
            PatchError::SignatureOutOfRange => PatchFault::SignatureOutOfRange,
            PatchError::SectionEntry(e) => PatchFault::SectionEntry(*e),
            PatchError::DirectoryOutOfRange => PatchFault::DirectoryOutOfRange,
        }
    }
}

/// Why the patcher refuses `linked` (layout `ll`) given the original layout `ol`.
pub open spec fn patch_fault(ol: LayoutView, ll: LayoutView, linked: Seq<u8>) -> Option<PatchFault> {
    if linked.len() < 0x40 {
        Some(PatchFault::SignatureOutOfRange)
    } else {
        let table = table_offset(linked, ll);
        match first_bad_entry(linked, table, ll.sections.len() as int, 0) {
            Some(e) => Some(PatchFault::SectionEntry(e as usize)),
            None => if ol.directories is Some && (table < 0x80 || table - 0x80 + 24 > linked.len()) {
                Some(PatchFault::DirectoryOutOfRange)
            } else {
                None
            },
        }
    }
}

/// The patched image.
pub open spec fn patched(ol: LayoutView, ll: LayoutView, linked: Seq<u8>) -> Seq<u8> {
    let table = table_offset(linked, ll);
    let sized = patched_sizes(linked, linked, ol, table, ll.sections.len() as int);
    match ol.directories {
        Some(d) => patched_dirs(sized, table - 0x80, d),
        None => sized,
    }
}

/// What the patcher returns for the original layout `ol` and the linked image.
pub open spec fn patch_post(ol: LayoutView, ll: LayoutView, linked: Seq<u8>, r: Result<Vec<u8>, PatchError>) -> bool {
    match r {
        Ok(img) => patch_fault(ol, ll, linked) is None && img@ == patched(ol, ll, linked),
        Err(e) => patch_fault(ol, ll, linked) == Some(e@),
    }
}

/// Reads the little-endian `u32` at `off`.
pub fn read_le_u32(b: &Vec<u8>, off: usize) -> (r: u32)
    requires
        off + 4 <= b@.len(),
    ensures
        r == le_u32(b@, off as int),
{
    let n = b.len();
    let v: u64 = b[off] as u64 + 256 * (b[off + 1] as u64) + 65536 * (b[off + 2] as u64) + 16777216 * (b[off + 3] as u64);
    v as u32
}

/// Writes `v` as four little-endian bytes at `at`.
pub fn write_le_u32(img: &mut Vec<u8>, at: usize, v: u32)
    requires
        at + 4 <= old(img)@.len(),
    ensures
        final(img)@ == write(old(img)@, at as int, le_bytes(v)),
{
    let n = img.len();
    img.set(at, (v % 256) as u8);
    img.set(at + 1, ((v / 256) % 256) as u8);
    img.set(at + 2, ((v / 65536) % 256) as u8);
    img.set(at + 3, ((v / 16777216) % 256) as u8);
    assert(final(img)@ =~= write(old(img)@, at as int, le_bytes(v)));
}

/// Restores in `linked` (layout `ll`) the virtual size of each section-table
/// entry whose raw name the original layout `ol` has, then, where the original
/// has an optional header, its export, import and resource data-directory entries.
pub fn patch_layouts(ol: &Layout, ll: &Layout, linked: &Vec<u8>) -> (r: Result<Vec<u8>, PatchError>)
    ensures
        patch_post(ol@, ll@, linked@, r),
{
    let ghost olv = ol@;
    let ghost llv = ll@;
    let len = linked.len();
    if len < 0x40 {
        return Err(PatchError::SignatureOutOfRange);
    }
    let sig = read_le_u32(linked, SIGNATURE_POINTER_OFFSET);
    let table: u128 = sig as u128 + SIGNATURE_AND_COFF_SIZE as u128 + ll.size_of_optional_header as u128;
    assert(table == table_offset(linked@, llv));
    let mut img = linked.clone();
    assert(img@ =~= linked@);
    let n = ll.sections.len();
    let mut e: usize = 0;
    while e < n
        invariant
            olv == ol@,
            llv == ll@,
            n == llv.sections.len(),
            len == linked@.len(),
            len >= 0x40,
            table == table_offset(linked@, llv),
            table <= 0x1_0001_0017,
            0 <= e <= n,
            img@.len() == len,
            first_bad_entry(linked@, table as int, n as int, 0) == first_bad_entry(linked@, table as int, n as int, e as int),
            img@ == patched_sizes(linked@, linked@, olv, table as int, e as int),
        decreases n - e,
    {
        if table + 40 * (e as u128) + 40 > len as u128 {
            assert(table as int + 40 * (e as int) + 40 > linked@.len());
            assert(first_bad_entry(linked@, table as int, n as int, e as int) == Some(e as int));
            return Err(PatchError::SectionEntry(e));
        }
        let off = (table + 40 * (e as u128)) as usize;
        let name = match read_section_entry_name(linked, off) {
            None => {
                return Err(PatchError::SectionEntry(e));
            },
            Some(name) => name,
        };
        match crate::link::find_raw_named(ol, &name) {
            Some(c) => {
                assert(olv.sections[c as int] == ol.sections@[c as int]@);
                write_le_u32(&mut img, off + VIRTUAL_SIZE_OFFSET, ol.sections[c].virtual_size);
            },
            None => {},
        }
        e += 1;
    }
    match ol.directories {
        None => Ok(img),
        Some(d) => {
            if table < DATA_DIRECTORY_TABLE_SIZE as u128 || table - DATA_DIRECTORY_TABLE_SIZE as u128 + 24 > len as u128 {
                return Err(PatchError::DirectoryOutOfRange);
            }
            let at = (table - DATA_DIRECTORY_TABLE_SIZE as u128) as usize;
            let ghost img0 = img@;
            if let Some(x) = d.export {
                write_le_u32(&mut img, at, x.virtual_address);
                write_le_u32(&mut img, at + 4, x.size);
                assert(img@ =~= write(img0, at as int, dir_bytes(x)));
            }
            let ghost img1 = img@;
            if let Some(x) = d.import {
                write_le_u32(&mut img, at + 8, x.virtual_address);
                write_le_u32(&mut img, at + 12, x.size);
                assert(img@ =~= write(img1, at + 8, dir_bytes(x)));
            }
            let ghost img2 = img@;
            if let Some(x) = d.resource {
                write_le_u32(&mut img, at + 16, x.virtual_address);
                write_le_u32(&mut img, at + 20, x.size);
                assert(img@ =~= write(img2, at + 16, dir_bytes(x)));
            }
            Ok(img)
        },
    }
}

/// Decodes the original's and the linked image's layouts, then patches the
/// linked image's header.
pub fn patch_header(original: &Vec<u8>, linked: &Vec<u8>) -> (r: Result<Vec<u8>, PatchError>)
    ensures
        match (pe_layout_of(original@), pe_layout_of(linked@)) {
            (None, _) => r matches Err(PatchError::OriginalFormat(_)),
            (Some(_), None) => r matches Err(PatchError::LinkedFormat(_)),
            (Some(ol), Some(ll)) => patch_post(ol, ll, linked@, r),
        },
{
    let ol = match parse_layout(original) {
        Err(m) => {
            return Err(PatchError::OriginalFormat(m));
        },
        Ok(l) => l,
    };
    let ll = match parse_layout(linked) {
        Err(m) => {
            return Err(PatchError::LinkedFormat(m));
        },
        Ok(l) => l,
    };
    patch_layouts(&ol, &ll, linked)
}

/// Offset `p` lies in the virtual-size field of entry `e` of the table at `table`.
pub open spec fn in_size_field(table: int, e: int, p: int) -> bool {
    table + 40 * e + 8 <= p < table + 40 * e + 12
}

/// Offset `p` lies in a field that the patcher may write: the virtual size of
/// one of the linked image's section-table entries, or the export, import and
/// resource data-directory entries where the original has an optional header.
pub open spec fn in_declared_field(ol: LayoutView, ll: LayoutView, linked: Seq<u8>, p: int) -> bool {
    let table = table_offset(linked, ll);
    ||| exists|e: int| 0 <= e < ll.sections.len() && #[trigger] in_size_field(table, e, p)
    ||| (ol.directories is Some && table - 0x80 <= p < table - 0x80 + 24)
}

proof fn lemma_patched_sizes_frame(img: Seq<u8>, linked: Seq<u8>, ol: LayoutView, table: int, k: int, p: int)
    requires
        0 <= p < img.len(),
        forall|e: int| 0 <= e < k ==> !#[trigger] in_size_field(table, e, p),
    ensures
        patched_sizes(img, linked, ol, table, k).len() == img.len(),
        patched_sizes(img, linked, ol, table, k)[p] == img[p],
    decreases k,
{
    if k > 0 {
        assert(!in_size_field(table, k - 1, p));
        lemma_patched_sizes_frame(img, linked, ol, table, k - 1, p);
    }
}

/// The header patch writes only the declared fields: the patched image has the
/// linked image's length and agrees with it on every other byte.
pub proof fn lemma_patch_only_declared_fields(ol: LayoutView, ll: LayoutView, linked: Seq<u8>, p: int)
    requires
        0 <= p < linked.len(),
        !in_declared_field(ol, ll, linked, p),
    ensures
        patched(ol, ll, linked).len() == linked.len(),
        patched(ol, ll, linked)[p] == linked[p],
{
    let table = table_offset(linked, ll);
    lemma_patched_sizes_frame(linked, linked, ol, table, ll.sections.len() as int, p);
}

/// The header patch is deterministic: on the same original layout and linked
/// image, two runs both succeed or both fail, and when they succeed they give
/// the same bytes.
pub proof fn lemma_patch_deterministic(
    ol: LayoutView,
    ll: LayoutView,
    linked: Seq<u8>,
    r1: Result<Vec<u8>, PatchError>,
    r2: Result<Vec<u8>, PatchError>,
)
    requires
        patch_post(ol, ll, linked, r1),
        patch_post(ol, ll, linked, r2),
    ensures
        r1 is Ok <==> r2 is Ok,
        r1 is Ok ==> r1->Ok_0@ == r2->Ok_0@,
        r1 is Err ==> r1->Err_0@ == r2->Err_0@,
{
}

} // verus!
