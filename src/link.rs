//! The reconciler: checks the image that the outside toolchain linked (the
//! donor) against the original, section by section, and transplants the
//! donor's section bytes into the template image (the donee).
use vstd::prelude::*;
use crate::layout::{parse_layout, pe_layout_of, Layout, LayoutView, SectionHeaderView};

verus! {

/// The index of the first section from `k` on whose raw name is `raw`.
pub open spec fn first_raw_named(secs: Seq<SectionHeaderView>, raw: Seq<u8>, k: int) -> Option<int>
    decreases secs.len() - k,
{
    if k < 0 || k >= secs.len() {
        None
    } else if secs[k].raw_name == raw {
        Some(k)
    } else {
        first_raw_named(secs, raw, k + 1)
    }
}

/// The first `i` from `from` on, below `n`, where `a[pa + i]` and `b[pb + i]` differ.
pub open spec fn first_difference(a: Seq<u8>, pa: int, b: Seq<u8>, pb: int, n: int, from: int) -> Option<int>
    decreases n - from,
{
    if from < 0 || from >= n {
        None
    } else if a[pa + from] != b[pb + from] {
        Some(from)
    } else {
        first_difference(a, pa, b, pb, n, from + 1)
    }
}

/// Why the reconciler refused its input.
pub enum LinkFault {
    OriginalFormat,
    DonorFormat,
    UnnamedSection(usize),
    MissingSection(Seq<char>),
    SizeMismatch(Seq<char>, u32, u32),
    OutOfRange(Seq<char>),
    Mismatch(Seq<char>, usize, u8, u8),
}

/// Why the reconciler refused its input.
#[derive(Debug)]
#[allow(inconsistent_fields)]
pub enum LinkError {
    /// The original executable could not be decoded; the decoder's message.
    OriginalFormat(String),
    /// The donor executable could not be decoded; the decoder's message.
    DonorFormat(String),
    /// The name of the original's section with this index is not valid UTF-8.
    UnnamedSection { section: usize },
    /// The donor has no section of this name.
    MissingSection { section: String },
    /// The donor's section and the original's differ in raw size.
    SizeMismatch { section: String, donor: u32, original: u32 },
    /// The section's raw bytes run past the end of the original, the donor or the donee.
    OutOfRange { section: String },
    /// The donor's and the original's section bytes first differ at `index`.
    Mismatch { section: String, index: usize, donor: u8, original: u8 },
}

impl View for LinkError {
    type V = LinkFault;

    open spec fn view(&self) -> LinkFault {
        match self {
            LinkError::OriginalFormat(_) => LinkFault::OriginalFormat,
            LinkError::DonorFormat(_) => LinkFault::DonorFormat,
            LinkError::UnnamedSection { section } => LinkFault::UnnamedSection(*section),
            LinkError::MissingSection { section } => LinkFault::MissingSection(section@),
            LinkError::SizeMismatch { section, donor, original } => LinkFault::SizeMismatch(section@, *donor, *original),
            LinkError::OutOfRange { section } => LinkFault::OutOfRange(section@),
            LinkError::Mismatch { section, index, donor, original } => LinkFault::Mismatch(section@, *index, *donor, *original),
        }
    }
}

/// What is wrong with the `j`-th section of the original layout `l` against
/// the donor layout `dl`.
pub open spec fn section_link_fault(
    l: LayoutView,
    original: Seq<u8>,
    dl: LayoutView,
    donor: Seq<u8>,
    donee_len: int,
    j: int,
) -> Option<LinkFault> {
    let s = l.sections[j];
    match s.name {
        None => Some(LinkFault::UnnamedSection(j as usize)),
        Some(n) => match first_raw_named(dl.sections, s.raw_name, 0) {
            None => Some(LinkFault::MissingSection(n)),
            Some(k) => {
                let d = dl.sections[k];
                if d.size_of_raw_data != s.size_of_raw_data {
                    Some(LinkFault::SizeMismatch(n, d.size_of_raw_data, s.size_of_raw_data))
                } else if !s.fits(original.len() as int) || !d.fits(donor.len() as int) || !s.fits(donee_len) {
                    Some(LinkFault::OutOfRange(n))
                } else {
                    match first_difference(original, s.pointer_to_raw_data as int, donor, d.pointer_to_raw_data as int, s.size_of_raw_data as int, 0) {
                        Some(i) => Some(LinkFault::Mismatch(
                            n,
                            i as usize,
                            donor[d.pointer_to_raw_data + i],
                            original[s.pointer_to_raw_data + i],
                        )),
                        None => None,
                    }
                }
            },
        },
    }
}

/// The fault of the first faulty section from `j` on.
pub open spec fn link_fault(l: LayoutView, original: Seq<u8>, dl: LayoutView, donor: Seq<u8>, donee_len: int, j: int) -> Option<LinkFault>
    decreases l.sections.len() - j,
{
    if j < 0 || j >= l.sections.len() {
        None
    } else {
        match section_link_fault(l, original, dl, donor, donee_len, j) {
            Some(f) => Some(f),
            None => link_fault(l, original, dl, donor, donee_len, j + 1),
        }
    }
}

/// `img` with `n` bytes at `to` replaced by the bytes of `src` at `from`.
pub open spec fn transplant(img: Seq<u8>, to: int, src: Seq<u8>, from: int, n: int) -> Seq<u8> {
    Seq::new(img.len(), |p: int| if to <= p < to + n { src[from + p - to] } else { img[p] })
}

/// The donee after the first `k` sections of `l` were transplanted from the donor.
pub open spec fn donated(l: LayoutView, dl: LayoutView, donor: Seq<u8>, donee: Seq<u8>, k: int) -> Seq<u8>
    decreases k,
{
    if k <= 0 {
        donee
    } else {
        let s = l.sections[k - 1];
        let d = dl.sections[first_raw_named(dl.sections, s.raw_name, 0)->Some_0];
        transplant(
            donated(l, dl, donor, donee, k - 1),
            s.pointer_to_raw_data as int,
            donor,
            d.pointer_to_raw_data as int,
            s.size_of_raw_data as int,
        )
    }
}

/// What the reconciler returns for the original, the donor and the donee.
pub open spec fn reconcile_post(
    l: LayoutView,
    original: Seq<u8>,
    dl: LayoutView,
    donor: Seq<u8>,
    donee: Seq<u8>,
    r: Result<Vec<u8>, LinkError>,
) -> bool {
    match r {
        Ok(img) => {
            &&& link_fault(l, original, dl, donor, donee.len() as int, 0) is None
            &&& img@ == donated(l, dl, donor, donee, l.sections.len() as int)
        },
        Err(e) => link_fault(l, original, dl, donor, donee.len() as int, 0) == Some(e@),
    }
}

/// `a` and `b` hold the same bytes.
fn same_bytes(a: &Vec<u8>, b: &Vec<u8>) -> (r: bool)
    ensures
        r == (a@ == b@),
{
    if a.len() != b.len() {
        return false;
    }
    let mut i: usize = 0;
    while i < a.len()
        invariant
            a@.len() == b@.len(),
            0 <= i <= a@.len(),
            a@.subrange(0, i as int) == b@.subrange(0, i as int),
        decreases a@.len() - i,
    {
        if a[i] != b[i] {
            assert(a@[i as int] != b@[i as int]);
            return false;
        }
        i += 1;
        assert(a@.subrange(0, i as int) =~= a@.subrange(0, i - 1).push(a@[i - 1]));
        assert(b@.subrange(0, i as int) =~= b@.subrange(0, i - 1).push(b@[i - 1]));
    }
    assert(a@ =~= a@.subrange(0, a@.len() as int));
    assert(b@ =~= b@.subrange(0, b@.len() as int));
    true
}

/// Finds the first donor section whose raw name is `raw`.
pub(crate) fn find_raw_named(dl: &Layout, raw: &Vec<u8>) -> (r: Option<usize>)
    ensures
        r matches Some(k) ==> first_raw_named(dl@.sections, raw@, 0) == Some(k as int) && k < dl@.sections.len(),
        r is None ==> first_raw_named(dl@.sections, raw@, 0) is None,
{
    let ghost secs = dl@.sections;
    let mut k: usize = 0;
    while k < dl.sections.len()
        invariant
            secs == dl@.sections,
            0 <= k <= secs.len(),
            first_raw_named(secs, raw@, 0) == first_raw_named(secs, raw@, k as int),
        decreases secs.len() - k,
    {
        assert(secs[k as int] == dl.sections@[k as int]@);
        if same_bytes(&dl.sections[k].raw_name, raw) {
            return Some(k);
        }
        k += 1;
    }
    None
}

/// The first `i` below `n` where `a[pa + i]` and `b[pb + i]` differ.
fn find_difference(a: &Vec<u8>, pa: usize, b: &Vec<u8>, pb: usize, n: usize) -> (r: Option<usize>)
    requires
        pa + n <= a@.len(),
        pb + n <= b@.len(),
    ensures
        r matches Some(i) ==> first_difference(a@, pa as int, b@, pb as int, n as int, 0) == Some(i as int) && i < n,
        r is None ==> first_difference(a@, pa as int, b@, pb as int, n as int, 0) is None,
{
    let alen = a.len();
    let blen = b.len();
    let mut i: usize = 0;
    while i < n
        invariant
            alen == a@.len(),
            blen == b@.len(),
            pa + n <= a@.len(),
            pb + n <= b@.len(),
            0 <= i <= n,
            first_difference(a@, pa as int, b@, pb as int, n as int, 0) == first_difference(a@, pa as int, b@, pb as int, n as int, i as int),
        decreases n - i,
    {
        if a[pa + i] != b[pb + i] {
            return Some(i);
        }
        i += 1;
    }
    None
}

/// Copies `n` bytes of `src` at `from` over `img` at `to`.
fn copy_range(img: &mut Vec<u8>, to: usize, src: &Vec<u8>, from: usize, n: usize)
    requires
        to + n <= old(img)@.len(),
        from + n <= src@.len(),
    ensures
        final(img)@ == transplant(old(img)@, to as int, src@, from as int, n as int),
{
    let ghost img0 = img@;
    let ilen = img.len();
    let slen = src.len();
    let mut i: usize = 0;
    while i < n
        invariant
            ilen == img0.len(),
            slen == src@.len(),
            img@.len() == img0.len(),
            to + n <= img0.len(),
            from + n <= src@.len(),
            0 <= i <= n,
            forall|p: int| 0 <= p < img0.len() ==> img@[p] == if to <= p < to + i { src@[from + p - to] } else { img0[p] },
        decreases n - i,
    {
        img.set(to + i, src[from + i]);
        i += 1;
    }
    assert(img@ =~= transplant(img0, to as int, src@, from as int, n as int));
}

/// Reconciles the donor (layout `dl`) with the original (layout `l`) section
/// by section in the original's order, and transplants each section's donor
/// bytes into `donee`. Stops at the first fault, with no image.
pub fn reconcile_layouts(
    l: &Layout,
    original: &Vec<u8>,
    dl: &Layout,
    donor: &Vec<u8>,
    donee: Vec<u8>,
) -> (r: Result<Vec<u8>, LinkError>)
    ensures
        reconcile_post(l@, original@, dl@, donor@, donee@, r),
{
    let ghost lv = l@;
    let ghost dv = dl@;
    let ghost donee0 = donee@;
    let mut img = donee;
    let mut j: usize = 0;
    while j < l.sections.len()
        invariant
            lv == l@,
            dv == dl@,
            0 <= j <= lv.sections.len(),
            img@.len() == donee0.len(),
            donee0 == donee@,
            link_fault(lv, original@, dv, donor@, donee0.len() as int, 0)
                == link_fault(lv, original@, dv, donor@, donee0.len() as int, j as int),
            img@ == donated(lv, dv, donor@, donee0, j as int),
        decreases lv.sections.len() - j,
    {
        let s = &l.sections[j];
        assert(lv.sections[j as int] == s@);
        let ghost fault_here = section_link_fault(lv, original@, dv, donor@, donee0.len() as int, j as int);
        assert(link_fault(lv, original@, dv, donor@, donee0.len() as int, j as int) == match fault_here {
            Some(f) => Some(f),
            None => link_fault(lv, original@, dv, donor@, donee0.len() as int, j + 1),
        });
        let name = match &s.name {
            None => {
                assert(fault_here == Some(LinkFault::UnnamedSection(j)));
                return Err(LinkError::UnnamedSection { section: j });
            },
            Some(n) => n,
        };
        let k = match find_raw_named(dl, &s.raw_name) {
            None => {
                assert(fault_here == Some(LinkFault::MissingSection(name@)));
                return Err(LinkError::MissingSection { section: name.clone() });
            },
            Some(k) => k,
        };
        let d = &dl.sections[k];
        assert(dv.sections[k as int] == d@);
        if d.size_of_raw_data != s.size_of_raw_data {
            assert(fault_here == Some(LinkFault::SizeMismatch(name@, d.size_of_raw_data, s.size_of_raw_data)));
            return Err(LinkError::SizeMismatch {
                section: name.clone(),
                donor: d.size_of_raw_data,
                original: s.size_of_raw_data,
            });
        }
        let n = s.size_of_raw_data as u128;
        if s.pointer_to_raw_data as u128 + n > original.len() as u128
            || d.pointer_to_raw_data as u128 + n > donor.len() as u128
            || s.pointer_to_raw_data as u128 + n > img.len() as u128 {
            assert(fault_here == Some(LinkFault::OutOfRange(name@)));
            return Err(LinkError::OutOfRange { section: name.clone() });
        }
        let at = s.pointer_to_raw_data as usize;
        let from = d.pointer_to_raw_data as usize;
        let size = s.size_of_raw_data as usize;
        match find_difference(original, at, donor, from, size) {
            Some(i) => {
                assert(fault_here == Some(LinkFault::Mismatch(name@, i, donor@[from + i], original@[at + i])));
                return Err(LinkError::Mismatch {
                    section: name.clone(),
                    index: i,
                    donor: donor[from + i],
                    original: original[at + i],
                });
            },
            None => {
                assert(fault_here is None);
            },
        }
        copy_range(&mut img, at, donor, from, size);
        j += 1;
    }
    Ok(img)
}

/// Decodes the original's and the donor's layouts, then reconciles them into
/// `donee`.
pub fn reconcile(original: &Vec<u8>, donor: &Vec<u8>, donee: Vec<u8>) -> (r: Result<Vec<u8>, LinkError>)
    ensures
        match (pe_layout_of(original@), pe_layout_of(donor@)) {
            (None, _) => r matches Err(LinkError::OriginalFormat(_)),
            (Some(_), None) => r matches Err(LinkError::DonorFormat(_)),
            (Some(l), Some(dl)) => reconcile_post(l, original@, dl, donor@, donee@, r),
        },
{
    let l = match parse_layout(original) {
        Err(m) => {
            return Err(LinkError::OriginalFormat(m));
        },
        Ok(l) => l,
    };
    let dl = match parse_layout(donor) {
        Err(m) => {
            return Err(LinkError::DonorFormat(m));
        },
        Ok(dl) => dl,
    };
    reconcile_layouts(&l, original, &dl, donor, donee)
}

proof fn lemma_first_fault_reaches(l: LayoutView, original: Seq<u8>, dl: LayoutView, donor: Seq<u8>, donee_len: int, i: int, j: int)
    requires
        0 <= i <= j < l.sections.len(),
        forall|k: int| i <= k < j ==> #[trigger] section_link_fault(l, original, dl, donor, donee_len, k) is None,
    ensures
        link_fault(l, original, dl, donor, donee_len, i) == link_fault(l, original, dl, donor, donee_len, j),
    decreases j - i,
{
    if i < j {
        lemma_first_fault_reaches(l, original, dl, donor, donee_len, i + 1, j);
    }
}

proof fn lemma_first_difference_at(a: Seq<u8>, pa: int, b: Seq<u8>, pb: int, n: int, from: int, k: int)
    requires
        0 <= from <= k < n,
        forall|i: int| from <= i < k ==> #[trigger] a[pa + i] == b[pb + i],
        a[pa + k] != b[pb + k],
    ensures
        first_difference(a, pa, b, pb, n, from) == Some(k),
    decreases k - from,
{
    if from < k {
        lemma_first_difference_at(a, pa, b, pb, n, from + 1, k);
    }
}

/// Where the sections before the `j`-th reconcile, and the `j`-th is named `n`,
/// found in the donor with its size and inside all three images, and its donor
/// bytes agree with the original's below offset `k` but not at `k`, the
/// reconciler fails citing `n`, `k`, the donor's byte and the original's byte,
/// and gives no image.
pub proof fn lemma_mismatch_cited(
    l: LayoutView,
    original: Seq<u8>,
    dl: LayoutView,
    donor: Seq<u8>,
    donee: Seq<u8>,
    j: int,
    k: int,
    r: Result<Vec<u8>, LinkError>,
)
    requires
        0 <= j < l.sections.len(),
        forall|i: int| 0 <= i < j ==> #[trigger] section_link_fault(l, original, dl, donor, donee.len() as int, i) is None,
        l.sections[j].name is Some,
        first_raw_named(dl.sections, l.sections[j].raw_name, 0) is Some,
        ({
            let s = l.sections[j];
            let d = dl.sections[first_raw_named(dl.sections, s.raw_name, 0)->Some_0];
            &&& d.size_of_raw_data == s.size_of_raw_data
            &&& s.fits(original.len() as int) && d.fits(donor.len() as int) && s.fits(donee.len() as int)
            &&& 0 <= k < s.size_of_raw_data
            &&& forall|i: int| 0 <= i < k ==> #[trigger] original[s.pointer_to_raw_data + i] == donor[d.pointer_to_raw_data + i]
            &&& original[s.pointer_to_raw_data + k] != donor[d.pointer_to_raw_data + k]
        }),
        reconcile_post(l, original, dl, donor, donee, r),
    ensures
        ({
            let s = l.sections[j];
            let d = dl.sections[first_raw_named(dl.sections, s.raw_name, 0)->Some_0];
            r matches Err(e) && e@ == LinkFault::Mismatch(
                s.name->Some_0,
                k as usize,
                donor[d.pointer_to_raw_data + k],
                original[s.pointer_to_raw_data + k],
            )
        }),
{
    let s = l.sections[j];
    let d = dl.sections[first_raw_named(dl.sections, s.raw_name, 0)->Some_0];
    lemma_first_fault_reaches(l, original, dl, donor, donee.len() as int, 0, j);
    lemma_first_difference_at(original, s.pointer_to_raw_data as int, donor, d.pointer_to_raw_data as int, s.size_of_raw_data as int, 0, k);
}

/// Where the sections before the `j`-th reconcile and the donor has no section
/// with the `j`-th one's raw name, the reconciler fails naming that section and
/// gives no image.
pub proof fn lemma_missing_section_named(
    l: LayoutView,
    original: Seq<u8>,
    dl: LayoutView,
    donor: Seq<u8>,
    donee: Seq<u8>,
    j: int,
    r: Result<Vec<u8>, LinkError>,
)
    requires
        0 <= j < l.sections.len(),
        forall|i: int| 0 <= i < j ==> #[trigger] section_link_fault(l, original, dl, donor, donee.len() as int, i) is None,
        l.sections[j].name is Some,
        first_raw_named(dl.sections, l.sections[j].raw_name, 0) is None,
        reconcile_post(l, original, dl, donor, donee, r),
    ensures
        r matches Err(e) && e@ == LinkFault::MissingSection(l.sections[j].name->Some_0),
{
    lemma_first_fault_reaches(l, original, dl, donor, donee.len() as int, 0, j);
}

} // verus!
