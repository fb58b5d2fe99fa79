//! The pipeline end to end: what comes back when the generated assembly goes
//! through a byte-accurate toolchain and is reconciled.
use vstd::prelude::*;
use crate::config::{Section, Unit, UnitKind};
use crate::layout::LayoutView;
use crate::link::{donated, first_difference, first_raw_named, link_fault, section_link_fault, transplant};
use crate::split::{
    in_sections, lemma_accepted_descriptor_covers, lemma_none_outside, lemma_prefix_size_nonneg, prefix_size,
    section_start, split_fault, template, unit_bytes, units_cover, units_of,
};
use crate::text::{lemma_lines_cover_bytes, line_contents, line_count};

verus! {

/// The bytes that the `DB` lines of unit `i`'s generated source spell out.
pub open spec fn assembled_unit(units: Seq<Unit>, ptr: int, file: Seq<u8>, i: int) -> Seq<u8> {
    let d = unit_bytes(units, ptr, file, i);
    line_contents(d, line_count(d))
}

/// The assembled bytes of the first `k` units, one after the other.
pub open spec fn assembled_units(units: Seq<Unit>, ptr: int, file: Seq<u8>, k: int) -> Seq<u8>
    decreases k,
{
    if k <= 0 {
        seq![]
    } else {
        assembled_units(units, ptr, file, k - 1) + assembled_unit(units, ptr, file, k - 1)
    }
}

proof fn lemma_prefix_size_monotone(units: Seq<Unit>, i: int, j: int)
    requires
        0 <= i <= j,
    ensures
        prefix_size(units, i) <= prefix_size(units, j),
    decreases j - i,
{
    if i < j {
        lemma_prefix_size_monotone(units, i, j - 1);
    }
}

proof fn lemma_assembled_prefix(units: Seq<Unit>, ptr: int, file: Seq<u8>, size: int, k: int)
    requires
        0 <= ptr,
        ptr + size <= file.len(),
        0 <= k <= units.len(),
        prefix_size(units, units.len() as int) == size,
    ensures
        assembled_units(units, ptr, file, k) == file.subrange(ptr, ptr + prefix_size(units, k)),
    decreases k,
{
    lemma_prefix_size_nonneg(units, k);
    lemma_prefix_size_monotone(units, k, units.len() as int);
    if k > 0 {
        lemma_assembled_prefix(units, ptr, file, size, k - 1);
        lemma_prefix_size_nonneg(units, k - 1);
        lemma_lines_cover_bytes(unit_bytes(units, ptr, file, k - 1));
        assert(assembled_units(units, ptr, file, k) =~= file.subrange(ptr, ptr + prefix_size(units, k)));
    } else {
        assert(assembled_units(units, ptr, file, k) =~= file.subrange(ptr, ptr + prefix_size(units, k)));
    }
}

/// The units of a covered section, assembled byte for byte one after the
/// other, give back the section's raw bytes.
pub proof fn lemma_assembled_section(units: Seq<Unit>, start: int, ptr: int, size: int, file: Seq<u8>)
    requires
        units_cover(units, start, size),
        0 <= ptr,
        ptr + size <= file.len(),
    ensures
        assembled_units(units, ptr, file, units.len() as int) == file.subrange(ptr, ptr + size),
{
    lemma_assembled_prefix(units, ptr, file, size, units.len() as int);
}

proof fn lemma_no_difference(a: Seq<u8>, pa: int, b: Seq<u8>, pb: int, n: int, from: int)
    requires
        0 <= from,
        forall|i: int| from <= i < n ==> #[trigger] a[pa + i] == b[pb + i],
    ensures
        first_difference(a, pa, b, pb, n, from) is None,
    decreases n - from,
{
    if from < n {
        lemma_no_difference(a, pa, b, pb, n, from + 1);
    }
}

/// The donor's copy of the `j`-th section of `l` holds the original's bytes.
pub open spec fn donor_matches(l: LayoutView, original: Seq<u8>, dl: LayoutView, donor: Seq<u8>, j: int) -> bool {
    let s = l.sections[j];
    &&& first_raw_named(dl.sections, s.raw_name, 0) is Some
    &&& {
        let d = dl.sections[first_raw_named(dl.sections, s.raw_name, 0)->Some_0];
        &&& d.size_of_raw_data == s.size_of_raw_data
        &&& d.fits(donor.len() as int)
        &&& donor.subrange(d.pointer_to_raw_data as int, d.raw_end()) == original.subrange(s.pointer_to_raw_data as int, s.raw_end())
    }
}

proof fn lemma_donated_original(l: LayoutView, original: Seq<u8>, dl: LayoutView, donor: Seq<u8>, donee: Seq<u8>, k: int)
    requires
        0 <= k <= l.sections.len(),
        donee.len() == original.len(),
        forall|j: int| 0 <= j < l.sections.len() ==> #[trigger] l.sections[j].fits(original.len() as int),
        forall|j: int| 0 <= j < l.sections.len() ==> #[trigger] donor_matches(l, original, dl, donor, j),
    ensures
        donated(l, dl, donor, donee, k)
            == Seq::new(original.len(), |p: int| if in_sections(l.sections, k, p) { original[p] } else { donee[p] }),
    decreases k,
{
    let secs = l.sections;
    let want = Seq::new(original.len(), |p: int| if in_sections(secs, k, p) { original[p] } else { donee[p] });
    if k == 0 {
        assert(donated(l, dl, donor, donee, k) =~= want);
    } else {
        lemma_donated_original(l, original, dl, donor, donee, k - 1);
        let prev = donated(l, dl, donor, donee, k - 1);
        let s = secs[k - 1];
        assert(s.fits(original.len() as int));
        assert(donor_matches(l, original, dl, donor, k - 1));
        let d = dl.sections[first_raw_named(dl.sections, s.raw_name, 0)->Some_0];
        let ds = donor.subrange(d.pointer_to_raw_data as int, d.raw_end());
        let os = original.subrange(s.pointer_to_raw_data as int, s.raw_end());
        let cur = transplant(prev, s.pointer_to_raw_data as int, donor, d.pointer_to_raw_data as int, s.size_of_raw_data as int);
        assert forall|p: int| 0 <= p < original.len() implies cur[p] == want[p] by {
            if s.pointer_to_raw_data <= p < s.raw_end() {
                assert(ds[p - s.pointer_to_raw_data] == os[p - s.pointer_to_raw_data]);
                assert(in_sections(secs, k, p));
            } else {
                if in_sections(secs, k, p) {
                    let w = choose|w: int| 0 <= w < k && #[trigger] secs[w].pointer_to_raw_data <= p < secs[w].raw_end();
                    assert(w != k - 1);
                    assert(in_sections(secs, k - 1, p));
                } else {
                    if in_sections(secs, k - 1, p) {
                        let w = choose|w: int| 0 <= w < k - 1 && #[trigger] secs[w].pointer_to_raw_data <= p < secs[w].raw_end();
                        assert(0 <= w < k && secs[w].pointer_to_raw_data <= p < secs[w].raw_end());
                    }
                }
            }
        }
        assert(cur =~= want);
    }
}

proof fn lemma_faithful_donor_accepted(l: LayoutView, original: Seq<u8>, dl: LayoutView, donor: Seq<u8>, donee_len: int, j: int)
    requires
        0 <= j <= l.sections.len(),
        donee_len == original.len(),
        forall|k: int| 0 <= k < l.sections.len() ==> #[trigger] l.sections[k].name is Some,
        forall|k: int| 0 <= k < l.sections.len() ==> #[trigger] l.sections[k].fits(original.len() as int),
        forall|k: int| 0 <= k < l.sections.len() ==> #[trigger] donor_matches(l, original, dl, donor, k),
    ensures
        link_fault(l, original, dl, donor, donee_len, j) is None,
    decreases l.sections.len() - j,
{
    if j < l.sections.len() {
        lemma_faithful_donor_accepted(l, original, dl, donor, donee_len, j + 1);
        let s = l.sections[j];
        assert(s.name is Some);
        assert(s.fits(original.len() as int));
        assert(donor_matches(l, original, dl, donor, j));
        let d = dl.sections[first_raw_named(dl.sections, s.raw_name, 0)->Some_0];
        let ds = donor.subrange(d.pointer_to_raw_data as int, d.raw_end());
        let os = original.subrange(s.pointer_to_raw_data as int, s.raw_end());
        assert forall|i: int| 0 <= i < s.size_of_raw_data implies #[trigger] original[s.pointer_to_raw_data + i] == donor[d.pointer_to_raw_data + i] by {
            assert(ds[i] == os[i]);
        }
        lemma_no_difference(original, s.pointer_to_raw_data as int, donor, d.pointer_to_raw_data as int, s.size_of_raw_data as int, 0);
        assert(section_link_fault(l, original, dl, donor, donee_len, j) is None);
    }
}

/// Round trip: split `file` by a descriptor of copy units only, which the
/// splitter accepts; let a byte-accurate toolchain build a donor whose copy of
/// each section, found by raw name and of the same size, holds the bytes that
/// the section's generated `DB` lines spell out, in unit order. Then the
/// reconciler accepts the donor, and filling the template gives back `file`
/// exactly.
pub proof fn lemma_round_trip(secs: Seq<Section>, l: LayoutView, file: Seq<u8>, dl: LayoutView, donor: Seq<u8>)
    requires
        split_fault(secs, l, file.len() as int) is None,
        forall|c: int, i: int| 0 <= c < secs.len() && 0 <= i < secs[c].units@.len()
            ==> #[trigger] secs[c].units@[i].kind == UnitKind::Copy,
        forall|j: int| 0 <= j < l.sections.len() ==> {
            let s = #[trigger] l.sections[j];
            let units = units_of(secs, s.name->Some_0);
            &&& first_raw_named(dl.sections, s.raw_name, 0) is Some
            &&& {
                let d = dl.sections[first_raw_named(dl.sections, s.raw_name, 0)->Some_0];
                &&& d.size_of_raw_data == s.size_of_raw_data
                &&& d.fits(donor.len() as int)
                &&& donor.subrange(d.pointer_to_raw_data as int, d.raw_end())
                    == assembled_units(units, s.pointer_to_raw_data as int, file, units.len() as int)
            }
        },
    ensures
        link_fault(l, file, dl, donor, file.len() as int, 0) is None,
        donated(l, dl, donor, template(l, file), l.sections.len() as int) == file,
{
    lemma_accepted_descriptor_covers(secs, l, file.len() as int);
    lemma_none_outside(l.sections, file.len() as int, 0);
    assert forall|j: int| 0 <= j < l.sections.len() implies #[trigger] donor_matches(l, file, dl, donor, j) by {
        let s = l.sections[j];
        assert(s.fits(file.len() as int));
        lemma_assembled_section(units_of(secs, s.name->Some_0), section_start(l, s), s.pointer_to_raw_data as int, s.size_of_raw_data as int, file);
    }
    assert forall|j: int| 0 <= j < l.sections.len() implies #[trigger] l.sections[j].name is Some by {
        let s = l.sections[j];
        assert(s.name is Some);
    }
    lemma_faithful_donor_accepted(l, file, dl, donor, file.len() as int, 0);
    let t = template(l, file);
    lemma_donated_original(l, file, dl, donor, t, l.sections.len() as int);
    assert(donated(l, dl, donor, t, l.sections.len() as int) =~= file);
}

} // verus!
