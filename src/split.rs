//! The splitter: checks that each section's units cover it, zeroes the
//! sections of a template image, and generates the copy units' assembly and the
//! link script.
use vstd::prelude::*;
use vstd::string::StringSliceAdditionalSpecFns;
use vstd::utf8::encode_utf8;
use crate::config::{find_section, first_named, Config, Section, Unit, UnitKind};
use crate::layout::{parse_layout, pe_layout_of, Layout, LayoutView, SectionHeaderView};
use crate::text::{asm_source, copy_unit_source, decimal, decimal_text, hex, hex_text, push_bytes, push_str};

verus! {

pub const SCRIPT_PROLOGUE: &'static str = "ENTRY(_start)\n\nSECTIONS {\n";

pub const START_PREFIX: &'static str = "\t_start = 0x";

pub const START_SUFFIX: &'static str = ";\n\n";

pub const TAB: &'static str = "\t";

pub const ADDRESS_PREFIX: &'static str = " 0x";

pub const REGION_OPEN: &'static str = " : {\n";

pub const OBJECT_PREFIX: &'static str = "\t\tbuild/";

pub const OBJECT_SUFFIX: &'static str = ".obj(POD)\n";

pub const REGION_CLOSE: &'static str = "\t}\n\n";

pub const SCRIPT_EPILOGUE: &'static str = "}\n";

pub const COPY_INFIX: &'static str = "_copy_";

pub const ASM_INFIX: &'static str = "_asm_";

pub open spec fn kind_infix(k: UnitKind) -> Seq<u8> {
    match k {
        UnitKind::Copy => COPY_INFIX.spec_bytes(),
        UnitKind::Asm => ASM_INFIX.spec_bytes(),
    }
}

/// `<section>_<kind>_<index>`: the stem of a unit's build files.
pub open spec fn unit_stem(name: Seq<char>, kind: UnitKind, i: int) -> Seq<u8> {
    encode_utf8(name) + kind_infix(kind) + decimal_text(i as nat)
}

/// Appends the stem of unit `i`'s build files to `out`.
pub fn push_unit_stem(out: &mut Vec<u8>, name: &String, kind: UnitKind, i: usize)
    ensures
        final(out)@ == old(out)@ + unit_stem(name@, kind, i as int),
{
    push_bytes(out, name.as_str().as_bytes());
    match kind {
        UnitKind::Copy => push_str(out, COPY_INFIX),
        UnitKind::Asm => push_str(out, ASM_INFIX),
    }
    let mut d = decimal(i as u128);
    out.append(&mut d);
    assert(final(out)@ =~= old(out)@ + unit_stem(name@, kind, i as int));
}

/// The link-script line that places unit `i`'s object file.
pub open spec fn object_line(name: Seq<char>, kind: UnitKind, i: int) -> Seq<u8> {
    OBJECT_PREFIX.spec_bytes() + unit_stem(name, kind, i) + OBJECT_SUFFIX.spec_bytes()
}

/// The object lines of the first `k` units.
pub open spec fn object_lines(name: Seq<char>, units: Seq<Unit>, k: int) -> Seq<u8>
    decreases k,
{
    if k <= 0 {
        seq![]
    } else {
        object_lines(name, units, k - 1) + object_line(name, units[k - 1].kind, k - 1)
    }
}

/// The link-script region of a section named `name` that starts at `start`.
pub open spec fn region_script(name: Seq<char>, start: int, units: Seq<Unit>) -> Seq<u8> {
    TAB.spec_bytes() + encode_utf8(name) + ADDRESS_PREFIX.spec_bytes() + hex_text(start as nat)
        + REGION_OPEN.spec_bytes() + object_lines(name, units, units.len() as int)
        + REGION_CLOSE.spec_bytes()
}

/// The total size of the first `i` units.
pub open spec fn prefix_size(units: Seq<Unit>, i: int) -> int
    decreases i,
{
    if i <= 0 {
        0
    } else {
        prefix_size(units, i - 1) + units[i - 1].raw_size
    }
}

/// The units start at `start`, follow each other without gap or overlap, and
/// their sizes add up to `size`.
pub open spec fn units_cover(units: Seq<Unit>, start: int, size: int) -> bool {
    &&& forall|i: int| 0 <= i < units.len() ==> #[trigger] units[i].addr_virtual == start + prefix_size(units, i)
    &&& prefix_size(units, units.len() as int) == size
}

/// What is wrong with a section's units; a unit is named by its index.
#[derive(Clone, Copy, Debug, PartialEq, Eq, Structural)]
pub enum UnitFault {
    /// The unit does not begin where the previous unit (or the section) ends.
    NotContiguous(usize),
    /// An `Asm` unit names no source file.
    MissingAsmFile(usize),
    /// A copy unit's bytes run past the end of the file.
    OutOfRange(usize),
    /// The units' sizes do not add up to the section's raw size.
    SizeMismatch,
}

/// The fault of unit `u`, the `i`-th, where the units before it have size
/// `prefix` and the section's raw bytes start at file offset `ptr`.
pub open spec fn unit_fault(u: Unit, i: int, start: int, prefix: int, ptr: int, len: int) -> Option<UnitFault> {
    if u.addr_virtual != start + prefix {
        Some(UnitFault::NotContiguous(i as usize))
    } else {
        match u.kind {
            UnitKind::Copy => if ptr + prefix + u.raw_size > len {
                Some(UnitFault::OutOfRange(i as usize))
            } else {
                None
            },
            UnitKind::Asm => if u.file is None {
                Some(UnitFault::MissingAsmFile(i as usize))
            } else {
                None
            },
        }
    }
}

/// The fault of the first faulty unit from `i` on.
pub open spec fn first_unit_fault(units: Seq<Unit>, start: int, ptr: int, len: int, i: int) -> Option<UnitFault>
    decreases units.len() - i,
{
    if i < 0 || i >= units.len() {
        None
    } else {
        match unit_fault(units[i], i, start, prefix_size(units, i), ptr, len) {
            Some(f) => Some(f),
            None => first_unit_fault(units, start, ptr, len, i + 1),
        }
    }
}

/// What is wrong with a section's units, checked in order, then their total size.
pub open spec fn units_fault(units: Seq<Unit>, start: int, ptr: int, size: int, len: int) -> Option<UnitFault> {
    match first_unit_fault(units, start, ptr, len, 0) {
        Some(f) => Some(f),
        None => if prefix_size(units, units.len() as int) != size {
            Some(UnitFault::SizeMismatch)
        } else {
            None
        },
    }
}

/// A generated assembly source: the bytes of one copy unit.
#[derive(Debug)]
pub struct CopySource {
    pub section: String,
    pub unit: usize,
    pub text: Vec<u8>,
}

pub struct CopySourceView {
    pub section: Seq<char>,
    pub unit: int,
    pub text: Seq<u8>,
}

impl View for CopySource {
    type V = CopySourceView;

    open spec fn view(&self) -> CopySourceView {
        CopySourceView { section: self.section@, unit: self.unit as int, text: self.text@ }
    }
}

/// The file range of unit `i`'s bytes.
pub open spec fn unit_bytes(units: Seq<Unit>, ptr: int, file: Seq<u8>, i: int) -> Seq<u8> {
    file.subrange(ptr + prefix_size(units, i), ptr + prefix_size(units, i) + units[i].raw_size)
}

/// The sources of the copy units among the first `k`.
pub open spec fn unit_sources(name: Seq<char>, units: Seq<Unit>, ptr: int, file: Seq<u8>, k: int) -> Seq<CopySourceView>
    decreases k,
{
    if k <= 0 {
        seq![]
    } else {
        unit_sources(name, units, ptr, file, k - 1) + if units[k - 1].kind == UnitKind::Copy {
            seq![CopySourceView { section: name, unit: k - 1, text: asm_source(unit_bytes(units, ptr, file, k - 1)) }]
        } else {
            seq![]
        }
    }
}

proof fn lemma_prefix_size_step(units: Seq<Unit>, i: int)
    requires
        0 <= i,
    ensures
        prefix_size(units, i + 1) == prefix_size(units, i) + units[i].raw_size,
{
}

pub(crate) proof fn lemma_prefix_size_nonneg(units: Seq<Unit>, i: int)
    ensures
        prefix_size(units, i) >= 0,
    decreases i,
{
    if i > 0 {
        lemma_prefix_size_nonneg(units, i - 1);
    }
}

/// The fault of a unit that begins where it should, at file offset `offset`.
pub open spec fn placed_unit_fault(u: Unit, i: int, offset: int, len: int) -> Option<UnitFault> {
    match u.kind {
        UnitKind::Copy => if offset + u.raw_size > len {
            Some(UnitFault::OutOfRange(i as usize))
        } else {
            None
        },
        UnitKind::Asm => if u.file is None {
            Some(UnitFault::MissingAsmFile(i as usize))
        } else {
            None
        },
    }
}

/// Checks unit `i`, which begins at file offset `offset`, and appends its
/// object line to `script` and, for a copy unit, its source to `sources`.
fn split_unit(
    name: &String,
    u: &Unit,
    i: usize,
    offset: u128,
    file: &Vec<u8>,
    script: &mut Vec<u8>,
    sources: &mut Vec<CopySource>,
) -> (r: Result<(), UnitFault>)
    requires
        offset <= u64::MAX + u64::MAX,
    ensures
        r matches Err(f) ==> placed_unit_fault(*u, i as int, offset as int, file@.len() as int) == Some(f),
        r is Ok ==> {
            &&& placed_unit_fault(*u, i as int, offset as int, file@.len() as int) is None
            &&& final(script)@ == old(script)@ + object_line(name@, u.kind, i as int)
            &&& final(sources)@.map_values(|s: CopySource| s@) == old(sources)@.map_values(|s: CopySource| s@)
                + if u.kind == UnitKind::Copy {
                    seq![CopySourceView { section: name@, unit: i as int, text: asm_source(file@.subrange(offset as int, offset + u.raw_size)) }]
                } else {
                    seq![]
                }
        },
{
    let ghost srcs0 = sources@;
    match u.kind {
        UnitKind::Copy => {
            let data_end = offset + u.raw_size as u128;
            if data_end > file.len() as u128 {
                return Err(UnitFault::OutOfRange(i));
            }
            let text = copy_unit_source(file.as_slice(), offset as usize, data_end as usize);
            sources.push(CopySource { section: name.clone(), unit: i, text });
            assert(sources@.map_values(|s: CopySource| s@) =~= srcs0.map_values(|s: CopySource| s@)
                + seq![CopySourceView { section: name@, unit: i as int, text: asm_source(file@.subrange(offset as int, offset + u.raw_size)) }]);
        },
        UnitKind::Asm => {
            if u.file.is_none() {
                return Err(UnitFault::MissingAsmFile(i));
            }
            assert(sources@.map_values(|s: CopySource| s@) =~= srcs0.map_values(|s: CopySource| s@) + seq![]);
        },
    }
    push_str(script, OBJECT_PREFIX);
    push_unit_stem(script, name, u.kind, i);
    push_str(script, OBJECT_SUFFIX);
    assert(final(script)@ =~= old(script)@ + object_line(name@, u.kind, i as int));
    Ok(())
}

/// Checks one section's units and appends its region to `script` and its copy
/// units' sources to `sources`.
fn split_section(
    name: &String,
    units: &Vec<Unit>,
    start: u128,
    ptr: u128,
    size: u128,
    file: &Vec<u8>,
    script: &mut Vec<u8>,
    sources: &mut Vec<CopySource>,
) -> (r: Result<(), UnitFault>)
    requires
        start <= u64::MAX + u32::MAX,
        ptr <= u32::MAX,
        size <= u32::MAX,
    ensures
        r matches Err(f) ==> units_fault(units@, start as int, ptr as int, size as int, file@.len() as int) == Some(f),
        r is Ok ==> {
            &&& units_fault(units@, start as int, ptr as int, size as int, file@.len() as int) is None
            &&& final(script)@ == old(script)@ + region_script(name@, start as int, units@)
            &&& final(sources)@.map_values(|s: CopySource| s@) == old(sources)@.map_values(|s: CopySource| s@)
                + unit_sources(name@, units@, ptr as int, file@, units@.len() as int)
        },
{
    let ghost us = units@;
    let ghost len = file@.len() as int;
    let ghost script0 = script@;
    let ghost sources0 = sources@.map_values(|s: CopySource| s@);
    push_str(script, TAB);
    push_bytes(script, name.as_str().as_bytes());
    push_str(script, ADDRESS_PREFIX);
    let mut h = hex(start);
    script.append(&mut h);
    push_str(script, REGION_OPEN);
    let ghost head = script@;
    let mut last_end: u128 = start;
    let mut i: usize = 0;
    while i < units.len()
        invariant
            us == units@,
            len == file@.len(),
            start <= u64::MAX + u32::MAX,
            ptr <= u32::MAX,
            0 <= i <= us.len(),
            last_end == start + prefix_size(us, i as int),
            last_end <= u64::MAX + u64::MAX + u32::MAX,
            first_unit_fault(us, start as int, ptr as int, len, 0) == first_unit_fault(us, start as int, ptr as int, len, i as int),
            script@ == head + object_lines(name@, us, i as int),
            sources@.map_values(|s: CopySource| s@) == sources0 + unit_sources(name@, us, ptr as int, file@, i as int),
        decreases us.len() - i,
    {
        let u = &units[i];
        proof {
            lemma_prefix_size_step(us, i as int);
            lemma_prefix_size_nonneg(us, i as int);
        }
        if u.addr_virtual as u128 != last_end {
            return Err(UnitFault::NotContiguous(i));
        }
        let offset = ptr + (last_end - start);
        let res = split_unit(name, u, i, offset, file, script, sources);
        if let Err(f) = res {
            return Err(f);
        }
        assert(script@ =~= head + object_lines(name@, us, i + 1));
        assert(sources@.map_values(|s: CopySource| s@) =~= sources0 + unit_sources(name@, us, ptr as int, file@, i + 1));
        last_end = last_end + u.raw_size as u128;
        i += 1;
    }
    if last_end != start + size {
        return Err(UnitFault::SizeMismatch);
    }
    push_str(script, REGION_CLOSE);
    assert(script@ =~= script0 + region_script(name@, start as int, us));
    Ok(())
}

/// Why the splitter refused its input.
pub enum SplitFault {
    Format,
    SectionOutOfRange(usize),
    UnnamedSection(usize),
    MissingUnitConfiguration(Seq<char>),
    Units(Seq<char>, UnitFault),
}

/// Why the splitter refused its input.
#[derive(Debug)]
#[allow(inconsistent_fields)]
pub enum SplitError {
    /// The executable could not be decoded; the decoder's message.
    Format(String),
    /// The raw bytes of the section with this index run past the end of the file.
    SectionOutOfRange { section: usize },
    /// The name of the section with this index is not valid UTF-8.
    UnnamedSection { section: usize },
    /// The descriptor has no units for this section.
    MissingUnitConfiguration { section: String },
    /// This section's units are faulty.
    Units { section: String, fault: UnitFault },
}

impl View for SplitError {
    type V = SplitFault;

    open spec fn view(&self) -> SplitFault {
        match self {
            SplitError::Format(_) => SplitFault::Format,
            SplitError::SectionOutOfRange { section } => SplitFault::SectionOutOfRange(*section),
            SplitError::UnnamedSection { section } => SplitFault::UnnamedSection(*section),
            SplitError::MissingUnitConfiguration { section } => SplitFault::MissingUnitConfiguration(section@),
            SplitError::Units { section, fault } => SplitFault::Units(section@, *fault),
        }
    }
}

/// The absolute virtual address where section `s` begins.
pub open spec fn section_start(l: LayoutView, s: SectionHeaderView) -> int {
    l.image_base + s.virtual_address
}

/// The index of the first section from `j` on whose raw bytes run past `len`.
pub open spec fn first_outside(secs: Seq<SectionHeaderView>, len: int, j: int) -> Option<int>
    decreases secs.len() - j,
{
    if j < 0 || j >= secs.len() {
        None
    } else if !secs[j].fits(len) {
        Some(j)
    } else {
        first_outside(secs, len, j + 1)
    }
}

/// The units that the descriptor `secs` gives for the section named `n`.
pub open spec fn units_of(secs: Seq<Section>, n: Seq<char>) -> Seq<Unit> {
    secs[first_named(secs, n, 0)->Some_0].units@
}

/// What is wrong with the `j`-th section of `l` under the descriptor `secs`.
pub open spec fn section_fault(secs: Seq<Section>, l: LayoutView, len: int, j: int) -> Option<SplitFault> {
    let s = l.sections[j];
    match s.name {
        None => Some(SplitFault::UnnamedSection(j as usize)),
        Some(n) => match first_named(secs, n, 0) {
            None => Some(SplitFault::MissingUnitConfiguration(n)),
            Some(c) => match units_fault(secs[c].units@, section_start(l, s), s.pointer_to_raw_data as int, s.size_of_raw_data as int, len) {
                Some(f) => Some(SplitFault::Units(n, f)),
                None => None,
            },
        },
    }
}

/// The fault of the first faulty section from `j` on.
pub open spec fn first_section_fault(secs: Seq<Section>, l: LayoutView, len: int, j: int) -> Option<SplitFault>
    decreases l.sections.len() - j,
{
    if j < 0 || j >= l.sections.len() {
        None
    } else {
        match section_fault(secs, l, len, j) {
            Some(f) => Some(f),
            None => first_section_fault(secs, l, len, j + 1),
        }
    }
}

/// Why the splitter refuses the descriptor `secs` for layout `l` and a file of
/// `len` bytes; `None` where it accepts them.
pub open spec fn split_fault(secs: Seq<Section>, l: LayoutView, len: int) -> Option<SplitFault> {
    match first_outside(l.sections, len, 0) {
        Some(j) => Some(SplitFault::SectionOutOfRange(j as usize)),
        None => first_section_fault(secs, l, len, 0),
    }
}

/// The link-script regions of the first `k` sections.
pub open spec fn regions(secs: Seq<Section>, l: LayoutView, k: int) -> Seq<u8>
    decreases k,
{
    if k <= 0 {
        seq![]
    } else {
        let s = l.sections[k - 1];
        let n = s.name->Some_0;
        regions(secs, l, k - 1) + region_script(n, section_start(l, s), units_of(secs, n))
    }
}

/// The link script: the entry point, then one region per section.
pub open spec fn link_script(secs: Seq<Section>, l: LayoutView) -> Seq<u8> {
    (SCRIPT_PROLOGUE.spec_bytes() + START_PREFIX.spec_bytes() + hex_text((l.image_base + l.entry) as nat)
        + START_SUFFIX.spec_bytes() + regions(secs, l, l.sections.len() as int)).drop_last()
        + SCRIPT_EPILOGUE.spec_bytes()
}

/// The copy units' sources of the first `k` sections.
pub open spec fn section_sources(secs: Seq<Section>, l: LayoutView, file: Seq<u8>, k: int) -> Seq<CopySourceView>
    decreases k,
{
    if k <= 0 {
        seq![]
    } else {
        let s = l.sections[k - 1];
        let n = s.name->Some_0;
        let units = units_of(secs, n);
        section_sources(secs, l, file, k - 1) + unit_sources(n, units, s.pointer_to_raw_data as int, file, units.len() as int)
    }
}

/// File offset `p` lies in the raw bytes of one of the first `k` sections.
pub open spec fn in_sections(secs: Seq<SectionHeaderView>, k: int, p: int) -> bool {
    exists|j: int| 0 <= j < k && #[trigger] secs[j].pointer_to_raw_data <= p < secs[j].raw_end()
}

/// The template image: `file` with every section's raw bytes zeroed.
pub open spec fn template(l: LayoutView, file: Seq<u8>) -> Seq<u8> {
    Seq::new(file.len(), |p: int| if in_sections(l.sections, l.sections.len() as int, p) { 0u8 } else { file[p] })
}

/// What the splitter produces.
#[derive(Debug)]
pub struct SplitOutput {
    /// The template image that the reconciler fills.
    pub donee: Vec<u8>,
    pub link_script: Vec<u8>,
    pub sources: Vec<CopySource>,
}

/// What the splitter returns for descriptor `secs`, layout `l` and `file`.
pub open spec fn split_post(secs: Seq<Section>, l: LayoutView, file: Seq<u8>, r: Result<SplitOutput, SplitError>) -> bool {
    match r {
        Ok(o) => {
            &&& split_fault(secs, l, file.len() as int) is None
            &&& o.donee@ == template(l, file)
            &&& o.link_script@ == link_script(secs, l)
            &&& o.sources@.map_values(|s: CopySource| s@) == section_sources(secs, l, file, l.sections.len() as int)
        },
        Err(e) => split_fault(secs, l, file.len() as int) == Some(e@),
    }
}

pub(crate) proof fn lemma_none_outside(secs: Seq<SectionHeaderView>, len: int, j: int)
    requires
        0 <= j,
        first_outside(secs, len, j) is None,
    ensures
        forall|k: int| j <= k < secs.len() ==> #[trigger] secs[k].fits(len),
    decreases secs.len() - j,
{
    if j < secs.len() {
        lemma_none_outside(secs, len, j + 1);
    }
}

/// `file` with the raw bytes of every section of `l` zeroed.
fn zeroed_template(l: &Layout, file: &Vec<u8>) -> (r: Vec<u8>)
    requires
        first_outside(l@.sections, file@.len() as int, 0) is None,
    ensures
        r@ == template(l@, file@),
{
    let ghost secs = l@.sections;
    let ghost len = file@.len() as int;
    proof {
        lemma_none_outside(secs, len, 0);
    }
    let mut out: Vec<u8> = Vec::new();
    let mut p: usize = 0;
    while p < file.len()
        invariant
            0 <= p <= file@.len(),
            out@ == file@.subrange(0, p as int),
        decreases file@.len() - p,
    {
        out.push(file[p]);
        p += 1;
        assert(out@ =~= file@.subrange(0, p as int));
    }
    let mut j: usize = 0;
    while j < l.sections.len()
        invariant
            secs == l@.sections,
            len == file@.len(),
            forall|k: int| 0 <= k < secs.len() ==> #[trigger] secs[k].fits(len),
            0 <= j <= secs.len(),
            out@.len() == len,
            forall|q: int| 0 <= q < len ==> out@[q] == if in_sections(secs, j as int, q) { 0u8 } else { file@[q] },
        decreases secs.len() - j,
    {
        let s = &l.sections[j];
        assert(secs[j as int] == s@);
        assert(secs[j as int].fits(len));
        let flen = file.len();
        let from = s.pointer_to_raw_data as usize;
        let to = (s.pointer_to_raw_data as u128 + s.size_of_raw_data as u128) as usize;
        let mut q: usize = from;
        while q < to
            invariant
                secs == l@.sections,
                len == file@.len(),
                0 <= j < secs.len(),
                secs[j as int].pointer_to_raw_data == from,
                secs[j as int].raw_end() == to,
                to <= len,
                from <= q <= to,
                out@.len() == len,
                forall|x: int| 0 <= x < len ==> out@[x] == if in_sections(secs, j as int, x) || (from <= x < q) { 0u8 } else { file@[x] },
            decreases to - q,
        {
            out.set(q, 0);
            q += 1;
        }
        assert forall|x: int| 0 <= x < len implies out@[x] == if in_sections(secs, j + 1, x) { 0u8 } else { file@[x] } by {
            if in_sections(secs, j + 1, x) {
                let w = choose|w: int| 0 <= w < j + 1 && #[trigger] secs[w].pointer_to_raw_data <= x < secs[w].raw_end();
                if w < j {
                    assert(in_sections(secs, j as int, x));
                }
            } else {
                if in_sections(secs, j as int, x) {
                    let w = choose|w: int| 0 <= w < j && #[trigger] secs[w].pointer_to_raw_data <= x < secs[w].raw_end();
                    assert(0 <= w < j + 1 && secs[w].pointer_to_raw_data <= x < secs[w].raw_end());
                }
                if from <= x < to {
                    assert(secs[j as int].pointer_to_raw_data <= x < secs[j as int].raw_end());
                }
            }
        }
        j += 1;
    }
    assert(out@ =~= template(l@, file@));
    out
}

/// Splits `file`, whose layout is `l`, by the descriptor `cfg`: checks each
/// section's units in layout order, and produces the template image, the link
/// script and the copy units' sources. Stops at the first fault.
pub fn split_layout(cfg: &Config, l: &Layout, file: &Vec<u8>) -> (r: Result<SplitOutput, SplitError>)
    ensures
        split_post(cfg.sections@, l@, file@, r),
{
    let ghost lv = l@;
    let ghost secs = cfg.sections@;
    let ghost len = file@.len() as int;
    let mut j: usize = 0;
    while j < l.sections.len()
        invariant
            lv == l@,
            len == file@.len(),
            0 <= j <= lv.sections.len(),
            first_outside(lv.sections, len, 0) == first_outside(lv.sections, len, j as int),
        decreases lv.sections.len() - j,
    {
        let s = &l.sections[j];
        assert(lv.sections[j as int] == s@);
        if s.pointer_to_raw_data as u128 + s.size_of_raw_data as u128 > file.len() as u128 {
            return Err(SplitError::SectionOutOfRange { section: j });
        }
        j += 1;
    }
    let donee = zeroed_template(l, file);
    let mut script: Vec<u8> = Vec::new();
    push_str(&mut script, SCRIPT_PROLOGUE);
    push_str(&mut script, START_PREFIX);
    let mut h = hex(l.image_base as u128 + l.entry as u128);
    script.append(&mut h);
    push_str(&mut script, START_SUFFIX);
    let ghost head = script@;
    let mut sources: Vec<CopySource> = Vec::new();
    assert(sources@.map_values(|s: CopySource| s@) =~= section_sources(secs, lv, file@, 0));
    assert(script@ =~= head + regions(secs, lv, 0));
    let mut j: usize = 0;
    while j < l.sections.len()
        invariant
            lv == l@,
            secs == cfg.sections@,
            len == file@.len(),
            0 <= j <= lv.sections.len(),
            first_outside(lv.sections, len, 0) is None,
            first_section_fault(secs, lv, len, 0) == first_section_fault(secs, lv, len, j as int),
            script@ == head + regions(secs, lv, j as int),
            sources@.map_values(|s: CopySource| s@) == section_sources(secs, lv, file@, j as int),
        decreases lv.sections.len() - j,
    {
        let s = &l.sections[j];
        assert(lv.sections[j as int] == s@);
        match &s.name {
            None => {
                return Err(SplitError::UnnamedSection { section: j });
            },
            Some(name) => {
                match find_section(&cfg.sections, name) {
                    None => {
                        return Err(SplitError::MissingUnitConfiguration { section: name.clone() });
                    },
                    Some(c) => {
                        let start = l.image_base as u128 + s.virtual_address as u128;
                        let res = split_section(
                            name,
                            &cfg.sections[c].units,
                            start,
                            s.pointer_to_raw_data as u128,
                            s.size_of_raw_data as u128,
                            file,
                            &mut script,
                            &mut sources,
                        );
                        if let Err(f) = res {
                            return Err(SplitError::Units { section: name.clone(), fault: f });
                        }
                    },
                }
            },
        }
        assert(script@ =~= head + regions(secs, lv, j + 1));
        assert(sources@.map_values(|s: CopySource| s@) =~= section_sources(secs, lv, file@, j + 1));
        j += 1;
    }
    let ghost body = script@;
    script.pop();
    assert(script@ =~= body.drop_last());
    push_str(&mut script, SCRIPT_EPILOGUE);
    assert(script@ =~= link_script(secs, lv));
    Ok(SplitOutput { donee, link_script: script, sources })
}

/// Splits the executable `file` by the descriptor `cfg`, after decoding its
/// layout.
pub fn split(cfg: &Config, file: &Vec<u8>) -> (r: Result<SplitOutput, SplitError>)
    ensures
        match pe_layout_of(file@) {
            None => r matches Err(SplitError::Format(_)),
            Some(l) => split_post(cfg.sections@, l, file@, r),
        },
{
    match parse_layout(file) {
        Err(m) => Err(SplitError::Format(m)),
        Ok(l) => split_layout(cfg, &l, file),
    }
}

proof fn lemma_no_unit_fault_from(units: Seq<Unit>, start: int, ptr: int, len: int, i: int)
    requires
        0 <= i,
        first_unit_fault(units, start, ptr, len, i) is None,
    ensures
        forall|k: int| i <= k < units.len() ==> #[trigger] unit_fault(units[k], k, start, prefix_size(units, k), ptr, len) is None,
    decreases units.len() - i,
{
    if i < units.len() {
        lemma_no_unit_fault_from(units, start, ptr, len, i + 1);
    }
}

proof fn lemma_no_section_fault_from(secs: Seq<Section>, l: LayoutView, len: int, j: int)
    requires
        0 <= j,
        first_section_fault(secs, l, len, j) is None,
    ensures
        forall|k: int| j <= k < l.sections.len() ==> #[trigger] section_fault(secs, l, len, k) is None,
    decreases l.sections.len() - j,
{
    if j < l.sections.len() {
        lemma_no_section_fault_from(secs, l, len, j + 1);
    }
}

/// Units without fault cover their section.
pub proof fn lemma_faultless_units_cover(units: Seq<Unit>, start: int, ptr: int, size: int, len: int)
    requires
        units_fault(units, start, ptr, size, len) is None,
    ensures
        units_cover(units, start, size),
{
    lemma_no_unit_fault_from(units, start, ptr, len, 0);
    assert forall|i: int| 0 <= i < units.len() implies #[trigger] units[i].addr_virtual == start + prefix_size(units, i) by {
        assert(unit_fault(units[i], i, start, prefix_size(units, i), ptr, len) is None);
    }
}

/// A descriptor that the splitter accepts covers every section: each section
/// is named, the descriptor has units for it, and those units begin at the
/// section's address, follow each other without gap or overlap, and add up to
/// its raw size. So a descriptor that leaves some section uncovered is refused.
pub proof fn lemma_accepted_descriptor_covers(secs: Seq<Section>, l: LayoutView, len: int)
    requires
        split_fault(secs, l, len) is None,
    ensures
        forall|j: int| 0 <= j < l.sections.len() ==> {
            let s = #[trigger] l.sections[j];
            &&& s.name is Some
            &&& first_named(secs, s.name->Some_0, 0) is Some
            &&& units_cover(units_of(secs, s.name->Some_0), section_start(l, s), s.size_of_raw_data as int)
        },
{
    lemma_no_section_fault_from(secs, l, len, 0);
    assert forall|j: int| 0 <= j < l.sections.len() implies {
        let s = #[trigger] l.sections[j];
        &&& s.name is Some
        &&& first_named(secs, s.name->Some_0, 0) is Some
        &&& units_cover(units_of(secs, s.name->Some_0), section_start(l, s), s.size_of_raw_data as int)
    } by {
        assert(section_fault(secs, l, len, j) is None);
        let s = l.sections[j];
        let n = s.name->Some_0;
        let c = first_named(secs, n, 0)->Some_0;
        lemma_faultless_units_cover(secs[c].units@, section_start(l, s), s.pointer_to_raw_data as int, s.size_of_raw_data as int, len);
    }
}

/// The splitter is deterministic: on the same descriptor, layout and file, two
/// runs both succeed or both fail, and when they succeed they give the same
/// template, link script and assembly sources, byte for byte.
pub proof fn lemma_split_deterministic(
    secs: Seq<Section>,
    l: LayoutView,
    file: Seq<u8>,
    r1: Result<SplitOutput, SplitError>,
    r2: Result<SplitOutput, SplitError>,
)
    requires
        split_post(secs, l, file, r1),
        split_post(secs, l, file, r2),
    ensures
        r1 is Ok <==> r2 is Ok,
        r1 is Err ==> r1->Err_0@ == r2->Err_0@,
        r1 is Ok ==> {
            &&& r1->Ok_0.donee@ == r2->Ok_0.donee@
            &&& r1->Ok_0.link_script@ == r2->Ok_0.link_script@
            &&& r1->Ok_0.sources@.map_values(|s: CopySource| s@) == r2->Ok_0.sources@.map_values(|s: CopySource| s@)
        },
{
}

proof fn lemma_first_section_fault_reaches(secs: Seq<Section>, l: LayoutView, len: int, i: int, j: int)
    requires
        0 <= i <= j < l.sections.len(),
        forall|k: int| i <= k < j ==> #[trigger] section_fault(secs, l, len, k) is None,
    ensures
        first_section_fault(secs, l, len, i) == first_section_fault(secs, l, len, j),
    decreases j - i,
{
    if i < j {
        lemma_first_section_fault_reaches(secs, l, len, i + 1, j);
    }
}

/// A section whose units do not cover it is refused by name: where every
/// section's raw bytes lie in the file, the sections before the `j`-th pass,
/// and the descriptor's units for the `j`-th, named `n`, leave a gap, overlap,
/// or do not add up to its size, the splitter fails with a unit fault of `n`.
pub proof fn lemma_uncovered_section_named(
    secs: Seq<Section>,
    l: LayoutView,
    file: Seq<u8>,
    j: int,
    r: Result<SplitOutput, SplitError>,
)
    requires
        0 <= j < l.sections.len(),
        first_outside(l.sections, file.len() as int, 0) is None,
        forall|i: int| 0 <= i < j ==> #[trigger] section_fault(secs, l, file.len() as int, i) is None,
        l.sections[j].name is Some,
        first_named(secs, l.sections[j].name->Some_0, 0) is Some,
        !units_cover(
            units_of(secs, l.sections[j].name->Some_0),
            section_start(l, l.sections[j]),
            l.sections[j].size_of_raw_data as int,
        ),
        split_post(secs, l, file, r),
    ensures
        r matches Err(e) && e@ matches SplitFault::Units(n, _) && n == l.sections[j].name->Some_0,
{
    let s = l.sections[j];
    let n = s.name->Some_0;
    let c = first_named(secs, n, 0)->Some_0;
    let len = file.len() as int;
    if units_fault(secs[c].units@, section_start(l, s), s.pointer_to_raw_data as int, s.size_of_raw_data as int, len) is None {
        lemma_faultless_units_cover(secs[c].units@, section_start(l, s), s.pointer_to_raw_data as int, s.size_of_raw_data as int, len);
    }
    lemma_first_section_fault_reaches(secs, l, len, 0, j);
}

} // verus!
