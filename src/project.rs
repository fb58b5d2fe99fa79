//! Making a project: the default descriptor for an executable, and the
//! arguments handed to the outside assembler and linker.
use vstd::prelude::*;
use vstd::string::StringSliceAdditionalSpecFns;
use vstd::utf8::encode_utf8;
use crate::config::{find_section, first_named, Config, Section, Unit, UnitKind};
use crate::layout::{parse_layout, pe_layout_of, Layout, LayoutView};
use crate::split::unit_stem;
use crate::split::push_unit_stem;
use crate::text::{hex, hex_text, push_bytes, push_str};

verus! {

/// The BLAKE3 digest of `b` in lower-case hexadecimal.
pub uninterp spec fn blake3_hex_of(b: Seq<u8>) -> Seq<char>;

/// Relies on blake3::hash and blake3::Hash's `Display`, which writes the
/// 32-byte digest as 64 lower-case hexadecimal digits.
#[verifier::external_body]
fn content_hash(b: &Vec<u8>) -> (r: String)
    ensures
        r@ == blake3_hex_of(b@),
        r@.len() == 64,
{
    blake3::hash(b).to_string()
}

pub const DEFAULT_ASSEMBLER: &'static str = "ml";

pub const DEFAULT_COMPILER: &'static str = "cl";

pub const DEFAULT_LINKER: &'static str = "ld";

/// Why no default descriptor could be made.
pub enum InitFault {
    Format,
    UnnamedSection(usize),
    AddressOverflow(usize),
}

/// Why no default descriptor could be made.
#[derive(Debug)]
pub enum InitError {
    /// The executable could not be decoded; the decoder's message.
    Format(String),
    /// The name of the section with this index is not valid UTF-8.
    UnnamedSection(usize),
    /// The absolute address of the section with this index does not fit in 64 bits.
    AddressOverflow(usize),
}

impl View for InitError {
    type V = InitFault;

    open spec fn view(&self) -> InitFault {
        match self {
            InitError::Format(_) => InitFault::Format,
            InitError::UnnamedSection(j) => InitFault::UnnamedSection(*j),
            InitError::AddressOverflow(j) => InitFault::AddressOverflow(*j),
        }
    }
}

/// Why section `j` of `l` gets no default units.
pub open spec fn init_section_fault(l: LayoutView, j: int) -> Option<InitFault> {
    let s = l.sections[j];
    if s.name is None {
        Some(InitFault::UnnamedSection(j as usize))
    } else if l.image_base + s.virtual_address > u64::MAX {
        Some(InitFault::AddressOverflow(j as usize))
    } else {
        None
    }
}

/// The fault of the first section from `j` on that gets no default units.
pub open spec fn first_init_fault(l: LayoutView, j: int) -> Option<InitFault>
    decreases l.sections.len() - j,
{
    if j < 0 || j >= l.sections.len() {
        None
    } else {
        match init_section_fault(l, j) {
            Some(f) => Some(f),
            None => first_init_fault(l, j + 1),
        }
    }
}

/// `c` is the default descriptor of `executable`, with layout `l` and fingerprint
/// `hash`: one copy unit over each whole section, and the default tools.
pub open spec fn is_default_config(c: Config, executable: Seq<char>, hash: Seq<char>, l: LayoutView) -> bool {
    &&& c.executable@ == executable
    &&& c.hash@ == hash
    &&& c.assembler_path@ == DEFAULT_ASSEMBLER@
    &&& c.compiler_path@ == DEFAULT_COMPILER@
    &&& c.linker_path@ == DEFAULT_LINKER@
    &&& c.sections@.len() == l.sections.len()
    &&& forall|j: int| 0 <= j < l.sections.len() ==> {
        let s = l.sections[j];
        let cs = #[trigger] c.sections@[j];
        &&& s.name == Some(cs.name@)
        &&& cs.units@.len() == 1
        &&& cs.units@[0].kind == UnitKind::Copy
        &&& cs.units@[0].file is None
        &&& cs.units@[0].addr_virtual == l.image_base + s.virtual_address
        &&& cs.units@[0].raw_size == s.size_of_raw_data
    }
}

/// The default descriptor of `executable`, whose layout is `l` and whose
/// fingerprint is `hash`.
pub fn default_config(executable: String, hash: String, l: &Layout) -> (r: Result<Config, InitError>)
    ensures
        match r {
            Ok(c) => first_init_fault(l@, 0) is None && is_default_config(c, executable@, hash@, l@),
            Err(e) => first_init_fault(l@, 0) == Some(e@),
        },
{
    let ghost lv = l@;
    let mut sections: Vec<Section> = Vec::new();
    let mut j: usize = 0;
    while j < l.sections.len()
        invariant
            lv == l@,
            0 <= j <= lv.sections.len(),
            first_init_fault(lv, 0) == first_init_fault(lv, j as int),
            sections@.len() == j,
            forall|k: int| 0 <= k < j ==> {
                let s = lv.sections[k];
                let cs = #[trigger] sections@[k];
                &&& s.name == Some(cs.name@)
                &&& cs.units@.len() == 1
                &&& cs.units@[0].kind == UnitKind::Copy
                &&& cs.units@[0].file is None
                &&& cs.units@[0].addr_virtual == lv.image_base + s.virtual_address
                &&& cs.units@[0].raw_size == s.size_of_raw_data
            },
        decreases lv.sections.len() - j,
    {
        let s = &l.sections[j];
        assert(lv.sections[j as int] == s@);
        let name = match &s.name {
            None => {
                return Err(InitError::UnnamedSection(j));
            },
            Some(n) => n.clone(),
        };
        let addr = match l.image_base.checked_add(s.virtual_address as u64) {
            None => {
                return Err(InitError::AddressOverflow(j));
            },
            Some(a) => a,
        };
        let mut units: Vec<Unit> = Vec::new();
        units.push(Unit { kind: UnitKind::Copy, file: None, addr_virtual: addr, raw_size: s.size_of_raw_data as u64 });
        sections.push(Section { name, units });
        j += 1;
    }
    Ok(Config {
        executable,
        hash,
        assembler_path: DEFAULT_ASSEMBLER.to_owned(),
        compiler_path: DEFAULT_COMPILER.to_owned(),
        linker_path: DEFAULT_LINKER.to_owned(),
        sections,
    })
}

/// The default descriptor of the executable at path `executable`, whose bytes
/// are `file`: fingerprinted with BLAKE3 and decoded, then as `default_config`.
pub fn init_config(executable: String, file: &Vec<u8>) -> (r: Result<Config, InitError>)
    ensures
        match pe_layout_of(file@) {
            None => r matches Err(InitError::Format(_)),
            Some(l) => match r {
                Ok(c) => first_init_fault(l, 0) is None && is_default_config(c, executable@, blake3_hex_of(file@), l),
                Err(e) => first_init_fault(l, 0) == Some(e@),
            },
        },
{
    let l = match parse_layout(file) {
        Err(m) => {
            return Err(InitError::Format(m));
        },
        Ok(l) => l,
    };
    let hash = content_hash(file);
    default_config(executable, hash, &l)
}

pub const BUILD_DIR_PREFIX: &'static str = "build/";

pub const OBJECT_FLAG: &'static str = "/Fo";

pub const OBJECT_EXTENSION: &'static str = ".obj";

pub const SOURCE_EXTENSION: &'static str = ".asm";

/// One run of the assembler: `<assembler> <output_arg> /c <source>`.
#[derive(Debug)]
pub struct AssembleJob {
    /// `/Fobuild/<section>_<kind>_<index>.obj`.
    pub output_arg: Vec<u8>,
    /// The assembly source to assemble.
    pub source: Vec<u8>,
}

pub struct AssembleJobView {
    pub output_arg: Seq<u8>,
    pub source: Seq<u8>,
}

impl View for AssembleJob {
    type V = AssembleJobView;

    open spec fn view(&self) -> AssembleJobView {
        AssembleJobView { output_arg: self.output_arg@, source: self.source@ }
    }
}

/// The assembler job of unit `i` of the section named `name`.
pub open spec fn unit_job(name: Seq<char>, u: Unit, i: int) -> AssembleJobView {
    AssembleJobView {
        output_arg: OBJECT_FLAG.spec_bytes() + BUILD_DIR_PREFIX.spec_bytes() + unit_stem(name, u.kind, i) + OBJECT_EXTENSION.spec_bytes(),
        source: match u.kind {
            UnitKind::Copy => BUILD_DIR_PREFIX.spec_bytes() + unit_stem(name, u.kind, i) + SOURCE_EXTENSION.spec_bytes(),
            UnitKind::Asm => encode_utf8(u.file->Some_0@),
        },
    }
}

/// The jobs of the first `k` units.
pub open spec fn unit_jobs(name: Seq<char>, units: Seq<Unit>, k: int) -> Seq<AssembleJobView>
    decreases k,
{
    if k <= 0 {
        seq![]
    } else {
        unit_jobs(name, units, k - 1).push(unit_job(name, units[k - 1], k - 1))
    }
}

/// The index of the first `Asm` unit from `i` on that names no source.
pub open spec fn first_sourceless(units: Seq<Unit>, i: int) -> Option<int>
    decreases units.len() - i,
{
    if i < 0 || i >= units.len() {
        None
    } else if units[i].kind == UnitKind::Asm && units[i].file is None {
        Some(i)
    } else {
        first_sourceless(units, i + 1)
    }
}

/// Why no assembler jobs could be planned.
pub enum GenFault {
    Format,
    UnnamedSection(usize),
    MissingAsmFile(Seq<char>, usize),
}

/// Why no assembler jobs could be planned.
#[derive(Debug)]
pub enum GenError {
    /// The executable could not be decoded; the decoder's message.
    Format(String),
    /// The name of the section with this index is not valid UTF-8.
    UnnamedSection(usize),
    /// This `Asm` unit of this section names no source.
    MissingAsmFile { section: String, unit: usize },
}

impl View for GenError {
    type V = GenFault;

    open spec fn view(&self) -> GenFault {
        match self {
            GenError::Format(_) => GenFault::Format,
            GenError::UnnamedSection(j) => GenFault::UnnamedSection(*j),
            GenError::MissingAsmFile { section, unit } => GenFault::MissingAsmFile(section@, *unit),
        }
    }
}

/// What is wrong with section `j` of `l` for planning; sections that the
/// descriptor `secs` does not name are passed over.
pub open spec fn gen_section_fault(secs: Seq<Section>, l: LayoutView, j: int) -> Option<GenFault> {
    match l.sections[j].name {
        None => Some(GenFault::UnnamedSection(j as usize)),
        Some(n) => match first_named(secs, n, 0) {
            None => None,
            Some(c) => match first_sourceless(secs[c].units@, 0) {
                Some(i) => Some(GenFault::MissingAsmFile(n, i as usize)),
                None => None,
            },
        },
    }
}

/// The fault of the first faulty section from `j` on.
pub open spec fn first_gen_fault(secs: Seq<Section>, l: LayoutView, j: int) -> Option<GenFault>
    decreases l.sections.len() - j,
{
    if j < 0 || j >= l.sections.len() {
        None
    } else {
        match gen_section_fault(secs, l, j) {
            Some(f) => Some(f),
            None => first_gen_fault(secs, l, j + 1),
        }
    }
}

/// The jobs of the first `k` sections.
pub open spec fn section_jobs(secs: Seq<Section>, l: LayoutView, k: int) -> Seq<AssembleJobView>
    decreases k,
{
    if k <= 0 {
        seq![]
    } else {
        let n = l.sections[k - 1].name->Some_0;
        section_jobs(secs, l, k - 1) + match first_named(secs, n, 0) {
            Some(c) => unit_jobs(n, secs[c].units@, secs[c].units@.len() as int),
            None => seq![],
        }
    }
}

/// The path of the generated source of copy unit `i` of the section named `name`.
pub open spec fn copy_source_path_of(name: Seq<char>, i: int) -> Seq<u8> {
    BUILD_DIR_PREFIX.spec_bytes() + unit_stem(name, UnitKind::Copy, i) + SOURCE_EXTENSION.spec_bytes()
}

/// `build/<section>_copy_<index>.asm`: where the splitter's source of copy unit
/// `i` of the section named `name` is written, and where the assembler reads it.
pub fn copy_source_path(name: &String, i: usize) -> (r: Vec<u8>)
    ensures
        r@ == copy_source_path_of(name@, i as int),
{
    let mut r: Vec<u8> = Vec::new();
    push_str(&mut r, BUILD_DIR_PREFIX);
    push_unit_stem(&mut r, name, UnitKind::Copy, i);
    push_str(&mut r, SOURCE_EXTENSION);
    assert(r@ =~= copy_source_path_of(name@, i as int));
    r
}

/// The job of unit `i` of the section named `name`.
fn plan_unit(name: &String, u: &Unit, i: usize) -> (r: AssembleJob)
    requires
        u.kind == UnitKind::Asm ==> u.file is Some,
    ensures
        r@ == unit_job(name@, *u, i as int),
{
    let mut output_arg: Vec<u8> = Vec::new();
    push_str(&mut output_arg, OBJECT_FLAG);
    push_str(&mut output_arg, BUILD_DIR_PREFIX);
    push_unit_stem(&mut output_arg, name, u.kind, i);
    push_str(&mut output_arg, OBJECT_EXTENSION);
    let mut source: Vec<u8> = Vec::new();
    match &u.file {
        Some(f) if u.kind == UnitKind::Asm => {
            push_bytes(&mut source, f.as_str().as_bytes());
        },
        _ => {
            push_str(&mut source, BUILD_DIR_PREFIX);
            push_unit_stem(&mut source, name, u.kind, i);
            push_str(&mut source, SOURCE_EXTENSION);
        },
    }
    assert(output_arg@ =~= unit_job(name@, *u, i as int).output_arg);
    assert(source@ =~= unit_job(name@, *u, i as int).source);
    AssembleJob { output_arg, source }
}

/// The assembler jobs for the units of every section of `l` that the
/// descriptor `cfg` names, in layout and unit order.
pub fn plan_assembly_layout(cfg: &Config, l: &Layout) -> (r: Result<Vec<AssembleJob>, GenError>)
    ensures
        match r {
            Ok(jobs) => first_gen_fault(cfg.sections@, l@, 0) is None
                && jobs@.map_values(|j: AssembleJob| j@) == section_jobs(cfg.sections@, l@, l@.sections.len() as int),
            Err(e) => first_gen_fault(cfg.sections@, l@, 0) == Some(e@),
        },
{
    let ghost lv = l@;
    let ghost secs = cfg.sections@;
    let mut jobs: Vec<AssembleJob> = Vec::new();
    let mut j: usize = 0;
    assert(jobs@.map_values(|j: AssembleJob| j@) =~= section_jobs(secs, lv, 0));
    while j < l.sections.len()
        invariant
            lv == l@,
            secs == cfg.sections@,
            0 <= j <= lv.sections.len(),
            first_gen_fault(secs, lv, 0) == first_gen_fault(secs, lv, j as int),
            jobs@.map_values(|j: AssembleJob| j@) == section_jobs(secs, lv, j as int),
        decreases lv.sections.len() - j,
    {
        let s = &l.sections[j];
        assert(lv.sections[j as int] == s@);
        let name = match &s.name {
            None => {
                return Err(GenError::UnnamedSection(j));
            },
            Some(n) => n,
        };
        if let Some(c) = find_section(&cfg.sections, name) {
            let units = &cfg.sections[c].units;
            let ghost us = units@;
            let ghost before = jobs@.map_values(|j: AssembleJob| j@);
            let mut i: usize = 0;
            while i < units.len()
                invariant
                    us == units@,
                    lv == l@,
                    secs == cfg.sections@,
                    0 <= j < lv.sections.len(),
                    c < secs.len(),
                    us == secs[c as int].units@,
                    lv.sections[j as int].name == Some(name@),
                    first_named(secs, name@, 0) == Some(c as int),
                    first_gen_fault(secs, lv, 0) == first_gen_fault(secs, lv, j as int),
                    0 <= i <= us.len(),
                    first_sourceless(us, 0) == first_sourceless(us, i as int),
                    jobs@.map_values(|j: AssembleJob| j@) == before + unit_jobs(name@, us, i as int),
                decreases us.len() - i,
            {
                let u = &units[i];
                if u.kind == UnitKind::Asm && u.file.is_none() {
                    return Err(GenError::MissingAsmFile { section: name.clone(), unit: i });
                }
                let job = plan_unit(name, u, i);
                let ghost prev = jobs@;
                jobs.push(job);
                assert(jobs@.map_values(|j: AssembleJob| j@) =~= prev.map_values(|j: AssembleJob| j@).push(job@));
                assert(jobs@.map_values(|j: AssembleJob| j@) =~= before + unit_jobs(name@, us, i + 1));
                i += 1;
            }
        }
        assert(jobs@.map_values(|j: AssembleJob| j@) =~= section_jobs(secs, lv, j + 1));
        j += 1;
    }
    Ok(jobs)
}

/// Plans the assembler jobs for the executable `file` after decoding its layout.
pub fn plan_assembly(cfg: &Config, file: &Vec<u8>) -> (r: Result<Vec<AssembleJob>, GenError>)
    ensures
        match pe_layout_of(file@) {
            None => r matches Err(GenError::Format(_)),
            Some(l) => match r {
                Ok(jobs) => first_gen_fault(cfg.sections@, l, 0) is None
                    && jobs@.map_values(|j: AssembleJob| j@) == section_jobs(cfg.sections@, l, l.sections.len() as int),
                Err(e) => first_gen_fault(cfg.sections@, l, 0) == Some(e@),
            },
        },
{
    match parse_layout(file) {
        Err(m) => Err(GenError::Format(m)),
        Ok(l) => plan_assembly_layout(cfg, &l),
    }
}

pub const TARGET_ARG: &'static str = "-mi386pe";

pub const OUTPUT_FLAG: &'static str = "-o";

pub const NO_PAGE_ALIGN_ARG: &'static str = "-n";

pub const SCRIPT_ARG: &'static str = "-Tbuild/link.ld";

pub const SUBSYSTEM_ARG: &'static str = "--subsystem=windows";

pub const STRIP_DEBUG_ARG: &'static str = "--strip-debug";

pub const NO_DYNAMIC_BASE_ARG: &'static str = "--disable-dynamicbase";

pub const NO_NX_ARG: &'static str = "--disable-nxcompat";

pub const STRIP_ALL_ARG: &'static str = "--strip-all";

pub const IMAGE_VERSION_ARG: &'static str = "--major-image-version=0";

pub const FILE_ALIGNMENT_ARG: &'static str = "--file-alignment=1";

pub const IMAGE_BASE_FLAG: &'static str = "--image-base=0x";

/// The linker's arguments: a flat 32-bit PE image at `donor_path`, entry
/// `_start`, laid out by the generated link script at `image_base`, without
/// debug data, relocations, a dynamic base or the NX flag.
pub open spec fn linker_args(donor_path: Seq<char>, image_base: u64) -> Seq<Seq<u8>> {
    seq![
        TARGET_ARG.spec_bytes(),
        OUTPUT_FLAG.spec_bytes() + encode_utf8(donor_path),
        NO_PAGE_ALIGN_ARG.spec_bytes(),
        SCRIPT_ARG.spec_bytes(),
        SUBSYSTEM_ARG.spec_bytes(),
        STRIP_DEBUG_ARG.spec_bytes(),
        NO_DYNAMIC_BASE_ARG.spec_bytes(),
        NO_NX_ARG.spec_bytes(),
        STRIP_ALL_ARG.spec_bytes(),
        IMAGE_VERSION_ARG.spec_bytes(),
        FILE_ALIGNMENT_ARG.spec_bytes(),
        IMAGE_BASE_FLAG.spec_bytes() + hex_text(image_base as nat),
    ]
}

/// The bytes of `s`.
fn arg_of(s: &str) -> (r: Vec<u8>)
    ensures
        r@ == s.spec_bytes(),
{
    let mut v: Vec<u8> = Vec::new();
    push_str(&mut v, s);
    assert(v@ =~= s.spec_bytes());
    v
}

/// The linker's arguments for a donor image at `donor_path` and the original's `image_base`.
pub fn linker_arguments(donor_path: &String, image_base: u64) -> (r: Vec<Vec<u8>>)
    ensures
        r@.map_values(|a: Vec<u8>| a@) == linker_args(donor_path@, image_base),
{
    let mut r: Vec<Vec<u8>> = Vec::new();
    r.push(arg_of(TARGET_ARG));
    let mut output = arg_of(OUTPUT_FLAG);
    push_bytes(&mut output, donor_path.as_str().as_bytes());
    r.push(output);
    r.push(arg_of(NO_PAGE_ALIGN_ARG));
    r.push(arg_of(SCRIPT_ARG));
    r.push(arg_of(SUBSYSTEM_ARG));
    r.push(arg_of(STRIP_DEBUG_ARG));
    r.push(arg_of(NO_DYNAMIC_BASE_ARG));
    r.push(arg_of(NO_NX_ARG));
    r.push(arg_of(STRIP_ALL_ARG));
    r.push(arg_of(IMAGE_VERSION_ARG));
    r.push(arg_of(FILE_ALIGNMENT_ARG));
    let mut base = arg_of(IMAGE_BASE_FLAG);
    let mut h = hex(image_base as u128);
    base.append(&mut h);
    r.push(base);
    assert(r@.map_values(|a: Vec<u8>| a@) =~= linker_args(donor_path@, image_base));
    r
}

/// The linker's arguments for a donor image at `donor_path`, keeping the
/// image base of the original executable `original`; the decoder's message
/// where it cannot be decoded.
pub fn link_arguments(original: &Vec<u8>, donor_path: &String) -> (r: Result<Vec<Vec<u8>>, String>)
    ensures
        match pe_layout_of(original@) {
            None => r is Err,
            Some(l) => r matches Ok(a) && a@.map_values(|a: Vec<u8>| a@) == linker_args(donor_path@, l.image_base),
        },
{
    match parse_layout(original) {
        Err(m) => Err(m),
        Ok(l) => Ok(linker_arguments(donor_path, l.image_base)),
    }
}

} // verus!
