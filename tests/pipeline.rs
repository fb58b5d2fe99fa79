use pod::config::{Config, Section, Unit, UnitKind};
use pod::layout::{DataDir, DataDirectories, Layout, SectionHeader};
use pod::link::{reconcile, reconcile_layouts, LinkError};
use pod::patch::{patch_header, patch_layouts, PatchError};
use pod::project::{
    copy_source_path, default_config, init_config, linker_arguments, plan_assembly, plan_assembly_layout, GenError, InitError,
};
use pod::split::{split, split_layout, SplitError, SplitOutput, UnitFault};
use pod::text::{copy_unit_source, decimal, hex};

const BASE: u32 = 0x40_0000;
const PE_AT: usize = 0x80;
const TABLE_AT: usize = PE_AT + 0x18 + 0xE0;

struct Sec {
    name: &'static str,
    va: u32,
    vsize: u32,
    data: Vec<u8>,
}

fn put16(b: &mut Vec<u8>, at: usize, v: u16) {
    b[at..at + 2].copy_from_slice(&v.to_le_bytes());
}

fn put32(b: &mut Vec<u8>, at: usize, v: u32) {
    b[at..at + 4].copy_from_slice(&v.to_le_bytes());
}

fn get32(b: &[u8], at: usize) -> u32 {
    u32::from_le_bytes([b[at], b[at + 1], b[at + 2], b[at + 3]])
}

/// A minimal PE32 image; each section's raw bytes start at a multiple of 0x200
/// from `first_raw` on. `dirs` holds the export, import and resource entries.
fn build_pe_at(secs: &[Sec], entry: u32, dirs: [(u32, u32); 3], first_raw: usize) -> Vec<u8> {
    let mut b = vec![0u8; first_raw];
    b[0] = b'M';
    b[1] = b'Z';
    put32(&mut b, 0x3c, PE_AT as u32);
    b[PE_AT..PE_AT + 4].copy_from_slice(b"PE\0\0");
    let coff = PE_AT + 4;
    put16(&mut b, coff, 0x14c);
    put16(&mut b, coff + 2, secs.len() as u16);
    put16(&mut b, coff + 16, 0xE0);
    put16(&mut b, coff + 18, 0x0102);
    let opt = coff + 20;
    put16(&mut b, opt, 0x10b);
    put32(&mut b, opt + 16, entry);
    put32(&mut b, opt + 28, BASE);
    put32(&mut b, opt + 32, 0x1000);
    put32(&mut b, opt + 36, 0x200);
    put16(&mut b, opt + 48, 4);
    put32(&mut b, opt + 56, 0x10000);
    put32(&mut b, opt + 60, first_raw as u32);
    put16(&mut b, opt + 68, 2);
    put32(&mut b, opt + 92, 16);
    for (i, (va, size)) in dirs.iter().enumerate() {
        put32(&mut b, opt + 96 + 8 * i, *va);
        put32(&mut b, opt + 100 + 8 * i, *size);
    }
    let mut raw = first_raw;
    for (i, s) in secs.iter().enumerate() {
        let e = TABLE_AT + 40 * i;
        b[e..e + s.name.len()].copy_from_slice(s.name.as_bytes());
        put32(&mut b, e + 8, s.vsize);
        put32(&mut b, e + 12, s.va);
        put32(&mut b, e + 16, s.data.len() as u32);
        put32(&mut b, e + 20, raw as u32);
        b.resize(raw, 0);
        b.extend_from_slice(&s.data);
        raw = (b.len() + 0x1ff) / 0x200 * 0x200;
    }
    b
}

fn build_pe(secs: &[Sec], entry: u32, dirs: [(u32, u32); 3]) -> Vec<u8> {
    build_pe_at(secs, entry, dirs, 0x200)
}

fn pattern(n: usize, seed: u8) -> Vec<u8> {
    (0..n).map(|i| (i as u8).wrapping_mul(7).wrapping_add(seed)).collect()
}

fn two_sections() -> Vec<Sec> {
    vec![
        Sec { name: ".text", va: 0x1000, vsize: 0x123, data: pattern(100, 3) },
        Sec { name: ".data", va: 0x2000, vsize: 0x45, data: pattern(49, 200) },
    ]
}

fn copy_unit(addr: u64, size: u64) -> Unit {
    Unit { kind: UnitKind::Copy, file: None, addr_virtual: addr, raw_size: size }
}

fn config_of(sections: Vec<Section>) -> Config {
    Config {
        executable: "game.exe".to_string(),
        hash: String::new(),
        assembler_path: "ml".to_string(),
        compiler_path: "cl".to_string(),
        linker_path: "ld".to_string(),
        sections,
    }
}

fn copy_config() -> Config {
    config_of(vec![
        Section { name: ".text".to_string(), units: vec![copy_unit(0x40_1000, 60), copy_unit(0x40_103c, 40)] },
        Section { name: ".data".to_string(), units: vec![copy_unit(0x40_2000, 49)] },
    ])
}

/// The bytes that the `DB` lines of an assembly source spell out: what a
/// byte-accurate assembler would emit for it.
fn assemble(source: &[u8]) -> Vec<u8> {
    let text = String::from_utf8(source.to_vec()).unwrap();
    let mut out = Vec::new();
    for line in text.lines() {
        if let Some(values) = line.strip_prefix("DB ") {
            for v in values.split(", ") {
                out.push(v.parse::<u8>().unwrap());
            }
        }
    }
    out
}

fn split_ok(cfg: &Config, file: &Vec<u8>) -> SplitOutput {
    match split(cfg, file) {
        Ok(o) => o,
        Err(e) => panic!("split failed: {:?}", e),
    }
}

#[test]
fn split_copy_units_generates_sources_script_and_template() {
    let file = build_pe(&two_sections(), 0x1000, [(0, 0); 3]);
    let out = split_ok(&copy_config(), &file);
    assert_eq!(out.sources.len(), 3);
    assert_eq!(out.sources[0].section, ".text");
    assert_eq!(out.sources[0].unit, 0);
    assert_eq!(out.sources[1].unit, 1);
    assert_eq!(out.sources[2].section, ".data");
    assert_eq!(assemble(&out.sources[0].text), file[0x200..0x200 + 60].to_vec());
    assert_eq!(assemble(&out.sources[1].text), file[0x200 + 60..0x200 + 100].to_vec());
    assert_eq!(assemble(&out.sources[2].text), file[0x400..0x400 + 49].to_vec());
    let script = String::from_utf8(out.link_script.clone()).unwrap();
    assert_eq!(
        script,
        "ENTRY(_start)\n\nSECTIONS {\n\t_start = 0x401000;\n\n\t.text 0x401000 : {\n\t\tbuild/.text_copy_0.obj(POD)\n\t\tbuild/.text_copy_1.obj(POD)\n\t}\n\n\t.data 0x402000 : {\n\t\tbuild/.data_copy_0.obj(POD)\n\t}\n}\n"
    );
    assert_eq!(out.donee.len(), file.len());
    assert_eq!(out.donee[..0x200].to_vec(), file[..0x200].to_vec());
    assert!(out.donee[0x200..0x200 + 100].iter().all(|b| *b == 0));
    assert!(out.donee[0x400..0x400 + 49].iter().all(|b| *b == 0));
}

#[test]
fn split_copy_source_has_exact_text() {
    let d = vec![1u8, 22, 255];
    let src = String::from_utf8(copy_unit_source(&d, 0, 3)).unwrap();
    assert_eq!(src, ".386\n.MODEL flat\nPOD SEGMENT BYTE\nDB 1, 22, 255\nPOD ENDS\nEND\n");
    let empty = String::from_utf8(copy_unit_source(&d, 1, 1)).unwrap();
    assert_eq!(empty, ".386\n.MODEL flat\nPOD SEGMENT BYTE\nPOD ENDS\nEND\n");
}

#[test]
fn split_last_line_shorter_when_size_not_multiple_of_line() {
    let d = pattern(100, 9);
    let src = String::from_utf8(copy_unit_source(&d, 0, 100)).unwrap();
    let lines: Vec<&str> = src.lines().filter(|l| l.starts_with("DB ")).collect();
    assert_eq!(lines.len(), 3);
    assert_eq!(lines[0].split(", ").count(), 49);
    assert_eq!(lines[1].split(", ").count(), 49);
    assert_eq!(lines[2].split(", ").count(), 2);
    assert_eq!(assemble(src.as_bytes()), d);
    let exact = String::from_utf8(copy_unit_source(&d, 0, 98)).unwrap();
    assert_eq!(exact.lines().filter(|l| l.starts_with("DB ")).count(), 2);
}

#[test]
fn split_twice_gives_identical_output() {
    let file = build_pe(&two_sections(), 0x1000, [(0, 0); 3]);
    let a = split_ok(&copy_config(), &file);
    let b = split_ok(&copy_config(), &file);
    assert_eq!(a.link_script, b.link_script);
    assert_eq!(a.donee, b.donee);
    assert_eq!(a.sources.len(), b.sources.len());
    for (x, y) in a.sources.iter().zip(b.sources.iter()) {
        assert_eq!(x.section, y.section);
        assert_eq!(x.unit, y.unit);
        assert_eq!(x.text, y.text);
    }
}

#[test]
fn split_rejects_gap_between_units() {
    let file = build_pe(&two_sections(), 0x1000, [(0, 0); 3]);
    let cfg = config_of(vec![
        Section { name: ".text".to_string(), units: vec![copy_unit(0x40_1000, 60), copy_unit(0x40_103d, 40)] },
        Section { name: ".data".to_string(), units: vec![copy_unit(0x40_2000, 49)] },
    ]);
    match split(&cfg, &file) {
        Err(SplitError::Units { section, fault }) => {
            assert_eq!(section, ".text");
            assert_eq!(fault, UnitFault::NotContiguous(1));
        },
        other => panic!("unexpected {:?}", other.err()),
    }
}

#[test]
fn split_rejects_first_unit_off_section_start() {
    let file = build_pe(&two_sections(), 0x1000, [(0, 0); 3]);
    let cfg = config_of(vec![
        Section { name: ".text".to_string(), units: vec![copy_unit(0x40_1000, 100)] },
        Section { name: ".data".to_string(), units: vec![copy_unit(0x40_2001, 49)] },
    ]);
    match split(&cfg, &file) {
        Err(SplitError::Units { section, fault }) => {
            assert_eq!(section, ".data");
            assert_eq!(fault, UnitFault::NotContiguous(0));
        },
        other => panic!("unexpected {:?}", other.err()),
    }
}

#[test]
fn split_rejects_units_short_of_section() {
    let file = build_pe(&two_sections(), 0x1000, [(0, 0); 3]);
    let cfg = config_of(vec![
        Section { name: ".text".to_string(), units: vec![copy_unit(0x40_1000, 99)] },
        Section { name: ".data".to_string(), units: vec![copy_unit(0x40_2000, 49)] },
    ]);
    match split(&cfg, &file) {
        Err(SplitError::Units { section, fault }) => {
            assert_eq!(section, ".text");
            assert_eq!(fault, UnitFault::SizeMismatch);
        },
        other => panic!("unexpected {:?}", other.err()),
    }
}

#[test]
fn split_rejects_section_without_units() {
    let file = build_pe(&two_sections(), 0x1000, [(0, 0); 3]);
    let cfg = config_of(vec![Section { name: ".text".to_string(), units: vec![copy_unit(0x40_1000, 100)] }]);
    match split(&cfg, &file) {
        Err(SplitError::MissingUnitConfiguration { section }) => assert_eq!(section, ".data"),
        other => panic!("unexpected {:?}", other.err()),
    }
}

#[test]
fn split_rejects_asm_unit_without_file() {
    let file = build_pe(&two_sections(), 0x1000, [(0, 0); 3]);
    let cfg = config_of(vec![
        Section { name: ".text".to_string(), units: vec![Unit { kind: UnitKind::Asm, file: None, addr_virtual: 0x40_1000, raw_size: 100 }] },
        Section { name: ".data".to_string(), units: vec![copy_unit(0x40_2000, 49)] },
    ]);
    match split(&cfg, &file) {
        Err(SplitError::Units { section, fault }) => {
            assert_eq!(section, ".text");
            assert_eq!(fault, UnitFault::MissingAsmFile(0));
        },
        other => panic!("unexpected {:?}", other.err()),
    }
}

#[test]
fn split_asm_unit_is_linked_but_not_generated() {
    let file = build_pe(&two_sections(), 0x1000, [(0, 0); 3]);
    let cfg = config_of(vec![
        Section {
            name: ".text".to_string(),
            units: vec![
                copy_unit(0x40_1000, 60),
                Unit { kind: UnitKind::Asm, file: Some("patch.asm".to_string()), addr_virtual: 0x40_103c, raw_size: 40 },
            ],
        },
        Section { name: ".data".to_string(), units: vec![copy_unit(0x40_2000, 49)] },
    ]);
    let out = split_ok(&cfg, &file);
    assert_eq!(out.sources.len(), 2);
    let script = String::from_utf8(out.link_script).unwrap();
    assert!(script.contains("\t\tbuild/.text_copy_0.obj(POD)\n\t\tbuild/.text_asm_1.obj(POD)\n"));
}

#[test]
fn split_rejects_undecodable_executable() {
    let file = vec![0u8; 16];
    assert!(matches!(split(&copy_config(), &file), Err(SplitError::Format(_))));
}

fn donor_from(out: &SplitOutput, layout: &[(&'static str, u32, u32)]) -> Vec<u8> {
    let mut secs = Vec::new();
    for (name, va, vsize) in layout {
        let mut data = Vec::new();
        for s in out.sources.iter().filter(|s| s.section == *name) {
            data.extend(assemble(&s.text));
        }
        secs.push(Sec { name, va: *va, vsize: *vsize, data });
    }
    build_pe_at(&secs, 0x1000, [(0, 0); 3], 0x400)
}

#[test]
fn round_trip_copy_units_reproduce_original() {
    let file = build_pe(&two_sections(), 0x1000, [(0, 0); 3]);
    let out = split_ok(&copy_config(), &file);
    let donor = donor_from(&out, &[(".text", 0x1000, 0x64), (".data", 0x2000, 0x31)]);
    let image = reconcile(&file, &donor, out.donee.clone()).unwrap();
    assert_eq!(image, file);
}

#[test]
fn reconcile_cites_first_mismatching_byte() {
    let file = build_pe(&two_sections(), 0x1000, [(0, 0); 3]);
    let out = split_ok(&copy_config(), &file);
    let mut donor = donor_from(&out, &[(".text", 0x1000, 0x64), (".data", 0x2000, 0x31)]);
    let at = get32(&donor, TABLE_AT + 20) as usize + 17;
    let original_byte = donor[at];
    donor[at] = original_byte ^ 0x5a;
    match reconcile(&file, &donor, out.donee.clone()) {
        Err(LinkError::Mismatch { section, index, donor: d, original: o }) => {
            assert_eq!(section, ".text");
            assert_eq!(index, 17);
            assert_eq!(d, original_byte ^ 0x5a);
            assert_eq!(o, original_byte);
        },
        other => panic!("unexpected {:?}", other),
    }
}

#[test]
fn reconcile_names_missing_donor_section() {
    let file = build_pe(&two_sections(), 0x1000, [(0, 0); 3]);
    let out = split_ok(&copy_config(), &file);
    let donor = donor_from(&out, &[(".text", 0x1000, 0x64)]);
    match reconcile(&file, &donor, out.donee.clone()) {
        Err(LinkError::MissingSection { section }) => assert_eq!(section, ".data"),
        other => panic!("unexpected {:?}", other),
    }
}

#[test]
fn reconcile_reports_both_sizes_on_size_mismatch() {
    let file = build_pe(&two_sections(), 0x1000, [(0, 0); 3]);
    let out = split_ok(&copy_config(), &file);
    let donor = build_pe_at(
        &[
            Sec { name: ".text", va: 0x1000, vsize: 0, data: file[0x200..0x200 + 100].to_vec() },
            Sec { name: ".data", va: 0x2000, vsize: 0, data: pattern(50, 1) },
        ],
        0x1000,
        [(0, 0); 3],
        0x400,
    );
    match reconcile(&file, &donor, out.donee.clone()) {
        Err(LinkError::SizeMismatch { section, donor, original }) => {
            assert_eq!(section, ".data");
            assert_eq!(donor, 50);
            assert_eq!(original, 49);
        },
        other => panic!("unexpected {:?}", other),
    }
}

#[test]
fn reconcile_rejects_undecodable_donor() {
    let file = build_pe(&two_sections(), 0x1000, [(0, 0); 3]);
    let out = split_ok(&copy_config(), &file);
    assert!(matches!(reconcile(&file, &vec![1u8; 8], out.donee.clone()), Err(LinkError::DonorFormat(_))));
    assert!(matches!(reconcile(&vec![1u8; 8], &file, out.donee), Err(LinkError::OriginalFormat(_))));
}

#[test]
fn patch_restores_virtual_sizes_and_export_entry() {
    let original = build_pe(&two_sections(), 0x1000, [(0x9000, 0x40), (0, 0), (0, 0)]);
    let linked = build_pe_at(
        &[
            Sec { name: ".text", va: 0x1000, vsize: 0x64, data: pattern(100, 3) },
            Sec { name: ".data", va: 0x2000, vsize: 0x31, data: pattern(49, 200) },
        ],
        0x1000,
        [(0, 0), (0, 0), (0, 0)],
        0x400,
    );
    let patched = patch_header(&original, &linked).unwrap();
    assert_eq!(patched.len(), linked.len());
    assert_eq!(get32(&patched, TABLE_AT + 8), 0x123);
    assert_eq!(get32(&patched, TABLE_AT + 40 + 8), 0x45);
    let dirs = TABLE_AT - 0x80;
    assert_eq!(get32(&patched, dirs), 0x9000);
    assert_eq!(get32(&patched, dirs + 4), 0x40);
    let declared = |p: usize| {
        (TABLE_AT + 8..TABLE_AT + 12).contains(&p) || (TABLE_AT + 48..TABLE_AT + 52).contains(&p) || (dirs..dirs + 24).contains(&p)
    };
    for p in 0..linked.len() {
        if !declared(p) {
            assert_eq!(patched[p], linked[p], "byte {} changed", p);
        }
    }
    let again = patch_header(&original, &linked).unwrap();
    assert_eq!(again, patched);
}

#[test]
fn patch_leaves_sections_unknown_to_original() {
    let original = build_pe(&two_sections(), 0x1000, [(0, 0); 3]);
    let linked = build_pe_at(
        &[Sec { name: ".rsrc", va: 0x1000, vsize: 0x77, data: pattern(16, 0) }],
        0x1000,
        [(0, 0); 3],
        0x400,
    );
    let patched = patch_header(&original, &linked).unwrap();
    assert_eq!(get32(&patched, TABLE_AT + 8), 0x77);
    let dirs = TABLE_AT - 0x80;
    assert_eq!(patched[dirs..dirs + 24].to_vec(), linked[dirs..dirs + 24].to_vec());
}

#[test]
fn patch_rejects_undecodable_images() {
    let original = build_pe(&two_sections(), 0x1000, [(0, 0); 3]);
    assert!(matches!(patch_header(&vec![0u8; 4], &original), Err(PatchError::OriginalFormat(_))));
    assert!(matches!(patch_header(&original, &vec![0u8; 4]), Err(PatchError::LinkedFormat(_))));
}

#[test]
fn init_makes_one_copy_unit_per_section() {
    let file = build_pe(&two_sections(), 0x1000, [(0, 0); 3]);
    let cfg = init_config("game.exe".to_string(), &file).unwrap();
    assert_eq!(cfg.executable, "game.exe");
    assert_eq!(cfg.hash, blake3::hash(&file).to_string());
    assert_eq!(cfg.hash.len(), 64);
    assert_eq!(cfg.assembler_path, "ml");
    assert_eq!(cfg.compiler_path, "cl");
    assert_eq!(cfg.linker_path, "ld");
    assert_eq!(cfg.sections.len(), 2);
    assert_eq!(cfg.sections[1].name, ".data");
    let u = &cfg.sections[1].units[0];
    assert_eq!(u.kind, UnitKind::Copy);
    assert_eq!(u.addr_virtual, 0x40_2000);
    assert_eq!(u.raw_size, 49);
    assert!(split(&cfg, &file).is_ok());
    assert!(matches!(init_config("x".to_string(), &vec![0u8; 3]), Err(InitError::Format(_))));
}

#[test]
fn gen_plans_one_assembler_run_per_unit() {
    let file = build_pe(&two_sections(), 0x1000, [(0, 0); 3]);
    let cfg = config_of(vec![Section {
        name: ".text".to_string(),
        units: vec![
            copy_unit(0x40_1000, 60),
            Unit { kind: UnitKind::Asm, file: Some("src/hook.asm".to_string()), addr_virtual: 0x40_103c, raw_size: 40 },
        ],
    }]);
    let jobs = plan_assembly(&cfg, &file).unwrap();
    assert_eq!(jobs.len(), 2);
    assert_eq!(jobs[0].output_arg, b"/Fobuild/.text_copy_0.obj".to_vec());
    assert_eq!(jobs[0].source, b"build/.text_copy_0.asm".to_vec());
    assert_eq!(jobs[1].output_arg, b"/Fobuild/.text_asm_1.obj".to_vec());
    assert_eq!(jobs[1].source, b"src/hook.asm".to_vec());
    let bad = config_of(vec![Section {
        name: ".data".to_string(),
        units: vec![Unit { kind: UnitKind::Asm, file: None, addr_virtual: 0x40_2000, raw_size: 49 }],
    }]);
    match plan_assembly(&bad, &file) {
        Err(GenError::MissingAsmFile { section, unit }) => {
            assert_eq!(section, ".data");
            assert_eq!(unit, 0);
        },
        other => panic!("unexpected {:?}", other),
    }
}

#[test]
fn linker_arguments_follow_the_contract() {
    let args: Vec<String> = linker_arguments(&"build/game.exe.donor".to_string(), 0x40_0000)
        .into_iter()
        .map(|a| String::from_utf8(a).unwrap())
        .collect();
    assert_eq!(
        args,
        vec![
            "-mi386pe",
            "-obuild/game.exe.donor",
            "-n",
            "-Tbuild/link.ld",
            "--subsystem=windows",
            "--strip-debug",
            "--disable-dynamicbase",
            "--disable-nxcompat",
            "--strip-all",
            "--major-image-version=0",
            "--file-alignment=1",
            "--image-base=0x400000",
        ]
    );
}

#[test]
fn numbers_render_in_decimal_and_hex() {
    assert_eq!(decimal(0), b"0".to_vec());
    assert_eq!(decimal(255), b"255".to_vec());
    assert_eq!(decimal(1234567), b"1234567".to_vec());
    assert_eq!(hex(0), b"0".to_vec());
    assert_eq!(hex(0x40_1000), b"401000".to_vec());
    assert_eq!(hex(0xDEAD_BEEF), b"DEADBEEF".to_vec());
}

#[test]
fn unit_kinds_read_from_names() {
    assert_eq!(UnitKind::from_name("copy"), Some(UnitKind::Copy));
    assert_eq!(UnitKind::from_name("asm"), Some(UnitKind::Asm));
    assert_eq!(UnitKind::from_name("bin"), None);
    assert_eq!(UnitKind::Asm.name(), "asm");
}

fn header(name: Option<&str>, raw: &[u8; 8], va: u32, size: u32, ptr: u32) -> SectionHeader {
    SectionHeader::new(name.map(|n| n.to_string()), raw.to_vec(), size, va, size, ptr)
}

fn layout_of(sections: Vec<SectionHeader>, dirs: Option<DataDirectories>) -> Layout {
    Layout::new(0x40_0000, 0x1000, 0xE0, sections, dirs)
}

#[test]
fn split_layout_rejects_section_past_end_of_file() {
    let file = vec![0u8; 0x300];
    let l = layout_of(vec![header(Some(".text"), b".text\0\0\0", 0x1000, 0x200, 0x200)], None);
    let cfg = config_of(vec![Section { name: ".text".to_string(), units: vec![copy_unit(0x40_1000, 0x200)] }]);
    match split_layout(&cfg, &l, &file) {
        Err(SplitError::SectionOutOfRange { section }) => assert_eq!(section, 0),
        other => panic!("unexpected {:?}", other.err()),
    }
}

#[test]
fn split_layout_rejects_unnamed_section() {
    let file = vec![0u8; 0x300];
    let l = layout_of(vec![header(None, b"\xff\xfe\0\0\0\0\0\0", 0x1000, 0x100, 0x200)], None);
    match split_layout(&copy_config(), &l, &file) {
        Err(SplitError::UnnamedSection { section }) => assert_eq!(section, 0),
        other => panic!("unexpected {:?}", other.err()),
    }
}

#[test]
fn split_layout_rejects_copy_unit_past_end_of_file() {
    let file = vec![0u8; 0x300];
    let l = layout_of(vec![header(Some(".text"), b".text\0\0\0", 0x1000, 0x100, 0x200)], None);
    let cfg = config_of(vec![Section { name: ".text".to_string(), units: vec![copy_unit(0x40_1000, 0x101)] }]);
    match split_layout(&cfg, &l, &file) {
        Err(SplitError::Units { section, fault }) => {
            assert_eq!(section, ".text");
            assert_eq!(fault, UnitFault::OutOfRange(0));
        },
        other => panic!("unexpected {:?}", other.err()),
    }
}

#[test]
fn reconcile_layouts_rejects_unnamed_and_out_of_range_sections() {
    let original = vec![7u8; 0x300];
    let donor = vec![7u8; 0x300];
    let unnamed = layout_of(vec![header(None, b"\xff\0\0\0\0\0\0\0", 0x1000, 0x10, 0x200)], None);
    let dl = layout_of(vec![header(None, b"\xff\0\0\0\0\0\0\0", 0x1000, 0x10, 0x200)], None);
    match reconcile_layouts(&unnamed, &original, &dl, &donor, vec![0u8; 0x300]) {
        Err(LinkError::UnnamedSection { section }) => assert_eq!(section, 0),
        other => panic!("unexpected {:?}", other),
    }
    let l = layout_of(vec![header(Some(".text"), b".text\0\0\0", 0x1000, 0x10, 0x200)], None);
    let far = layout_of(vec![header(Some(".text"), b".text\0\0\0", 0x1000, 0x10, 0x2f8)], None);
    match reconcile_layouts(&l, &original, &far, &donor, vec![0u8; 0x300]) {
        Err(LinkError::OutOfRange { section }) => assert_eq!(section, ".text"),
        other => panic!("unexpected {:?}", other),
    }
    let image = reconcile_layouts(&l, &original, &l, &donor, vec![0u8; 0x300]).unwrap();
    assert!(image[0x200..0x210].iter().all(|b| *b == 7));
    assert!(image[0x210..].iter().all(|b| *b == 0));
}

#[test]
fn patch_layouts_reports_header_faults() {
    let dirs = Some(DataDirectories::new(Some(DataDir::new(1, 2)), None, None));
    let short = vec![0u8; 0x20];
    assert!(matches!(patch_layouts(&layout_of(vec![], None), &layout_of(vec![], None), &short), Err(PatchError::SignatureOutOfRange)));
    let mut linked = vec![0u8; 0x100];
    linked[0x3c] = 0x80;
    let ll = layout_of(vec![header(Some(".a"), b".a\0\0\0\0\0\0", 0x1000, 0, 0)], None);
    match patch_layouts(&layout_of(vec![], None), &ll, &linked) {
        Err(PatchError::SectionEntry(e)) => assert_eq!(e, 0),
        other => panic!("unexpected {:?}", other),
    }
    let mut low = vec![0u8; 0x100];
    low[0x3c] = 0x00;
    let small = Layout::new(0x40_0000, 0x1000, 0x10, vec![], None);
    match patch_layouts(&layout_of(vec![], dirs), &small, &low) {
        Err(PatchError::DirectoryOutOfRange) => {},
        other => panic!("unexpected {:?}", other),
    }
}

#[test]
fn default_config_reports_unnamed_section_and_address_overflow() {
    let unnamed = layout_of(vec![header(None, b"\xff\0\0\0\0\0\0\0", 0x1000, 0x10, 0x200)], None);
    assert!(matches!(default_config("a".to_string(), String::new(), &unnamed), Err(InitError::UnnamedSection(0))));
    let high = Layout::new(u64::MAX, 0, 0xE0, vec![header(Some(".text"), b".text\0\0\0", 0x1000, 0x10, 0x200)], None);
    assert!(matches!(default_config("a".to_string(), String::new(), &high), Err(InitError::AddressOverflow(0))));
}

#[test]
fn plan_assembly_reports_unnamed_section_and_bad_image() {
    let unnamed = layout_of(vec![header(None, b"\xff\0\0\0\0\0\0\0", 0x1000, 0x10, 0x200)], None);
    assert!(matches!(plan_assembly_layout(&copy_config(), &unnamed), Err(GenError::UnnamedSection(0))));
    assert!(matches!(plan_assembly(&copy_config(), &vec![0u8; 10]), Err(GenError::Format(_))));
}

#[test]
fn copy_source_path_names_the_unit() {
    assert_eq!(copy_source_path(&".text".to_string(), 12), b"build/.text_copy_12.asm".to_vec());
}
