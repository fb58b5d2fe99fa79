//! The layout model: what the pipeline reads of an executable's headers.
use goblin::pe::data_directories::DataDirectory;
use goblin::pe::PE;
use vstd::prelude::*;

verus! {

/// A virtual-address/size pair of the optional header's data directory.
#[derive(Clone, Copy, Debug, PartialEq, Eq, Structural)]
pub struct DataDir {
    pub virtual_address: u32,
    pub size: u32,
}

/// The data-directory entries that the header patch restores.
#[derive(Clone, Copy, Debug, PartialEq, Eq, Structural)]
pub struct DataDirectories {
    pub export: Option<DataDir>,
    pub import: Option<DataDir>,
    pub resource: Option<DataDir>,
}

impl DataDir {
    pub fn new(virtual_address: u32, size: u32) -> (r: DataDir)
        ensures
            r == (DataDir { virtual_address, size }),
    {
        DataDir { virtual_address, size }
    }
}

impl DataDirectories {
    pub fn new(export: Option<DataDir>, import: Option<DataDir>, resource: Option<DataDir>) -> (r: DataDirectories)
        ensures
            r == (DataDirectories { export, import, resource }),
    {
        DataDirectories { export, import, resource }
    }
}

/// One entry of the section table.
#[derive(Debug)]
pub struct SectionHeader {
    /// The section's name as text; `None` where it is not valid UTF-8.
    pub name: Option<String>,
    /// The eight raw name bytes of the table entry.
    pub raw_name: Vec<u8>,
    pub virtual_size: u32,
    pub virtual_address: u32,
    pub size_of_raw_data: u32,
    pub pointer_to_raw_data: u32,
}

pub struct SectionHeaderView {
    pub name: Option<Seq<char>>,
    pub raw_name: Seq<u8>,
    pub virtual_size: u32,
    pub virtual_address: u32,
    pub size_of_raw_data: u32,
    pub pointer_to_raw_data: u32,
}

impl View for SectionHeader {
    type V = SectionHeaderView;

    open spec fn view(&self) -> SectionHeaderView {
        SectionHeaderView {
            name: match self.name {
                Some(n) => Some(n@),
                None => None,
            },
            raw_name: self.raw_name@,
            virtual_size: self.virtual_size,
            virtual_address: self.virtual_address,
            size_of_raw_data: self.size_of_raw_data,
            pointer_to_raw_data: self.pointer_to_raw_data,
        }
    }
}

impl SectionHeader {
    pub fn new(
        name: Option<String>,
        raw_name: Vec<u8>,
        virtual_size: u32,
        virtual_address: u32,
        size_of_raw_data: u32,
        pointer_to_raw_data: u32,
    ) -> (r: SectionHeader)
        ensures
            r.name == name,
            r.raw_name == raw_name,
            r.virtual_size == virtual_size,
            r.virtual_address == virtual_address,
            r.size_of_raw_data == size_of_raw_data,
            r.pointer_to_raw_data == pointer_to_raw_data,
    {
        SectionHeader { name, raw_name, virtual_size, virtual_address, size_of_raw_data, pointer_to_raw_data }
    }
}

impl SectionHeaderView {
    /// First file offset past the section's raw bytes.
    pub open spec fn raw_end(self) -> int {
        self.pointer_to_raw_data + self.size_of_raw_data
    }

    /// The section's raw bytes lie inside a file of `len` bytes.
    pub open spec fn fits(self, len: int) -> bool {
        self.raw_end() <= len
    }
}

/// The header fields and section table of an executable.
#[derive(Debug)]
pub struct Layout {
    pub image_base: u64,
    pub entry: u32,
    pub size_of_optional_header: u16,
    pub sections: Vec<SectionHeader>,
    /// `None` where the image has no optional header.
    pub directories: Option<DataDirectories>,
}

impl Layout {
    pub fn new(
        image_base: u64,
        entry: u32,
        size_of_optional_header: u16,
        sections: Vec<SectionHeader>,
        directories: Option<DataDirectories>,
    ) -> (r: Layout)
        ensures
            r.image_base == image_base,
            r.entry == entry,
            r.size_of_optional_header == size_of_optional_header,
            r.sections == sections,
            r.directories == directories,
    {
        Layout { image_base, entry, size_of_optional_header, sections, directories }
    }
}

pub struct LayoutView {
    pub image_base: u64,
    pub entry: u32,
    pub size_of_optional_header: u16,
    pub sections: Seq<SectionHeaderView>,
    pub directories: Option<DataDirectories>,
}

impl View for Layout {
    type V = LayoutView;

    open spec fn view(&self) -> LayoutView {
        LayoutView {
            image_base: self.image_base,
            entry: self.entry,
            size_of_optional_header: self.size_of_optional_header,
            sections: self.sections@.map_values(|s: SectionHeader| s@),
            directories: self.directories,
        }
    }
}

/// The layout that the PE decoder reads from an image; `None` where it refuses it.
pub uninterp spec fn pe_layout_of(b: Seq<u8>) -> Option<LayoutView>;

/// Relies on goblin::pe::PE::parse to decode the DOS, COFF and optional headers
/// and the section table; its outcome depends on the bytes alone.
#[verifier::external_body]
pub(crate) fn parse_layout(b: &Vec<u8>) -> (r: Result<Layout, String>)
    ensures
        r is Ok <==> pe_layout_of(b@) is Some,
        r matches Ok(l) ==> pe_layout_of(b@) == Some(l@),
{
    let pe = PE::parse(b).map_err(|e| e.to_string())?;
    let dd = |d: Option<&DataDirectory>| d.map(|d| DataDir::new(d.virtual_address, d.size));
    Ok(Layout::new(
        pe.image_base,
        pe.entry,
        pe.header.coff_header.size_of_optional_header,
        pe.sections.iter().map(|s| SectionHeader::new(s.name().ok().map(String::from), s.name.to_vec(), s.virtual_size, s.virtual_address, s.size_of_raw_data, s.pointer_to_raw_data)).collect(),
        pe.header.optional_header.map(|o| o.data_directories).map(|o| DataDirectories::new(dd(o.get_export_table()), dd(o.get_import_table()), dd(o.get_resource_table()))),
    ))
}

/// Whether the PE decoder accepts the section-table entry at `off`.
pub uninterp spec fn section_entry_parses(b: Seq<u8>, off: int) -> bool;

/// Relies on goblin::pe::section_table::SectionTable::parse, which reads one
/// 40-byte section-table entry at `off`, its raw name in the first eight bytes,
/// and fails where fewer than 40 bytes remain.
#[verifier::external_body]
pub(crate) fn read_section_entry_name(b: &Vec<u8>, off: usize) -> (r: Option<Vec<u8>>)
    ensures
        r is Some <==> section_entry_parses(b@, off as int),
        off + 40 > b@.len() ==> r is None,
        r matches Some(n) ==> n@ == b@.subrange(off as int, off + 8),
{
    let mut at = off;
    goblin::pe::section_table::SectionTable::parse(b, &mut at, 0).ok().map(|s| s.name.to_vec())
}

} // verus!
