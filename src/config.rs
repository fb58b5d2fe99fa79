//! The project descriptor: for each section, the ordered units that produce its bytes.
use vstd::prelude::*;

verus! {

/// How a unit's bytes are produced.
#[derive(Clone, Copy, Debug, PartialEq, Eq, Structural)]
pub enum UnitKind {
    /// The original bytes, spelled out by generated assembly.
    Copy,
    /// Assembly that the operator wrote, read from the unit's `file`.
    Asm,
}

/// The kind that the project file's text `n` names, if any.
pub open spec fn kind_named(n: Seq<char>) -> Option<UnitKind> {
    if n == "copy"@ {
        Some(UnitKind::Copy)
    } else if n == "asm"@ {
        Some(UnitKind::Asm)
    } else {
        None
    }
}

impl UnitKind {
    /// Reads a unit kind from its name in the project file.
    pub fn from_name(n: &str) -> (r: Option<UnitKind>)
        ensures
            r == kind_named(n@),
    {
        let s = n.to_owned();
        if s == "copy".to_owned() {
            Some(UnitKind::Copy)
        } else if s == "asm".to_owned() {
            Some(UnitKind::Asm)
        } else {
            None
        }
    }

    /// The kind's name in the project file and in build file names.
    pub fn name(&self) -> (r: &'static str)
        ensures
            r@ == (match self {
                UnitKind::Copy => "copy"@,
                UnitKind::Asm => "asm"@,
            }),
    {
        match self {
            UnitKind::Copy => "copy",
            UnitKind::Asm => "asm",
        }
    }
}

/// An operator-declared sub-range of a section.
#[derive(Debug)]
pub struct Unit {
    pub kind: UnitKind,
    /// The source of an `Asm` unit.
    pub file: Option<String>,
    /// Absolute virtual address where the unit begins.
    pub addr_virtual: u64,
    pub raw_size: u64,
}

/// The units of one named section, in address order.
#[derive(Debug)]
pub struct Section {
    pub name: String,
    pub units: Vec<Unit>,
}

/// The project descriptor.
#[derive(Debug)]
pub struct Config {
    pub executable: String,
    /// Fingerprint of the executable when the descriptor was made.
    pub hash: String,
    pub assembler_path: String,
    pub compiler_path: String,
    pub linker_path: String,
    pub sections: Vec<Section>,
}

/// The index of the first section of `secs` from `i` on that is named `name`.
pub open spec fn first_named(secs: Seq<Section>, name: Seq<char>, i: int) -> Option<int>
    decreases secs.len() - i,
{
    if i < 0 || i >= secs.len() {
        None
    } else if secs[i].name@ == name {
        Some(i)
    } else {
        first_named(secs, name, i + 1)
    }
}

/// Finds the first section of `secs` named `name`.
pub fn find_section(secs: &Vec<Section>, name: &String) -> (r: Option<usize>)
    ensures
        r matches Some(i) ==> first_named(secs@, name@, 0) == Some(i as int) && i < secs@.len()
            && secs@[i as int].name@ == name@,
        r is None ==> first_named(secs@, name@, 0) is None,
{
    let mut i: usize = 0;
    while i < secs.len()
        invariant
            0 <= i <= secs@.len(),
            first_named(secs@, name@, 0) == first_named(secs@, name@, i as int),
        decreases secs@.len() - i,
    {
        if secs[i].name == *name {
            return Some(i);
        }
        i += 1;
    }
    None
}

} // verus!
