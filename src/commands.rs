//! The subcommands of the tool, as plain data: `init`, `split`, `gen`, `link`
//! and `patch-exe`, run in that order.
use vstd::prelude::*;

verus! {

/// Runs one subcommand to completion.
pub trait CommandExecute {
    fn execute(&self) -> Result<(), String>;
}

/// Writes the default project file for an executable.
#[derive(Debug)]
pub struct InitArgs {
    pub executable: String,
}

/// Generates the template image, the copy units' assembly and the link script.
#[derive(Debug)]
pub struct SplitArgs {}

/// Assembles every unit.
#[derive(Debug)]
pub struct GenArgs {}

/// Links the donor, checks it against the original and fills the template.
#[derive(Debug)]
pub struct LinkArgs {}

/// Restores the header fields of the final image.
#[derive(Debug)]
pub struct PatchExeArgs {}

/// One subcommand with its arguments.
#[derive(Debug)]
pub enum Commands {
    Init(InitArgs),
    Split(SplitArgs),
    Gen(GenArgs),
    Link(LinkArgs),
    PatchExe(PatchExeArgs),
}

/// The command line.
#[derive(Debug)]
pub struct Cli {
    pub command: Commands,
}

} // verus!
