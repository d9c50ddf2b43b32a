//! Linking the LLVM IR of the three modules and transpiling the result to C.

use vstd::prelude::*;
use vstd::string::StringExecFns;
use crate::error::BuildStepError;
use crate::listing::{listed_paths, paths_of_listing};
use crate::workdir::{joined, ToolCommand, WorkingDirectory};

verus! {

/// The linker of LLVM IR.
pub struct LlvmLink {}

/// The transpiler from LLVM IR to C.
pub struct LlvmCbe {}

/// The one path that a listing names; an error that carries `pattern` where
/// it names none or several.
pub fn single_path(listing: &str, pattern: &str) -> (found: Result<String, BuildStepError>)
    ensures
        listed_paths(listing@).len() == 1 ==> (found matches Ok(path) && path@ == listed_paths(
            listing@,
        )[0]),
        listed_paths(listing@).len() != 1 ==> (found matches Err(
            BuildStepError::PatternAmbiguous(what),
        ) && what@ == pattern@),
{
    let mut paths = paths_of_listing(listing);
    assert(paths.deep_view().len() == paths@.len());
    if paths.len() == 1 {
        assert(paths.deep_view()[0] == paths@[0]@);
        let path = paths.pop();
        match path {
            Some(path) => Ok(path),
            None => Err(BuildStepError::PatternAmbiguous(String::from_str(pattern))),
        }
    } else {
        Err(BuildStepError::PatternAmbiguous(String::from_str(pattern)))
    }
}

impl LlvmLink {
    /// The name under which the tool is reported.
    pub fn tool() -> (name: &'static str)
        ensures
            name@ == "llvm-link"@,
    {
        "llvm-link"
    }

    /// The directory in which the compiler leaves the IR of every crate.
    pub fn deps_dir(dir: &WorkingDirectory) -> (path: String)
        ensures
            path@ == dir.out@ + "/avr-unknown-gnu-atmega328/release/deps"@,
    {
        joined(&dir.out, "/avr-unknown-gnu-atmega328/release/deps")
    }

    /// The file name pattern of the core library's IR.
    pub fn core_pattern() -> (pattern: &'static str)
        ensures
            pattern@ == "core*.ll"@,
    {
        "core*.ll"
    }

    /// The file name pattern of the platform library's IR.
    pub fn gb_pattern() -> (pattern: &'static str)
        ensures
            pattern@ == "gb*.ll"@,
    {
        "gb*.ll"
    }

    /// The file name pattern of the program's IR.
    pub fn rom_pattern() -> (pattern: &'static str)
        ensures
            pattern@ == "rom*.ll"@,
    {
        "rom*.ll"
    }

    /// The search for the IR file of one module among the compiler's
    /// results.
    pub fn search(dir: &WorkingDirectory, pattern: &str) -> (command: ToolCommand)
        ensures
            command.program@ == "find"@,
            command.arguments() == seq![
                dir.out@ + "/avr-unknown-gnu-atmega328/release/deps"@,
                "-name"@,
                pattern@,
            ],
    {
        let mut command = ToolCommand::new(String::from_str("find"));
        let deps = LlvmLink::deps_dir(dir);
        command.arg(deps.as_str());
        command.arg("-name");
        command.arg(pattern);
        assert(command.arguments() =~= seq![
            dir.out@ + "/avr-unknown-gnu-atmega328/release/deps"@,
            "-name"@,
            pattern@,
        ]);
        command
    }

    /// Links the program, the platform library and the core library, in this
    /// order, into `out.ll`, keeping only what the program needs.
    pub fn command(dir: &WorkingDirectory, rom: &str, gb: &str, core: &str) -> (command:
        ToolCommand)
        ensures
            command.program@ == dir.ext@ + "/llvm-link"@,
            command.arguments() == seq![
                "--only-needed"@,
                "-S"@,
                rom@,
                gb@,
                core@,
                "-o"@,
                dir.out@ + "/out.ll"@,
            ],
    {
        let mut command = ToolCommand::new(joined(&dir.ext, "/llvm-link"));
        let linked = joined(&dir.out, "/out.ll");
        command.arg("--only-needed");
        command.arg("-S");
        command.arg(rom);
        command.arg(gb);
        command.arg(core);
        command.arg("-o");
        command.arg(linked.as_str());
        assert(command.arguments() =~= seq![
            "--only-needed"@,
            "-S"@,
            rom@,
            gb@,
            core@,
            "-o"@,
            dir.out@ + "/out.ll"@,
        ]);
        command
    }

    /// The link command for what the three searches printed. Each search has
    /// to name exactly one file; the first that does not is reported by its
    /// pattern, first the program's, then the platform library's, then the
    /// core library's.
    pub fn link(dir: &WorkingDirectory, rom_listing: &str, gb_listing: &str, core_listing: &str) -> (
    command: Result<ToolCommand, BuildStepError>)
        ensures
            match command {
                Ok(c) => {
                    &&& listed_paths(rom_listing@).len() == 1
                    &&& listed_paths(gb_listing@).len() == 1
                    &&& listed_paths(core_listing@).len() == 1
                    &&& c.program@ == dir.ext@ + "/llvm-link"@
                    &&& c.arguments() == seq![
                        "--only-needed"@,
                        "-S"@,
                        listed_paths(rom_listing@)[0],
                        listed_paths(gb_listing@)[0],
                        listed_paths(core_listing@)[0],
                        "-o"@,
                        dir.out@ + "/out.ll"@,
                    ]
                },
                Err(BuildStepError::PatternAmbiguous(what)) => {
                    if listed_paths(rom_listing@).len() != 1 {
                        what@ == "rom*.ll"@
                    } else if listed_paths(gb_listing@).len() != 1 {
                        what@ == "gb*.ll"@
                    } else {
                        listed_paths(core_listing@).len() != 1 && what@ == "core*.ll"@
                    }
                },
                Err(_) => false,
            },
    {
        let rom = match single_path(rom_listing, LlvmLink::rom_pattern()) {
            Ok(path) => path,
            Err(e) => {
                return Err(e);
            },
        };
        let gb = match single_path(gb_listing, LlvmLink::gb_pattern()) {
            Ok(path) => path,
            Err(e) => {
                return Err(e);
            },
        };
        let core = match single_path(core_listing, LlvmLink::core_pattern()) {
            Ok(path) => path,
            Err(e) => {
                return Err(e);
            },
        };
        Ok(LlvmLink::command(dir, rom.as_str(), gb.as_str(), core.as_str()))
    }
}

impl LlvmCbe {
    /// The name under which the tool is reported.
    pub fn tool() -> (name: &'static str)
        ensures
            name@ == "llvm-cbe"@,
    {
        "llvm-cbe"
    }

    /// Transpiles `out.ll` to `out.c`, with locals declared where they are
    /// first used.
    pub fn command(dir: &WorkingDirectory) -> (command: ToolCommand)
        ensures
            command.program@ == dir.ext@ + "/llvm-cbe"@,
            command.arguments() == seq![
                "--cbe-declare-locals-late"@,
                dir.out@ + "/out.ll"@,
                "-o"@,
                dir.out@ + "/out.c"@,
            ],
    {
        let mut command = ToolCommand::new(joined(&dir.ext, "/llvm-cbe"));
        let linked = joined(&dir.out, "/out.ll");
        let transpiled = dir.c_file();
        command.arg("--cbe-declare-locals-late");
        command.arg(linked.as_str());
        command.arg("-o");
        command.arg(transpiled.as_str());
        assert(command.arguments() =~= seq![
            "--cbe-declare-locals-late"@,
            dir.out@ + "/out.ll"@,
            "-o"@,
            dir.out@ + "/out.c"@,
        ]);
        command
    }
}

} // verus!
