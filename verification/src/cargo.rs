//! The first step: compiling the Rust sources to LLVM IR.

use vstd::prelude::*;
use vstd::string::StringExecFns;
use crate::workdir::{ToolCommand, WorkingDirectory};

verus! {

/// The Rust compiler, driven through `cargo`.
pub struct Cargo {}

impl Cargo {
    /// The name under which the tool is reported.
    pub fn tool() -> (name: &'static str)
        ensures
            name@ == "cargo"@,
    {
        "cargo"
    }

    /// A release build whose target directory is the output directory.
    pub fn command(dir: &WorkingDirectory) -> (command: ToolCommand)
        ensures
            command.program@ == "cargo"@,
            command.arguments() == seq!["build"@, "--release"@, "--target-dir"@, dir.out@],
    {
        let mut command = ToolCommand::new(String::from_str("cargo"));
        command.arg("build");
        command.arg("--release");
        command.arg("--target-dir");
        command.arg(dir.out.as_str());
        assert(command.arguments() =~= seq!["build"@, "--release"@, "--target-dir"@, dir.out@]);
        command
    }
}

} // verus!
