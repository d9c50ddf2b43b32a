//! The last step: linking the assembly files into the ROM image.

use vstd::prelude::*;
use vstd::string::StringExecFns;
use crate::workdir::{joined, ToolCommand, WorkingDirectory};

verus! {

/// The linker that builds the ROM image.
pub struct Lcc {}

impl Lcc {
    /// The name under which the tool is reported.
    pub fn tool() -> (name: &'static str)
        ensures
            name@ == "lcc"@,
    {
        "lcc"
    }

    /// The ROM image, `out.gb` in the output directory.
    pub fn image(dir: &WorkingDirectory) -> (path: String)
        ensures
            path@ == dir.out@ + "/out.gb"@,
    {
        joined(&dir.out, "/out.gb")
    }

    /// Links the assembly files `asm_paths`, in the order given, into the
    /// ROM image, with the bundled linker.
    pub fn command(dir: &WorkingDirectory, asm_paths: &Vec<String>) -> (command: ToolCommand)
        ensures
            command.program@ == dir.ext@ + "/bin/lcc"@,
            command.arguments() == seq!["-msm83:gb"@, "-o"@, dir.out@ + "/out.gb"@]
                + asm_paths.deep_view(),
    {
        let mut command = ToolCommand::new(joined(&dir.ext, "/bin/lcc"));
        let image = Lcc::image(dir);
        command.arg("-msm83:gb");
        command.arg("-o");
        command.arg(image.as_str());
        let ghost fixed = seq!["-msm83:gb"@, "-o"@, dir.out@ + "/out.gb"@];
        let ghost paths = asm_paths.deep_view();
        assert(command.arguments() =~= fixed + paths.take(0));
        let mut k: usize = 0;
        while k < asm_paths.len()
            invariant
                k <= asm_paths.len(),
                paths == asm_paths.deep_view(),
                paths.len() == asm_paths@.len(),
                command.program@ == dir.ext@ + "/bin/lcc"@,
                command.arguments() == fixed + paths.take(k as int),
            decreases asm_paths.len() - k,
        {
            let path = &asm_paths[k];
            assert(paths[k as int] == path@);
            command.arg(path.as_str());
            assert(command.arguments() =~= fixed + paths.take(k + 1));
            k += 1;
        }
        assert(paths.take(paths.len() as int) =~= paths);
        command
    }
}

} // verus!
