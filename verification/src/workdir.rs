//! The directories of one build and the commands that are run in them.

use vstd::prelude::*;
use vstd::string::StringExecFns;

verus! {

/// `base` followed by `tail`.
pub fn joined(base: &String, tail: &str) -> (path: String)
    ensures
        path@ == base@ + tail@,
{
    let mut path = base.clone();
    path.append(tail);
    path
}

/// A program and the arguments it is started with.
pub struct ToolCommand {
    /// The program: a name that is looked up on the search path, or a path.
    pub program: String,
    /// The arguments, in order.
    pub args: Vec<String>,
}

impl ToolCommand {
    /// The arguments as texts.
    pub open spec fn arguments(self) -> Seq<Seq<char>> {
        self.args.deep_view()
    }

    /// A command without arguments.
    pub fn new(program: String) -> (command: ToolCommand)
        ensures
            command.program@ == program@,
            command.arguments() == Seq::<Seq<char>>::empty(),
    {
        let command = ToolCommand { program, args: Vec::new() };
        assert(command.arguments() =~= Seq::<Seq<char>>::empty());
        command
    }

    /// Adds one argument at the end.
    pub fn arg(&mut self, value: &str)
        ensures
            final(self).program@ == old(self).program@,
            final(self).arguments() == old(self).arguments().push(value@),
    {
        self.args.push(String::from_str(value));
        assert(self.arguments() =~= old(self).arguments().push(value@));
    }
}

/// The three directories of a build.
pub struct WorkingDirectory {
    /// The root of the project that is built.
    pub root: String,
    /// Where the bundled tools are unpacked: `ext` under the root.
    pub ext: String,
    /// Where every step leaves its results: `out` under the root.
    pub out: String,
}

impl WorkingDirectory {
    /// The directories of the project at `root`.
    pub fn init(root: &str) -> (dir: WorkingDirectory)
        ensures
            dir.root@ == root@,
            dir.ext@ == root@ + "/ext"@,
            dir.out@ == root@ + "/out"@,
    {
        let base = String::from_str(root);
        WorkingDirectory { ext: joined(&base, "/ext"), out: joined(&base, "/out"), root: base }
    }

    /// The directory for the assembly of the support files: `asm` under the
    /// output directory.
    pub fn asm_dir(&self) -> (path: String)
        ensures
            path@ == self.out@ + "/asm"@,
    {
        joined(&self.out, "/asm")
    }

    /// The directories that have to exist before the first step runs, each
    /// behind the one it lies in.
    pub fn directories(&self) -> (list: Vec<String>)
        ensures
            list.deep_view() == seq![self.out@, self.out@ + "/asm"@, self.ext@],
    {
        let mut list: Vec<String> = Vec::new();
        list.push(self.out.clone());
        list.push(self.asm_dir());
        list.push(self.ext.clone());
        assert(list.deep_view() =~= seq![self.out@, self.out@ + "/asm"@, self.ext@]);
        list
    }

    /// The bundled programs that have to be made executable, and behind them
    /// the directory in which every file has to be.
    pub fn executables(&self) -> (list: Vec<String>)
        ensures
            list.deep_view() == seq![
                self.ext@ + "/llvm-link"@,
                self.ext@ + "/llvm-cbe"@,
                self.ext@ + "/bin"@,
            ],
    {
        let mut list: Vec<String> = Vec::new();
        list.push(joined(&self.ext, "/llvm-link"));
        list.push(joined(&self.ext, "/llvm-cbe"));
        list.push(joined(&self.ext, "/bin"));
        assert(list.deep_view() =~= seq![
            self.ext@ + "/llvm-link"@,
            self.ext@ + "/llvm-cbe"@,
            self.ext@ + "/bin"@,
        ]);
        list
    }

    /// The transpiled C file, `out.c` in the output directory.
    pub fn c_file(&self) -> (path: String)
        ensures
            path@ == self.out@ + "/out.c"@,
    {
        joined(&self.out, "/out.c")
    }

    /// The copy of the transpiled C file that is kept as the transpiler
    /// wrote it, `pre.c` in the output directory.
    pub fn untouched_c_file(&self) -> (path: String)
        ensures
            path@ == self.out@ + "/pre.c"@,
    {
        joined(&self.out, "/pre.c")
    }

    /// The search for the C support files: below `c` under the root and
    /// below `c` among the bundled files.
    pub fn c_search(&self) -> (command: ToolCommand)
        ensures
            command.program@ == "find"@,
            command.arguments() == seq![
                self.root@ + "/c"@,
                self.ext@ + "/c"@,
                "-name"@,
                "*.c"@,
            ],
    {
        let mut command = ToolCommand::new(String::from_str("find"));
        let own = joined(&self.root, "/c");
        let bundled = joined(&self.ext, "/c");
        command.arg(own.as_str());
        command.arg(bundled.as_str());
        command.arg("-name");
        command.arg("*.c");
        assert(command.arguments() =~= seq![
            self.root@ + "/c"@,
            self.ext@ + "/c"@,
            "-name"@,
            "*.c"@,
        ]);
        command
    }

    /// The search for the assembly files: below `asm` under the root, under
    /// the output directory and among the bundled files.
    pub fn asm_search(&self) -> (command: ToolCommand)
        ensures
            command.program@ == "find"@,
            command.arguments() == seq![
                self.root@ + "/asm"@,
                self.out@ + "/asm"@,
                self.ext@ + "/asm"@,
                "-name"@,
                "*.asm"@,
            ],
    {
        let mut command = ToolCommand::new(String::from_str("find"));
        let own = joined(&self.root, "/asm");
        let built = joined(&self.out, "/asm");
        let bundled = joined(&self.ext, "/asm");
        command.arg(own.as_str());
        command.arg(built.as_str());
        command.arg(bundled.as_str());
        command.arg("-name");
        command.arg("*.asm");
        assert(command.arguments() =~= seq![
            self.root@ + "/asm"@,
            self.out@ + "/asm"@,
            self.ext@ + "/asm"@,
            "-name"@,
            "*.asm"@,
        ]);
        command
    }
}

} // verus!
