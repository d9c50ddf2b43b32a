//! Compiling C to assembly: the transpiled program and every support file.

use vstd::prelude::*;
use vstd::string::{StrSliceExecFns, StringExecFns};
use crate::workdir::{joined, ToolCommand, WorkingDirectory};

verus! {

/// The C compiler for the target.
pub struct Sdcc {}

/// The options that ask for assembly and name the libraries.
pub open spec fn output_flags() -> Seq<Seq<char>> {
    seq!["-S"@, "-linc"@, "-lsrc"@, "-ltests"@]
}

/// The definitions that blank out what the compiler does not know.
pub open spec fn definition_flags() -> Seq<Seq<char>> {
    seq![
        "-D"@,
        "__HIDDEN__="@,
        "-D"@,
        "__attribute__(a)="@,
        "-D"@,
        "__builtin_unreachable()=while(1);"@,
    ]
}

/// The options on output format, allocation effort and warnings.
pub open spec fn effort_flags() -> Seq<Seq<char>> {
    seq![
        "--out-fmt-ihx"@,
        "--max-allocs-per-node"@,
        "2000"@,
        "--disable-warning"@,
        "110"@,
        "--disable-warning"@,
        "126"@,
    ]
}

/// The options on code generation and the runtime.
pub open spec fn code_flags() -> Seq<Seq<char>> {
    seq![
        "--allow-unsafe-read"@,
        "--opt-code-speed"@,
        "--no-std-crt0"@,
        "--nostdlib"@,
        "--no-xinit-opt"@,
        "--std-sdcc11"@,
    ]
}

/// The options that select the target.
pub open spec fn target_flags() -> Seq<Seq<char>> {
    seq!["-msm83"@, "-D"@, "__PORT_sm83"@, "-D"@, "__TARGET_gb"@]
}

/// The options of every compilation, in front of the file to compile.
pub open spec fn flags() -> Seq<Seq<char>> {
    output_flags() + definition_flags() + effort_flags() + code_flags() + target_flags()
}

/// The offset of the last `/` of `path`, or -1 where it has none.
pub open spec fn last_slash(path: Seq<char>) -> int
    decreases path.len(),
{
    if path.len() == 0 {
        -1
    } else if path.last() == '/' {
        path.len() - 1
    } else {
        last_slash(path.drop_last())
    }
}

/// Where the assembly of the support file `c_file` goes: under the file's
/// own name, with `.asm` behind it, in `asm` under the output directory. A
/// path without `/` has no place.
pub open spec fn support_output_of(out: Seq<char>, c_file: Seq<char>) -> Option<Seq<char>> {
    if last_slash(c_file) < 0 {
        None
    } else {
        Some(out + "/asm/"@ + c_file.skip(last_slash(c_file) + 1) + ".asm"@)
    }
}

/// The compilation of `c_path` into `asm_path`, as program and arguments.
pub open spec fn compiles(command: ToolCommand, c_path: Seq<char>, asm_path: Seq<char>) -> bool {
    &&& command.program@ == "sdcc"@
    &&& command.arguments() == flags() + seq![c_path, "-o"@, asm_path]
}

/// The compilations of a build: first the transpiled program, then each
/// support file in the order given.
pub open spec fn all_compile(
    commands: Seq<ToolCommand>,
    out: Seq<char>,
    c_files: Seq<Seq<char>>,
) -> bool {
    &&& commands.len() == c_files.len() + 1
    &&& compiles(commands[0], out + "/out.c"@, out + "/out.asm"@)
    &&& forall|i: int|
        0 <= i < c_files.len() ==> support_output_of(out, c_files[i]) is Some && compiles(
            #[trigger] commands[i + 1],
            c_files[i],
            support_output_of(out, c_files[i])->0,
        )
}

proof fn lemma_last_slash(path: Seq<char>, at: int)
    requires
        -1 <= at < path.len(),
        at >= 0 ==> path[at] == '/',
        forall|i: int| at < i < path.len() ==> path[i] != '/',
    ensures
        last_slash(path) == at,
    decreases path.len(),
{
    if path.len() > 0 && at < path.len() - 1 {
        let init = path.drop_last();
        lemma_last_slash(init, at);
    }
}

impl Sdcc {
    /// The name under which the tool is reported.
    pub fn tool() -> (name: &'static str)
        ensures
            name@ == "sdcc"@,
    {
        "sdcc"
    }

    /// The compilation of the C file `c_path` to the assembly file
    /// `asm_path`.
    pub fn compile(c_path: &str, asm_path: &str) -> (command: ToolCommand)
        ensures
            compiles(command, c_path@, asm_path@),
    {
        let mut command = ToolCommand::new(String::from_str("sdcc"));
        Sdcc::add_output_flags(&mut command);
        Sdcc::add_definition_flags(&mut command);
        Sdcc::add_effort_flags(&mut command);
        Sdcc::add_code_flags(&mut command);
        Sdcc::add_target_flags(&mut command);
        assert(command.arguments() =~= flags());
        let ghost fixed = command.arguments();
        command.arg(c_path);
        command.arg("-o");
        command.arg(asm_path);
        assert(command.arguments() =~= fixed + seq![c_path@, "-o"@, asm_path@]);
        command
    }

    fn add_output_flags(command: &mut ToolCommand)
        ensures
            final(command).program@ == old(command).program@,
            final(command).arguments() == old(command).arguments() + output_flags(),
    {
        command.arg("-S");
        command.arg("-linc");
        command.arg("-lsrc");
        command.arg("-ltests");
        assert(command.arguments() =~= old(command).arguments() + output_flags());
    }

    fn add_definition_flags(command: &mut ToolCommand)
        ensures
            final(command).program@ == old(command).program@,
            final(command).arguments() == old(command).arguments() + definition_flags(),
    {
        command.arg("-D");
        command.arg("__HIDDEN__=");
        command.arg("-D");
        command.arg("__attribute__(a)=");
        command.arg("-D");
        command.arg("__builtin_unreachable()=while(1);");
        assert(command.arguments() =~= old(command).arguments() + definition_flags());
    }

    fn add_effort_flags(command: &mut ToolCommand)
        ensures
            final(command).program@ == old(command).program@,
            final(command).arguments() == old(command).arguments() + effort_flags(),
    {
        command.arg("--out-fmt-ihx");
        command.arg("--max-allocs-per-node");
        command.arg("2000");
        command.arg("--disable-warning");
        command.arg("110");
        command.arg("--disable-warning");
        command.arg("126");
        assert(command.arguments() =~= old(command).arguments() + effort_flags());
    }

    fn add_code_flags(command: &mut ToolCommand)
        ensures
            final(command).program@ == old(command).program@,
            final(command).arguments() == old(command).arguments() + code_flags(),
    {
        command.arg("--allow-unsafe-read");
        command.arg("--opt-code-speed");
        command.arg("--no-std-crt0");
        command.arg("--nostdlib");
        command.arg("--no-xinit-opt");
        command.arg("--std-sdcc11");
        assert(command.arguments() =~= old(command).arguments() + code_flags());
    }

    fn add_target_flags(command: &mut ToolCommand)
        ensures
            final(command).program@ == old(command).program@,
            final(command).arguments() == old(command).arguments() + target_flags(),
    {
        command.arg("-msm83");
        command.arg("-D");
        command.arg("__PORT_sm83");
        command.arg("-D");
        command.arg("__TARGET_gb");
        assert(command.arguments() =~= old(command).arguments() + target_flags());
    }

    /// The assembly file of the transpiled program, `out.asm` in the output
    /// directory.
    pub fn program_output(dir: &WorkingDirectory) -> (path: String)
        ensures
            path@ == dir.out@ + "/out.asm"@,
    {
        joined(&dir.out, "/out.asm")
    }

    /// The assembly file for the support file `c_file`; `None` where the
    /// path has no `/`.
    pub fn support_output(dir: &WorkingDirectory, c_file: &str) -> (path: Option<String>)
        ensures
            match support_output_of(dir.out@, c_file@) {
                Some(expected) => path matches Some(p) && p@ == expected,
                None => path is None,
            },
    {
        let len: usize = c_file.unicode_len();
        let mut at: usize = len;
        while at > 0 && c_file.get_char(at - 1) != '/'
            invariant
                at <= len,
                len == c_file@.len(),
                forall|i: int| at <= i < len ==> c_file@[i] != '/',
            decreases at,
        {
            at -= 1;
        }
        proof {
            lemma_last_slash(c_file@, at - 1);
        }
        if at == 0 {
            return None;
        }
        let name = c_file.substring_char(at, len);
        assert(name@ =~= c_file@.skip(at as int));
        let mut path = joined(&dir.out, "/asm/");
        path.append(name);
        path.append(".asm");
        Some(path)
    }

    /// The compilations of a build: first the transpiled program into
    /// `out.asm`, then each of the support files `c_files`. `None` where one
    /// of the paths has no `/`.
    pub fn jobs(dir: &WorkingDirectory, c_files: &Vec<String>) -> (commands: Option<
        Vec<ToolCommand>,
    >)
        ensures
            commands matches Some(list) ==> all_compile(list@, dir.out@, c_files.deep_view()),
            commands is None <==> exists|i: int|
                0 <= i < c_files@.len() && support_output_of(
                    dir.out@,
                    #[trigger] c_files.deep_view()[i],
                ) is None,
    {
        let ghost files = c_files.deep_view();
        let mut list: Vec<ToolCommand> = Vec::new();
        let source = dir.c_file();
        let target = Sdcc::program_output(dir);
        list.push(Sdcc::compile(source.as_str(), target.as_str()));
        let mut k: usize = 0;
        while k < c_files.len()
            invariant
                k <= c_files.len(),
                files == c_files.deep_view(),
                files.len() == c_files@.len(),
                all_compile(list@, dir.out@, files.take(k as int)),
                forall|i: int| 0 <= i < k ==> support_output_of(dir.out@, #[trigger] files[i]) is Some,
            decreases c_files.len() - k,
        {
            let c_file = &c_files[k];
            assert(files[k as int] == c_file@);
            let target = match Sdcc::support_output(dir, c_file.as_str()) {
                Some(path) => path,
                None => {
                    return None;
                },
            };
            let ghost before = list@;
            list.push(Sdcc::compile(c_file.as_str(), target.as_str()));
            proof {
                let head = files.take(k as int);
                let next = files.take(k + 1);
                assert(list@[0] == before[0]);
                assert forall|i: int| 0 <= i < next.len() implies support_output_of(
                    dir.out@,
                    next[i],
                ) is Some && compiles(
                    #[trigger] list@[i + 1],
                    next[i],
                    support_output_of(dir.out@, next[i])->0,
                ) by {
                    if i < k {
                        assert(next[i] == head[i]);
                        assert(list@[i + 1] == before[i + 1]);
                    }
                }
            }
            k += 1;
        }
        assert(files.take(files.len() as int) =~= files);
        Some(list)
    }
}

} // verus!
