use rust_gb::ast_grep::AstGrep;
use rust_gb::cargo::Cargo;
use rust_gb::error::{judge, BuildStepError, ToolOutcome};
use rust_gb::lcc::Lcc;
use rust_gb::listing::{is_space, paths_of_listing};
use rust_gb::llvm::{single_path, LlvmCbe, LlvmLink};
use rust_gb::sdcc::Sdcc;
use rust_gb::workdir::{joined, ToolCommand, WorkingDirectory};

fn strings(items: &[&str]) -> Vec<String> {
    items.iter().map(|s| s.to_string()).collect()
}

#[test]
fn the_directories_lie_under_the_root() {
    let dir = WorkingDirectory::init("/home/me/game");
    assert_eq!(dir.root, "/home/me/game");
    assert_eq!(dir.ext, "/home/me/game/ext");
    assert_eq!(dir.out, "/home/me/game/out");
    assert_eq!(dir.asm_dir(), "/home/me/game/out/asm");
    assert_eq!(dir.c_file(), "/home/me/game/out/out.c");
    assert_eq!(dir.untouched_c_file(), "/home/me/game/out/pre.c");
    assert_eq!(
        dir.directories(),
        strings(&["/home/me/game/out", "/home/me/game/out/asm", "/home/me/game/ext"])
    );
    assert_eq!(
        dir.executables(),
        strings(&["/home/me/game/ext/llvm-link", "/home/me/game/ext/llvm-cbe", "/home/me/game/ext/bin"])
    );
    assert_eq!(joined(&"a".to_string(), "/b"), "a/b");
}

#[test]
fn the_searches_name_their_directories() {
    let dir = WorkingDirectory::init("/p");
    let c = dir.c_search();
    assert_eq!(c.program, "find");
    assert_eq!(c.args, strings(&["/p/c", "/p/ext/c", "-name", "*.c"]));
    let assembly = dir.asm_search();
    assert_eq!(assembly.program, "find");
    assert_eq!(assembly.args, strings(&["/p/asm", "/p/out/asm", "/p/ext/asm", "-name", "*.asm"]));
}

#[test]
fn a_command_collects_its_arguments() {
    let mut command = ToolCommand::new("tool".to_string());
    assert!(command.args.is_empty());
    command.arg("-a");
    command.arg("b c");
    assert_eq!(command.program, "tool");
    assert_eq!(command.args, strings(&["-a", "b c"]));
}

#[test]
fn cargo_builds_into_the_output_directory() {
    let command = Cargo::command(&WorkingDirectory::init("/p"));
    assert_eq!(command.program, "cargo");
    assert_eq!(command.args, strings(&["build", "--release", "--target-dir", "/p/out"]));
    assert_eq!(Cargo::tool(), "cargo");
}

#[test]
fn the_linker_takes_program_platform_and_core() {
    let dir = WorkingDirectory::init("/p");
    let command = LlvmLink::command(&dir, "rom.ll", "gb.ll", "core.ll");
    assert_eq!(command.program, "/p/ext/llvm-link");
    assert_eq!(
        command.args,
        strings(&["--only-needed", "-S", "rom.ll", "gb.ll", "core.ll", "-o", "/p/out/out.ll"])
    );
    let search = LlvmLink::search(&dir, LlvmLink::core_pattern());
    assert_eq!(search.program, "find");
    assert_eq!(
        search.args,
        strings(&["/p/out/avr-unknown-gnu-atmega328/release/deps", "-name", "core*.ll"])
    );
    assert_eq!(LlvmLink::deps_dir(&dir), "/p/out/avr-unknown-gnu-atmega328/release/deps");
    assert_eq!(LlvmLink::gb_pattern(), "gb*.ll");
    assert_eq!(LlvmLink::rom_pattern(), "rom*.ll");
    assert_eq!(LlvmLink::tool(), "llvm-link");
}

#[test]
fn linking_needs_one_file_for_each_module() {
    let dir = WorkingDirectory::init("/p");
    let command = LlvmLink::link(&dir, "/d/rom-1.ll\n", "/d/gb-2.ll\n", "/d/core-3.ll\n");
    match command {
        Ok(c) => assert_eq!(
            c.args,
            strings(&["--only-needed", "-S", "/d/rom-1.ll", "/d/gb-2.ll", "/d/core-3.ll", "-o", "/p/out/out.ll"])
        ),
        Err(_) => panic!("one file each"),
    }
    match LlvmLink::link(&dir, "/d/rom-1.ll\n", "", "/d/core-3.ll\n") {
        Err(BuildStepError::PatternAmbiguous(what)) => assert_eq!(what, "gb*.ll"),
        _ => panic!("no platform library"),
    }
    match LlvmLink::link(&dir, "/d/rom-1.ll\n/d/rom-2.ll\n", "", "") {
        Err(BuildStepError::PatternAmbiguous(what)) => assert_eq!(what, "rom*.ll"),
        _ => panic!("two programs"),
    }
    match LlvmLink::link(&dir, "a", "b", "c\nd") {
        Err(BuildStepError::PatternAmbiguous(what)) => assert_eq!(what, "core*.ll"),
        _ => panic!("two core libraries"),
    }
}

#[test]
fn a_single_path_is_one_line() {
    assert_eq!(single_path(" /a/b.ll \n", "b*.ll").ok(), Some("/a/b.ll".to_string()));
    assert!(matches!(
        single_path("\n", "b*.ll"),
        Err(BuildStepError::PatternAmbiguous(what)) if what == "b*.ll"
    ));
    assert!(matches!(
        single_path("x\ny", "b*.ll"),
        Err(BuildStepError::PatternAmbiguous(what)) if what == "b*.ll"
    ));
}

#[test]
fn the_transpiler_reads_the_linked_file() {
    let command = LlvmCbe::command(&WorkingDirectory::init("/p"));
    assert_eq!(command.program, "/p/ext/llvm-cbe");
    assert_eq!(
        command.args,
        strings(&["--cbe-declare-locals-late", "/p/out/out.ll", "-o", "/p/out/out.c"])
    );
    assert_eq!(LlvmCbe::tool(), "llvm-cbe");
}

#[test]
fn the_compiler_gets_its_fixed_options() {
    let command = Sdcc::compile("in.c", "out.asm");
    assert_eq!(command.program, "sdcc");
    assert_eq!(
        command.args,
        strings(&[
            "-S",
            "-linc",
            "-lsrc",
            "-ltests",
            "-D",
            "__HIDDEN__=",
            "-D",
            "__attribute__(a)=",
            "-D",
            "__builtin_unreachable()=while(1);",
            "--out-fmt-ihx",
            "--max-allocs-per-node",
            "2000",
            "--disable-warning",
            "110",
            "--disable-warning",
            "126",
            "--allow-unsafe-read",
            "--opt-code-speed",
            "--no-std-crt0",
            "--nostdlib",
            "--no-xinit-opt",
            "--std-sdcc11",
            "-msm83",
            "-D",
            "__PORT_sm83",
            "-D",
            "__TARGET_gb",
            "in.c",
            "-o",
            "out.asm",
        ])
    );
    assert_eq!(Sdcc::tool(), "sdcc");
}

#[test]
fn support_files_are_compiled_under_their_own_name() {
    let dir = WorkingDirectory::init("/p");
    assert_eq!(Sdcc::program_output(&dir), "/p/out/out.asm");
    assert_eq!(Sdcc::support_output(&dir, "/p/c/util.c"), Some("/p/out/asm/util.c.asm".to_string()));
    assert_eq!(Sdcc::support_output(&dir, "/util.c"), Some("/p/out/asm/util.c.asm".to_string()));
    assert_eq!(Sdcc::support_output(&dir, "dir/"), Some("/p/out/asm/.asm".to_string()));
    assert_eq!(Sdcc::support_output(&dir, "util.c"), None);
    assert_eq!(Sdcc::support_output(&dir, ""), None);
    let jobs = Sdcc::jobs(&dir, &strings(&["/p/c/a.c", "/p/ext/c/b.c"])).unwrap();
    assert_eq!(jobs.len(), 3);
    assert_eq!(jobs[0].args[28..], strings(&["/p/out/out.c", "-o", "/p/out/out.asm"])[..]);
    assert_eq!(jobs[1].args[28..], strings(&["/p/c/a.c", "-o", "/p/out/asm/a.c.asm"])[..]);
    assert_eq!(jobs[2].args[28..], strings(&["/p/ext/c/b.c", "-o", "/p/out/asm/b.c.asm"])[..]);
    assert!(Sdcc::jobs(&dir, &strings(&["/p/c/a.c", "b.c"])).is_none());
    assert_eq!(Sdcc::jobs(&dir, &Vec::new()).unwrap().len(), 1);
}

#[test]
fn the_image_is_linked_from_the_assembly_files() {
    let dir = WorkingDirectory::init("/p");
    let command = Lcc::command(&dir, &strings(&["/p/out/out.asm", "/p/out/asm/a.c.asm"]));
    assert_eq!(command.program, "/p/ext/bin/lcc");
    assert_eq!(
        command.args,
        strings(&["-msm83:gb", "-o", "/p/out/out.gb", "/p/out/out.asm", "/p/out/asm/a.c.asm"])
    );
    assert_eq!(Lcc::command(&dir, &Vec::new()).args, strings(&["-msm83:gb", "-o", "/p/out/out.gb"]));
    assert_eq!(Lcc::image(&dir), "/p/out/out.gb");
    assert_eq!(Lcc::tool(), "lcc");
}

#[test]
fn every_rule_scans_the_transpiled_file() {
    let dir = WorkingDirectory::init("/p");
    let scan = AstGrep::scan("/r/1.yml", "/p/out/out.c");
    assert_eq!(scan.program, "ast-grep");
    assert_eq!(scan.args, strings(&["scan", "--rule", "/r/1.yml", "/p/out/out.c", "--update-all"]));
    let jobs = AstGrep::jobs(&dir, &strings(&["/r/1.yml", "/r/2.yml"]));
    assert_eq!(jobs.len(), 2);
    assert_eq!(jobs[1].args, strings(&["scan", "--rule", "/r/2.yml", "/p/out/out.c", "--update-all"]));
    assert_eq!(AstGrep::rules_dir(&dir), "/p/ext/ast-grep-rules");
    assert_eq!(AstGrep::tool(), "ast-grep");
}

#[test]
fn a_listing_names_one_path_per_line() {
    assert_eq!(paths_of_listing("/a/b.c\n/c/d.c\n"), strings(&["/a/b.c", "/c/d.c"]));
    assert_eq!(paths_of_listing("  /a b.c \n\n/c.c\t\n \n"), strings(&["/a b.c ", "", "/c.c"]));
    assert_eq!(paths_of_listing("single"), strings(&["single"]));
    assert!(paths_of_listing("").is_empty());
    assert!(paths_of_listing(" \n\t\r\n").is_empty());
    assert_eq!(paths_of_listing("\u{a0}\u{3000}caf\u{e9}\n\u{2003}"), strings(&["caf\u{e9}"]));
}

#[test]
fn white_space_is_the_unicode_property() {
    for c in [' ', '\t', '\n', '\u{b}', '\u{c}', '\r', '\u{85}', '\u{a0}', '\u{1680}', '\u{2000}', '\u{200a}', '\u{2028}', '\u{2029}', '\u{202f}', '\u{205f}', '\u{3000}'] {
        assert!(is_space(c));
        assert!(c.is_whitespace());
    }
    for c in ['a', '_', '\u{8}', '\u{e}', '\u{200b}', '\u{180e}', '\u{feff}'] {
        assert!(!is_space(c));
        assert!(!c.is_whitespace());
    }
}

#[test]
fn a_tool_is_judged_by_how_it_ended() {
    assert!(judge("sdcc", ToolOutcome::Succeeded).is_ok());
    assert!(matches!(
        judge("sdcc", ToolOutcome::NotStarted),
        Err(BuildStepError::ChildExecutionFailed(name)) if name == "sdcc"
    ));
    assert!(matches!(
        judge("lcc", ToolOutcome::Failed(Some(2))),
        Err(BuildStepError::ChildProcessFailed(name, Some(2))) if name == "lcc"
    ));
    assert!(matches!(
        judge("lcc", ToolOutcome::Failed(None)),
        Err(BuildStepError::ChildProcessFailed(name, None)) if name == "lcc"
    ));
}
