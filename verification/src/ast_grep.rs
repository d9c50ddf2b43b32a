//! Applying the bundled rewrite rules to the transpiled C file.

use vstd::prelude::*;
use vstd::string::StringExecFns;
use crate::workdir::{joined, ToolCommand, WorkingDirectory};

verus! {

/// The rule-driven rewriter.
pub struct AstGrep {}

impl AstGrep {
    /// The name under which the tool is reported.
    pub fn tool() -> (name: &'static str)
        ensures
            name@ == "ast-grep"@,
    {
        "ast-grep"
    }

    /// The directory of the bundled rules.
    pub fn rules_dir(dir: &WorkingDirectory) -> (path: String)
        ensures
            path@ == dir.ext@ + "/ast-grep-rules"@,
    {
        joined(&dir.ext, "/ast-grep-rules")
    }

    /// Applies the rule file `rule_path` to the C file `c_path`, rewriting
    /// every place the rule finds.
    pub fn scan(rule_path: &str, c_path: &str) -> (command: ToolCommand)
        ensures
            command.program@ == "ast-grep"@,
            command.arguments() == seq![
                "scan"@,
                "--rule"@,
                rule_path@,
                c_path@,
                "--update-all"@,
            ],
    {
        let mut command = ToolCommand::new(String::from_str("ast-grep"));
        command.arg("scan");
        command.arg("--rule");
        command.arg(rule_path);
        command.arg(c_path);
        command.arg("--update-all");
        assert(command.arguments() =~= seq![
            "scan"@,
            "--rule"@,
            rule_path@,
            c_path@,
            "--update-all"@,
        ]);
        command
    }

    /// One scan of the transpiled C file for each rule file, in the order
    /// given.
    pub fn jobs(dir: &WorkingDirectory, rules: &Vec<String>) -> (commands: Vec<ToolCommand>)
        ensures
            commands@.len() == rules@.len(),
            forall|i: int|
                0 <= i < rules@.len() ==> (#[trigger] commands@[i]).program@ == "ast-grep"@
                    && commands@[i].arguments() == seq![
                    "scan"@,
                    "--rule"@,
                    rules@[i]@,
                    dir.out@ + "/out.c"@,
                    "--update-all"@,
                ],
    {
        let c_path = dir.c_file();
        let mut commands: Vec<ToolCommand> = Vec::new();
        let mut k: usize = 0;
        while k < rules.len()
            invariant
                k <= rules.len(),
                c_path@ == dir.out@ + "/out.c"@,
                commands@.len() == k,
                forall|i: int|
                    0 <= i < k ==> (#[trigger] commands@[i]).program@ == "ast-grep"@
                        && commands@[i].arguments() == seq![
                        "scan"@,
                        "--rule"@,
                        rules@[i]@,
                        dir.out@ + "/out.c"@,
                        "--update-all"@,
                    ],
            decreases rules.len() - k,
        {
            commands.push(AstGrep::scan(rules[k].as_str(), c_path.as_str()));
            k += 1;
        }
        commands
    }
}

} // verus!
