use rust_gb::cleanup::remove_global_declarations;

fn cleaned(text: &str) -> String {
    String::from_utf8(remove_global_declarations(text.as_bytes())).unwrap()
}

#[test]
fn the_declaration_block_loses_its_declarations() {
    let text = "int a;\n/* Global Variable Declarations */\nextern int x;\n\n/* note */\nextern int y;\n/* Function Declarations */\nvoid f(void);\n";
    assert_eq!(
        cleaned(text),
        "int a;\n/* Global Variable Declarations */\n/* note */\n/* Function Declarations */\nvoid f(void);\n"
    );
}

#[test]
fn text_without_the_block_is_kept() {
    let text = "int a;\n\n/* Function Declarations */\nvoid f(void);\n";
    assert_eq!(cleaned(text), text);
    assert_eq!(cleaned(""), "");
    assert_eq!(cleaned("\n"), "\n");
    assert_eq!(cleaned("no line feed"), "no line feed");
}

#[test]
fn an_open_block_runs_to_the_end() {
    let text = "/* Global Variable Declarations */\nextern int x;\n/* kept */\nextern int y;";
    assert_eq!(cleaned(text), "/* Global Variable Declarations */\n/* kept */\n");
}

#[test]
fn the_opening_line_does_not_close_its_block() {
    let text = "/* Global Variable Declarations, then Function Declarations */\nint x;\n/* Function Declarations */\nint y;\n";
    assert_eq!(
        cleaned(text),
        "/* Global Variable Declarations, then Function Declarations */\n/* Function Declarations */\nint y;\n"
    );
}

#[test]
fn block_lines_that_are_no_comment_go_even_if_they_announce() {
    let text = "int x; /* Global Variable Declarations */\nint y;\nint z; /* Function Declarations */\nint w;\n";
    assert_eq!(cleaned(text), "int w;\n");
}

#[test]
fn a_block_may_open_again() {
    let text = "/* Global Variable Declarations */\na\n/* Function Declarations */\nb\n/* Global Variable Declarations */\nc\n/* Function Declarations */\nd\n";
    assert_eq!(
        cleaned(text),
        "/* Global Variable Declarations */\n/* Function Declarations */\nb\n/* Global Variable Declarations */\n/* Function Declarations */\nd\n"
    );
}
