use rust_gb::error::RewriteError;
use rust_gb::treesitter::{parse_call_expression_attributes, parse_declarator_attributes};
use rust_gb::treesitter::Treesitter;

#[test]
fn rewrites_an_encoded_declaration() {
    let mut code = b"void foo_AC___sdcccall_IC_0_JC_(int a);\n".to_vec();
    assert_eq!(parse_declarator_attributes(&mut code), Ok(()));
    assert_eq!(code, b"void foo(int a) __sdcccall(0);\n".to_vec());
}

#[test]
fn rewrites_several_declarations_in_one_pass() {
    let mut code = b"void foo_AC___sdcccall_IC_0_JC_(int a);\nint plain(void);\nuint8_t bar_AC___preserves_regs_IC_b_MC_c_JC_(uint8_t x, uint8_t y);\nvoid last(void);\n".to_vec();
    assert_eq!(parse_declarator_attributes(&mut code), Ok(()));
    assert_eq!(
        code,
        b"void foo(int a) __sdcccall(0);\nint plain(void);\nuint8_t bar(uint8_t x, uint8_t y) __preserves_regs(b,c);\nvoid last(void);\n".to_vec()
    );
}

#[test]
fn rewrites_call_sites() {
    let mut code = b"void f(void) {\n  foo_AC___sdcccall_IC_0_JC_(1);\n  plain(2);\n  bar_AC___x(3);\n}\n".to_vec();
    assert_eq!(parse_call_expression_attributes(&mut code), Ok(()));
    assert_eq!(code, b"void f(void) {\n  foo(1);\n  plain(2);\n  bar(3);\n}\n".to_vec());
}

#[test]
fn leaves_unmarked_source_alone() {
    let source = b"int add(int a, int b);\nint main(void) {\n  return add(1, 2);\n}\n".to_vec();
    let mut code = source.clone();
    assert_eq!(parse_declarator_attributes(&mut code), Ok(()));
    assert_eq!(code, source);
    assert_eq!(parse_call_expression_attributes(&mut code), Ok(()));
    assert_eq!(code, source);
}

#[test]
fn the_call_pass_does_not_touch_declarations() {
    let source = b"void foo_AC___sdcccall_IC_0_JC_(int a);\n".to_vec();
    let mut code = source.clone();
    assert_eq!(parse_call_expression_attributes(&mut code), Ok(()));
    assert_eq!(code, source);
}

#[test]
fn rewrites_a_whole_file() {
    let mut code = b"/* Global Variable Declarations */\nextern uint8_t counter;\n\n/* Function Declarations */\nvoid delay_AC___sdcccall_IC_0_JC_(uint16_t);\nvoid main(void);\n\n/* Global Variable Definitions and Initialization */\nuint8_t counter = 0;\n\nvoid main(void) {\n  delay_AC___sdcccall_IC_0_JC_(10);\n}\n".to_vec();
    assert_eq!(Treesitter::rewrite(&mut code), Ok(()));
    assert_eq!(
        String::from_utf8(code).unwrap(),
        "/* Global Variable Declarations */\n/* Function Declarations */\nvoid delay(uint16_t) __sdcccall(0);\nvoid main(void);\n\n/* Global Variable Definitions and Initialization */\nuint8_t counter = 0;\n\nvoid main(void) {\n  delay(10);\n}\n"
    );
}

#[test]
fn a_second_rewrite_changes_nothing() {
    let mut code = b"void delay_AC___sdcccall_IC_0_JC_(uint16_t);\nvoid main(void) {\n  delay_AC___sdcccall_IC_0_JC_(10);\n}\n".to_vec();
    assert_eq!(Treesitter::rewrite(&mut code), Ok(()));
    let once = code.clone();
    assert_eq!(Treesitter::rewrite(&mut code), Ok(()));
    assert_eq!(code, once);
    assert_eq!(
        String::from_utf8(once).unwrap(),
        "void delay(uint16_t) __sdcccall(0);\nvoid main(void) {\n  delay(10);\n}\n"
    );
}

#[test]
fn nested_encoded_declarators_are_refused() {
    let source = b"void outer_AC___a(int inner_AC___b(int));\n".to_vec();
    let mut code = source.clone();
    assert_eq!(parse_declarator_attributes(&mut code), Err(RewriteError::OverlappingEdits));
    assert_eq!(code, source);
}

#[test]
fn a_plain_declarator_inside_an_encoded_one_is_kept() {
    let mut code = b"void outer_AC___a(int inner(int));\n".to_vec();
    assert_eq!(parse_declarator_attributes(&mut code), Ok(()));
    assert_eq!(code, b"void outer(int inner(int)) __a;\n".to_vec());
}
