use rust_gb::error::RewriteError;
use rust_gb::rewrite::{call_patches, declarator_patch, declarator_patches};
use rust_gb::rewrite::{rewrite_calls, rewrite_declarators, DeclaratorMatch, Span};
use rust_gb::treesitter::{call_sites, calls_from, declarator_matches, declarators_from};

fn span(start: usize, end: usize) -> Span {
    Span { start, end }
}

fn found(d: (usize, usize), i: (usize, usize)) -> DeclaratorMatch {
    DeclaratorMatch { declarator: span(d.0, d.1), identifier: span(i.0, i.1) }
}

#[test]
fn the_declarator_patch_keeps_the_parameters() {
    let code = b"void foo_AC___sdcccall_IC_0_JC_(int a);";
    let patch = declarator_patch(code, &found((5, 38), (5, 31))).unwrap();
    assert_eq!(patch.start, 5);
    assert_eq!(patch.end, 38);
    assert_eq!(patch.replacement, b"foo(int a) __sdcccall(0)".to_vec());
}

#[test]
fn a_plain_declarator_gets_no_patch() {
    let code = b"void foo(int a);";
    assert!(declarator_patch(code, &found((5, 15), (5, 8))).is_none());
}

#[test]
fn text_around_the_name_stays_in_the_declarator() {
    let code = b"(*f_AC___x)(int)";
    let patch = declarator_patch(code, &found((0, 16), (2, 10))).unwrap();
    assert_eq!(patch.replacement, b"(*f)(int) __x".to_vec());
}

#[test]
fn declarators_are_rewritten_from_given_matches() {
    let mut code = b"void a_AC___x(void); int b(void); char c_AC___y_IC_1_JC_(int);".to_vec();
    let matches = vec![
        found((5, 19), (5, 13)),
        found((25, 32), (25, 26)),
        found((39, 61), (39, 56)),
    ];
    assert_eq!(rewrite_declarators(&mut code, &matches), Ok(()));
    assert_eq!(
        String::from_utf8(code).unwrap(),
        "void a(void) __x; int b(void); char c(int) __y(1);"
    );
}

#[test]
fn a_declarator_outside_the_buffer_is_malformed() {
    let source = b"void a_AC___x(void);".to_vec();
    let mut code = source.clone();
    assert_eq!(
        rewrite_declarators(&mut code, &vec![found((5, 40), (5, 13))]),
        Err(RewriteError::MalformedMatch)
    );
    assert_eq!(code, source);
}

#[test]
fn an_identifier_outside_its_declarator_is_malformed() {
    let source = b"void a_AC___x(void);".to_vec();
    let mut code = source.clone();
    assert_eq!(
        rewrite_declarators(&mut code, &vec![found((5, 13), (5, 19))]),
        Err(RewriteError::MalformedMatch)
    );
    assert_eq!(
        rewrite_declarators(&mut code, &vec![found((6, 19), (5, 13))]),
        Err(RewriteError::MalformedMatch)
    );
    assert_eq!(
        declarator_patches(&code, &vec![found((5, 19), (13, 5))]).err(),
        Some(RewriteError::MalformedMatch)
    );
    assert_eq!(code, source);
}

#[test]
fn encoded_declarators_that_overlap_are_refused() {
    let source = b"void a_AC___x(int b_AC___y(int));".to_vec();
    let mut code = source.clone();
    let matches = vec![found((5, 32), (5, 13)), found((18, 31), (18, 26))];
    assert_eq!(rewrite_declarators(&mut code, &matches), Err(RewriteError::OverlappingEdits));
    assert_eq!(code, source);
}

#[test]
fn calls_are_rewritten_from_given_sites() {
    let mut code = b"a_AC___x(); b(); c_AC___y_IC_1_JC_(2);".to_vec();
    let sites = vec![span(0, 8), span(12, 13), span(17, 34)];
    assert_eq!(rewrite_calls(&mut code, &sites), Ok(()));
    assert_eq!(String::from_utf8(code).unwrap(), "a(); b(); c(2);");
}

#[test]
fn a_call_site_outside_the_buffer_is_malformed() {
    let source = b"a_AC___x();".to_vec();
    let mut code = source.clone();
    assert_eq!(rewrite_calls(&mut code, &vec![span(0, 30)]), Err(RewriteError::MalformedMatch));
    assert_eq!(rewrite_calls(&mut code, &vec![span(8, 0)]), Err(RewriteError::MalformedMatch));
    assert_eq!(code, source);
}

#[test]
fn call_sites_out_of_order_are_refused() {
    let source = b"a_AC___x(); b_AC___y();".to_vec();
    let mut code = source.clone();
    assert_eq!(
        rewrite_calls(&mut code, &vec![span(12, 20), span(0, 8)]),
        Err(RewriteError::OverlappingEdits)
    );
    assert_eq!(code, source);
}

#[test]
fn plain_sites_may_come_in_any_order() {
    let source = b"a(); b();".to_vec();
    let mut code = source.clone();
    assert_eq!(rewrite_calls(&mut code, &vec![span(5, 6), span(0, 1)]), Ok(()));
    assert_eq!(code, source);
    assert!(call_patches(&code, &vec![span(5, 6), span(0, 1)]).unwrap().is_empty());
}

#[test]
fn declaration_and_call_get_the_same_name() {
    let code = b"void f_AC___x(void); f_AC___x();";
    let declared = declarator_patch(code, &found((5, 19), (5, 13))).unwrap();
    let called = call_patches(code, &vec![span(21, 29)]).unwrap();
    assert_eq!(called.len(), 1);
    assert_eq!(called[0].replacement, b"f".to_vec());
    assert!(declared.replacement.starts_with(&called[0].replacement));
}

#[test]
fn query_results_are_read_as_declarator_matches() {
    let captures = vec![vec![(5, 19), (5, 13)], vec![(25, 32), (25, 26)]];
    assert_eq!(
        declarator_matches(&captures),
        Some(vec![found((5, 19), (5, 13)), found((25, 32), (25, 26))])
    );
    assert_eq!(declarator_matches(&Vec::new()), Some(Vec::new()));
    assert_eq!(declarator_matches(&vec![vec![(5, 19)]]), None);
    assert_eq!(declarator_matches(&vec![vec![(5, 19), (5, 13), (0, 1)]]), None);
}

#[test]
fn query_results_are_read_as_call_sites() {
    let captures = vec![vec![(0, 8)], vec![(12, 13)]];
    assert_eq!(call_sites(&captures), Some(vec![span(0, 8), span(12, 13)]));
    assert_eq!(call_sites(&vec![vec![(0, 8), (1, 2)]]), None);
    assert_eq!(call_sites(&vec![Vec::new()]), None);
}

#[test]
fn a_failed_query_fails_the_pass() {
    let source = b"void a_AC___x(void);".to_vec();
    let mut code = source.clone();
    assert_eq!(declarators_from(&mut code, None), Err(RewriteError::ParseFailed));
    assert_eq!(calls_from(&mut code, None), Err(RewriteError::ParseFailed));
    assert_eq!(
        declarators_from(&mut code, Some(vec![vec![(5, 19)]])),
        Err(RewriteError::MalformedMatch)
    );
    assert_eq!(
        calls_from(&mut code, Some(vec![vec![(5, 19), (5, 13)]])),
        Err(RewriteError::MalformedMatch)
    );
    assert_eq!(code, source);
    assert_eq!(declarators_from(&mut code, Some(vec![vec![(5, 19), (5, 13)]])), Ok(()));
    assert_eq!(code, b"void a(void) __x;".to_vec());
}
