use rust_gb::mangle::{decode_attribute, decode_attributes, decode_identifier, strip_marker};

#[test]
fn decodes_the_calling_convention() {
    let decoded = decode_identifier(b"foo_AC___sdcccall_IC_0_JC_").unwrap();
    assert_eq!(decoded.name, b"foo".to_vec());
    assert_eq!(decoded.attributes, b"__sdcccall(0)".to_vec());
}

#[test]
fn decodes_an_argument_list() {
    let decoded = decode_identifier(b"bar_AC___preserves_regs_IC_b_MC_c_JC_").unwrap();
    assert_eq!(decoded.name, b"bar".to_vec());
    assert_eq!(decoded.attributes, b"__preserves_regs(b,c)".to_vec());
}

#[test]
fn decodes_several_attributes() {
    let decoded = decode_identifier(b"f_AC___sdcccall_IC_1_JC__AC___banked").unwrap();
    assert_eq!(decoded.name, b"f".to_vec());
    assert_eq!(decoded.attributes, b"__sdcccall(1) __banked".to_vec());
}

#[test]
fn leaves_plain_names_alone() {
    assert!(decode_identifier(b"main").is_none());
    assert!(decode_identifier(b"").is_none());
    assert!(strip_marker(b"memcpy").is_none());
}

#[test]
fn a_lone_space_token_is_no_marker() {
    assert!(decode_identifier(b"foo_AC_bar").is_none());
    assert!(strip_marker(b"foo_AC_bar").is_none());
    assert!(decode_identifier(b"foo_AC__bar").is_none());
}

#[test]
fn strips_from_the_first_marker() {
    assert_eq!(strip_marker(b"foo_AC___sdcccall_IC_0_JC_"), Some(b"foo".to_vec()));
    assert_eq!(strip_marker(b"a_AC___b_AC___c"), Some(b"a".to_vec()));
    assert_eq!(strip_marker(b"_AC___x"), Some(Vec::new()));
}

#[test]
fn a_marker_at_the_end_gives_an_empty_attribute() {
    let decoded = decode_identifier(b"foo_AC___").unwrap();
    assert_eq!(decoded.name, b"foo".to_vec());
    assert_eq!(decoded.attributes, b"__".to_vec());
}

#[test]
fn tokens_are_replaced_one_kind_after_the_other() {
    assert_eq!(decode_attribute(b"a_AC_b_IC_c_JC_d_MC_e"), b"a b(c)d,e".to_vec());
    assert_eq!(decode_attribute(b"_IC_AC_"), b"_IC ".to_vec());
    assert_eq!(decode_attribute(b"_AC_AC_"), b" AC_".to_vec());
    assert_eq!(decode_attribute(b"plain"), b"plain".to_vec());
    assert_eq!(decode_attribute(b""), Vec::<u8>::new());
}

#[test]
fn attribute_segments_are_decoded_apart() {
    assert_eq!(decode_attributes(b"x"), b"__x".to_vec());
    assert_eq!(decode_attributes(b"x_AC___y"), b"__x __y".to_vec());
    assert_eq!(decode_attributes(b"AC_x"), b"__AC_x".to_vec());
}
