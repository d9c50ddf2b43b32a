//! The identifier encoding that carries attributes through the C transpiler.
//!
//! A function that needs a calling convention or another attribute is declared
//! under a name that spells the attributes out: the plain name, then for each
//! attribute the marker `_AC___` and the attribute's text, in which `_AC_`
//! stands for a space, `_IC_` for `(`, `_JC_` for `)` and `_MC_` for `,`.
//! `foo_AC___sdcccall_IC_0_JC_` is the function `foo` with the attribute
//! `__sdcccall(0)`.

use vstd::prelude::*;
use crate::text::{append_bytes, contains, find, find_first, replace_all, replace_each};
use crate::text::{lemma_find_is_first, lemma_replace_all_absent, occurs_at};

verus! {

/// The marker `_AC___` that introduces each attribute of an encoded name.
pub open spec fn marker() -> Seq<u8> {
    seq![0x5fu8, 0x41u8, 0x43u8, 0x5fu8, 0x5fu8, 0x5fu8]
}

/// `_AC_`, which stands for a space.
pub open spec fn space_token() -> Seq<u8> {
    seq![0x5fu8, 0x41u8, 0x43u8, 0x5fu8]
}

/// `_IC_`, which stands for `(`.
pub open spec fn open_token() -> Seq<u8> {
    seq![0x5fu8, 0x49u8, 0x43u8, 0x5fu8]
}

/// `_JC_`, which stands for `)`.
pub open spec fn close_token() -> Seq<u8> {
    seq![0x5fu8, 0x4au8, 0x43u8, 0x5fu8]
}

/// `_MC_`, which stands for `,`.
pub open spec fn comma_token() -> Seq<u8> {
    seq![0x5fu8, 0x4du8, 0x43u8, 0x5fu8]
}

/// The two underscores `__` that open every decoded attribute.
pub open spec fn attribute_prefix() -> Seq<u8> {
    seq![0x5fu8, 0x5fu8]
}

/// One attribute segment with its tokens turned back into the characters
/// they stand for: first every `_AC_`, then every `_IC_`, `_JC_` and `_MC_`.
pub open spec fn decode_segment(segment: Seq<u8>) -> Seq<u8> {
    replace_all(
        replace_all(
            replace_all(replace_all(segment, space_token(), seq![0x20u8]), open_token(), seq![0x28u8]),
            close_token(),
            seq![0x29u8],
        ),
        comma_token(),
        seq![0x2cu8],
    )
}

/// The attribute text spelled by what follows the first marker of a name:
/// each segment decoded and opened by `__`, the segments joined by a space.
pub open spec fn attribute_text(encoded: Seq<u8>) -> Seq<u8>
    decreases encoded.len(),
{
    match find(encoded, marker()) {
        Some(at) => if 0 <= at && at + 6 <= encoded.len() {
            attribute_prefix() + decode_segment(encoded.subrange(0, at)) + seq![0x20u8]
                + attribute_text(encoded.skip(at + 6))
        } else {
            attribute_prefix() + decode_segment(encoded)
        },
        None => attribute_prefix() + decode_segment(encoded),
    }
}

/// An identifier is marked when the marker stands in it.
pub open spec fn is_marked(identifier: Seq<u8>) -> bool {
    contains(identifier, marker())
}

/// The name in front of the first marker; an unmarked identifier is its own
/// base name.
pub open spec fn base_name(identifier: Seq<u8>) -> Seq<u8> {
    match find(identifier, marker()) {
        Some(at) => identifier.subrange(0, at),
        None => identifier,
    }
}

/// The attributes of a marked identifier, as C text.
pub open spec fn attributes_of(identifier: Seq<u8>) -> Seq<u8> {
    match find(identifier, marker()) {
        Some(at) => attribute_text(identifier.skip(at + 6)),
        None => Seq::empty(),
    }
}

/// A marked identifier taken apart.
pub struct Decoded {
    /// The function's name, without marker and attributes.
    pub name: Vec<u8>,
    /// The attributes as C text, such as `__sdcccall(0)`.
    pub attributes: Vec<u8>,
}

/// The marker as bytes.
pub fn marker_bytes() -> (m: Vec<u8>)
    ensures
        m@ == marker(),
{
    let m: Vec<u8> = vec![0x5fu8, 0x41u8, 0x43u8, 0x5fu8, 0x5fu8, 0x5fu8];
    assert(m@ =~= marker());
    m
}

/// Turns the tokens of one attribute segment back into characters.
pub fn decode_attribute(segment: &[u8]) -> (text: Vec<u8>)
    ensures
        text@ == decode_segment(segment@),
{
    let space: Vec<u8> = vec![0x5fu8, 0x41u8, 0x43u8, 0x5fu8];
    let open: Vec<u8> = vec![0x5fu8, 0x49u8, 0x43u8, 0x5fu8];
    let close: Vec<u8> = vec![0x5fu8, 0x4au8, 0x43u8, 0x5fu8];
    let comma: Vec<u8> = vec![0x5fu8, 0x4du8, 0x43u8, 0x5fu8];
    let to_space: Vec<u8> = vec![0x20u8];
    let to_open: Vec<u8> = vec![0x28u8];
    let to_close: Vec<u8> = vec![0x29u8];
    let to_comma: Vec<u8> = vec![0x2cu8];
    assert(space@ =~= space_token());
    assert(open@ =~= open_token());
    assert(close@ =~= close_token());
    assert(comma@ =~= comma_token());
    assert(to_space@ =~= seq![0x20u8]);
    assert(to_open@ =~= seq![0x28u8]);
    assert(to_close@ =~= seq![0x29u8]);
    assert(to_comma@ =~= seq![0x2cu8]);
    let spaced = replace_each(segment, space.as_slice(), to_space.as_slice());
    let opened = replace_each(spaced.as_slice(), open.as_slice(), to_open.as_slice());
    let closed = replace_each(opened.as_slice(), close.as_slice(), to_close.as_slice());
    replace_each(closed.as_slice(), comma.as_slice(), to_comma.as_slice())
}

/// Decodes the attribute segments that follow the first marker of a name.
pub fn decode_attributes(encoded: &[u8]) -> (text: Vec<u8>)
    ensures
        text@ == attribute_text(encoded@),
{
    let mark = marker_bytes();
    let mut text: Vec<u8> = Vec::new();
    let mut from: usize = 0;
    assert(encoded@.skip(0) =~= encoded@);
    assert(text@ + attribute_text(encoded@) =~= attribute_text(encoded@));
    loop
        invariant_except_break
            attribute_text(encoded@) == text@ + attribute_text(encoded@.skip(from as int)),
        invariant
            from <= encoded.len(),
            mark@ == marker(),
        ensures
            text@ == attribute_text(encoded@),
        decreases encoded.len() - from,
    {
        let rest = &encoded[from..encoded.len()];
        assert(rest@ =~= encoded@.skip(from as int));
        let ghost before = text@;
        text.push(0x5fu8);
        text.push(0x5fu8);
        assert(text@ =~= before + attribute_prefix());
        match find_first(rest, mark.as_slice()) {
            None => {
                let last = decode_attribute(rest);
                append_bytes(&mut text, last.as_slice());
                assert(text@ =~= before + (attribute_prefix() + decode_segment(rest@)));
                break;
            },
            Some(at) => {
                assert(at + 6 <= rest.len());
                let segment = decode_attribute(&rest[0..at]);
                append_bytes(&mut text, segment.as_slice());
                text.push(0x20u8);
                assert(rest@.skip(at + 6) =~= encoded@.skip(from + at + 6));
                assert(text@ + attribute_text(rest@.skip(at + 6)) =~= before + (attribute_prefix()
                    + decode_segment(rest@.subrange(0, at as int)) + seq![0x20u8] + attribute_text(
                    rest@.skip(at + 6),
                )));
                from = from + at + 6;
            },
        }
    }
    text
}

/// Takes a marked identifier apart; an identifier without the marker is not
/// encoded and gives `None`.
pub fn decode_identifier(identifier: &[u8]) -> (decoded: Option<Decoded>)
    ensures
        decoded is Some <==> is_marked(identifier@),
        decoded matches Some(d) ==> d.name@ == base_name(identifier@) && d.attributes@
            == attributes_of(identifier@),
{
    let mark = marker_bytes();
    match find_first(identifier, mark.as_slice()) {
        None => None,
        Some(at) => {
            assert(at + 6 <= identifier.len());
            let mut name: Vec<u8> = Vec::new();
            append_bytes(&mut name, &identifier[0..at]);
            let tail = &identifier[at + 6..identifier.len()];
            assert(tail@ =~= identifier@.skip(at + 6));
            let attributes = decode_attributes(tail);
            assert(name@ =~= identifier@.subrange(0, at as int));
            Some(Decoded { name, attributes })
        },
    }
}

/// The plain name of a marked identifier, which is what a call site has to
/// name; `None` for an identifier without the marker.
pub fn strip_marker(identifier: &[u8]) -> (plain: Option<Vec<u8>>)
    ensures
        plain is Some <==> is_marked(identifier@),
        plain matches Some(name) ==> name@ == base_name(identifier@),
{
    let mark = marker_bytes();
    match find_first(identifier, mark.as_slice()) {
        None => None,
        Some(at) => {
            let mut name: Vec<u8> = Vec::new();
            append_bytes(&mut name, &identifier[0..at]);
            assert(name@ =~= identifier@.subrange(0, at as int));
            Some(name)
        },
    }
}

/// The base name of any identifier is free of the marker, so decoding a name
/// that was already decoded changes nothing.
pub proof fn lemma_base_name_unmarked(identifier: Seq<u8>)
    ensures
        !is_marked(base_name(identifier)),
        base_name(base_name(identifier)) == base_name(identifier),
{
    lemma_find_is_first(identifier, marker());
    let base = base_name(identifier);
    match find(identifier, marker()) {
        Some(first) => {
            assert forall|at: int| !occurs_at(base, marker(), at) by {
                if occurs_at(base, marker(), at) {
                    assert(base.subrange(at, at + 6) =~= identifier.subrange(at, at + 6));
                    assert(occurs_at(identifier, marker(), at));
                }
            }
        },
        None => {},
    }
    lemma_find_is_first(base, marker());
}

/// An identifier without the marker is its own base name and has no
/// attributes.
pub proof fn lemma_unmarked_is_plain(identifier: Seq<u8>)
    requires
        !is_marked(identifier),
    ensures
        base_name(identifier) == identifier,
        attributes_of(identifier) == Seq::<u8>::empty(),
{
}

/// A segment that holds none of the four tokens is its own decoding.
pub proof fn lemma_plain_segment_unchanged(segment: Seq<u8>)
    requires
        !contains(segment, space_token()),
        !contains(segment, open_token()),
        !contains(segment, close_token()),
        !contains(segment, comma_token()),
    ensures
        decode_segment(segment) == segment,
{
    lemma_replace_all_absent(segment, space_token(), seq![0x20u8]);
    lemma_replace_all_absent(segment, open_token(), seq![0x28u8]);
    lemma_replace_all_absent(segment, close_token(), seq![0x29u8]);
    lemma_replace_all_absent(segment, comma_token(), seq![0x2cu8]);
}

} // verus!
