//! The encoding side of the identifier scheme, and the proof that decoding
//! undoes it.
//!
//! Nothing in this crate encodes: the compiler in front of the transpiler
//! does. The functions here say what it writes, so that the decoder can be
//! held against it.

use vstd::prelude::*;
use crate::mangle::{attribute_prefix, attribute_text, attributes_of, base_name, decode_segment};
use crate::mangle::{is_marked, marker, space_token};
use crate::text::{contains, find, is_first_occurrence, lemma_find_first, lemma_find_none};
use crate::text::{occurs_at, replace_all};

verus! {

/// The place of a byte among the four characters that are spelled as
/// tokens: 0 for a space, 1 for `(`, 2 for `)`, 3 for `,`, and 4 for every
/// other byte.
pub open spec fn rank(b: u8) -> int {
    if b == 0x20 {
        0
    } else if b == 0x28 {
        1
    } else if b == 0x29 {
        2
    } else if b == 0x2c {
        3
    } else {
        4
    }
}

/// The letter of the token for the character of rank `k`: `A`, `I`, `J` or
/// `M`.
pub open spec fn token_letter(k: int) -> u8 {
    if k == 0 {
        0x41
    } else if k == 1 {
        0x49
    } else if k == 2 {
        0x4a
    } else {
        0x4d
    }
}

/// The token for the character of rank `k`: `_AC_`, `_IC_`, `_JC_` or
/// `_MC_`.
pub open spec fn token(k: int) -> Seq<u8> {
    seq![0x5fu8, token_letter(k), 0x43u8, 0x5fu8]
}

/// The character of rank `k`.
pub open spec fn token_char(k: int) -> u8 {
    if k == 0 {
        0x20
    } else if k == 1 {
        0x28
    } else if k == 2 {
        0x29
    } else {
        0x2c
    }
}

/// How one byte is spelled where the characters of rank `from` and above
/// are spelled as tokens.
pub open spec fn piece(from: int, b: u8) -> Seq<u8> {
    if from <= rank(b) < 4 {
        token(rank(b))
    } else {
        seq![b]
    }
}

/// `text` with the characters of rank `from` and above spelled as tokens.
pub open spec fn encode_from(from: int, text: Seq<u8>) -> Seq<u8>
    decreases text.len(),
{
    if text.len() == 0 {
        Seq::empty()
    } else {
        piece(from, text[0]) + encode_from(from, text.skip(1))
    }
}

/// An attribute text as it is spelled inside an identifier: every space,
/// `(`, `)` and `,` as its token, every other byte as itself.
pub open spec fn encode_text(text: Seq<u8>) -> Seq<u8> {
    encode_from(0, text)
}

/// The attributes as they follow the name in an encoded identifier: each
/// behind a marker.
pub open spec fn encode_attributes(attributes: Seq<Seq<u8>>) -> Seq<u8>
    decreases attributes.len(),
{
    if attributes.len() == 0 {
        Seq::empty()
    } else {
        marker() + encode_text(attributes[0]) + encode_attributes(attributes.skip(1))
    }
}

/// The identifier that stands for the function `name` with the given
/// attributes.
pub open spec fn encode_identifier(name: Seq<u8>, attributes: Seq<Seq<u8>>) -> Seq<u8> {
    name + encode_attributes(attributes)
}

/// The attributes as C text: each opened by `__`, with a space between one
/// and the next.
pub open spec fn joined_attributes(attributes: Seq<Seq<u8>>) -> Seq<u8>
    decreases attributes.len(),
{
    if attributes.len() == 0 {
        Seq::empty()
    } else if attributes.len() == 1 {
        attribute_prefix() + attributes[0]
    } else {
        attribute_prefix() + attributes[0] + seq![0x20u8] + joined_attributes(attributes.skip(1))
    }
}

/// An attribute text that the scheme can carry: it holds no `C`, the letter
/// that every token is recognised by, and no space in front of an
/// underscore, which would read as the start of the next attribute.
pub open spec fn is_plain_text(text: Seq<u8>) -> bool {
    &&& forall|i: int| 0 <= i < text.len() ==> text[i] != 0x43
    &&& forall|i: int|
        0 <= i < text.len() - 1 ==> !(#[trigger] text[i] == 0x20 && text[i + 1] == 0x5f)
}

/// What may stand behind an encoded attribute: nothing, or a marker and
/// whatever follows it.
spec fn marker_led(tail: Seq<u8>) -> bool {
    tail.len() == 0 || (tail.len() >= 6 && tail.subrange(0, 6) == marker())
}

spec fn free_of_c(text: Seq<u8>) -> bool {
    forall|i: int| 0 <= i < text.len() ==> text[i] != 0x43
}

proof fn lemma_skip_plain(text: Seq<u8>)
    requires
        is_plain_text(text),
        text.len() > 0,
    ensures
        is_plain_text(text.skip(1)),
        free_of_c(text),
        free_of_c(text.skip(1)),
{
    let rest = text.skip(1);
    assert forall|i: int| 0 <= i < rest.len() implies rest[i] != 0x43 by {
        assert(rest[i] == text[i + 1]);
    }
    assert forall|i: int| 0 <= i < rest.len() - 1 implies !(#[trigger] rest[i] == 0x20 && rest[i
        + 1] == 0x5f) by {
        assert(rest[i] == text[i + 1]);
        assert(rest[i + 1] == text[i + 2]);
    }
}

proof fn lemma_skip_free(text: Seq<u8>)
    requires
        free_of_c(text),
        text.len() > 0,
    ensures
        free_of_c(text.skip(1)),
{
    let rest = text.skip(1);
    assert forall|i: int| 0 <= i < rest.len() implies rest[i] != 0x43 by {
        assert(rest[i] == text[i + 1]);
    }
}

/// The encoding of a text without `C`, with a marker or nothing behind it,
/// never starts with a token letter followed by `C`: its first byte is an
/// underscore or the text's own first byte, and so is the byte behind a
/// single plain byte.
proof fn lemma_no_letter_then_c(from: int, text: Seq<u8>, tail: Seq<u8>)
    requires
        0 <= from <= 4,
        free_of_c(text),
        marker_led(tail),
    ensures
        ({
            let full = encode_from(from, text) + tail;
            &&& full.len() >= 1 ==> (full[0] == 0x5f || (text.len() > 0 && full[0] == text[0]))
            &&& full.len() >= 2 ==> !(full[0] != 0x5f && full[1] == 0x43)
        }),
{
    let full = encode_from(from, text) + tail;
    if text.len() == 0 {
        assert(full =~= tail);
        if tail.len() > 0 {
            assert(tail.subrange(0, 6)[0] == tail[0]);
        }
    } else {
        let rest = text.skip(1);
        lemma_skip_free(text);
        let head = piece(from, text[0]);
        let behind = encode_from(from, rest) + tail;
        assert(full =~= head + behind);
        if from <= rank(text[0]) < 4 {
            assert(full[0] == head[0]);
        } else {
            assert(full[0] == text[0]);
            if full.len() >= 2 {
                assert(full[1] == behind[0]);
                if rest.len() == 0 {
                    assert(behind =~= tail);
                    assert(tail.subrange(0, 6)[0] == tail[0]);
                } else {
                    let next = piece(from, rest[0]);
                    assert(behind =~= next + (encode_from(from, rest.skip(1)) + tail));
                    assert(behind[0] == next[0]);
                    assert(rest[0] == text[1]);
                }
            }
        }
    }
}

/// One stage of decoding: replacing the token of rank `k` in a text whose
/// characters of rank `k` and above are spelled as tokens leaves the text
/// with only the characters above rank `k` spelled so.
proof fn lemma_stage(k: int, text: Seq<u8>)
    requires
        0 <= k < 4,
        free_of_c(text),
    ensures
        replace_all(encode_from(k, text), token(k), seq![token_char(k)]) == encode_from(
            k + 1,
            text,
        ),
    decreases text.len(),
{
    let pat = token(k);
    let with = seq![token_char(k)];
    assert(pat.len() == 4);
    if text.len() > 0 {
        let b = text[0];
        let rest = text.skip(1);
        lemma_skip_free(text);
        lemma_stage(k, rest);
        let behind = encode_from(k, rest);
        let decoded = encode_from(k + 1, rest);
        lemma_no_letter_then_c(k, rest, Seq::empty());
        assert(behind + Seq::<u8>::empty() =~= behind);
        let s0 = encode_from(k, text);
        assert(s0 == piece(k, b) + behind);
        assert(encode_from(k + 1, text) == piece(k + 1, b) + decoded);
        if rank(b) == k {
            assert(s0 =~= pat + behind);
            assert(s0.subrange(0, 4) =~= pat);
            assert(occurs_at(s0, pat, 0));
            assert(s0.skip(4) =~= behind);
            assert(piece(k + 1, b) =~= with);
            assert(replace_all(s0, pat, with) == with + replace_all(behind, pat, with));
        } else if k < rank(b) < 4 {
            let r = rank(b);
            assert(s0 =~= token(r) + behind);
            let s1 = s0.skip(1);
            let s2 = s1.skip(1);
            let s3 = s2.skip(1);
            let s4 = s3.skip(1);
            assert(s4 =~= behind);
            assert(s0[0] == 0x5f && s0[1] == token_letter(r) && s0[2] == 0x43 && s0[3] == 0x5f);
            assert(s1[0] == token_letter(r) && s2[0] == 0x43 && s3[0] == 0x5f);
            assert(!occurs_at(s0, pat, 0)) by {
                if occurs_at(s0, pat, 0) {
                    assert(s0.subrange(0, 4)[1] == s0[1]);
                }
            }
            assert(!occurs_at(s1, pat, 0)) by {
                if occurs_at(s1, pat, 0) {
                    assert(s1.subrange(0, 4)[0] == s1[0]);
                }
            }
            assert(!occurs_at(s2, pat, 0)) by {
                if occurs_at(s2, pat, 0) {
                    assert(s2.subrange(0, 4)[0] == s2[0]);
                }
            }
            assert(!occurs_at(s3, pat, 0)) by {
                if occurs_at(s3, pat, 0) {
                    assert(s3.subrange(0, 4)[1] == s3[1]);
                    assert(s3.subrange(0, 4)[2] == s3[2]);
                    assert(s3[1] == behind[0]);
                    assert(s3[2] == behind[1]);
                }
            }
            assert(replace_all(s3, pat, with) == seq![s3[0]] + replace_all(s4, pat, with));
            assert(replace_all(s2, pat, with) == seq![s2[0]] + replace_all(s3, pat, with));
            assert(replace_all(s1, pat, with) == seq![s1[0]] + replace_all(s2, pat, with));
            assert(replace_all(s0, pat, with) == seq![s0[0]] + replace_all(s1, pat, with));
            assert(piece(k + 1, b) == token(r));
            assert(seq![s0[0]] + (seq![s1[0]] + (seq![s2[0]] + (seq![s3[0]] + decoded))) =~= token(
                r,
            ) + decoded);
        } else {
            assert(piece(k, b) == seq![b]);
            assert(piece(k + 1, b) == seq![b]);
            assert(s0 =~= seq![b] + behind);
            assert(!occurs_at(s0, pat, 0)) by {
                if occurs_at(s0, pat, 0) {
                    assert(s0.subrange(0, 4)[0] == s0[0]);
                    assert(s0.subrange(0, 4)[1] == s0[1]);
                    assert(s0.subrange(0, 4)[2] == s0[2]);
                    assert(s0[1] == behind[0]);
                    assert(s0[2] == behind[1]);
                }
            }
            assert(s0.skip(1) =~= behind);
            assert(replace_all(s0, pat, with) == seq![s0[0]] + replace_all(behind, pat, with));
        }
    } else {
        assert(encode_from(k, text) =~= Seq::<u8>::empty());
    }
}

proof fn lemma_encode_nothing(text: Seq<u8>)
    ensures
        encode_from(4, text) == text,
    decreases text.len(),
{
    if text.len() > 0 {
        lemma_encode_nothing(text.skip(1));
        assert(seq![text[0]] + text.skip(1) =~= text);
    }
}

/// Decoding the tokens of an encoded attribute gives back the attribute's
/// text, whenever that text holds no `C`.
pub proof fn lemma_decode_segment_inverts(text: Seq<u8>)
    requires
        forall|i: int| 0 <= i < text.len() ==> text[i] != 0x43,
    ensures
        decode_segment(encode_text(text)) == text,
{
    lemma_stage(0, text);
    lemma_stage(1, text);
    lemma_stage(2, text);
    lemma_stage(3, text);
    lemma_encode_nothing(text);
    assert(token(0) =~= space_token());
    assert(token(1) =~= crate::mangle::open_token());
    assert(token(2) =~= crate::mangle::close_token());
    assert(token(3) =~= crate::mangle::comma_token());
}

/// No marker starts inside an encoded attribute: not within it, and not
/// across its end into the marker that follows.
proof fn lemma_no_marker_inside(text: Seq<u8>, tail: Seq<u8>, at: int)
    requires
        is_plain_text(text),
        marker_led(tail),
        0 <= at < encode_text(text).len(),
    ensures
        !occurs_at(encode_text(text) + tail, marker(), at),
    decreases text.len(),
{
    let mark = marker();
    let full = encode_text(text) + tail;
    let rest = text.skip(1);
    lemma_skip_plain(text);
    let head = piece(0, text[0]);
    let behind = encode_text(rest) + tail;
    assert(full =~= head + behind);
    lemma_no_letter_then_c(0, rest, tail);
    if at >= head.len() {
        lemma_no_marker_inside(rest, tail, at - head.len());
        if occurs_at(full, mark, at) {
            assert(behind.subrange(at - head.len(), at - head.len() + 6) =~= full.subrange(
                at,
                at + 6,
            ));
        }
    } else if occurs_at(full, mark, at) {
        let window = full.subrange(at, at + 6);
        assert(window == mark);
        assert(window[0] == full[at] && window[1] == full[at + 1] && window[2] == full[at + 2]);
        assert(window[4] == full[at + 4] && window[5] == full[at + 5]);
        if rank(text[0]) < 4 {
            assert(full[0] == 0x5f && full[1] == token_letter(rank(text[0])) && full[2] == 0x43
                && full[3] == 0x5f);
            if at == 0 {
                assert(full[4] == behind[0] && full[5] == behind[1]);
                if rest.len() == 0 {
                    assert(behind =~= tail);
                    assert(tail.subrange(0, 6)[1] == tail[1]);
                } else {
                    let next = piece(0, rest[0]);
                    assert(behind =~= next + (encode_text(rest.skip(1)) + tail));
                    assert(behind[0] == next[0]);
                    assert(rest[0] == text[1]);
                    if rank(rest[0]) < 4 {
                        assert(behind[1] == next[1]);
                    }
                }
            } else if at == 3 {
                assert(full[4] == behind[0] && full[5] == behind[1]);
            }
        } else {
            assert(full[0] == text[0]);
            assert(full[1] == behind[0] && full[2] == behind[1]);
        }
    }
}

/// The first marker behind an encoded attribute that is followed by a
/// marker is that marker; an encoded attribute with nothing behind it holds
/// no marker.
proof fn lemma_next_marker(text: Seq<u8>, tail: Seq<u8>)
    requires
        is_plain_text(text),
        marker_led(tail),
    ensures
        tail.len() == 0 ==> find(encode_text(text) + tail, marker()) is None,
        tail.len() > 0 ==> find(encode_text(text) + tail, marker()) == Some(
            encode_text(text).len() as int,
        ),
{
    let mark = marker();
    let own = encode_text(text);
    let full = own + tail;
    assert forall|at: int| 0 <= at < own.len() implies !occurs_at(full, mark, at) by {
        lemma_no_marker_inside(text, tail, at);
    }
    if tail.len() == 0 {
        lemma_find_none(full, mark);
    } else {
        assert(full.subrange(own.len() as int, own.len() as int + 6) =~= tail.subrange(0, 6));
        assert(is_first_occurrence(full, mark, own.len() as int));
        lemma_find_first(full, mark, own.len() as int);
    }
}

proof fn lemma_no_marker_in_name(name: Seq<u8>, rest: Seq<u8>, at: int)
    requires
        !contains(name, space_token()),
        0 <= at < name.len(),
    ensures
        !occurs_at(name + marker() + rest, marker(), at),
{
    let mark = marker();
    let full = name + mark + rest;
    let len = name.len() as int;
    assert(mark.len() == 6);
    assert(mark[0] == 0x5f && mark[1] == 0x41 && mark[2] == 0x43 && mark[3] == 0x5f && mark[4]
        == 0x5f);
    if occurs_at(full, mark, at) {
        let window = full.subrange(at, at + 6);
        assert(window == mark);
        if at + 4 <= len {
            let front = name.subrange(at, at + 4);
            assert(front.len() == 4);
            assert(front[0] == full[at] && front[0] == window[0]);
            assert(front[1] == full[at + 1] && front[1] == window[1]);
            assert(front[2] == full[at + 2] && front[2] == window[2]);
            assert(front[3] == full[at + 3] && front[3] == window[3]);
            assert(front =~= space_token());
            assert(occurs_at(name, space_token(), at));
        } else {
            assert(full[len] == mark[0]);
            assert(full[len + 1] == mark[1]);
            if at + 1 == len {
                assert(window[1] == full[len]);
            } else if at + 2 == len {
                assert(window[2] == full[len]);
            } else {
                assert(at + 3 == len);
                assert(window[4] == full[len + 1]);
            }
        }
    }
}

/// The first marker of a name followed by a marker is that marker, where
/// the name holds no `_AC_`.
proof fn lemma_marker_behind_name(name: Seq<u8>, rest: Seq<u8>)
    requires
        !contains(name, space_token()),
    ensures
        find(name + marker() + rest, marker()) == Some(name.len() as int),
{
    let mark = marker();
    let full = name + mark + rest;
    let len = name.len() as int;
    assert(full.subrange(len, len + 6) =~= mark);
    assert forall|at: int| 0 <= at < len implies !occurs_at(full, mark, at) by {
        lemma_no_marker_in_name(name, rest, at);
    }
    assert(is_first_occurrence(full, mark, len));
    lemma_find_first(full, mark, len);
}

/// The attribute text that the decoder reads behind the first marker is the
/// attributes that were encoded.
proof fn lemma_attributes_read_back(attributes: Seq<Seq<u8>>)
    requires
        attributes.len() >= 1,
        forall|i: int| 0 <= i < attributes.len() ==> is_plain_text(#[trigger] attributes[i]),
    ensures
        attribute_text(encode_text(attributes[0]) + encode_attributes(attributes.skip(1)))
            == joined_attributes(attributes),
    decreases attributes.len(),
{
    let first = attributes[0];
    let others = attributes.skip(1);
    let own = encode_text(first);
    let tail = encode_attributes(others);
    lemma_decode_segment_inverts(first);
    if others.len() == 0 {
        assert(own + tail =~= own);
        lemma_next_marker(first, Seq::empty());
        assert(own + Seq::<u8>::empty() =~= own);
    } else {
        let behind = encode_text(others[0]) + encode_attributes(others.skip(1));
        assert(tail =~= marker() + behind);
        assert(tail.subrange(0, 6) =~= marker());
        lemma_next_marker(first, tail);
        assert forall|i: int| 0 <= i < others.len() implies is_plain_text(
            #[trigger] others[i],
        ) by {
            assert(others[i] == attributes[i + 1]);
        }
        lemma_attributes_read_back(others);
        let full = own + tail;
        assert(full.subrange(0, own.len() as int) =~= own);
        assert(full.skip(own.len() as int + 6) =~= behind);
    }
}

/// Decoding undoes encoding. For a name without `_AC_` and one or more
/// attribute texts that the scheme can carry, the encoded identifier is
/// marked, its base name is the name, unchanged, and its attributes read
/// back as they were written: each opened by `__`, with every space, `(`,
/// `)` and `,` in its place.
pub proof fn lemma_decode_inverts_encoding(name: Seq<u8>, attributes: Seq<Seq<u8>>)
    requires
        attributes.len() >= 1,
        !contains(name, space_token()),
        forall|i: int| 0 <= i < attributes.len() ==> is_plain_text(#[trigger] attributes[i]),
    ensures
        is_marked(encode_identifier(name, attributes)),
        base_name(encode_identifier(name, attributes)) == name,
        attributes_of(encode_identifier(name, attributes)) == joined_attributes(attributes),
{
    let behind = encode_text(attributes[0]) + encode_attributes(attributes.skip(1));
    let identifier = encode_identifier(name, attributes);
    assert(identifier =~= name + marker() + behind);
    lemma_marker_behind_name(name, behind);
    lemma_attributes_read_back(attributes);
    assert(identifier.subrange(0, name.len() as int) =~= name);
    assert(identifier.skip(name.len() as int + 6) =~= behind);
}

} // verus!
