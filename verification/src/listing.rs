//! Reading the output of a file search: one path per line.

use vstd::prelude::*;
use vstd::string::{StrSliceExecFns, StringExecFns};

verus! {

/// The characters that count as white space at the ends of a listing: the
/// Unicode property `White_Space`.
pub open spec fn is_white_space(c: char) -> bool {
    let code = c as u32;
    ||| 0x09 <= code <= 0x0d
    ||| code == 0x20
    ||| code == 0x85
    ||| code == 0xa0
    ||| code == 0x1680
    ||| 0x2000 <= code <= 0x200a
    ||| code == 0x2028
    ||| code == 0x2029
    ||| code == 0x202f
    ||| code == 0x205f
    ||| code == 0x3000
}

/// `text` from `from` up to `to` is what is left of it once the white space
/// at both ends is taken away; a text of white space alone leaves the empty
/// stretch at its end.
pub open spec fn is_trim(text: Seq<char>, from: int, to: int) -> bool {
    &&& 0 <= from <= to <= text.len()
    &&& forall|i: int| 0 <= i < from ==> is_white_space(#[trigger] text[i])
    &&& forall|i: int| to <= i < text.len() ==> is_white_space(#[trigger] text[i])
    &&& from < to ==> !is_white_space(text[from]) && !is_white_space(text[to - 1])
    &&& from == to ==> from == text.len()
}

/// `text` without the white space at its ends.
pub open spec fn trimmed(text: Seq<char>) -> Seq<char> {
    let (from, to) = choose|ends: (int, int)| is_trim(text, ends.0, ends.1);
    text.subrange(from, to)
}

/// The number of characters in front of the first line feed of `text`, or
/// its length where it has none.
pub open spec fn line_len(text: Seq<char>) -> int
    decreases text.len(),
{
    if text.len() == 0 || text[0] == '\n' {
        0
    } else {
        1 + line_len(text.skip(1))
    }
}

/// The lines of `text`: what stands between its line feeds. A text that ends
/// in a line feed has an empty last line, and the empty text has one empty
/// line.
pub open spec fn lines_of(text: Seq<char>) -> Seq<Seq<char>>
    decreases text.len(),
{
    let len = line_len(text);
    if len < 0 || len >= text.len() {
        seq![text]
    } else {
        seq![text.subrange(0, len)] + lines_of(text.skip(len + 1))
    }
}

/// The paths that a listing names: the lines of the listing without the
/// white space at its ends, and none where nothing is left.
pub open spec fn listed_paths(listing: Seq<char>) -> Seq<Seq<char>> {
    if trimmed(listing).len() == 0 {
        Seq::empty()
    } else {
        lines_of(trimmed(listing))
    }
}

/// The ends of the trimmed text are determined by the text.
proof fn lemma_trim_unique(text: Seq<char>, from: int, to: int)
    requires
        is_trim(text, from, to),
    ensures
        trimmed(text) == text.subrange(from, to),
{
    let (a, b) = choose|ends: (int, int)| is_trim(text, ends.0, ends.1);
    assert(is_trim(text, (from, to).0, (from, to).1));
    assert(is_trim(text, a, b));
    if a < b {
        assert(!is_white_space(text[a]));
        assert(!is_white_space(text[b - 1]));
        assert(from <= a);
        assert(b <= to);
        assert(from < to);
    }
    if from < to {
        assert(!is_white_space(text[from]));
        assert(!is_white_space(text[to - 1]));
        assert(a <= from);
        assert(to <= b);
        assert(a < b);
    }
    if a == b && from == to {
        assert(text.subrange(from, to) =~= text.subrange(a, b));
    }
}

/// A stretch without line feed that ends at a line feed or at the end of the
/// text is the first line.
proof fn lemma_line_len(text: Seq<char>, len: int)
    requires
        0 <= len <= text.len(),
        forall|i: int| 0 <= i < len ==> text[i] != '\n',
        len < text.len() ==> text[len] == '\n',
    ensures
        line_len(text) == len,
    decreases len,
{
    if len > 0 {
        let rest = text.skip(1);
        assert forall|i: int| 0 <= i < len - 1 implies rest[i] != '\n' by {
            assert(rest[i] == text[i + 1]);
        }
        lemma_line_len(rest, len - 1);
    }
}

/// Tells whether `c` is white space.
pub fn is_space(c: char) -> (space: bool)
    ensures
        space == is_white_space(c),
{
    let code: u32 = c as u32;
    (0x09 <= code && code <= 0x0d) || code == 0x20 || code == 0x85 || code == 0xa0 || code
        == 0x1680 || (0x2000 <= code && code <= 0x200a) || code == 0x2028 || code == 0x2029
        || code == 0x202f || code == 0x205f || code == 0x3000
}

/// Reads the paths that the output of a file search names.
pub fn paths_of_listing(listing: &str) -> (paths: Vec<String>)
    ensures
        paths.deep_view() == listed_paths(listing@),
{
    let mut paths: Vec<String> = Vec::new();
    let len: usize = listing.unicode_len();
    let mut from: usize = 0;
    while from < len && is_space(listing.get_char(from))
        invariant
            from <= len,
            len == listing@.len(),
            forall|i: int| 0 <= i < from ==> is_white_space(#[trigger] listing@[i]),
        decreases len - from,
    {
        from += 1;
    }
    if from == len {
        proof {
            lemma_trim_unique(listing@, len as int, len as int);
            assert(paths.deep_view() =~= Seq::<Seq<char>>::empty());
        }
        return paths;
    }
    let mut to: usize = len;
    while to > from && is_space(listing.get_char(to - 1))
        invariant
            from < len,
            from <= to <= len,
            len == listing@.len(),
            !is_white_space(listing@[from as int]),
            forall|i: int| to <= i < len ==> is_white_space(#[trigger] listing@[i]),
        decreases to,
    {
        to -= 1;
    }
    let ghost text = listing@.subrange(from as int, to as int);
    proof {
        lemma_trim_unique(listing@, from as int, to as int);
        assert(text.skip(0) =~= text);
        assert(paths.deep_view() =~= Seq::<Seq<char>>::empty());
    }
    let mut start: usize = from;
    let mut at: usize = from;
    while at < to
        invariant
            from <= start <= at <= to <= len,
            len == listing@.len(),
            text == listing@.subrange(from as int, to as int),
            forall|i: int| start <= i < at ==> listing@[i] != '\n',
            lines_of(text) == paths.deep_view() + lines_of(text.skip(start - from)),
        decreases to - at,
    {
        if listing.get_char(at) == '\n' {
            let line = listing.substring_char(start, at);
            let ghost rest = text.skip(start - from);
            let ghost before = paths.deep_view();
            proof {
                assert forall|i: int| 0 <= i < at - start implies rest[i] != '\n' by {
                    assert(rest[i] == listing@[start + i]);
                }
                assert(rest[at - start] == listing@[at as int]);
                lemma_line_len(rest, at - start);
                assert(rest.subrange(0, at - start) =~= line@);
                assert(rest.skip(at - start + 1) =~= text.skip(at + 1 - from));
            }
            paths.push(String::from_str(line));
            assert(paths.deep_view() =~= before.push(line@));
            start = at + 1;
        }
        at += 1;
    }
    let line = listing.substring_char(start, to);
    let ghost rest = text.skip(start - from);
    let ghost before = paths.deep_view();
    proof {
        assert forall|i: int| 0 <= i < to - start implies rest[i] != '\n' by {
            assert(rest[i] == listing@[start + i]);
        }
        lemma_line_len(rest, to - start);
        assert(rest =~= line@);
    }
    paths.push(String::from_str(line));
    assert(paths.deep_view() =~= before.push(line@));
    paths
}

} // verus!
