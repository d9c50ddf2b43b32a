//! Removal of the transpiler's block of forward variable declarations.
//!
//! The transpiler announces its sections by comment lines. Between the line
//! that announces the global variable declarations and the line that
//! announces the function declarations it repeats what the definitions
//! further down say again, so the rewriter drops that block: of each line from
//! the first announcement up to and including the second, only those that
//! begin with `/` stay.

use vstd::prelude::*;
use vstd::string::StringSliceAdditionalSpecFns;
use crate::text::{append_bytes, contains, find, find_first};

verus! {

/// The words that announce the block of global variable declarations.
pub open spec fn block_opening() -> Seq<u8> {
    "Global Variable Declarations".spec_bytes()
}

/// The words that announce the section behind the block.
pub open spec fn block_closing() -> Seq<u8> {
    "Function Declarations".spec_bytes()
}

/// The length of the first line of `text`, its line feed included where it
/// has one.
pub open spec fn first_line_len(text: Seq<u8>) -> int {
    match find(text, seq![0x0au8]) {
        Some(at) => at + 1,
        None => text.len() as int,
    }
}

/// A line of the block stays only if it begins with `/`.
pub open spec fn line_stays(line: Seq<u8>, in_block: bool) -> bool {
    !in_block || (line.len() > 0 && line[0] == 0x2fu8)
}

/// Whether the line behind `line` is still inside the block. A line that
/// opens the block never closes it; the closing line itself belongs to the
/// block.
pub open spec fn block_goes_on(line: Seq<u8>, inside: bool) -> bool {
    if inside {
        !contains(line, block_closing())
    } else {
        contains(line, block_opening())
    }
}

/// `text` without the lines of the block that do not begin with `/`, where
/// `inside` says whether the text starts inside a block.
pub open spec fn without_block(text: Seq<u8>, inside: bool) -> Seq<u8>
    decreases text.len(),
{
    let len = first_line_len(text);
    if text.len() == 0 || len <= 0 || len > text.len() {
        text
    } else {
        let line = text.subrange(0, len);
        let in_block = inside || contains(line, block_opening());
        let kept = if line_stays(line, in_block) {
            line
        } else {
            Seq::empty()
        };
        kept + without_block(text.skip(len), block_goes_on(line, inside))
    }
}

/// Removes the block of forward variable declarations from `code`: from the
/// first line that holds `Global Variable Declarations` to the next line that
/// holds `Function Declarations`, every line that does not begin with `/`.
/// A block may open again further down.
pub fn remove_global_declarations(code: &[u8]) -> (out: Vec<u8>)
    ensures
        out@ == without_block(code@, false),
{
    let opening = "Global Variable Declarations".as_bytes();
    let closing = "Function Declarations".as_bytes();
    let feed: Vec<u8> = vec![0x0au8];
    assert(feed@ =~= seq![0x0au8]);
    let mut out: Vec<u8> = Vec::new();
    let mut at: usize = 0;
    let mut inside = false;
    assert(code@.skip(0) =~= code@);
    assert(out@ + without_block(code@, false) =~= without_block(code@, false));
    while at < code.len()
        invariant
            at <= code.len(),
            opening@ == block_opening(),
            closing@ == block_closing(),
            feed@ == seq![0x0au8],
            without_block(code@, false) == out@ + without_block(code@.skip(at as int), inside),
        decreases code.len() - at,
    {
        let rest = &code[at..code.len()];
        assert(rest@ =~= code@.skip(at as int));
        let len: usize = match find_first(rest, feed.as_slice()) {
            Some(feed_at) => feed_at + 1,
            None => rest.len(),
        };
        assert(len == first_line_len(rest@));
        let line = &rest[0..len];
        let opens = find_first(line, opening).is_some();
        let in_block = inside || opens;
        let ghost before = out@;
        if !in_block || line[0] == 0x2fu8 {
            append_bytes(&mut out, line);
        }
        assert(rest@.skip(len as int) =~= code@.skip(at + len));
        inside =
        if inside {
            find_first(line, closing).is_none()
        } else {
            opens
        };
        at += len;
    }
    out
}

} // verus!
