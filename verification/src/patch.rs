//! Text edits against one snapshot of a buffer.
//!
//! All edits of a pass are located in the buffer as it was before the pass.
//! Applying one of them moves everything behind it, so the offsets of each
//! later edit are corrected by the running sum of the length changes made so
//! far.

use vstd::prelude::*;
use crate::error::RewriteError;
use crate::text::append_bytes;

verus! {

/// One edit: the bytes from `start` up to `end` give way to `replacement`.
pub struct Patch {
    /// Offset of the first byte replaced.
    pub start: usize,
    /// Offset just behind the last byte replaced.
    pub end: usize,
    /// The text that takes their place.
    pub replacement: Vec<u8>,
}

/// An edit as the contracts see it: a byte range of the unedited text and
/// the text that replaces it.
pub ghost struct Edit {
    /// Offset of the first byte replaced.
    pub start: int,
    /// Offset just behind the last byte replaced.
    pub end: int,
    /// The text that takes their place.
    pub text: Seq<u8>,
}

impl Edit {
    /// By how much the edit makes the buffer longer; negative where it
    /// shrinks.
    pub open spec fn delta(self) -> int {
        self.text.len() - (self.end - self.start)
    }
}

impl View for Patch {
    type V = Edit;

    open spec fn view(&self) -> Edit {
        Edit { start: self.start as int, end: self.end as int, text: self.replacement@ }
    }
}

/// The edits that a list of patches stands for.
pub open spec fn edits_of(patches: Seq<Patch>) -> Seq<Edit> {
    patches.map_values(|p: Patch| p@)
}

/// The edits lie inside a text of `len` bytes, in source order, and no two of
/// them overlap.
pub open spec fn patches_fit(patches: Seq<Edit>, len: int) -> bool {
    &&& forall|i: int|
        0 <= i < patches.len() ==> 0 <= (#[trigger] patches[i]).start <= patches[i].end <= len
    &&& forall|i: int, j: int|
        0 <= i < j < patches.len() ==> (#[trigger] patches[i]).end <= (#[trigger] patches[j]).start
}

/// The sum of the length changes of the first `upto` edits: what has to be
/// added to an offset behind them once they are applied.
pub open spec fn shift(patches: Seq<Edit>, upto: int) -> int
    decreases upto,
{
    if upto <= 0 {
        0
    } else {
        shift(patches, upto - 1) + patches[upto - 1].delta()
    }
}

/// `text` with all edits made: in front of the last edit the text with the
/// earlier edits made, then the last replacement, then the rest untouched.
pub open spec fn patched(text: Seq<u8>, patches: Seq<Edit>) -> Seq<u8>
    decreases patches.len(),
{
    if patches.len() == 0 {
        text
    } else {
        let last = patches.last();
        patched(text.subrange(0, last.start), patches.drop_last()) + last.text
            + text.skip(last.end)
    }
}

/// Where the text in front of the `i`-th edit starts in the unedited text:
/// at the end of the edit before it.
pub open spec fn gap_start(patches: Seq<Edit>, i: int) -> int {
    if i <= 0 {
        0
    } else {
        patches[i - 1].end
    }
}

proof fn lemma_fit_prefix(patches: Seq<Edit>, len: int, k: int)
    requires
        patches_fit(patches, len),
        0 <= k <= patches.len(),
    ensures
        patches_fit(patches.take(k), len),
        k < patches.len() ==> patches_fit(patches.take(k), patches[k].start),
        forall|i: int| 0 <= i <= k ==> shift(patches.take(k), i) == shift(patches, i),
{
    let head = patches.take(k);
    assert forall|i: int| 0 <= i < head.len() implies 0 <= (#[trigger] head[i]).start <= head[i].end
        <= len by {
        assert(head[i] == patches[i]);
    }
    assert forall|i: int, j: int| 0 <= i < j < head.len() implies (#[trigger] head[i]).end <= (
    #[trigger] head[j]).start by {
        assert(head[i] == patches[i]);
        assert(head[j] == patches[j]);
    }
    if k < patches.len() {
        assert forall|i: int| 0 <= i < head.len() implies 0 <= (#[trigger] head[i]).start
            <= head[i].end <= patches[k].start by {
            assert(head[i] == patches[i]);
        }
    }
    assert forall|i: int| 0 <= i <= k implies shift(head, i) == shift(patches, i) by {
        lemma_shift_prefix(patches, k, i);
    }
}

proof fn lemma_shift_prefix(patches: Seq<Edit>, k: int, i: int)
    requires
        0 <= i <= k <= patches.len(),
    ensures
        shift(patches.take(k), i) == shift(patches, i),
    decreases i,
{
    if i > 0 {
        lemma_shift_prefix(patches, k, i - 1);
        assert(patches.take(k)[i - 1] == patches[i - 1]);
    }
}

/// Edits that fit into the first `cut` bytes leave everything behind `cut`
/// where it comes last, unchanged; and the edited text is longer than the
/// unedited one by the sum of the length changes.
pub proof fn lemma_patched_split(text: Seq<u8>, patches: Seq<Edit>, cut: int)
    requires
        patches_fit(patches, cut),
        0 <= cut <= text.len(),
    ensures
        patched(text, patches) == patched(text.subrange(0, cut), patches) + text.skip(cut),
        patched(text, patches).len() == text.len() + shift(patches, patches.len() as int),
    decreases patches.len(),
{
    if patches.len() == 0 {
        assert(text.subrange(0, cut) + text.skip(cut) =~= text);
    } else {
        let last = patches.last();
        let init = patches.drop_last();
        assert(patches[patches.len() - 1] == last);
        lemma_fit_prefix(patches, cut, patches.len() - 1);
        assert(init =~= patches.take(patches.len() - 1));
        let front = text.subrange(0, last.start);
        lemma_patched_split(front, init, last.start);
        assert(front.subrange(0, last.start) =~= front);
        assert(text.subrange(0, cut).subrange(0, last.start) =~= front);
        assert(text.subrange(0, cut).skip(last.end) + text.skip(cut) =~= text.skip(
            last.end,
        ));
        assert(patched(text, patches) =~= patched(text.subrange(0, cut), patches) + text.skip(cut));
        assert(shift(init, init.len() as int) == shift(patches, patches.len() - 1));
    }
}

/// One more edit, made on the text that already has the earlier ones: the
/// bytes it replaces are found at its offsets plus the running shift.
proof fn lemma_patched_step(text: Seq<u8>, patches: Seq<Edit>, k: int)
    requires
        patches_fit(patches, text.len() as int),
        0 <= k < patches.len(),
    ensures
        ({
            let before = patched(text, patches.take(k));
            let from = patches[k].start + shift(patches, k);
            let to = patches[k].end + shift(patches, k);
            &&& 0 <= from <= to <= before.len()
            &&& before.len() == text.len() + shift(patches, k)
            &&& before.subrange(0, from) == patched(
                text.subrange(0, patches[k].start),
                patches.take(k),
            )
            &&& before.skip(from) == text.skip(patches[k].start)
            &&& patched(text, patches.take(k + 1)) == before.subrange(0, from)
                + patches[k].text + before.skip(to)
        }),
{
    let head = patches.take(k);
    let p = patches[k];
    lemma_fit_prefix(patches, text.len() as int, k);
    lemma_patched_split(text, head, p.start);
    let front = text.subrange(0, p.start);
    lemma_patched_split(front, head, p.start);
    assert(front.subrange(0, p.start) =~= front);
    assert(front.skip(p.start) =~= Seq::<u8>::empty());
    let edited_front = patched(front, head);
    let before = patched(text, head);
    assert(edited_front.len() == p.start + shift(patches, k));
    assert(before == edited_front + text.skip(p.start));
    let from = p.start + shift(patches, k);
    let to = p.end + shift(patches, k);
    assert(before.subrange(0, from) =~= edited_front);
    assert(before.skip(from) =~= text.skip(p.start));
    assert(before.skip(to) =~= text.skip(p.end));
    let next = patches.take(k + 1);
    assert(next.last() == p);
    assert(next.drop_last() =~= head);
}

/// Behind the last edit the text is the unedited one's, moved by the sum of
/// all length changes, and the edited text is longer than the unedited one by
/// that sum.
pub proof fn lemma_tail_kept(text: Seq<u8>, patches: Seq<Edit>)
    requires
        patches_fit(patches, text.len() as int),
    ensures
        ({
            let count = patches.len() as int;
            let out = patched(text, patches);
            &&& out.len() == text.len() + shift(patches, count)
            &&& 0 <= gap_start(patches, count) + shift(patches, count) <= out.len()
            &&& out.skip(gap_start(patches, count) + shift(patches, count)) == text.skip(
                gap_start(patches, count),
            )
        }),
{
    let count = patches.len() as int;
    let cut = gap_start(patches, count);
    if count > 0 {
        assert(patches[count - 1].start <= patches[count - 1].end <= text.len());
        assert forall|i: int| 0 <= i < patches.len() implies 0 <= (#[trigger] patches[i]).start
            <= patches[i].end <= cut by {
            if i < count - 1 {
                assert(patches[i].end <= patches[count - 1].start);
            }
        }
    }
    lemma_patched_split(text, patches, cut);
    let front = text.subrange(0, cut);
    lemma_patched_split(front, patches, cut);
    let out = patched(text, patches);
    assert(out.skip(cut + shift(patches, count)) =~= text.skip(cut));
}

/// The offset rule of a pass. After all edits, the replacement of the `i`-th
/// one stands at its own start plus the length changes of the edits before
/// it, and the unedited text between the edit before it and itself
/// stands unchanged in front of it.
pub proof fn lemma_patch_lands(text: Seq<u8>, patches: Seq<Edit>, i: int)
    requires
        patches_fit(patches, text.len() as int),
        0 <= i < patches.len(),
    ensures
        ({
            let out = patched(text, patches);
            let at = patches[i].start + shift(patches, i);
            let gap = gap_start(patches, i) + shift(patches, i);
            let size = patches[i].text.len() as int;
            &&& 0 <= gap <= at
            &&& at + size <= out.len()
            &&& out.subrange(at, at + size) == patches[i].text
            &&& out.subrange(gap, at) == text.subrange(
                gap_start(patches, i),
                patches[i].start,
            )
        }),
    decreases patches.len(),
{
    let count = patches.len() as int;
    let last = patches.last();
    let init = patches.drop_last();
    assert(patches[count - 1] == last);
    assert(init =~= patches.take(count - 1));
    lemma_fit_prefix(patches, text.len() as int, count - 1);
    let front = text.subrange(0, last.start);
    let edited_front = patched(front, init);
    let out = patched(text, patches);
    lemma_tail_kept(front, init);
    assert(gap_start(init, count - 1) == gap_start(patches, count - 1));
    if i == count - 1 {
        let at = last.start + shift(patches, i);
        let gap = gap_start(patches, i) + shift(patches, i);
        if i > 0 {
            assert(patches[i - 1].end <= patches[i].start);
        }
        assert(edited_front.len() == at);
        assert(out.subrange(at, at + last.text.len()) =~= last.text);
        assert(out.subrange(gap, at) =~= edited_front.skip(gap));
        assert(front.skip(gap_start(patches, i)) =~= text.subrange(
            gap_start(patches, i),
            last.start,
        ));
    } else {
        lemma_patch_lands(front, init, i);
        assert(init[i] == patches[i]);
        if i > 0 {
            assert(init[i - 1] == patches[i - 1]);
        }
        let at = patches[i].start + shift(patches, i);
        let gap = gap_start(patches, i) + shift(patches, i);
        let size = patches[i].text.len() as int;
        assert(patches[i].end <= last.start);
        assert(out.subrange(at, at + size) =~= edited_front.subrange(at, at + size));
        assert(out.subrange(gap, at) =~= edited_front.subrange(gap, at));
        assert(front.subrange(gap_start(patches, i), patches[i].start) =~= text.subrange(
            gap_start(patches, i),
            patches[i].start,
        ));
    }
}

/// Tells whether the edits lie inside `len` bytes, in source order and apart
/// from each other.
pub fn patches_in_order(patches: &Vec<Patch>, len: usize) -> (fit: bool)
    ensures
        fit == patches_fit(edits_of(patches@), len as int),
{
    let ghost edits = edits_of(patches@);
    let mut i: usize = 0;
    let mut floor: usize = 0;
    assert(edits.take(0) =~= Seq::<Edit>::empty());
    while i < patches.len()
        invariant
            i <= patches.len(),
            edits == edits_of(patches@),
            floor == gap_start(edits, i as int),
            floor <= len,
            patches_fit(edits.take(i as int), len as int),
        decreases patches.len() - i,
    {
        let p = &patches[i];
        assert(edits[i as int] == p@);
        if p.start < floor || p.end < p.start || len < p.end {
            proof {
                if patches_fit(edits, len as int) {
                    if i > 0 {
                        assert(edits[i - 1].end <= edits[i as int].start);
                    }
                    assert(edits[i as int].start <= edits[i as int].end <= len);
                }
            }
            return false;
        }
        proof {
            let head = edits.take(i as int);
            let next = edits.take(i + 1);
            assert forall|a: int| 0 <= a < next.len() implies 0 <= (#[trigger] next[a]).start
                <= next[a].end <= len by {
                if a < i {
                    assert(next[a] == head[a]);
                }
            }
            assert forall|a: int, b: int| 0 <= a < b < next.len() implies (#[trigger] next[a]).end
                <= (#[trigger] next[b]).start by {
                assert(next[a] == head[a]);
                if b < i {
                    assert(next[b] == head[b]);
                } else {
                    assert(head[a].start <= head[a].end);
                    if a < i - 1 {
                        assert(head[i - 1] == edits[i - 1]);
                        assert(head[a].end <= head[i - 1].start);
                        assert(head[i - 1].start <= head[i - 1].end);
                    }
                }
            }
        }
        floor = p.end;
        i += 1;
    }
    assert(edits.take(edits.len() as int) =~= edits);
    true
}

/// Replaces the bytes from `start` up to `end` of `text` by `with`.
pub fn replace_range(text: &mut Vec<u8>, start: usize, end: usize, with: &[u8])
    requires
        start <= end <= old(text)@.len(),
    ensures
        final(text)@ == old(text)@.subrange(0, start as int) + with@ + old(text)@.skip(end as int),
{
    let mut tail = text.split_off(end);
    text.truncate(start);
    append_bytes(text, with);
    text.append(&mut tail);
    assert(text@ =~= old(text)@.subrange(0, start as int) + with@ + old(text)@.skip(end as int));
}

/// Makes all edits on `text`, in order, each at its offsets corrected by the
/// length changes of the edits made before it. Edits that overlap, come out
/// of order or reach beyond the text are refused as a whole, and the text
/// stays as it was.
pub fn apply_patches(text: &mut Vec<u8>, patches: &Vec<Patch>) -> (applied: Result<
    (),
    RewriteError,
>)
    ensures
        patches_fit(edits_of(patches@), old(text)@.len() as int) ==> applied is Ok && final(text)@
            == patched(old(text)@, edits_of(patches@)),
        !patches_fit(edits_of(patches@), old(text)@.len() as int) ==> applied == Err::<
            (),
            RewriteError,
        >(RewriteError::OverlappingEdits) && final(text)@ == old(text)@,
{
    if !patches_in_order(patches, text.len()) {
        return Err(RewriteError::OverlappingEdits);
    }
    let ghost edits = edits_of(patches@);
    let mut diff: i128 = 0;
    let mut i: usize = 0;
    assert(edits.take(0) =~= Seq::<Edit>::empty());
    while i < patches.len()
        invariant
            i <= patches.len(),
            edits == edits_of(patches@),
            patches_fit(edits, old(text)@.len() as int),
            diff == shift(edits, i as int),
            text@ == patched(old(text)@, edits.take(i as int)),
        decreases patches.len() - i,
    {
        let p = &patches[i];
        let len: usize = text.len();
        proof {
            assert(edits[i as int] == p@);
            lemma_patched_step(old(text)@, edits, i as int);
            assert(0 <= p.start + diff <= p.end + diff <= len);
        }
        let start: usize = (p.start as i128 + diff) as usize;
        let end: usize = (p.end as i128 + diff) as usize;
        replace_range(text, start, end, p.replacement.as_slice());
        diff = diff + p.replacement.len() as i128 - (p.end - p.start) as i128;
        i += 1;
    }
    assert(edits.take(edits.len() as int) =~= edits);
    Ok(())
}

} // verus!
