//! The two rewrite passes, from the matches of a syntax query to the edited
//! buffer.
//!
//! A pass receives the spans that a query found in the buffer as it stands.
//! The declarator pass turns every function declarator with an encoded name
//! into the plain declarator followed by its attributes; the call pass turns
//! every call of an encoded name into a call of the plain name. Matches whose
//! identifier carries no marker produce no edit.

use vstd::prelude::*;
use crate::error::RewriteError;
use crate::mangle::{attributes_of, base_name, decode_identifier, is_marked, strip_marker};
use crate::mangle::lemma_base_name_unmarked;
use crate::patch::{apply_patches, edits_of, patched, patches_fit, Edit, Patch};
use crate::text::append_bytes;

verus! {

/// A stretch of the buffer: the bytes from `start` up to `end`.
#[derive(Clone, Copy, Debug, PartialEq, Eq, Structural)]
pub struct Span {
    /// Offset of the first byte.
    pub start: usize,
    /// Offset just behind the last byte.
    pub end: usize,
}

impl Span {
    /// The span lies inside a buffer of `len` bytes.
    pub open spec fn fits(self, len: int) -> bool {
        self.start <= self.end <= len
    }

    /// The span lies inside `outer`.
    pub open spec fn inside(self, outer: Span) -> bool {
        outer.start <= self.start && self.end <= outer.end
    }

    /// The bytes of `code` that the span covers.
    pub open spec fn of(self, code: Seq<u8>) -> Seq<u8> {
        code.subrange(self.start as int, self.end as int)
    }
}

/// A function declarator and the identifier that names the function in it.
#[derive(Clone, Copy, Debug, PartialEq, Eq, Structural)]
pub struct DeclaratorMatch {
    /// The whole declarator: name and parameter list.
    pub declarator: Span,
    /// The function's name inside the declarator.
    pub identifier: Span,
}

impl DeclaratorMatch {
    /// Both spans lie inside the buffer, the identifier inside the declarator.
    pub open spec fn well_formed(self, len: int) -> bool {
        &&& self.declarator.fits(len)
        &&& self.identifier.fits(len)
        &&& self.identifier.inside(self.declarator)
    }

    /// The declared name carries the marker.
    pub open spec fn is_encoded(self, code: Seq<u8>) -> bool {
        is_marked(self.identifier.of(code))
    }

    /// What takes the declarator's place: the declarator with the plain name
    /// where the encoded one stood, a space, and the decoded attributes.
    pub open spec fn replacement(self, code: Seq<u8>) -> Seq<u8> {
        code.subrange(self.declarator.start as int, self.identifier.start as int) + base_name(
            self.identifier.of(code),
        ) + code.subrange(self.identifier.end as int, self.declarator.end as int) + seq![0x20u8]
            + attributes_of(self.identifier.of(code))
    }

    /// The edit that rewrites the declarator.
    pub open spec fn edit(self, code: Seq<u8>) -> Edit {
        Edit {
            start: self.declarator.start as int,
            end: self.declarator.end as int,
            text: self.replacement(code),
        }
    }
}

/// Every match is well formed for a buffer of `len` bytes.
pub open spec fn declarators_well_formed(matches: Seq<DeclaratorMatch>, len: int) -> bool {
    forall|i: int| 0 <= i < matches.len() ==> (#[trigger] matches[i]).well_formed(len)
}

/// The edits of the declarator pass: one for each match with an encoded
/// name, in the order of the matches.
pub open spec fn declarator_edits(code: Seq<u8>, matches: Seq<DeclaratorMatch>) -> Seq<Edit>
    decreases matches.len(),
{
    if matches.len() == 0 {
        Seq::empty()
    } else {
        let earlier = declarator_edits(code, matches.drop_last());
        if matches.last().is_encoded(code) {
            earlier.push(matches.last().edit(code))
        } else {
            earlier
        }
    }
}

/// What the declarator pass makes of `code`: the edited text, or the reason
/// why the matches cannot be used.
pub open spec fn declarator_pass(code: Seq<u8>, matches: Seq<DeclaratorMatch>) -> Result<
    Seq<u8>,
    RewriteError,
> {
    if !declarators_well_formed(matches, code.len() as int) {
        Err(RewriteError::MalformedMatch)
    } else if !patches_fit(declarator_edits(code, matches), code.len() as int) {
        Err(RewriteError::OverlappingEdits)
    } else {
        Ok(patched(code, declarator_edits(code, matches)))
    }
}

/// The edit that rewrites the called name at `site`.
pub open spec fn call_edit(code: Seq<u8>, site: Span) -> Edit {
    Edit { start: site.start as int, end: site.end as int, text: base_name(site.of(code)) }
}

/// Every call site lies inside a buffer of `len` bytes.
pub open spec fn calls_well_formed(sites: Seq<Span>, len: int) -> bool {
    forall|i: int| 0 <= i < sites.len() ==> (#[trigger] sites[i]).fits(len)
}

/// The edits of the call pass: one for each called name that carries the
/// marker, in the order of the matches.
pub open spec fn call_edits(code: Seq<u8>, sites: Seq<Span>) -> Seq<Edit>
    decreases sites.len(),
{
    if sites.len() == 0 {
        Seq::empty()
    } else {
        let earlier = call_edits(code, sites.drop_last());
        if is_marked(sites.last().of(code)) {
            earlier.push(call_edit(code, sites.last()))
        } else {
            earlier
        }
    }
}

/// What the call pass makes of `code`.
pub open spec fn call_pass(code: Seq<u8>, sites: Seq<Span>) -> Result<Seq<u8>, RewriteError> {
    if !calls_well_formed(sites, code.len() as int) {
        Err(RewriteError::MalformedMatch)
    } else if !patches_fit(call_edits(code, sites), code.len() as int) {
        Err(RewriteError::OverlappingEdits)
    } else {
        Ok(patched(code, call_edits(code, sites)))
    }
}

/// A pass did to the buffer what `outcome` says: on success the buffer holds
/// the edited text, on failure it is untouched and the error is reported.
pub open spec fn pass_done(
    outcome: Result<Seq<u8>, RewriteError>,
    before: Seq<u8>,
    after: Seq<u8>,
    reported: Result<(), RewriteError>,
) -> bool {
    match outcome {
        Ok(text) => reported is Ok && after == text,
        Err(e) => reported == Err::<(), RewriteError>(e) && after == before,
    }
}

/// Passing through. Matches whose names carry no marker produce no edit,
/// so a declarator pass over them hands the buffer back byte for byte.
pub proof fn lemma_plain_declarators_untouched(code: Seq<u8>, matches: Seq<DeclaratorMatch>)
    requires
        forall|i: int| 0 <= i < matches.len() ==> !(#[trigger] matches[i]).is_encoded(code),
    ensures
        declarator_edits(code, matches) == Seq::<Edit>::empty(),
        declarators_well_formed(matches, code.len() as int) ==> declarator_pass(code, matches)
            == Ok::<Seq<u8>, RewriteError>(code),
    decreases matches.len(),
{
    if matches.len() > 0 {
        let init = matches.drop_last();
        assert(!matches[matches.len() - 1].is_encoded(code));
        assert forall|i: int| 0 <= i < init.len() implies !(#[trigger] init[i]).is_encoded(
            code,
        ) by {
            assert(init[i] == matches[i]);
        }
        lemma_plain_declarators_untouched(code, init);
    }
}

/// Passing through. Call sites whose names carry no marker produce no edit,
/// so a call pass over them hands the buffer back byte for byte.
pub proof fn lemma_plain_calls_untouched(code: Seq<u8>, sites: Seq<Span>)
    requires
        forall|i: int| 0 <= i < sites.len() ==> !is_marked((#[trigger] sites[i]).of(code)),
    ensures
        call_edits(code, sites) == Seq::<Edit>::empty(),
        calls_well_formed(sites, code.len() as int) ==> call_pass(code, sites) == Ok::<
            Seq<u8>,
            RewriteError,
        >(code),
    decreases sites.len(),
{
    if sites.len() > 0 {
        let init = sites.drop_last();
        assert(!is_marked(sites[sites.len() - 1].of(code)));
        assert forall|i: int| 0 <= i < init.len() implies !is_marked(
            (#[trigger] init[i]).of(code),
        ) by {
            assert(init[i] == sites[i]);
        }
        lemma_plain_calls_untouched(code, init);
    }
}

/// Every edit of the declarator pass replaces the declarator of a match
/// whose name is encoded, by that match's replacement: nothing else in the
/// buffer is edited.
pub proof fn lemma_declarator_edits_stem_from_matches(
    code: Seq<u8>,
    matches: Seq<DeclaratorMatch>,
    k: int,
)
    requires
        0 <= k < declarator_edits(code, matches).len(),
    ensures
        exists|i: int|
            0 <= i < matches.len() && (#[trigger] matches[i]).is_encoded(code) && declarator_edits(
                code,
                matches,
            )[k] == matches[i].edit(code),
    decreases matches.len(),
{
    let init = matches.drop_last();
    let last = matches.last();
    assert(last == matches[matches.len() - 1]);
    if last.is_encoded(code) && k == declarator_edits(code, init).len() {
        assert(declarator_edits(code, matches)[k] == last.edit(code));
    } else {
        lemma_declarator_edits_stem_from_matches(code, init, k);
        let i = choose|i: int|
            0 <= i < init.len() && (#[trigger] init[i]).is_encoded(code) && declarator_edits(
                code,
                init,
            )[k] == init[i].edit(code);
        assert(matches[i] == init[i]);
    }
}

/// Every edit of the call pass replaces a called name that carries the
/// marker by its base name.
pub proof fn lemma_call_edits_stem_from_sites(code: Seq<u8>, sites: Seq<Span>, k: int)
    requires
        0 <= k < call_edits(code, sites).len(),
    ensures
        exists|i: int|
            0 <= i < sites.len() && is_marked((#[trigger] sites[i]).of(code)) && call_edits(
                code,
                sites,
            )[k] == call_edit(code, sites[i]),
    decreases sites.len(),
{
    let init = sites.drop_last();
    let last = sites.last();
    assert(last == sites[sites.len() - 1]);
    if is_marked(last.of(code)) && k == call_edits(code, init).len() {
        assert(call_edits(code, sites)[k] == call_edit(code, last));
    } else {
        lemma_call_edits_stem_from_sites(code, init, k);
        let i = choose|i: int|
            0 <= i < init.len() && is_marked((#[trigger] init[i]).of(code)) && call_edits(
                code,
                init,
            )[k] == call_edit(code, init[i]);
        assert(sites[i] == init[i]);
    }
}

/// Call sites agree with declarations. A call of an encoded name is
/// rewritten to the very name that the declarator pass leaves in the
/// declaration of that name, and this name carries no marker, so that no
/// later pass rewrites it again.
pub proof fn lemma_call_names_the_declared_function(
    code: Seq<u8>,
    site: Span,
    declared: DeclaratorMatch,
)
    requires
        site.of(code) == declared.identifier.of(code),
    ensures
        call_edit(code, site).text == base_name(declared.identifier.of(code)),
        declared.replacement(code) == code.subrange(
            declared.declarator.start as int,
            declared.identifier.start as int,
        ) + call_edit(code, site).text + code.subrange(
            declared.identifier.end as int,
            declared.declarator.end as int,
        ) + seq![0x20u8] + attributes_of(declared.identifier.of(code)),
        !is_marked(call_edit(code, site).text),
{
    lemma_base_name_unmarked(site.of(code));
}

/// Builds the patch for one declarator, or `None` where its name is not
/// encoded.
pub fn declarator_patch(code: &[u8], found: &DeclaratorMatch) -> (patch: Option<Patch>)
    requires
        found.well_formed(code@.len() as int),
    ensures
        patch is Some <==> found.is_encoded(code@),
        patch matches Some(p) ==> p@ == found.edit(code@),
{
    let identifier = &code[found.identifier.start..found.identifier.end];
    match decode_identifier(identifier) {
        None => None,
        Some(decoded) => {
            let mut replacement: Vec<u8> = Vec::new();
            append_bytes(&mut replacement, &code[found.declarator.start..found.identifier.start]);
            append_bytes(&mut replacement, decoded.name.as_slice());
            append_bytes(&mut replacement, &code[found.identifier.end..found.declarator.end]);
            replacement.push(0x20u8);
            append_bytes(&mut replacement, decoded.attributes.as_slice());
            assert(replacement@ =~= found.replacement(code@));
            Some(
                Patch {
                    start: found.declarator.start,
                    end: found.declarator.end,
                    replacement,
                },
            )
        },
    }
}

/// Collects the patches of the declarator pass. A match that is not well
/// formed for `code` refuses the whole list.
pub fn declarator_patches(code: &[u8], matches: &Vec<DeclaratorMatch>) -> (patches: Result<
    Vec<Patch>,
    RewriteError,
>)
    ensures
        declarators_well_formed(matches@, code@.len() as int) ==> patches is Ok,
        patches matches Ok(list) ==> declarators_well_formed(matches@, code@.len() as int)
            && edits_of(list@) == declarator_edits(code@, matches@),
        patches matches Err(e) ==> e == RewriteError::MalformedMatch,
{
    let mut list: Vec<Patch> = Vec::new();
    let mut k: usize = 0;
    assert(matches@.take(0) =~= Seq::<DeclaratorMatch>::empty());
    assert(edits_of(list@) =~= Seq::<Edit>::empty());
    while k < matches.len()
        invariant
            k <= matches.len(),
            declarators_well_formed(matches@.take(k as int), code@.len() as int),
            edits_of(list@) == declarator_edits(code@, matches@.take(k as int)),
        decreases matches.len() - k,
    {
        let found = &matches[k];
        let d = found.declarator;
        let i = found.identifier;
        if !(d.start <= i.start && i.start <= i.end && i.end <= d.end && d.end <= code.len()) {
            assert(!matches@[k as int].well_formed(code@.len() as int));
            return Err(RewriteError::MalformedMatch);
        }
        let ghost before = edits_of(list@);
        let ghost head = matches@.take(k as int);
        let ghost next = matches@.take(k + 1);
        proof {
            assert(next.last() == matches@[k as int]);
            assert(next.drop_last() =~= head);
            assert forall|j: int| 0 <= j < next.len() implies (#[trigger] next[j]).well_formed(
                code@.len() as int,
            ) by {
                if j < k {
                    assert(next[j] == head[j]);
                }
            }
        }
        match declarator_patch(code, found) {
            None => {},
            Some(patch) => {
                list.push(patch);
                assert(edits_of(list@) =~= before.push(patch@));
            },
        }
        k += 1;
    }
    assert(matches@.take(matches@.len() as int) =~= matches@);
    Ok(list)
}

/// The declarator pass: rewrites in `code` every matched declarator whose
/// name is encoded. Where the matches cannot be used, `code` is left as it
/// was and the reason is returned.
pub fn rewrite_declarators(code: &mut Vec<u8>, matches: &Vec<DeclaratorMatch>) -> (done: Result<
    (),
    RewriteError,
>)
    ensures
        pass_done(declarator_pass(old(code)@, matches@), old(code)@, final(code)@, done),
{
    let patches = match declarator_patches(code.as_slice(), matches) {
        Ok(list) => list,
        Err(e) => {
            return Err(e);
        },
    };
    apply_patches(code, &patches)
}

/// Collects the patches of the call pass. A site outside `code` refuses the
/// whole list.
pub fn call_patches(code: &[u8], sites: &Vec<Span>) -> (patches: Result<Vec<Patch>, RewriteError>)
    ensures
        calls_well_formed(sites@, code@.len() as int) ==> patches is Ok,
        patches matches Ok(list) ==> calls_well_formed(sites@, code@.len() as int) && edits_of(
            list@,
        ) == call_edits(code@, sites@),
        patches matches Err(e) ==> e == RewriteError::MalformedMatch,
{
    let mut list: Vec<Patch> = Vec::new();
    let mut k: usize = 0;
    assert(sites@.take(0) =~= Seq::<Span>::empty());
    assert(edits_of(list@) =~= Seq::<Edit>::empty());
    while k < sites.len()
        invariant
            k <= sites.len(),
            calls_well_formed(sites@.take(k as int), code@.len() as int),
            edits_of(list@) == call_edits(code@, sites@.take(k as int)),
        decreases sites.len() - k,
    {
        let site = sites[k];
        if !(site.start <= site.end && site.end <= code.len()) {
            assert(!sites@[k as int].fits(code@.len() as int));
            return Err(RewriteError::MalformedMatch);
        }
        let ghost before = edits_of(list@);
        let ghost head = sites@.take(k as int);
        let ghost next = sites@.take(k + 1);
        proof {
            assert(next.last() == sites@[k as int]);
            assert(next.drop_last() =~= head);
            assert forall|j: int| 0 <= j < next.len() implies (#[trigger] next[j]).fits(
                code@.len() as int,
            ) by {
                if j < k {
                    assert(next[j] == head[j]);
                }
            }
        }
        match strip_marker(&code[site.start..site.end]) {
            None => {},
            Some(name) => {
                let patch = Patch { start: site.start, end: site.end, replacement: name };
                assert(patch@ == call_edit(code@, site));
                list.push(patch);
                assert(edits_of(list@) =~= before.push(patch@));
            },
        }
        k += 1;
    }
    assert(sites@.take(sites@.len() as int) =~= sites@);
    Ok(list)
}

/// The call pass: rewrites in `code` every matched call whose name carries
/// the marker to a call of the plain name. Where the matches cannot be used,
/// `code` is left as it was and the reason is returned.
pub fn rewrite_calls(code: &mut Vec<u8>, sites: &Vec<Span>) -> (done: Result<(), RewriteError>)
    ensures
        pass_done(call_pass(old(code)@, sites@), old(code)@, final(code)@, done),
{
    let patches = match call_patches(code.as_slice(), sites) {
        Ok(list) => list,
        Err(e) => {
            return Err(e);
        },
    };
    apply_patches(code, &patches)
}

} // verus!
