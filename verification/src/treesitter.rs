//! The rewriter of transpiled C: syntax queries on the buffer, the two
//! rewrite passes and the removal of the forward variable declarations.

use streaming_iterator::StreamingIterator;
use tree_sitter::{Language, Parser, Query, QueryCursor};
use vstd::prelude::*;
use crate::cleanup::{remove_global_declarations, without_block};
use crate::error::RewriteError;
use crate::mangle::is_marked;
use crate::rewrite::{call_pass, declarator_pass, pass_done, rewrite_calls, rewrite_declarators};
use crate::rewrite::{calls_well_formed, declarators_well_formed};
use crate::rewrite::{lemma_plain_calls_untouched, lemma_plain_declarators_untouched};
use crate::rewrite::{DeclaratorMatch, Span};
use crate::text::append_bytes;

verus! {

/// The captures that the C grammar's parser and query engine report for the
/// query `pattern` on the source `code`: one entry per match, in the order in
/// which the matches are found, and in each entry the start and end offset of
/// every captured node, in the order in which the match lists its captures.
/// `None` where the parser or the query could not be set up or the source
/// could not be parsed.
pub uninterp spec fn c_query_captures(code: Seq<u8>, pattern: Seq<char>) -> Option<
    Seq<Seq<(usize, usize)>>,
>;

/// Parses `code` with `tree_sitter::Parser::parse` under the grammar
/// `tree_sitter_c::LANGUAGE`, compiles `pattern` with
/// `tree_sitter::Query::new`, and walks `tree_sitter::QueryCursor::matches`
/// from the root node, noting `start_byte` and `end_byte` of every captured
/// node. The contract only gives the outcome its name: parsing and matching
/// are a function of the source and the pattern. Nothing is claimed about
/// the spans themselves. The parser counts offsets in 32 bits, so longer
/// sources are kept from it.
#[verifier::external_body]
fn query_c_source(code: &[u8], pattern: &str) -> (found: Option<Vec<Vec<(usize, usize)>>>)
    requires
        code@.len() <= parser_limit(),
    ensures
        found.deep_view() == c_query_captures(code@, pattern@),
{
    let language: Language = tree_sitter_c::LANGUAGE.into();
    let mut parser = Parser::new();
    parser.set_language(&language).ok()?;
    let tree = parser.parse(code, None)?;
    let query = Query::new(&language, pattern).ok()?;
    let mut cursor = QueryCursor::new();
    let mut matches = cursor.matches(&query, tree.root_node(), code);
    let mut found = Vec::new();
    while let Some(m) = matches.next() {
        found.push(m.captures().iter().map(|c| (c.node.start_byte(), c.node.end_byte())).collect());
    }
    Some(found)
}

/// The query for function declarators that are named by an identifier. Each
/// match lists the declarator first and the identifier second.
pub open spec fn declarator_query() -> Seq<char> {
    "(function_declarator(identifier)@a)@b"@
}

/// The query for the identifier of each call expression.
pub open spec fn call_query() -> Seq<char> {
    "(call_expression(identifier)@a)"@
}

/// The largest buffer the parser can address: its offsets have 32 bits.
pub open spec fn parser_limit() -> int {
    0xffff_ffff
}

/// The declarator matches that a query result stands for; `None` unless
/// every match has exactly two captures.
pub open spec fn declarator_matches_of(captures: Seq<Seq<(usize, usize)>>) -> Option<
    Seq<DeclaratorMatch>,
> {
    if forall|i: int| 0 <= i < captures.len() ==> (#[trigger] captures[i]).len() == 2 {
        Some(
            Seq::new(
                captures.len(),
                |i: int|
                    DeclaratorMatch {
                        declarator: Span { start: captures[i][0].0, end: captures[i][0].1 },
                        identifier: Span { start: captures[i][1].0, end: captures[i][1].1 },
                    },
            ),
        )
    } else {
        None
    }
}

/// The call sites that a query result stands for; `None` unless every match
/// has exactly one capture.
pub open spec fn call_sites_of(captures: Seq<Seq<(usize, usize)>>) -> Option<Seq<Span>> {
    if forall|i: int| 0 <= i < captures.len() ==> (#[trigger] captures[i]).len() == 1 {
        Some(
            Seq::new(
                captures.len(),
                |i: int| Span { start: captures[i][0].0, end: captures[i][0].1 },
            ),
        )
    } else {
        None
    }
}

/// What the declarator pass makes of `code`, given what the query reported.
pub open spec fn declarator_outcome(
    code: Seq<u8>,
    captures: Option<Seq<Seq<(usize, usize)>>>,
) -> Result<Seq<u8>, RewriteError> {
    if code.len() > parser_limit() {
        Err(RewriteError::ParseFailed)
    } else {
        match captures {
            None => Err(RewriteError::ParseFailed),
            Some(list) => match declarator_matches_of(list) {
                None => Err(RewriteError::MalformedMatch),
                Some(matches) => declarator_pass(code, matches),
            },
        }
    }
}

/// What the call pass makes of `code`, given what the query reported.
pub open spec fn call_outcome(code: Seq<u8>, captures: Option<Seq<Seq<(usize, usize)>>>) -> Result<
    Seq<u8>,
    RewriteError,
> {
    if code.len() > parser_limit() {
        Err(RewriteError::ParseFailed)
    } else {
        match captures {
            None => Err(RewriteError::ParseFailed),
            Some(list) => match call_sites_of(list) {
                None => Err(RewriteError::MalformedMatch),
                Some(sites) => call_pass(code, sites),
            },
        }
    }
}

/// What the whole rewrite makes of `code`: the declarator pass, the call
/// pass on its result, and the removal of the forward variable declarations.
pub open spec fn rewrite_outcome(code: Seq<u8>) -> Result<Seq<u8>, RewriteError> {
    match declarator_outcome(code, c_query_captures(code, declarator_query())) {
        Err(e) => Err(e),
        Ok(declared) => match call_outcome(declared, c_query_captures(declared, call_query())) {
            Err(e) => Err(e),
            Ok(called) => Ok(without_block(called, false)),
        },
    }
}

/// A buffer that is done stays as it is. Where the queries report no name
/// with a marker any more, the two passes of a further rewrite change
/// nothing: what comes out is the buffer, but for the forward variable
/// declarations.
pub proof fn lemma_settled_buffer_is_kept(
    code: Seq<u8>,
    declared: Seq<DeclaratorMatch>,
    called: Seq<Span>,
)
    requires
        code.len() <= parser_limit(),
        c_query_captures(code, declarator_query()) matches Some(list) && declarator_matches_of(
            list,
        ) == Some(declared),
        c_query_captures(code, call_query()) matches Some(list) && call_sites_of(list) == Some(
            called,
        ),
        declarators_well_formed(declared, code.len() as int),
        calls_well_formed(called, code.len() as int),
        forall|i: int| 0 <= i < declared.len() ==> !(#[trigger] declared[i]).is_encoded(code),
        forall|i: int| 0 <= i < called.len() ==> !is_marked((#[trigger] called[i]).of(code)),
    ensures
        rewrite_outcome(code) == Ok::<Seq<u8>, RewriteError>(without_block(code, false)),
{
    lemma_plain_declarators_untouched(code, declared);
    lemma_plain_calls_untouched(code, called);
}

/// Reads the matches of the declarator query: in each the declarator first,
/// the identifier second.
pub fn declarator_matches(captures: &Vec<Vec<(usize, usize)>>) -> (matches: Option<
    Vec<DeclaratorMatch>,
>)
    ensures
        match declarator_matches_of(captures.deep_view()) {
            Some(list) => matches matches Some(found) && found@ == list,
            None => matches is None,
        },
{
    let ghost deep = captures.deep_view();
    let mut found: Vec<DeclaratorMatch> = Vec::new();
    let mut k: usize = 0;
    while k < captures.len()
        invariant
            k <= captures.len(),
            deep == captures.deep_view(),
            found@.len() == k,
            forall|i: int| 0 <= i < k ==> (#[trigger] deep[i]).len() == 2,
            forall|i: int|
                0 <= i < k ==> (#[trigger] found@[i]) == (DeclaratorMatch {
                    declarator: Span { start: deep[i][0].0, end: deep[i][0].1 },
                    identifier: Span { start: deep[i][1].0, end: deep[i][1].1 },
                }),
        decreases captures.len() - k,
    {
        let entry = &captures[k];
        assert(deep[k as int] =~= entry@.map_values(|c: (usize, usize)| c.deep_view()));
        assert(deep[k as int].len() == entry@.len());
        if entry.len() != 2 {
            return None;
        }
        assert(deep[k as int][0] == entry@[0]);
        assert(deep[k as int][1] == entry@[1]);
        let outer = entry[0];
        let inner = entry[1];
        found.push(
            DeclaratorMatch {
                declarator: Span { start: outer.0, end: outer.1 },
                identifier: Span { start: inner.0, end: inner.1 },
            },
        );
        k += 1;
    }
    assert(found@ =~= declarator_matches_of(deep).unwrap());
    Some(found)
}

/// Reads the matches of the call query: in each the called identifier.
pub fn call_sites(captures: &Vec<Vec<(usize, usize)>>) -> (sites: Option<Vec<Span>>)
    ensures
        match call_sites_of(captures.deep_view()) {
            Some(list) => sites matches Some(found) && found@ == list,
            None => sites is None,
        },
{
    let ghost deep = captures.deep_view();
    let mut found: Vec<Span> = Vec::new();
    let mut k: usize = 0;
    while k < captures.len()
        invariant
            k <= captures.len(),
            deep == captures.deep_view(),
            found@.len() == k,
            forall|i: int| 0 <= i < k ==> (#[trigger] deep[i]).len() == 1,
            forall|i: int|
                0 <= i < k ==> (#[trigger] found@[i]) == (Span {
                    start: deep[i][0].0,
                    end: deep[i][0].1,
                }),
        decreases captures.len() - k,
    {
        let entry = &captures[k];
        assert(deep[k as int] =~= entry@.map_values(|c: (usize, usize)| c.deep_view()));
        assert(deep[k as int].len() == entry@.len());
        if entry.len() != 1 {
            return None;
        }
        assert(deep[k as int][0] == entry@[0]);
        let only = entry[0];
        found.push(Span { start: only.0, end: only.1 });
        k += 1;
    }
    assert(found@ =~= call_sites_of(deep).unwrap());
    Some(found)
}

/// The declarator pass on a query result that is already at hand.
pub fn declarators_from(code: &mut Vec<u8>, captures: Option<Vec<Vec<(usize, usize)>>>) -> (done:
    Result<(), RewriteError>)
    ensures
        pass_done(
            declarator_outcome(old(code)@, captures.deep_view()),
            old(code)@,
            final(code)@,
            done,
        ),
{
    if code.len() > 0xffff_ffff {
        return Err(RewriteError::ParseFailed);
    }
    let list = match captures {
        Some(list) => list,
        None => {
            return Err(RewriteError::ParseFailed);
        },
    };
    match declarator_matches(&list) {
        Some(matches) => rewrite_declarators(code, &matches),
        None => Err(RewriteError::MalformedMatch),
    }
}

/// The call pass on a query result that is already at hand.
pub fn calls_from(code: &mut Vec<u8>, captures: Option<Vec<Vec<(usize, usize)>>>) -> (done: Result<
    (),
    RewriteError,
>)
    ensures
        pass_done(call_outcome(old(code)@, captures.deep_view()), old(code)@, final(code)@, done),
{
    if code.len() > 0xffff_ffff {
        return Err(RewriteError::ParseFailed);
    }
    let list = match captures {
        Some(list) => list,
        None => {
            return Err(RewriteError::ParseFailed);
        },
    };
    match call_sites(&list) {
        Some(sites) => rewrite_calls(code, &sites),
        None => Err(RewriteError::MalformedMatch),
    }
}

/// Rewrites every function declarator of `code` whose name is encoded: the
/// name loses marker and attributes, and the decoded attributes follow the
/// declarator. Where the source cannot be parsed or the matches cannot be
/// used, `code` is left as it was.
pub fn parse_declarator_attributes(code: &mut Vec<u8>) -> (done: Result<(), RewriteError>)
    ensures
        pass_done(
            declarator_outcome(old(code)@, c_query_captures(old(code)@, declarator_query())),
            old(code)@,
            final(code)@,
            done,
        ),
{
    if code.len() > 0xffff_ffff {
        return Err(RewriteError::ParseFailed);
    }
    let captures = query_c_source(code.as_slice(), "(function_declarator(identifier)@a)@b");
    declarators_from(code, captures)
}

/// Rewrites every call in `code` of an encoded name to a call of the plain
/// name. Where the source cannot be parsed or the matches cannot be used,
/// `code` is left as it was.
pub fn parse_call_expression_attributes(code: &mut Vec<u8>) -> (done: Result<(), RewriteError>)
    ensures
        pass_done(
            call_outcome(old(code)@, c_query_captures(old(code)@, call_query())),
            old(code)@,
            final(code)@,
            done,
        ),
{
    if code.len() > 0xffff_ffff {
        return Err(RewriteError::ParseFailed);
    }
    let captures = query_c_source(code.as_slice(), "(call_expression(identifier)@a)");
    calls_from(code, captures)
}

/// The rewriter of transpiled C.
pub struct Treesitter {}

impl Treesitter {
    /// Runs the whole rewrite on `code`: the declarator pass, then the call
    /// pass on its result, then the removal of the forward variable
    /// declarations. On an error `code` is left as it was.
    pub fn rewrite(code: &mut Vec<u8>) -> (done: Result<(), RewriteError>)
        ensures
            pass_done(rewrite_outcome(old(code)@), old(code)@, final(code)@, done),
    {
        let mut work: Vec<u8> = Vec::new();
        append_bytes(&mut work, code.as_slice());
        assert(work@ =~= code@);
        match parse_declarator_attributes(&mut work) {
            Ok(()) => {},
            Err(e) => {
                return Err(e);
            },
        }
        match parse_call_expression_attributes(&mut work) {
            Ok(()) => {},
            Err(e) => {
                return Err(e);
            },
        }
        let cleaned = remove_global_declarations(work.as_slice());
        *code = cleaned;
        Ok(())
    }
}

} // verus!
