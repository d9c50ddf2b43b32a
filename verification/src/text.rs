//! Searching and substituting inside byte strings.
//!
//! Source text is handled as raw bytes throughout: every offset in this crate
//! is a byte offset, and a pattern is a non-empty byte string.

use vstd::prelude::*;

verus! {

/// `pat` stands in `s` at byte offset `at`.
pub open spec fn occurs_at(s: Seq<u8>, pat: Seq<u8>, at: int) -> bool {
    &&& 0 <= at
    &&& at + pat.len() <= s.len()
    &&& s.subrange(at, at + pat.len()) == pat
}

/// `pat` stands somewhere in `s`.
pub open spec fn contains(s: Seq<u8>, pat: Seq<u8>) -> bool {
    exists|at: int| occurs_at(s, pat, at)
}

/// `at` is the offset of the leftmost occurrence of `pat` in `s`.
pub open spec fn is_first_occurrence(s: Seq<u8>, pat: Seq<u8>, at: int) -> bool {
    &&& occurs_at(s, pat, at)
    &&& forall|before: int| 0 <= before < at ==> !occurs_at(s, pat, before)
}

/// The offset of the leftmost occurrence of `pat` in `s`, if there is one.
pub open spec fn find(s: Seq<u8>, pat: Seq<u8>) -> Option<int> {
    if contains(s, pat) {
        Some(choose|at: int| is_first_occurrence(s, pat, at))
    } else {
        None
    }
}

/// `s` with every occurrence of `pat` replaced by `with`, scanning from the
/// left: an occurrence that starts inside an earlier one is not replaced, and
/// the replacement text is never searched again.
pub open spec fn replace_all(s: Seq<u8>, pat: Seq<u8>, with: Seq<u8>) -> Seq<u8>
    decreases s.len(),
{
    if pat.len() == 0 || s.len() == 0 {
        s
    } else if occurs_at(s, pat, 0) {
        with + replace_all(s.skip(pat.len() as int), pat, with)
    } else {
        seq![s[0]] + replace_all(s.skip(1), pat, with)
    }
}

/// A leftmost occurrence is unique, so `find` returns it.
pub proof fn lemma_find_first(s: Seq<u8>, pat: Seq<u8>, at: int)
    requires
        is_first_occurrence(s, pat, at),
    ensures
        find(s, pat) == Some(at),
{
    let chosen = choose|i: int| is_first_occurrence(s, pat, i);
    assert(is_first_occurrence(s, pat, chosen));
    if chosen < at {
        assert(!occurs_at(s, pat, chosen));
    }
    if at < chosen {
        assert(!occurs_at(s, pat, at));
    }
}

/// Where nothing occurs, `find` returns `None`.
pub proof fn lemma_find_none(s: Seq<u8>, pat: Seq<u8>)
    requires
        forall|at: int| 0 <= at ==> !occurs_at(s, pat, at),
    ensures
        find(s, pat) is None,
        !contains(s, pat),
{
}

/// What `find` returns is a leftmost occurrence, and `None` means there is no
/// occurrence at all.
pub proof fn lemma_find_is_first(s: Seq<u8>, pat: Seq<u8>)
    ensures
        match find(s, pat) {
            Some(at) => is_first_occurrence(s, pat, at),
            None => !contains(s, pat),
        },
{
    if contains(s, pat) {
        let some = choose|at: int| occurs_at(s, pat, at);
        lemma_first_exists(s, pat, some);
    }
}

/// Below any occurrence there is a leftmost one.
proof fn lemma_first_exists(s: Seq<u8>, pat: Seq<u8>, at: int)
    requires
        occurs_at(s, pat, at),
    ensures
        exists|first: int| is_first_occurrence(s, pat, first),
    decreases at,
{
    if exists|before: int| 0 <= before < at && occurs_at(s, pat, before) {
        let before = choose|before: int| 0 <= before < at && occurs_at(s, pat, before);
        lemma_first_exists(s, pat, before);
    } else {
        assert(is_first_occurrence(s, pat, at));
    }
}

/// Text without the pattern is left as it is.
pub proof fn lemma_replace_all_absent(s: Seq<u8>, pat: Seq<u8>, with: Seq<u8>)
    requires
        !contains(s, pat),
    ensures
        replace_all(s, pat, with) == s,
    decreases s.len(),
{
    if pat.len() > 0 && s.len() > 0 {
        assert(!occurs_at(s, pat, 0));
        let rest = s.skip(1);
        assert forall|at: int| !occurs_at(rest, pat, at) by {
            if occurs_at(rest, pat, at) {
                assert(rest.subrange(at, at + pat.len()) == s.subrange(at + 1, at + 1 + pat.len()));
                assert(occurs_at(s, pat, at + 1));
            }
        }
        lemma_replace_all_absent(rest, pat, with);
        assert(seq![s[0]] + rest == s);
    }
}

/// Tells whether `pat` stands in `s` at offset `at`.
pub fn matches_at(s: &[u8], pat: &[u8], at: usize) -> (hit: bool)
    ensures
        hit == occurs_at(s@, pat@, at as int),
{
    if pat.len() > s.len() || at > s.len() - pat.len() {
        return false;
    }
    let mut k: usize = 0;
    while k < pat.len()
        invariant
            k <= pat.len(),
            at + pat.len() <= s.len(),
            forall|j: int| 0 <= j < k ==> s@[at + j] == pat@[j],
        decreases pat.len() - k,
    {
        if s[at + k] != pat[k] {
            proof {
                let window = s@.subrange(at as int, at + pat.len());
                assert(window[k as int] == s@[at + k]);
            }
            return false;
        }
        k += 1;
    }
    assert(s@.subrange(at as int, at + pat.len()) =~= pat@);
    true
}

/// Finds the leftmost occurrence of `pat` in `s`.
pub fn find_first(s: &[u8], pat: &[u8]) -> (found: Option<usize>)
    ensures
        match found {
            Some(at) => find(s@, pat@) == Some(at as int) && is_first_occurrence(
                s@,
                pat@,
                at as int,
            ),
            None => find(s@, pat@) is None && !contains(s@, pat@),
        },
{
    if pat.len() > s.len() {
        proof {
            lemma_find_none(s@, pat@);
        }
        return None;
    }
    let last: usize = s.len() - pat.len();
    let mut at: usize = 0;
    while at < last
        invariant
            at <= last,
            last + pat.len() == s.len(),
            forall|before: int| 0 <= before < at ==> !occurs_at(s@, pat@, before),
        decreases last - at,
    {
        if matches_at(s, pat, at) {
            proof {
                lemma_find_first(s@, pat@, at as int);
            }
            return Some(at);
        }
        at += 1;
    }
    if matches_at(s, pat, last) {
        proof {
            lemma_find_first(s@, pat@, last as int);
        }
        return Some(last);
    }
    proof {
        lemma_find_none(s@, pat@);
    }
    None
}

/// Replaces every occurrence of the non-empty `pat` in `s` by `with`.
pub fn replace_each(s: &[u8], pat: &[u8], with: &[u8]) -> (out: Vec<u8>)
    requires
        pat@.len() > 0,
    ensures
        out@ == replace_all(s@, pat@, with@),
{
    let mut out: Vec<u8> = Vec::new();
    let mut at: usize = 0;
    assert(s@.skip(0) =~= s@);
    assert(out@ + replace_all(s@, pat@, with@) =~= replace_all(s@, pat@, with@));
    while at < s.len()
        invariant
            at <= s.len(),
            pat@.len() > 0,
            replace_all(s@, pat@, with@) == out@ + replace_all(s@.skip(at as int), pat@, with@),
        decreases s.len() - at,
    {
        let ghost rest = s@.skip(at as int);
        if matches_at(s, pat, at) {
            proof {
                assert(rest.subrange(0, pat@.len() as int) == s@.subrange(
                    at as int,
                    at + pat@.len(),
                ));
                assert(occurs_at(rest, pat@, 0));
                assert(rest.skip(pat@.len() as int) == s@.skip(at + pat@.len()));
            }
            append_bytes(&mut out, with);
            at += pat.len();
        } else {
            proof {
                if occurs_at(rest, pat@, 0) {
                    assert(rest.subrange(0, pat@.len() as int) == s@.subrange(
                        at as int,
                        at + pat@.len(),
                    ));
                }
                assert(rest.skip(1) == s@.skip(at + 1));
                assert(rest[0] == s@[at as int]);
            }
            out.push(s[at]);
            at += 1;
        }
    }
    assert(s@.skip(at as int).len() == 0);
    out
}

/// Appends the bytes of `tail` to `buf`.
pub fn append_bytes(buf: &mut Vec<u8>, tail: &[u8])
    ensures
        final(buf)@ == old(buf)@ + tail@,
{
    let mut k: usize = 0;
    while k < tail.len()
        invariant
            k <= tail.len(),
            buf@ == old(buf)@ + tail@.subrange(0, k as int),
        decreases tail.len() - k,
    {
        buf.push(tail[k]);
        k += 1;
        assert(buf@ =~= old(buf)@ + tail@.subrange(0, k as int));
    }
    assert(tail@.subrange(0, tail@.len() as int) =~= tail@);
}

} // verus!
