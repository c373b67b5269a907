//! Parser for the `Link` response header that drives pagination: a Link
//! header value is a comma-separated list of segments of the shape
//! `<url>; rel="name"`, and the parser extracts the URL whose relation is
//! exactly `next`.

use vstd::prelude::*;

use crate::text::{split_on, split_str, strip_brackets, strip_brackets_str, str_eq, trim_ws,
    trim_ws_str};

verus! {

/// The relation token that names the next page.
pub open spec fn rel_next_token() -> Seq<char> {
    "rel=\"next\""@
}

/// Whether one comma-separated segment of a Link header declares the "next"
/// relation: exactly two semicolon-separated parts whose second part, with
/// surrounding whitespace removed, is exactly the token `rel="next"`.
/// Segments of any other shape are skipped, never an error.
pub open spec fn segment_declares_next(seg: Seq<char>) -> bool {
    &&& split_on(seg, ';').len() == 2
    &&& trim_ws(split_on(seg, ';')[1]) == rel_next_token()
}

/// The URL a segment carries: its first semicolon-separated part, trimmed of
/// whitespace and stripped of its angle brackets.
pub open spec fn segment_url(seg: Seq<char>) -> Seq<char> {
    strip_brackets(trim_ws(split_on(seg, ';')[0]))
}

/// What one segment contributes: its URL, if it declares the "next" relation.
pub open spec fn seg_next(seg: Seq<char>) -> Option<Seq<char>> {
    if segment_declares_next(seg) {
        Some(segment_url(seg))
    } else {
        None
    }
}

/// The first contribution among the segments, if any.
pub open spec fn first_next(segs: Seq<Seq<char>>) -> Option<Seq<char>>
    decreases segs.len(),
{
    if segs.len() == 0 {
        None
    } else {
        match seg_next(segs[0]) {
            Some(u) => Some(u),
            None => first_next(segs.drop_first()),
        }
    }
}

/// The next-page URL of a raw Link header value: the URL of the first
/// comma-separated segment that declares the "next" relation, or nothing.
pub open spec fn next_link_of(h: Seq<char>) -> Option<Seq<char>> {
    first_next(split_on(h, ','))
}

proof fn lemma_first_next_all_none(segs: Seq<Seq<char>>)
    requires
        forall|j: int| 0 <= j < segs.len() ==> seg_next(#[trigger] segs[j]) is None,
    ensures
        first_next(segs) is None,
    decreases segs.len(),
{
    if segs.len() > 0 {
        assert(seg_next(segs[0]) is None);
        assert(forall|j: int|
            0 <= j < segs.drop_first().len() ==> seg_next(#[trigger] segs.drop_first()[j])
                is None) by {
            assert(forall|j: int|
                0 <= j < segs.drop_first().len() ==> segs.drop_first()[j] == segs[j + 1]);
        }
        lemma_first_next_all_none(segs.drop_first());
    }
}

proof fn lemma_first_next_at(segs: Seq<Seq<char>>, k: int)
    requires
        0 <= k < segs.len(),
        forall|j: int| 0 <= j < k ==> seg_next(#[trigger] segs[j]) is None,
        seg_next(segs[k]) is Some,
    ensures
        first_next(segs) == seg_next(segs[k]),
    decreases k,
{
    if k > 0 {
        assert(forall|j: int|
            0 <= j < segs.drop_first().len() ==> segs.drop_first()[j] == segs[j + 1]);
        lemma_first_next_at(segs.drop_first(), k - 1);
    }
}

/// A Link header none of whose segments declares the "next" relation yields
/// no next-page URL.
pub proof fn lemma_no_next_relation_yields_none(h: Seq<char>)
    requires
        forall|j: int|
            0 <= j < split_on(h, ',').len() ==> !segment_declares_next(
                #[trigger] split_on(h, ',')[j],
            ),
    ensures
        next_link_of(h) is None,
{
    lemma_first_next_all_none(split_on(h, ','));
}

/// A Link header exactly one of whose segments declares the "next" relation
/// yields that segment's URL, whitespace trimmed and angle brackets stripped.
pub proof fn lemma_unique_next_relation_yields_url(h: Seq<char>, k: int)
    requires
        0 <= k < split_on(h, ',').len(),
        segment_declares_next(split_on(h, ',')[k]),
        forall|j: int|
            0 <= j < split_on(h, ',').len() && j != k ==> !segment_declares_next(
                #[trigger] split_on(h, ',')[j],
            ),
    ensures
        next_link_of(h) == Some(segment_url(split_on(h, ',')[k])),
{
    lemma_first_next_at(split_on(h, ','), k);
}

/// Extracts the next-page URL out of a raw Link header value, or returns
/// nothing when no segment declares the "next" relation.
pub fn parse_next_link(link_header: &str) -> (r: Option<String>)
    ensures
        r.deep_view() == next_link_of(link_header@),
{
    let segments = split_str(link_header, ',');
    let ghost segs = split_on(link_header@, ',');
    let mut k: usize = 0;
    while k < segments.len()
        invariant
            segments.deep_view() == segs,
            segs == split_on(link_header@, ','),
            k <= segments.len(),
            forall|j: int| 0 <= j < k ==> seg_next(#[trigger] segs[j]) is None,
        decreases segments.len() - k,
    {
        let seg: &String = &segments[k];
        proof {
            assert(seg@ == segs[k as int]);
        }
        let parts = split_str(seg.as_str(), ';');
        if parts.len() == 2 {
            let rel = trim_ws_str(parts[1].as_str());
            proof {
                assert(parts[1]@ == split_on(seg@, ';')[1]);
            }
            if str_eq(rel, "rel=\"next\"") {
                proof {
                    assert(parts[0]@ == split_on(seg@, ';')[0]);
                    assert(segment_declares_next(segs[k as int]));
                }
                let url = strip_brackets_str(trim_ws_str(parts[0].as_str()));
                proof {
                    lemma_first_next_at(segs, k as int);
                }
                return Some(url.to_owned());
            }
        }
        proof {
            assert(seg_next(segs[k as int]) is None);
        }
        k += 1;
    }
    proof {
        lemma_first_next_all_none(segs);
    }
    None
}

} // verus!
