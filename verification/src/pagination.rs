//! The pagination state machine: a run starts at one URL, applies one
//! fetched page at a time, accumulates records in arrival order, and follows
//! each page's "next" link until a page carries none.  A page that names the
//! URL it was fetched from, and a run past the defensive page ceiling, are
//! fetch errors.

use vstd::prelude::*;

use crate::errors::AnalyzerError;
use crate::json::{check_status, is_success_status, json_array_parses, page_authors_of,
    parse_comment_page};
use crate::link::{next_link_of, parse_next_link};
use crate::records::{records_have_authors, CommentRecord};

verus! {

/// Defensive ceiling on the pages followed in one pagination run.
pub const PAGE_LIMIT: u32 = 10000;

/// State of one pagination run.
pub struct Paginator {
    /// URL of the page to fetch next; nothing once the run is complete.
    pub next_url: Option<String>,
    /// Pages applied so far.
    pub pages_fetched: u32,
    /// Records of all applied pages, in arrival order.
    pub items: Vec<CommentRecord>,
}

impl Paginator {
    /// A run about to fetch its first page.
    pub fn new(start_url: String) -> (p: Self)
        ensures
            p.next_url == Some(start_url),
            p.pages_fetched == 0,
            p.items@ == Seq::<CommentRecord>::empty(),
    {
        Paginator { next_url: Some(start_url), pages_fetched: 0, items: Vec::new() }
    }

    /// Whether the run is complete.
    pub fn done(&self) -> (r: bool)
        ensures
            r == (self.next_url is None),
    {
        self.next_url.is_none()
    }

    /// The URL to fetch next, while the run is not complete.
    pub fn pending_url(&self) -> (r: Option<&String>)
        ensures
            match r {
                Some(u) => self.next_url == Some(*u),
                None => self.next_url is None,
            },
    {
        self.next_url.as_ref()
    }

    /// Applies one fetched page: its records are appended in order, and its
    /// next link, where it carries one, becomes the URL to fetch.  A page
    /// that names the URL it was fetched from as its next link, and a run
    /// already at the page ceiling, are errors that leave the run unchanged.
    pub fn apply_page(&mut self, records: Vec<CommentRecord>, next: Option<String>) -> (r: Result<
        (),
        AnalyzerError,
    >)
        requires
            old(self).next_url is Some,
        ensures
            match r {
                Ok(_) => {
                    &&& old(self).pages_fetched < PAGE_LIMIT
                    &&& next.deep_view() != old(self).next_url.deep_view()
                    &&& final(self).items@ == old(self).items@ + records@
                    &&& final(self).next_url == next
                    &&& final(self).pages_fetched == old(self).pages_fetched + 1
                },
                Err(e) => {
                    &&& (old(self).pages_fetched >= PAGE_LIMIT || next.deep_view() == old(
                        self,
                    ).next_url.deep_view())
                    &&& (if old(self).pages_fetched >= PAGE_LIMIT {
                        e == AnalyzerError::PageLimitExceeded
                    } else {
                        e == AnalyzerError::PaginationCycle
                    })
                    &&& *final(self) == *old(self)
                },
            },
    {
        if self.pages_fetched >= PAGE_LIMIT {
            return Err(AnalyzerError::PageLimitExceeded);
        }
        let cycle: bool = match &next {
            Some(a) => match &self.next_url {
                Some(b) => {
                    let eq = crate::text::str_eq(a.as_str(), b.as_str());
                    proof {
                        assert(next.deep_view() == Some(a@));
                        assert(self.next_url.deep_view() == Some(b@));
                    }
                    eq
                },
                None => false,
            },
            None => false,
        };
        proof {
            assert(cycle == (next.deep_view() == old(self).next_url.deep_view()));
        }
        if cycle {
            return Err(AnalyzerError::PaginationCycle);
        }
        let mut recs = records;
        self.items.append(&mut recs);
        self.next_url = next;
        self.pages_fetched = self.pages_fetched + 1;
        Ok(())
    }

    /// Applies one raw HTTP response: a non-success status fails the fetch,
    /// a body that is not a JSON array is malformed, and otherwise the
    /// page's records are appended and the Link header decides the URL to
    /// fetch next.
    pub fn apply_response(&mut self, status: u16, link_header: Option<&str>, body: &str) -> (r:
        Result<(), AnalyzerError>)
        requires
            old(self).next_url is Some,
        ensures
            !is_success_status(status) ==> r == Err::<(), AnalyzerError>(
                AnalyzerError::RemoteRequestFailed { status },
            ) && *final(self) == *old(self),
            is_success_status(status) && !json_array_parses(body@) ==> r == Err::<(),
                AnalyzerError,
            >(AnalyzerError::MalformedResponseBody) && *final(self) == *old(self),
            match r {
                Ok(_) => {
                    &&& is_success_status(status)
                    &&& json_array_parses(body@)
                    &&& old(self).pages_fetched < PAGE_LIMIT
                    &&& old(self).items@.is_prefix_of(final(self).items@)
                    &&& records_have_authors(
                        final(self).items@.skip(old(self).items@.len() as int),
                        page_authors_of(body@),
                    )
                    &&& final(self).pages_fetched == old(self).pages_fetched + 1
                    &&& final(self).next_url.deep_view() == (match link_header {
                        Some(lh) => next_link_of(lh@),
                        None => None,
                    })
                    &&& final(self).next_url.deep_view() != old(self).next_url.deep_view()
                },
                Err(e) => {
                    &&& *final(self) == *old(self)
                    &&& (e == (AnalyzerError::RemoteRequestFailed { status }) || e
                        == AnalyzerError::MalformedResponseBody || e
                        == AnalyzerError::PaginationCycle || e == AnalyzerError::PageLimitExceeded)
                },
            },
            ({
                let next = match link_header {
                    Some(lh) => next_link_of(lh@),
                    None => None,
                };
                &&& (is_success_status(status) && json_array_parses(body@) && old(
                    self,
                ).pages_fetched < PAGE_LIMIT && next != old(self).next_url.deep_view()) ==> r
                    is Ok
                &&& (is_success_status(status) && json_array_parses(body@) && old(
                    self,
                ).pages_fetched >= PAGE_LIMIT) ==> r == Err::<(), AnalyzerError>(
                    AnalyzerError::PageLimitExceeded,
                )
                &&& (is_success_status(status) && json_array_parses(body@) && old(
                    self,
                ).pages_fetched < PAGE_LIMIT && next == old(self).next_url.deep_view()) ==> r
                    == Err::<(), AnalyzerError>(AnalyzerError::PaginationCycle)
            }),
    {
        match check_status(status) {
            Err(e) => {
                return Err(e);
            },
            Ok(_) => {},
        }
        let records = match parse_comment_page(body) {
            Ok(rs) => rs,
            Err(e) => {
                return Err(e);
            },
        };
        let next = match link_header {
            Some(lh) => parse_next_link(lh),
            None => None,
        };
        let ghost recs = records@;
        let r = self.apply_page(records, next);
        proof {
            if r is Ok {
                assert(old(self).items@.is_prefix_of(self.items@));
                assert(self.items@.skip(old(self).items@.len() as int) =~= recs);
            }
        }
        r
    }
}

/// One already-parsed page of a pagination run: its records and the next
/// link its Link header carried.
pub struct FetchedPage {
    pub records: Vec<CommentRecord>,
    pub next: Option<String>,
}

/// The pages' record sequences, in page order.
pub open spec fn pages_records(pages: Seq<FetchedPage>) -> Seq<Seq<CommentRecord>>
    decreases pages.len(),
{
    if pages.len() == 0 {
        Seq::empty()
    } else {
        pages_records(pages.drop_last()).push(pages.last().records@)
    }
}

/// All records of a run of pages, concatenated in page order.
pub open spec fn flatten_pages(pages: Seq<FetchedPage>) -> Seq<CommentRecord> {
    pages_records(pages).flatten()
}

/// The URL page `i` of a run is fetched from: the start URL for the first
/// page, then each page's next link.
pub open spec fn page_url(start: Seq<char>, pages: Seq<FetchedPage>, i: int) -> Option<Seq<char>> {
    if i == 0 {
        Some(start)
    } else {
        pages[i - 1].next.deep_view()
    }
}

/// A well-linked run: every page but the last names a next URL, no page
/// names the URL it was fetched from, and the run fits the page ceiling.
pub open spec fn pages_well_linked(start: Seq<char>, pages: Seq<FetchedPage>) -> bool {
    &&& pages.len() <= PAGE_LIMIT
    &&& forall|i: int|
        0 <= i < pages.len() ==> ((#[trigger] pages[i].next) is Some <==> i < pages.len() - 1)
    &&& forall|i: int|
        0 <= i < pages.len() ==> (#[trigger] pages[i].next).deep_view() != page_url(
            start,
            pages,
            i,
        )
}

/// Follows a complete, well-linked run of fetched pages from its start URL:
/// the run succeeds and accumulates exactly the concatenation of the pages'
/// records, in original order.
pub fn follow_pages(start_url: String, pages: Vec<FetchedPage>) -> (r: Result<
    Vec<CommentRecord>,
    AnalyzerError,
>)
    requires
        pages_well_linked(start_url@, pages@),
        pages@.len() > 0,
    ensures
        r is Ok,
        r matches Ok(items) ==> items@ == flatten_pages(pages@),
{
    let ghost all = pages@;
    let ghost start = start_url@;
    let mut pag = Paginator::new(start_url);
    let mut rest = pages;
    let mut k: usize = 0;
    proof {
        assert(all.take(0) =~= Seq::<FetchedPage>::empty());
        assert(rest@ == all.skip(0));
    }
    while rest.len() > 0
        invariant
            k <= all.len(),
            rest@ == all.skip(k as int),
            pages_well_linked(start, all),
            all.len() <= PAGE_LIMIT,
            pag.items@ == flatten_pages(all.take(k as int)),
            pag.pages_fetched == k,
            pag.next_url.deep_view() == page_url(start, all, k as int),
        decreases rest@.len(),
    {
        let page = rest.remove(0);
        proof {
            assert(all.skip(k as int)[0] == all[k as int]);
            assert(all.skip(k as int).subrange(1, all.skip(k as int).len() as int) =~= all.skip(
                k + 1,
            ));
            assert(pag.next_url.deep_view() is Some);
            assert(page.next.deep_view() != pag.next_url.deep_view());
        }
        let res = pag.apply_page(page.records, page.next);
        match res {
            Ok(_) => {},
            Err(e) => {
                proof {
                    assert(false);
                }
                return Err(e);
            },
        }
        proof {
            assert(all.take(k + 1).drop_last() =~= all.take(k as int));
            assert(all.take(k + 1).last() == all[k as int]);
            assert(pages_records(all.take(k + 1)) == pages_records(all.take(k as int)).push(
                all[k as int].records@,
            ));
            pages_records(all.take(k as int)).lemma_flatten_push(all[k as int].records@);
        }
        k += 1;
    }
    proof {
        assert(all.take(k as int) =~= all);
    }
    Ok(pag.items)
}

/// A run of `pages.len()` pages of `k` records each yields exactly
/// `pages.len() * k` records.
pub proof fn lemma_uniform_pages_total(pages: Seq<FetchedPage>, k: nat)
    requires
        forall|i: int| 0 <= i < pages.len() ==> (#[trigger] pages[i]).records@.len() == k,
    ensures
        flatten_pages(pages).len() == pages.len() * k,
    decreases pages.len(),
{
    if pages.len() == 0 {
        assert(flatten_pages(pages) =~= Seq::<CommentRecord>::empty());
    } else {
        let prefix = pages.drop_last();
        assert(forall|i: int| 0 <= i < prefix.len() ==> prefix[i] == pages[i]);
        lemma_uniform_pages_total(prefix, k);
        pages_records(prefix).lemma_flatten_push(pages.last().records@);
        assert(flatten_pages(pages) =~= flatten_pages(prefix) + pages.last().records@);
        assert((pages.len() - 1) * k + k == pages.len() * k) by (nonlinear_arith);
    }
}

} // verus!
