//! Comment records and the author filter: the only thing the analyzer reads
//! of a comment is the login of its author, so a record is that login, or
//! nothing where the record carries no string-valued author login.

use vstd::prelude::*;

use crate::text::str_eq;

verus! {

/// One comment as the analyzer sees it.
pub struct CommentRecord {
    /// The author's login, where the record carries one as a string.
    pub author: Option<String>,
}

/// Whether a record was authored by `login`: its author login is present and
/// equals `login` exactly, case-sensitively.  A record without an author
/// login matches nothing.
pub open spec fn record_matches(r: CommentRecord, login: Seq<char>) -> bool {
    match r.author {
        Some(a) => a@ == login,
        None => false,
    }
}

/// Whether `rs` carries exactly the author logins `authors`, in order.
pub open spec fn records_have_authors(
    rs: Seq<CommentRecord>,
    authors: Seq<Option<Seq<char>>>,
) -> bool {
    &&& rs.len() == authors.len()
    &&& forall|i: int| 0 <= i < rs.len() ==> (#[trigger] rs[i]).author.deep_view() == authors[i]
}

/// How many records of `rs` were authored by `login`.
pub open spec fn count_matching(rs: Seq<CommentRecord>, login: Seq<char>) -> nat
    decreases rs.len(),
{
    if rs.len() == 0 {
        0
    } else {
        count_matching(rs.drop_last(), login) + (if record_matches(rs.last(), login) {
            1nat
        } else {
            0nat
        })
    }
}

/// Records without an author login never contribute to a count, whatever the
/// login asked about.
pub proof fn lemma_missing_author_never_counts(rs: Seq<CommentRecord>, login: Seq<char>)
    requires
        forall|i: int| 0 <= i < rs.len() ==> (#[trigger] rs[i]).author is None,
    ensures
        count_matching(rs, login) == 0,
    decreases rs.len(),
{
    if rs.len() > 0 {
        assert(forall|i: int| 0 <= i < rs.drop_last().len() ==> rs.drop_last()[i] == rs[i]);
        lemma_missing_author_never_counts(rs.drop_last(), login);
    }
}

/// Counts the records of `comments` whose author login equals `user_login`
/// exactly.  Records without a string-valued author login never match.
pub fn count_user_comments(comments: &Vec<CommentRecord>, user_login: &str) -> (n: usize)
    ensures
        n == count_matching(comments@, user_login@),
{
    let mut n: usize = 0;
    let mut i: usize = 0;
    while i < comments.len()
        invariant
            i <= comments.len(),
            n <= i,
            n == count_matching(comments@.take(i as int), user_login@),
        decreases comments.len() - i,
    {
        let matched = match &comments[i].author {
            Some(a) => str_eq(a.as_str(), user_login),
            None => false,
        };
        proof {
            assert(comments@.take(i + 1).drop_last() =~= comments@.take(i as int));
            assert(comments@.take(i + 1).last() == comments@[i as int]);
            assert(matched == record_matches(comments@[i as int], user_login@));
        }
        if matched {
            n += 1;
        }
        i += 1;
    }
    proof {
        assert(comments@.take(comments@.len() as int) =~= comments@);
    }
    n
}

} // verus!
