//! Aggregation: per-PR category counts, the run total, and the final
//! report.  The ratio of minutes to comments is computed only when at least
//! one comment was found; the report carries it in hundredths of a minute,
//! rounded down, so no floating point is involved.

use vstd::prelude::*;

use crate::records::{CommentRecord, count_matching, count_user_comments};

verus! {

/// Per-category comment counts of one pull request.
pub struct PrCommentCounts {
    pub pr_number: u32,
    /// Review-thread (diff) comments authored by the user.
    pub pr_comments: u64,
    /// Review summaries authored by the user.
    pub review_comments: u64,
    /// Issue-level comments authored by the user.
    pub issue_comments: u64,
}

impl PrCommentCounts {
    /// Sum of the three categories.
    pub open spec fn total_spec(self) -> int {
        self.pr_comments + self.review_comments + self.issue_comments
    }

    /// Executable total of the three categories.
    pub fn total(&self) -> (t: u64)
        requires
            self.total_spec() <= u64::MAX,
        ensures
            t == self.total_spec(),
    {
        self.pr_comments + self.review_comments + self.issue_comments
    }
}

/// Sum of the per-PR totals, in input order.
pub open spec fn sum_totals(s: Seq<PrCommentCounts>) -> int
    decreases s.len(),
{
    if s.len() == 0 {
        0
    } else {
        sum_totals(s.drop_last()) + s.last().total_spec()
    }
}

proof fn lemma_sum_totals_nonneg(s: Seq<PrCommentCounts>)
    ensures
        sum_totals(s) >= 0,
    decreases s.len(),
{
    if s.len() > 0 {
        lemma_sum_totals_nonneg(s.drop_last());
    }
}

/// Every partial sum of totals is at most the whole sum.
proof fn lemma_sum_prefix_le(s: Seq<PrCommentCounts>, i: int)
    requires
        0 <= i <= s.len(),
    ensures
        sum_totals(s.take(i)) <= sum_totals(s),
    decreases s.len() - i,
{
    if i < s.len() {
        assert(s.take(i + 1).drop_last() =~= s.take(i));
        assert(s.take(i + 1).last() == s[i]);
        lemma_sum_prefix_le(s, i + 1);
    } else {
        assert(s.take(i) =~= s);
    }
}

/// Counts one pull request's comments by category for `user_login`.  The
/// three category fetches are independent; only their counts enter the
/// record, so the order they were fetched in cannot matter.
pub fn aggregate_pr(
    pr_number: u32,
    pr_comments: &Vec<CommentRecord>,
    review_comments: &Vec<CommentRecord>,
    issue_comments: &Vec<CommentRecord>,
    user_login: &str,
) -> (c: PrCommentCounts)
    ensures
        c.pr_number == pr_number,
        c.pr_comments == count_matching(pr_comments@, user_login@),
        c.review_comments == count_matching(review_comments@, user_login@),
        c.issue_comments == count_matching(issue_comments@, user_login@),
{
    let a = count_user_comments(pr_comments, user_login);
    let b = count_user_comments(review_comments, user_login);
    let c = count_user_comments(issue_comments, user_login);
    PrCommentCounts {
        pr_number,
        pr_comments: a as u64,
        review_comments: b as u64,
        issue_comments: c as u64,
    }
}

/// The final report of one run.
pub struct Report {
    /// All matching comments: the per-PR totals plus the manual addition.
    pub total_comments: u64,
    /// The manual addition that went into the total.
    pub additional: u32,
    /// The time budget, in minutes.
    pub minutes: u32,
    /// Minutes spent per comment, in hundredths of a minute rounded down;
    /// nothing when no comments were found, so no division happens then.
    pub minutes_per_comment_hundredths: Option<u64>,
}

/// Sums the per-PR totals, adds the manual addition, and computes the
/// minutes-per-comment ratio exactly when the total is positive.
pub fn build_report(per_pr: &Vec<PrCommentCounts>, additional: u32, minutes: u32) -> (r: Report)
    requires
        sum_totals(per_pr@) + additional <= u64::MAX,
    ensures
        r.total_comments == sum_totals(per_pr@) + additional,
        r.additional == additional,
        r.minutes == minutes,
        r.total_comments == 0 ==> r.minutes_per_comment_hundredths is None,
        r.total_comments > 0 ==> r.minutes_per_comment_hundredths == Some(
            (minutes * 100 / (sum_totals(per_pr@) + additional)) as u64,
        ),
{
    let mut total: u64 = 0;
    let mut i: usize = 0;
    proof {
        lemma_sum_totals_nonneg(per_pr@);
    }
    while i < per_pr.len()
        invariant
            i <= per_pr@.len(),
            total == sum_totals(per_pr@.take(i as int)),
            sum_totals(per_pr@) + additional <= u64::MAX,
        decreases per_pr@.len() - i,
    {
        proof {
            assert(per_pr@.take(i + 1).drop_last() =~= per_pr@.take(i as int));
            assert(per_pr@.take(i + 1).last() == per_pr@[i as int]);
            lemma_sum_prefix_le(per_pr@, i + 1);
            lemma_sum_totals_nonneg(per_pr@.take(i as int));
        }
        let t = per_pr[i].total();
        total = total + t;
        i += 1;
    }
    proof {
        assert(per_pr@.take(per_pr@.len() as int) =~= per_pr@);
    }
    let total = total + (additional as u64);
    if total > 0 {
        let hundredths = (minutes as u64) * 100 / total;
        Report {
            total_comments: total,
            additional,
            minutes,
            minutes_per_comment_hundredths: Some(hundredths),
        }
    } else {
        Report { total_comments: total, additional, minutes, minutes_per_comment_hundredths: None }
    }
}

} // verus!
