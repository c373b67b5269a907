//! The wire protocol's request lines: endpoint URLs of the three comment
//! categories of a pull request, the authenticated-user endpoint, and the
//! authorization header value.

use vstd::prelude::*;
use vstd::string::StringExecFns;

use crate::repo::PullRequestTarget;

verus! {

/// Decimal digit character of a digit value.
pub open spec fn digit_char(d: int) -> char {
    if d == 0 {
        '0'
    } else if d == 1 {
        '1'
    } else if d == 2 {
        '2'
    } else if d == 3 {
        '3'
    } else if d == 4 {
        '4'
    } else if d == 5 {
        '5'
    } else if d == 6 {
        '6'
    } else if d == 7 {
        '7'
    } else if d == 8 {
        '8'
    } else {
        '9'
    }
}

/// Decimal numeral of a nonnegative number, most significant digit first.
pub open spec fn dec_rep(n: int) -> Seq<char>
    recommends
        n >= 0,
    decreases n,
{
    if n < 10 {
        seq![digit_char(n)]
    } else {
        dec_rep(n / 10) + seq![digit_char(n % 10)]
    }
}

/// One decimal digit as a string.
fn digit_str(d: u32) -> (s: &'static str)
    requires
        d < 10,
    ensures
        s@ == seq![digit_char(d as int)],
{
    if d == 0 {
        proof {
            reveal_strlit("0");
            assert("0"@ =~= seq![digit_char(0)]);
        }
        "0"
    } else if d == 1 {
        proof {
            reveal_strlit("1");
            assert("1"@ =~= seq![digit_char(1)]);
        }
        "1"
    } else if d == 2 {
        proof {
            reveal_strlit("2");
            assert("2"@ =~= seq![digit_char(2)]);
        }
        "2"
    } else if d == 3 {
        proof {
            reveal_strlit("3");
            assert("3"@ =~= seq![digit_char(3)]);
        }
        "3"
    } else if d == 4 {
        proof {
            reveal_strlit("4");
            assert("4"@ =~= seq![digit_char(4)]);
        }
        "4"
    } else if d == 5 {
        proof {
            reveal_strlit("5");
            assert("5"@ =~= seq![digit_char(5)]);
        }
        "5"
    } else if d == 6 {
        proof {
            reveal_strlit("6");
            assert("6"@ =~= seq![digit_char(6)]);
        }
        "6"
    } else if d == 7 {
        proof {
            reveal_strlit("7");
            assert("7"@ =~= seq![digit_char(7)]);
        }
        "7"
    } else if d == 8 {
        proof {
            reveal_strlit("8");
            assert("8"@ =~= seq![digit_char(8)]);
        }
        "8"
    } else {
        proof {
            reveal_strlit("9");
            assert("9"@ =~= seq![digit_char(9)]);
        }
        "9"
    }
}

/// Renders a number as its decimal numeral.
pub fn u32_dec_str(n: u32) -> (s: String)
    ensures
        s@ == dec_rep(n as int),
    decreases n,
{
    if n < 10 {
        digit_str(n).to_owned()
    } else {
        let mut s = u32_dec_str(n / 10);
        s.append(digit_str(n % 10));
        s
    }
}

/// `https://api.github.com/repos/{owner}/{repo}` .
fn repo_base(owner: &str, repo: &str) -> (s: String)
    ensures
        s@ == "https://api.github.com/repos/"@ + owner@ + "/"@ + repo@,
{
    let mut s = "https://api.github.com/repos/".to_owned();
    s.append(owner);
    s.append("/");
    s.append(repo);
    proof {
        assert(s@ =~= "https://api.github.com/repos/"@ + owner@ + "/"@ + repo@);
    }
    s
}

/// URL of the review-thread (diff) comment listing of one pull request.
pub open spec fn pr_comments_url_spec(owner: Seq<char>, repo: Seq<char>, number: int) -> Seq<
    char,
> {
    "https://api.github.com/repos/"@ + owner + "/"@ + repo + "/pulls/"@ + dec_rep(number)
        + "/comments"@
}

/// URL of the review-summary listing of one pull request.
pub open spec fn review_summaries_url_spec(owner: Seq<char>, repo: Seq<char>, number: int) -> Seq<
    char,
> {
    "https://api.github.com/repos/"@ + owner + "/"@ + repo + "/pulls/"@ + dec_rep(number)
        + "/reviews"@
}

/// URL of the issue-level comment listing of one pull request.
pub open spec fn issue_comments_url_spec(owner: Seq<char>, repo: Seq<char>, number: int) -> Seq<
    char,
> {
    "https://api.github.com/repos/"@ + owner + "/"@ + repo + "/issues/"@ + dec_rep(number)
        + "/comments"@
}

/// Builds the review-thread comment URL of `target`.
pub fn pr_comments_url(target: &PullRequestTarget) -> (u: String)
    ensures
        u@ == pr_comments_url_spec(target.owner@, target.repo@, target.number as int),
{
    let mut s = repo_base(target.owner.as_str(), target.repo.as_str());
    s.append("/pulls/");
    let num = u32_dec_str(target.number);
    s.append(num.as_str());
    s.append("/comments");
    proof {
        assert(s@ =~= pr_comments_url_spec(target.owner@, target.repo@, target.number as int));
    }
    s
}

/// Builds the review-summary URL of `target`.
pub fn review_summaries_url(target: &PullRequestTarget) -> (u: String)
    ensures
        u@ == review_summaries_url_spec(target.owner@, target.repo@, target.number as int),
{
    let mut s = repo_base(target.owner.as_str(), target.repo.as_str());
    s.append("/pulls/");
    let num = u32_dec_str(target.number);
    s.append(num.as_str());
    s.append("/reviews");
    proof {
        assert(s@ =~= review_summaries_url_spec(
            target.owner@,
            target.repo@,
            target.number as int,
        ));
    }
    s
}

/// Builds the issue-level comment URL of `target`.
pub fn issue_comments_url(target: &PullRequestTarget) -> (u: String)
    ensures
        u@ == issue_comments_url_spec(target.owner@, target.repo@, target.number as int),
{
    let mut s = repo_base(target.owner.as_str(), target.repo.as_str());
    s.append("/issues/");
    let num = u32_dec_str(target.number);
    s.append(num.as_str());
    s.append("/comments");
    proof {
        assert(s@ =~= issue_comments_url_spec(target.owner@, target.repo@, target.number as int));
    }
    s
}

/// URL of the authenticated-user endpoint.
pub fn user_url() -> (u: String)
    ensures
        u@ == "https://api.github.com/user"@,
{
    "https://api.github.com/user".to_owned()
}

/// Value of the `Authorization` request header for a bearer token.
pub fn auth_header_value(token: &str) -> (v: String)
    ensures
        v@ == "token "@ + token@,
{
    let mut s = "token ".to_owned();
    s.append(token);
    s
}

} // verus!
