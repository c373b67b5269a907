//! Resolution of the target repository and of pull-request numbers: a
//! repository argument is either a slug `owner/repo` or a GitHub URL, a git
//! remote URL is normalized to a slug, and a pull-request number is a
//! positive decimal numeral.

use vstd::prelude::*;
use vstd::string::StrSliceExecFns;

use crate::errors::AnalyzerError;
use crate::text::{drop_trailing, drop_trailing_str, first_occurrence, has_prefix, split_on,
    split_str, str_eq, trim_ws, trim_ws_str};

verus! {

/// One unit of work: a pull request in a repository.
pub struct PullRequestTarget {
    pub owner: String,
    pub repo: String,
    pub number: u32,
}

impl PullRequestTarget {
    /// Validity: pull-request numbers are positive.
    pub open spec fn wf(self) -> bool {
        self.number > 0
    }

    pub fn new(owner: String, repo: String, number: u32) -> (t: Self)
        requires
            number > 0,
        ensures
            t.owner == owner,
            t.repo == repo,
            t.number == number,
            t.wf(),
    {
        PullRequestTarget { owner, repo, number }
    }
}

/// The owner/repo pair a repository argument denotes.  An argument without a
/// slash is rejected; one that does not start with `http` must be a two-part
/// slug `owner/repo`; anything else must be a GitHub URL
/// `https://github.com/owner/repo`, trailing slashes tolerated.
pub open spec fn repo_of_input(s: Seq<char>) -> Option<(Seq<char>, Seq<char>)> {
    if !s.contains('/') {
        None
    } else if !"http"@.is_prefix_of(s) {
        let parts = split_on(s, '/');
        if parts.len() == 2 {
            Some((parts[0], parts[1]))
        } else {
            None
        }
    } else {
        let parts = split_on(drop_trailing(s, '/'), '/');
        if parts.len() >= 5 && parts[2] == "github.com"@ {
            Some((parts[3], parts[4]))
        } else {
            None
        }
    }
}

/// Resolves a repository argument to its owner/repo pair, or rejects it.
pub fn parse_repository_url(url: &str) -> (r: Result<(String, String), AnalyzerError>)
    ensures
        match r {
            Ok(p) => repo_of_input(url@) == Some((p.0@, p.1@)),
            Err(e) => repo_of_input(url@) is None && e
                == AnalyzerError::RepositoryResolutionFailed,
        },
{
    proof {
        url@.index_of_first_ensures('/');
    }
    if first_occurrence(url, '/').is_none() {
        return Err(AnalyzerError::RepositoryResolutionFailed);
    }
    if !has_prefix(url, "http") {
        let parts = split_str(url, '/');
        if parts.len() == 2 {
            let owner = parts[0].clone();
            let repo = parts[1].clone();
            Ok((owner, repo))
        } else {
            Err(AnalyzerError::RepositoryResolutionFailed)
        }
    } else {
        let trimmed = drop_trailing_str(url, '/');
        let parts = split_str(trimmed, '/');
        if parts.len() >= 5 && str_eq(parts[2].as_str(), "github.com") {
            let owner = parts[3].clone();
            let repo = parts[4].clone();
            Ok((owner, repo))
        } else {
            Err(AnalyzerError::RepositoryResolutionFailed)
        }
    }
}

/// Value of a decimal digit, or -1 for any other character.
pub open spec fn digit_val(c: char) -> int {
    if c == '0' {
        0
    } else if c == '1' {
        1
    } else if c == '2' {
        2
    } else if c == '3' {
        3
    } else if c == '4' {
        4
    } else if c == '5' {
        5
    } else if c == '6' {
        6
    } else if c == '7' {
        7
    } else if c == '8' {
        8
    } else if c == '9' {
        9
    } else {
        -1
    }
}

pub open spec fn is_digit(c: char) -> bool {
    digit_val(c) >= 0
}

pub open spec fn all_digits(s: Seq<char>) -> bool {
    forall|i: int| 0 <= i < s.len() ==> is_digit(#[trigger] s[i])
}

/// Value of a decimal numeral, most significant digit first.
pub open spec fn dec_val(s: Seq<char>) -> int
    decreases s.len(),
{
    if s.len() == 0 {
        0
    } else {
        dec_val(s.drop_last()) * 10 + digit_val(s.last())
    }
}

proof fn lemma_dec_val_nonneg(s: Seq<char>)
    requires
        all_digits(s),
    ensures
        dec_val(s) >= 0,
    decreases s.len(),
{
    if s.len() > 0 {
        assert(forall|i: int| 0 <= i < s.drop_last().len() ==> s.drop_last()[i] == s[i]);
        lemma_dec_val_nonneg(s.drop_last());
    }
}

/// A numeral is worth at least any of its prefixes.
proof fn lemma_dec_val_prefix_le(s: Seq<char>, i: int)
    requires
        all_digits(s),
        0 <= i <= s.len(),
    ensures
        dec_val(s.take(i)) <= dec_val(s),
    decreases s.len() - i,
{
    if i < s.len() {
        assert(s.take(i + 1).drop_last() =~= s.take(i));
        assert(s.take(i + 1).last() == s[i]);
        assert(all_digits(s.take(i))) by {
            assert(forall|j: int| 0 <= j < i ==> s.take(i)[j] == s[j]);
        }
        lemma_dec_val_nonneg(s.take(i));
        lemma_dec_val_prefix_le(s, i + 1);
    } else {
        assert(s.take(i) =~= s);
    }
}

/// Parses a pull-request number: a non-empty string of decimal digits whose
/// value is positive and fits the number type.  Anything else is an invalid
/// target.
pub fn parse_pr_number(s: &str) -> (r: Result<u32, AnalyzerError>)
    ensures
        match r {
            Ok(v) => s@.len() > 0 && all_digits(s@) && v == dec_val(s@) && v > 0,
            Err(e) => {
                &&& e == AnalyzerError::InvalidTargetFormat
                &&& (s@.len() == 0 || !all_digits(s@) || dec_val(s@) == 0 || dec_val(s@)
                    > u32::MAX)
            },
        },
{
    let n = s.unicode_len();
    if n == 0 {
        return Err(AnalyzerError::InvalidTargetFormat);
    }
    let mut acc: u32 = 0;
    let mut i: usize = 0;
    while i < n
        invariant
            n == s@.len(),
            i <= n,
            all_digits(s@.take(i as int)),
            acc == dec_val(s@.take(i as int)),
        decreases n - i,
    {
        let c = s.get_char(i);
        let d: u32 = match c {
            '0' => 0,
            '1' => 1,
            '2' => 2,
            '3' => 3,
            '4' => 4,
            '5' => 5,
            '6' => 6,
            '7' => 7,
            '8' => 8,
            '9' => 9,
            _ => {
                proof {
                    assert(!is_digit(s@[i as int]));
                }
                return Err(AnalyzerError::InvalidTargetFormat);
            },
        };
        proof {
            assert(digit_val(s@[i as int]) == d);
            assert(s@.take(i + 1).drop_last() =~= s@.take(i as int));
            assert(s@.take(i + 1).last() == s@[i as int]);
            assert(all_digits(s@.take(i + 1))) by {
                assert(forall|j: int| 0 <= j < i + 1 ==> s@.take(i + 1)[j] == s@[j]);
            }
        }
        if acc > (u32::MAX - d) / 10 {
            proof {
                let m = (u32::MAX - d) as int;
                assert(acc * 10 >= (m / 10 + 1) * 10) by (nonlinear_arith)
                    requires
                        acc >= m / 10 + 1,
                ;
                assert(m / 10 * 10 + m % 10 == m);
                assert(acc * 10 + d > u32::MAX);
                if all_digits(s@) {
                    lemma_dec_val_prefix_le(s@, i + 1);
                }
            }
            return Err(AnalyzerError::InvalidTargetFormat);
        }
        proof {
            let m = (u32::MAX - d) as int;
            assert(acc * 10 <= m / 10 * 10) by (nonlinear_arith)
                requires
                    acc <= m / 10,
            ;
            assert(m / 10 * 10 + m % 10 == m);
            assert(acc * 10 + d <= u32::MAX);
        }
        acc = acc * 10 + d;
        i += 1;
    }
    proof {
        assert(s@.take(n as int) =~= s@);
    }
    if acc == 0 {
        return Err(AnalyzerError::InvalidTargetFormat);
    }
    Ok(acc)
}

/// `s` with one `.git` suffix removed, where it has one.
pub open spec fn strip_git_suffix(s: Seq<char>) -> Seq<char> {
    if ".git"@.is_suffix_of(s) {
        s.take(s.len() - ".git"@.len())
    } else {
        s
    }
}

/// The owner/repo slug a git remote URL denotes: SSH remotes
/// `git@github.com:owner/repo.git` and HTTPS remotes
/// `https://github.com/owner/repo.git`, the `.git` suffix optional; any
/// other remote shape is rejected.
pub open spec fn remote_slug(s: Seq<char>) -> Option<Seq<char>> {
    let t = trim_ws(s);
    if "git@github.com:"@.is_prefix_of(t) {
        Some(strip_git_suffix(t.skip("git@github.com:"@.len() as int)))
    } else if "https://github.com/"@.is_prefix_of(t) {
        Some(strip_git_suffix(t.skip("https://github.com/"@.len() as int)))
    } else {
        None
    }
}

/// `s` with one `.git` suffix removed, where it has one.
fn strip_dot_git<'a>(s: &'a str) -> (r: &'a str)
    ensures
        r@ == strip_git_suffix(s@),
{
    proof {
        reveal_strlit(".git");
    }
    let n = s.unicode_len();
    if n >= 4 {
        let tail = s.substring_char(n - 4, n);
        if str_eq(tail, ".git") {
            proof {
                assert(".git"@.is_suffix_of(s@));
            }
            return s.substring_char(0, n - 4);
        }
    }
    s
}

/// Normalizes the trimmed output of a git remote lookup to an owner/repo
/// slug, or rejects it.
pub fn normalize_git_remote(remote_url: &str) -> (r: Result<String, AnalyzerError>)
    ensures
        match r {
            Ok(s) => remote_slug(remote_url@) == Some(s@),
            Err(e) => remote_slug(remote_url@) is None && e
                == AnalyzerError::RepositoryResolutionFailed,
        },
{
    let t = trim_ws_str(remote_url);
    let n = t.unicode_len();
    if has_prefix(t, "git@github.com:") {
        proof {
            reveal_strlit("git@github.com:");
        }
        let rest = t.substring_char(15, n);
        Ok(strip_dot_git(rest).to_owned())
    } else if has_prefix(t, "https://github.com/") {
        proof {
            reveal_strlit("https://github.com/");
        }
        let rest = t.substring_char(19, n);
        Ok(strip_dot_git(rest).to_owned())
    } else {
        Err(AnalyzerError::RepositoryResolutionFailed)
    }
}

} // verus!
