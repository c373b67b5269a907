//! Character-sequence utilities shared by the parsers: finding separators,
//! splitting, trimming whitespace, and stripping bracketing characters.

use vstd::prelude::*;
use vstd::string::StrSliceExecFns;

verus! {

/// ASCII whitespace tolerated around header parts and arguments.
pub open spec fn is_ws(c: char) -> bool {
    c == ' ' || c == '\t' || c == '\r' || c == '\n'
}

/// Executable mirror of [`is_ws`].
pub fn char_is_ws(c: char) -> (r: bool)
    ensures
        r == is_ws(c),
{
    c == ' ' || c == '\t' || c == '\r' || c == '\n'
}

/// The pieces of `s` between occurrences of `sep`, in order.  The separator
/// belongs to no piece, and n separators yield n + 1 pieces, so the result is
/// never empty.
pub open spec fn split_on(s: Seq<char>, sep: char) -> Seq<Seq<char>>
    decreases s.len(),
{
    match s.index_of_first(sep) {
        Some(i) => {
            if 0 <= i < s.len() {
                seq![s.take(i)] + split_on(s.skip(i + 1), sep)
            } else {
                seq![s]
            }
        },
        None => seq![s],
    }
}

/// `s` without its leading whitespace.
pub open spec fn trim_start_ws(s: Seq<char>) -> Seq<char>
    decreases s.len(),
{
    if s.len() > 0 && is_ws(s[0]) {
        trim_start_ws(s.drop_first())
    } else {
        s
    }
}

/// `s` without its trailing whitespace.
pub open spec fn trim_end_ws(s: Seq<char>) -> Seq<char>
    decreases s.len(),
{
    if s.len() > 0 && is_ws(s[s.len() - 1]) {
        trim_end_ws(s.drop_last())
    } else {
        s
    }
}

/// `s` without leading or trailing whitespace.
pub open spec fn trim_ws(s: Seq<char>) -> Seq<char> {
    trim_end_ws(trim_start_ws(s))
}

/// `s` without its leading occurrences of `c`.
pub open spec fn drop_leading(s: Seq<char>, c: char) -> Seq<char>
    decreases s.len(),
{
    if s.len() > 0 && s[0] == c {
        drop_leading(s.drop_first(), c)
    } else {
        s
    }
}

/// `s` without its trailing occurrences of `c`.
pub open spec fn drop_trailing(s: Seq<char>, c: char) -> Seq<char>
    decreases s.len(),
{
    if s.len() > 0 && s[s.len() - 1] == c {
        drop_trailing(s.drop_last(), c)
    } else {
        s
    }
}

/// Trimming the leading whitespace of `s` drops exactly its longest
/// whitespace prefix.
proof fn lemma_trim_start_ws_skip(s: Seq<char>, a: int)
    requires
        0 <= a <= s.len(),
        forall|j: int| 0 <= j < a ==> is_ws(s[j]),
        a < s.len() ==> !is_ws(s[a]),
    ensures
        trim_start_ws(s) == s.skip(a),
    decreases a,
{
    if a == 0 {
        assert(s.skip(0) =~= s);
    } else {
        lemma_trim_start_ws_skip(s.drop_first(), a - 1);
        assert(s.drop_first().skip(a - 1) =~= s.skip(a));
    }
}

/// Trimming the trailing whitespace of `s` keeps exactly its longest prefix
/// that ends in a non-whitespace character.
proof fn lemma_trim_end_ws_take(s: Seq<char>, b: int)
    requires
        0 <= b <= s.len(),
        forall|j: int| b <= j < s.len() ==> is_ws(s[j]),
        b > 0 ==> !is_ws(s[b - 1]),
    ensures
        trim_end_ws(s) == s.take(b),
    decreases s.len() - b,
{
    if b == s.len() {
        assert(s.take(b) =~= s);
    } else {
        lemma_trim_end_ws_take(s.drop_last(), b);
        assert(s.drop_last().take(b) =~= s.take(b));
    }
}

/// As [`lemma_trim_start_ws_skip`], for a single dropped character.
proof fn lemma_drop_leading_skip(s: Seq<char>, c: char, a: int)
    requires
        0 <= a <= s.len(),
        forall|j: int| 0 <= j < a ==> s[j] == c,
        a < s.len() ==> s[a] != c,
    ensures
        drop_leading(s, c) == s.skip(a),
    decreases a,
{
    if a == 0 {
        assert(s.skip(0) =~= s);
    } else {
        lemma_drop_leading_skip(s.drop_first(), c, a - 1);
        assert(s.drop_first().skip(a - 1) =~= s.skip(a));
    }
}

/// As [`lemma_trim_end_ws_take`], for a single dropped character.
proof fn lemma_drop_trailing_take(s: Seq<char>, c: char, b: int)
    requires
        0 <= b <= s.len(),
        forall|j: int| b <= j < s.len() ==> s[j] == c,
        b > 0 ==> s[b - 1] != c,
    ensures
        drop_trailing(s, c) == s.take(b),
    decreases s.len() - b,
{
    if b == s.len() {
        assert(s.take(b) =~= s);
    } else {
        lemma_drop_trailing_take(s.drop_last(), c, b);
        assert(s.drop_last().take(b) =~= s.take(b));
    }
}

/// Index of the first occurrence of `sep` in `s`, if there is one.
pub fn first_occurrence(s: &str, sep: char) -> (r: Option<usize>)
    ensures
        match r {
            Some(i) => s@.index_of_first(sep) == Some(i as int) && i < s@.len(),
            None => s@.index_of_first(sep) is None,
        },
{
    let n = s.unicode_len();
    let mut i: usize = 0;
    while i < n
        invariant
            n == s@.len(),
            i <= n,
            forall|j: int| 0 <= j < i ==> s@[j] != sep,
        decreases n - i,
    {
        if s.get_char(i) == sep {
            proof {
                s@.index_of_first_ensures(sep);
                assert(s@.contains(sep));
            }
            return Some(i);
        }
        i += 1;
    }
    proof {
        s@.index_of_first_ensures(sep);
        assert(!s@.contains(sep));
    }
    None
}

/// Whether the views of `a` and `b` are the same character sequence.
pub fn str_eq(a: &str, b: &str) -> (r: bool)
    ensures
        r == (a@ == b@),
{
    let na = a.unicode_len();
    let nb = b.unicode_len();
    if na != nb {
        return false;
    }
    let mut i: usize = 0;
    while i < na
        invariant
            na == a@.len(),
            na == b@.len(),
            i <= na,
            forall|j: int| 0 <= j < i ==> a@[j] == b@[j],
        decreases na - i,
    {
        if s_get(a, i) != s_get(b, i) {
            return false;
        }
        i += 1;
    }
    proof {
        assert(a@ =~= b@);
    }
    true
}

/// Character of `s` at position `i`, counted in characters.
fn s_get(s: &str, i: usize) -> (c: char)
    requires
        i < s@.len(),
    ensures
        c == s@[i as int],
{
    s.get_char(i)
}

/// How many leading whitespace characters `s` has.
fn leading_ws_count(s: &str) -> (a: usize)
    ensures
        a <= s@.len(),
        forall|j: int| 0 <= j < a ==> is_ws(s@[j]),
        a < s@.len() ==> !is_ws(s@[a as int]),
{
    let n = s.unicode_len();
    let mut a: usize = 0;
    while a < n
        invariant
            n == s@.len(),
            a <= n,
            forall|j: int| 0 <= j < a ==> is_ws(s@[j]),
        decreases n - a,
    {
        if !char_is_ws(s.get_char(a)) {
            return a;
        }
        a += 1;
    }
    a
}

/// Bound of the longest prefix of `s` that ends in a non-whitespace
/// character; everything from the bound on is whitespace.
fn trailing_ws_bound(s: &str) -> (b: usize)
    ensures
        b <= s@.len(),
        forall|j: int| b <= j < s@.len() ==> is_ws(s@[j]),
        b > 0 ==> !is_ws(s@[b - 1]),
{
    let n = s.unicode_len();
    let mut b: usize = n;
    while b > 0
        invariant
            n == s@.len(),
            b <= n,
            forall|j: int| b <= j < n ==> is_ws(s@[j]),
        decreases b,
    {
        if !char_is_ws(s.get_char(b - 1)) {
            return b;
        }
        b -= 1;
    }
    b
}

/// `s` with leading and trailing whitespace removed.
pub fn trim_ws_str<'a>(s: &'a str) -> (r: &'a str)
    ensures
        r@ == trim_ws(s@),
{
    let n = s.unicode_len();
    let a = leading_ws_count(s);
    let t = s.substring_char(a, n);
    proof {
        lemma_trim_start_ws_skip(s@, a as int);
        assert(t@ == s@.skip(a as int));
    }
    let b = trailing_ws_bound(t);
    let r = t.substring_char(0, b);
    proof {
        lemma_trim_end_ws_take(t@, b as int);
        assert(r@ == t@.take(b as int));
    }
    r
}

/// The pieces of `s` between occurrences of `sep`, as owned strings.
pub fn split_str(s: &str, sep: char) -> (parts: Vec<String>)
    ensures
        parts.deep_view() == split_on(s@, sep),
    decreases s@.len(),
{
    match first_occurrence(s, sep) {
        None => {
            let mut parts: Vec<String> = Vec::new();
            parts.push(s.to_owned());
            proof {
                assert(parts.deep_view() =~= seq![s@]);
            }
            parts
        },
        Some(i) => {
            let n = s.unicode_len();
            let head = s.substring_char(0, i).to_owned();
            let rest = s.substring_char(i + 1, n);
            let mut parts = split_str(rest, sep);
            parts.insert(0, head);
            proof {
                assert(parts.deep_view() =~= seq![s@.take(i as int)] + split_on(
                    s@.skip(i + 1),
                    sep,
                ));
            }
            parts
        },
    }
}

/// A URL token with its angle brackets removed: leading `<` and trailing `>`.
pub open spec fn strip_brackets(s: Seq<char>) -> Seq<char> {
    drop_trailing(drop_leading(s, '<'), '>')
}

/// How many leading occurrences of `c` the string `s` has.
fn leading_char_count(s: &str, c: char) -> (a: usize)
    ensures
        a <= s@.len(),
        forall|j: int| 0 <= j < a ==> s@[j] == c,
        a < s@.len() ==> s@[a as int] != c,
{
    let n = s.unicode_len();
    let mut a: usize = 0;
    while a < n
        invariant
            n == s@.len(),
            a <= n,
            forall|j: int| 0 <= j < a ==> s@[j] == c,
        decreases n - a,
    {
        if s.get_char(a) != c {
            return a;
        }
        a += 1;
    }
    a
}

/// Bound of the longest prefix of `s` that does not end in `c`.
fn trailing_char_bound(s: &str, c: char) -> (b: usize)
    ensures
        b <= s@.len(),
        forall|j: int| b <= j < s@.len() ==> s@[j] == c,
        b > 0 ==> s@[b - 1] != c,
{
    let n = s.unicode_len();
    let mut b: usize = n;
    while b > 0
        invariant
            n == s@.len(),
            b <= n,
            forall|j: int| b <= j < n ==> s@[j] == c,
        decreases b,
    {
        if s.get_char(b - 1) != c {
            return b;
        }
        b -= 1;
    }
    b
}

/// `s` without its trailing occurrences of `c`.
pub fn drop_trailing_str<'a>(s: &'a str, c: char) -> (r: &'a str)
    ensures
        r@ == drop_trailing(s@, c),
{
    let b = trailing_char_bound(s, c);
    let r = s.substring_char(0, b);
    proof {
        lemma_drop_trailing_take(s@, c, b as int);
    }
    r
}

/// Whether `p`'s characters are a prefix of `s`'s.
pub fn has_prefix(s: &str, p: &str) -> (r: bool)
    ensures
        r == p@.is_prefix_of(s@),
{
    let np = p.unicode_len();
    let ns = s.unicode_len();
    if np > ns {
        return false;
    }
    let head = s.substring_char(0, np);
    str_eq(head, p)
}

/// Executable mirror of [`strip_brackets`].
pub fn strip_brackets_str<'a>(s: &'a str) -> (r: &'a str)
    ensures
        r@ == strip_brackets(s@),
{
    let n = s.unicode_len();
    let a = leading_char_count(s, '<');
    let t = s.substring_char(a, n);
    proof {
        lemma_drop_leading_skip(s@, '<', a as int);
        assert(t@ == s@.skip(a as int));
    }
    let b = trailing_char_bound(t, '>');
    let r = t.substring_char(0, b);
    proof {
        lemma_drop_trailing_take(t@, '>', b as int);
        assert(r@ == t@.take(b as int));
    }
    r
}

} // verus!
