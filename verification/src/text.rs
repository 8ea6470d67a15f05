//! Character-level text operations the parsers are built on: trimming
//! surrounding whitespace, splitting output into lines, equality tests and
//! label replacement, each specified over the string's view.

use vstd::prelude::*;
use vstd::string::*;

verus! {

/// Characters treated as surrounding whitespace when a line of task-runner
/// output is trimmed: space, tab, carriage return and line feed.
pub open spec fn is_space_char(c: char) -> bool {
    c == ' ' || c == '\t' || c == '\r' || c == '\n'
}

/// Executable counterpart of [`is_space_char`].
pub fn is_space(c: char) -> (r: bool)
    ensures
        r == is_space_char(c),
{
    c == ' ' || c == '\t' || c == '\r' || c == '\n'
}

/// First index at or after `i` holding a non-whitespace character, or the
/// length of `s` when only whitespace remains.
pub open spec fn skip_spaces(s: Seq<char>, i: int) -> int
    recommends
        0 <= i <= s.len(),
    decreases s.len() - i,
    when 0 <= i <= s.len()
{
    if i >= s.len() {
        s.len() as int
    } else if is_space_char(s[i]) {
        skip_spaces(s, i + 1)
    } else {
        i
    }
}

/// Position just past the last non-whitespace character of `s.take(j)`,
/// or `0` when `s.take(j)` is all whitespace.
pub open spec fn rskip_spaces(s: Seq<char>, j: int) -> int
    recommends
        0 <= j <= s.len(),
    decreases j,
    when 0 <= j
{
    if j <= 0 {
        0
    } else if is_space_char(s[j - 1]) {
        rskip_spaces(s, j - 1)
    } else {
        j
    }
}

/// `s` with all leading and trailing whitespace removed.
pub open spec fn trim_spec(s: Seq<char>) -> Seq<char> {
    let a = skip_spaces(s, 0);
    let b = rskip_spaces(s, s.len() as int);
    if a <= b {
        s.subrange(a, b)
    } else {
        Seq::empty()
    }
}

proof fn lemma_rskip_bounds(s: Seq<char>, j: int)
    requires
        0 <= j,
    ensures
        0 <= rskip_spaces(s, j) <= j,
    decreases j,
{
    if j > 0 && is_space_char(s[j - 1]) {
        lemma_rskip_bounds(s, j - 1);
    }
}

/// Trims surrounding whitespace from `s`, as [`trim_spec`] describes.
pub fn trim(s: &str) -> (r: String)
    ensures
        r@ == trim_spec(s@),
{
    let n: usize = s.unicode_len();
    let mut a: usize = 0;
    while a < n && is_space(s.get_char(a))
        invariant
            0 <= a <= n,
            n == s@.len(),
            skip_spaces(s@, 0) == skip_spaces(s@, a as int),
        decreases n - a,
    {
        a = a + 1;
    }
    assert(skip_spaces(s@, 0) == a as int);
    if a == n {
        proof {
            lemma_rskip_bounds(s@, s@.len() as int);
        }
        return String::new();
    }
    let mut b: usize = n;
    while is_space(s.get_char(b - 1))
        invariant
            a < b <= n,
            n == s@.len(),
            a == skip_spaces(s@, 0),
            a < n,
            !is_space_char(s@[a as int]),
            rskip_spaces(s@, s@.len() as int) == rskip_spaces(s@, b as int),
        decreases b,
    {
        b = b - 1;
    }
    assert(rskip_spaces(s@, s@.len() as int) == b as int);
    s.substring_char(a, b).to_owned()
}

/// The lines of `s` from position `i` on, `start` marking where the line
/// being read began: a line feed closes the current line, and a last line
/// that is not empty counts even without a closing line feed.
pub open spec fn split_from(s: Seq<char>, start: int, i: int) -> Seq<Seq<char>>
    recommends
        0 <= start <= i <= s.len(),
    decreases s.len() - i,
    when 0 <= start <= i <= s.len()
{
    if i >= s.len() {
        if start < s.len() {
            seq![s.subrange(start, s.len() as int)]
        } else {
            Seq::empty()
        }
    } else if s[i] == '\n' {
        seq![s.subrange(start, i)] + split_from(s, i + 1, i + 1)
    } else {
        split_from(s, start, i + 1)
    }
}

/// The lines of `s`: what stands between line feeds, a trailing line feed
/// closing the last line rather than opening an empty one.
pub open spec fn split_lines_spec(s: Seq<char>) -> Seq<Seq<char>> {
    split_from(s, 0, 0)
}

/// Splits `s` into lines, as [`split_lines_spec`] describes.
pub fn split_lines(s: &str) -> (r: Vec<String>)
    ensures
        r.deep_view() == split_lines_spec(s@),
{
    let n: usize = s.unicode_len();
    let mut r: Vec<String> = Vec::new();
    let mut start: usize = 0;
    let mut i: usize = 0;
    while i < n
        invariant
            0 <= start <= i <= n,
            n == s@.len(),
            split_lines_spec(s@) == r.deep_view() + split_from(s@, start as int, i as int),
        decreases n - i,
    {
        if s.get_char(i) == '\n' {
            let ghost r0 = r.deep_view();
            let line = s.substring_char(start, i).to_owned();
            r.push(line);
            proof {
                assert(r.deep_view() =~= r0.push(s@.subrange(start as int, i as int)));
                assert(r0 + split_from(s@, start as int, i as int) =~= r.deep_view()
                    + split_from(s@, i + 1, i + 1));
            }
            start = i + 1;
        }
        i = i + 1;
    }
    if start < n {
        let ghost r0 = r.deep_view();
        let line = s.substring_char(start, n).to_owned();
        r.push(line);
        proof {
            assert(r.deep_view() =~= r0.push(s@.subrange(start as int, n as int)));
        }
    }
    proof {
        assert(r.deep_view() =~= split_lines_spec(s@));
    }
    r
}

/// `s` with every occurrence of `pat` replaced by `rep`, scanning left to
/// right and never rescanning replaced text.
pub open spec fn replace_spec(s: Seq<char>, pat: Seq<char>, rep: Seq<char>) -> Seq<char>
    decreases s.len(),
    when pat.len() > 0
{
    if s.len() < pat.len() {
        s
    } else if s.take(pat.len() as int) == pat {
        rep + replace_spec(s.skip(pat.len() as int), pat, rep)
    } else {
        seq![s[0]] + replace_spec(s.skip(1), pat, rep)
    }
}

/// Whether `pat` occurs in `s` at position `i`.
fn matches_at(s: &str, pat: &str, i: usize) -> (r: bool)
    requires
        i + pat@.len() <= s@.len(),
        s@.len() <= usize::MAX,
    ensures
        r == (s@.subrange(i as int, i as int + pat@.len() as int) == pat@),
{
    let m: usize = pat.unicode_len();
    let mut j: usize = 0;
    while j < m
        invariant
            0 <= j <= m,
            m == pat@.len(),
            i + m <= s@.len(),
            s@.len() <= usize::MAX,
            forall|k: int| 0 <= k < j ==> s@[i + k] == pat@[k],
        decreases m - j,
    {
        if s.get_char(i + j) != pat.get_char(j) {
            proof {
                let sub = s@.subrange(i as int, i as int + pat@.len() as int);
                assert(sub[j as int] == s@[i + j]);
            }
            return false;
        }
        j = j + 1;
    }
    proof {
        assert(s@.subrange(i as int, i as int + pat@.len() as int) =~= pat@);
    }
    true
}

/// Replaces every occurrence of `pat` in `s` by `rep`, as [`replace_spec`]
/// describes.
pub fn replace_str(s: &str, pat: &str, rep: &str) -> (r: String)
    requires
        pat@.len() > 0,
    ensures
        r@ == replace_spec(s@, pat@, rep@),
{
    let n: usize = s.unicode_len();
    let m: usize = pat.unicode_len();
    let mut r = String::new();
    let mut i: usize = 0;
    proof {
        assert(s@.skip(0) =~= s@);
        assert(Seq::<char>::empty() + replace_spec(s@, pat@, rep@)
            =~= replace_spec(s@, pat@, rep@));
    }
    while i < n
        invariant
            0 <= i <= n,
            n == s@.len(),
            m == pat@.len(),
            m > 0,
            replace_spec(s@, pat@, rep@) == r@ + replace_spec(s@.skip(i as int), pat@, rep@),
        decreases n - i,
    {
        let ghost tail = s@.skip(i as int);
        let matched = if m <= n - i {
            matches_at(s, pat, i)
        } else {
            false
        };
        if matched {
            let ghost r0 = r@;
            r.append(rep);
            proof {
                assert(tail.take(m as int) =~= s@.subrange(i as int, i as int + m as int));
                assert(tail.skip(m as int) =~= s@.skip(i as int + m as int));
                assert(r0 + (rep@ + replace_spec(s@.skip(i as int + m as int), pat@, rep@))
                    == r@ + replace_spec(s@.skip(i as int + m as int), pat@, rep@));
            }
            i = i + m;
        } else {
            let ghost r0 = r@;
            let c = s.substring_char(i, i + 1);
            r.append(c);
            proof {
                assert(r@ =~= r0 + seq![s@[i as int]]);
                if tail.len() >= m {
                    assert(tail.take(m as int) =~= s@.subrange(i as int, i as int + m as int));
                    assert(tail.take(m as int) != pat@);
                }
                assert(tail.skip(1) =~= s@.skip(i as int + 1));
                if tail.len() < m {
                    assert(replace_spec(tail, pat@, rep@) == tail);
                    assert(replace_spec(tail.skip(1), pat@, rep@) == tail.skip(1));
                    assert(r0 + tail =~= (r0 + seq![tail[0]]) + tail.skip(1));
                } else {
                    assert(replace_spec(tail, pat@, rep@)
                        == seq![tail[0]] + replace_spec(tail.skip(1), pat@, rep@));
                }
                assert(tail[0] == s@[i as int]);
                assert(r0 + replace_spec(tail, pat@, rep@)
                    == r@ + replace_spec(s@.skip(i as int + 1), pat@, rep@));
            }
            i = i + 1;
        }
    }
    proof {
        assert(s@.skip(n as int) =~= Seq::<char>::empty());
        assert(replace_spec(Seq::<char>::empty(), pat@, rep@) == Seq::<char>::empty());
        assert(r@ + Seq::<char>::empty() =~= r@);
    }
    r
}

/// Character-for-character equality of two string slices.
pub fn str_eq(a: &str, b: &str) -> (r: bool)
    ensures
        r == (a@ == b@),
{
    let na: usize = a.unicode_len();
    let nb: usize = b.unicode_len();
    if na != nb {
        return false;
    }
    let mut i: usize = 0;
    while i < na
        invariant
            0 <= i <= na,
            na == a@.len(),
            na == b@.len(),
            forall|j: int| 0 <= j < i ==> a@[j] == b@[j],
        decreases na - i,
    {
        if a.get_char(i) != b.get_char(i) {
            return false;
        }
        i = i + 1;
    }
    proof {
        assert(a@ =~= b@);
    }
    true
}

} // verus!
