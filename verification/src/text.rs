//! Character-level helpers: splitting a selection on its first colon,
//! splitting captured output into lines, and substring search.

use vstd::prelude::*;
use vstd::string::StrSliceExecFns;
use vstd::string::StringExecFns;

verus! {

/// The prefix of `s` that stands before its first colon; all of `s` when no
/// colon occurs.
pub open spec fn key_of(s: Seq<char>) -> Seq<char>
    decreases s.len(),
{
    if s.len() == 0 {
        Seq::empty()
    } else if s[0] == ':' {
        Seq::empty()
    } else {
        seq![s[0]] + key_of(s.drop_first())
    }
}

/// Some character of `s` is `c`.
pub open spec fn has_char(s: Seq<char>, c: char) -> bool {
    exists|k: int| 0 <= k < s.len() && s[k] == c
}

proof fn lemma_key_of_prefix(s: Seq<char>, i: int)
    requires
        0 <= i <= s.len(),
        forall|k: int| 0 <= k < i ==> s[k] != ':',
        i == s.len() || s[i] == ':',
    ensures
        key_of(s) =~= s.take(i),
    decreases i,
{
    if s.len() == 0 {
    } else if i == 0 {
    } else {
        assert forall|k: int| 0 <= k < i - 1 implies s.drop_first()[k] != ':' by {
            assert(s.drop_first()[k] == s[k + 1]);
        }
        assert(i - 1 == s.drop_first().len() || s.drop_first()[i - 1] == ':');
        lemma_key_of_prefix(s.drop_first(), i - 1);
        assert(seq![s[0]] + s.drop_first().take(i - 1) =~= s.take(i));
    }
}

/// The child key named by a picker selection: everything before the first
/// colon, or the whole selection when it holds none.
pub fn selection_key(s: &str) -> (r: String)
    ensures
        r@ == key_of(s@),
{
    let n = s.unicode_len();
    let mut i: usize = 0;
    while i < n && s.get_char(i) != ':'
        invariant
            n == s@.len(),
            i <= n,
            forall|k: int| 0 <= k < i ==> s@[k] != ':',
        decreases n - i,
    {
        i = i + 1;
    }
    proof {
        lemma_key_of_prefix(s@, i as int);
        assert(s@.subrange(0, i as int) =~= s@.take(i as int));
    }
    let piece = s.substring_char(0, i);
    String::from_str(piece)
}

/// The position of the first line break in `s` at or after `i`; `s.len()`
/// when none follows.
pub open spec fn first_nl(s: Seq<char>, i: int) -> int
    decreases s.len() - i,
{
    if i < 0 || i >= s.len() {
        s.len() as int
    } else if s[i] == '\n' {
        i
    } else {
        first_nl(s, i + 1)
    }
}

/// The lines of `s`: segments between line breaks, a trailing line break
/// closing the last line rather than opening an empty one.
pub open spec fn lines_of(s: Seq<char>) -> Seq<Seq<char>>
    decreases s.len(),
{
    if s.len() == 0 {
        Seq::empty()
    } else {
        let k = first_nl(s, 0);
        if 0 <= k < s.len() {
            seq![s.take(k)] + lines_of(s.skip(k + 1))
        } else {
            seq![s]
        }
    }
}

proof fn lemma_first_nl_scan(s: Seq<char>, a: int, b: int)
    requires
        0 <= a <= b <= s.len(),
        forall|k: int| a <= k < b ==> s[k] != '\n',
        b == s.len() || s[b] == '\n',
    ensures
        first_nl(s, a) == b,
    decreases b - a,
{
    if a < b {
        lemma_first_nl_scan(s, a + 1, b);
    }
}

proof fn lemma_first_nl_skip(s: Seq<char>, p: int, b: int)
    requires
        0 <= p <= b <= s.len(),
        first_nl(s, p) == b,
    ensures
        first_nl(s.skip(p), 0) == b - p,
{
    assert forall|k: int| 0 <= k < b - p implies s.skip(p)[k] != '\n' by {
        assert(s.skip(p)[k] == s[p + k]);
        lemma_first_nl_min(s, p, p + k);
    }
    if b < s.len() {
        lemma_first_nl_hit(s, p);
        assert(s.skip(p)[b - p] == s[b]);
    }
    lemma_first_nl_scan(s.skip(p), 0, b - p);
}

proof fn lemma_first_nl_min(s: Seq<char>, a: int, k: int)
    requires
        0 <= a <= k < first_nl(s, a),
        first_nl(s, a) <= s.len(),
    ensures
        s[k] != '\n',
    decreases k - a,
{
    if a < k {
        lemma_first_nl_min(s, a + 1, k);
    }
}

proof fn lemma_first_nl_hit(s: Seq<char>, a: int)
    requires
        0 <= a,
        first_nl(s, a) < s.len(),
    ensures
        a <= first_nl(s, a),
        s[first_nl(s, a)] == '\n',
    decreases s.len() - a,
{
    if a < s.len() && s[a] != '\n' {
        lemma_first_nl_hit(s, a + 1);
    }
}

/// `s` split into lines.
pub fn split_lines(s: &str) -> (r: Vec<String>)
    ensures
        r.deep_view() == lines_of(s@),
{
    let n = s.unicode_len();
    let mut r: Vec<String> = Vec::new();
    let mut pos: usize = 0;
    let mut done = false;
    proof {
        assert(s@.skip(0) =~= s@);
        assert(r.deep_view() + lines_of(s@.skip(0)) =~= lines_of(s@));
    }
    while pos < n && !done
        invariant
            n == s@.len(),
            pos <= n,
            !done ==> r.deep_view() + lines_of(s@.skip(pos as int)) =~= lines_of(s@),
            done ==> r.deep_view() =~= lines_of(s@),
        decreases n - pos + (if done {
            0int
        } else {
            1int
        }),
    {
        let mut j = pos;
        while j < n && s.get_char(j) != '\n'
            invariant
                n == s@.len(),
                pos <= j <= n,
                forall|k: int| pos <= k < j ==> s@[k] != '\n',
            decreases n - j,
        {
            j = j + 1;
        }
        proof {
            lemma_first_nl_scan(s@, pos as int, j as int);
            lemma_first_nl_skip(s@, pos as int, j as int);
            assert(s@.skip(pos as int).take(j - pos) =~= s@.subrange(pos as int, j as int));
            if j < n {
                assert(s@.skip(pos as int).skip(j - pos + 1) =~= s@.skip(j as int + 1));
            } else {
                assert(s@.skip(pos as int) =~= s@.subrange(pos as int, j as int));
            }
        }
        let piece = String::from_str(s.substring_char(pos, j));
        let ghost r_old = r.deep_view();
        r.push(piece);
        proof {
            assert(r.deep_view() =~= r_old + seq![piece@]);
        }
        if j < n {
            pos = j + 1;
        } else {
            done = true;
        }
    }
    proof {
        if !done {
            assert(s@.skip(pos as int) =~= Seq::<char>::empty());
            assert(r.deep_view() + Seq::<Seq<char>>::empty() =~= r.deep_view());
        }
    }
    r
}

/// `s` without one trailing line break, if it carries one.
pub fn strip_trailing_newline(s: &str) -> (r: String)
    ensures
        s@.len() > 0 && s@.last() == '\n' ==> r@ == s@.drop_last(),
        !(s@.len() > 0 && s@.last() == '\n') ==> r@ == s@,
{
    let n = s.unicode_len();
    if n > 0 && s.get_char(n - 1) == '\n' {
        proof {
            assert(s@.subrange(0, n as int - 1) =~= s@.drop_last());
        }
        String::from_str(s.substring_char(0, n - 1))
    } else {
        proof {
            assert(s@.subrange(0, n as int) =~= s@);
        }
        String::from_str(s.substring_char(0, n))
    }
}

/// Character-for-character equality of two string slices.
pub fn str_eq(a: &str, b: &str) -> (r: bool)
    ensures
        r == (a@ == b@),
{
    let n = a.unicode_len();
    let m = b.unicode_len();
    if n != m {
        return false;
    }
    let mut i: usize = 0;
    while i < n
        invariant
            n == a@.len(),
            n == b@.len(),
            i <= n,
            forall|k: int| 0 <= k < i ==> a@[k] == b@[k],
        decreases n - i,
    {
        if a.get_char(i) != b.get_char(i) {
            return false;
        }
        i = i + 1;
    }
    proof {
        assert(a@ =~= b@);
    }
    true
}

/// `sub` occurs in `s` beginning at position `k`.
pub open spec fn has_sub_at(s: Seq<char>, sub: Seq<char>, k: int) -> bool {
    0 <= k && k + sub.len() <= s.len() && s.subrange(k, k + sub.len()) == sub
}

/// `sub` occurs somewhere in `s`.
pub open spec fn contains_sub(s: Seq<char>, sub: Seq<char>) -> bool {
    exists|k: int| has_sub_at(s, sub, k)
}

/// Substring search: whether `sub` occurs anywhere in `s`.
pub fn str_contains(s: &str, sub: &str) -> (r: bool)
    ensures
        r == contains_sub(s@, sub@),
{
    let n = s.unicode_len();
    let m = sub.unicode_len();
    if m > n {
        proof {
            assert forall|k: int| !has_sub_at(s@, sub@, k) by {}
        }
        return false;
    }
    if m == 0 {
        proof {
            assert(s@.subrange(0, 0) =~= sub@);
            assert(has_sub_at(s@, sub@, 0));
        }
        return true;
    }
    let mut k: usize = 0;
    while k <= n - m
        invariant
            n == s@.len(),
            m == sub@.len(),
            0 < m <= n,
            k <= n - m + 1,
            forall|q: int| 0 <= q < k ==> !has_sub_at(s@, sub@, q),
        decreases n - m + 1 - k,
    {
        let mut p: usize = 0;
        let mut all = true;
        while p < m && all
            invariant
                n == s@.len(),
                m == sub@.len(),
                k + m <= n,
                p <= m,
                all ==> forall|q: int| 0 <= q < p ==> s@[k + q] == sub@[q],
                !all ==> !has_sub_at(s@, sub@, k as int),
            decreases m - p,
        {
            if s.get_char(k + p) != sub.get_char(p) {
                all = false;
                proof {
                    assert(s@.subrange(k as int, k as int + m as int) == sub@ ==> s@.subrange(
                        k as int,
                        k as int + m as int,
                    )[p as int] == sub@[p as int]);
                    assert(s@.subrange(k as int, k as int + m as int)[p as int] == s@[k + p]);
                }
            }
            p = p + 1;
        }
        if all {
            proof {
                assert(s@.subrange(k as int, k as int + m as int) =~= sub@);
                assert(has_sub_at(s@, sub@, k as int));
            }
            return true;
        }
        k = k + 1;
    }
    proof {
        assert forall|q: int| !has_sub_at(s@, sub@, q) by {
            if 0 <= q && q + sub@.len() <= s@.len() {
                assert(q < k);
            }
        }
    }
    false
}

} // verus!
