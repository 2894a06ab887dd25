//! Verified character-level string utilities: trimming, prefix and
//! substring matching, substring replacement, first-line extraction,
//! and joining. All contracts are stated over `Seq<char>` views.

use vstd::prelude::*;

verus! {

/// Whitespace as trimming understands it: the characters with the
/// Unicode `White_Space` property.
pub open spec fn is_ws(c: char) -> bool {
    ||| c == ' '
    ||| ('\u{0009}' <= c && c <= '\u{000D}')
    ||| c == '\u{0085}'
    ||| c == '\u{00A0}'
    ||| c == '\u{1680}'
    ||| ('\u{2000}' <= c && c <= '\u{200A}')
    ||| c == '\u{2028}'
    ||| c == '\u{2029}'
    ||| c == '\u{202F}'
    ||| c == '\u{205F}'
    ||| c == '\u{3000}'
}

/// Executable test for a whitespace character.
pub fn ws_char(c: char) -> (r: bool)
    ensures
        r == is_ws(c),
{
    c == ' ' || ('\u{0009}' <= c && c <= '\u{000D}') || c == '\u{0085}' || c == '\u{00A0}'
        || c == '\u{1680}' || ('\u{2000}' <= c && c <= '\u{200A}') || c == '\u{2028}'
        || c == '\u{2029}' || c == '\u{202F}' || c == '\u{205F}' || c == '\u{3000}'
}

/// The sequence with its leading whitespace run removed.
pub open spec fn drop_leading_ws(s: Seq<char>) -> Seq<char>
    decreases s.len(),
{
    if s.len() == 0 {
        s
    } else if is_ws(s[0]) {
        drop_leading_ws(s.skip(1))
    } else {
        s
    }
}

/// The sequence with its trailing whitespace run removed.
pub open spec fn drop_trailing_ws(s: Seq<char>) -> Seq<char>
    decreases s.len(),
{
    if s.len() == 0 {
        s
    } else if is_ws(s[s.len() - 1]) {
        drop_trailing_ws(s.take(s.len() - 1))
    } else {
        s
    }
}

/// The sequence with leading and trailing whitespace removed.
pub open spec fn trim_spec(s: Seq<char>) -> Seq<char> {
    drop_trailing_ws(drop_leading_ws(s))
}

proof fn lemma_drop_leading_ws(s: Seq<char>, a: int)
    requires
        0 <= a <= s.len(),
        forall|k: int| 0 <= k < a ==> is_ws(s[k]),
        a < s.len() ==> !is_ws(s[a]),
    ensures
        drop_leading_ws(s) == s.skip(a),
    decreases a,
{
    if a == 0 {
        assert(s.skip(0) =~= s);
    } else {
        assert(is_ws(s[0]));
        let s1 = s.skip(1);
        assert(forall|k: int| 0 <= k < a - 1 ==> is_ws(s1[k]));
        lemma_drop_leading_ws(s1, a - 1);
        assert(s1.skip(a - 1) =~= s.skip(a));
    }
}

proof fn lemma_drop_trailing_ws(s: Seq<char>, b: int)
    requires
        0 <= b <= s.len(),
        forall|k: int| b <= k < s.len() ==> is_ws(s[k]),
        b > 0 ==> !is_ws(s[b - 1]),
    ensures
        drop_trailing_ws(s) == s.take(b),
    decreases s.len() - b,
{
    if b == s.len() {
        if s.len() == 0 {
            assert(s.take(b) =~= s);
        } else {
            assert(!is_ws(s[s.len() - 1]));
            assert(s.take(b) =~= s);
        }
    } else {
        assert(is_ws(s[s.len() - 1]));
        let s1 = s.take(s.len() - 1);
        assert(forall|k: int| b <= k < s1.len() ==> is_ws(s1[k]));
        lemma_drop_trailing_ws(s1, b);
        assert(s1.take(b) =~= s.take(b));
    }
}

/// Remove leading and trailing whitespace from a string.
pub fn trim(s: &str) -> (r: String)
    ensures
        r@ == trim_spec(s@),
{
    let n = s.unicode_len();
    let mut a: usize = 0;
    while a < n && ws_char(s.get_char(a))
        invariant
            0 <= a <= n,
            n == s@.len(),
            forall|k: int| 0 <= k < a ==> is_ws(s@[k]),
        decreases n - a,
    {
        a = a + 1;
    }
    let mut b: usize = n;
    while b > a && ws_char(s.get_char(b - 1))
        invariant
            a <= b <= n,
            n == s@.len(),
            forall|k: int| b <= k < n ==> is_ws(s@[k]),
            a < n ==> !is_ws(s@[a as int]),
        decreases b,
    {
        b = b - 1;
    }
    proof {
        lemma_drop_leading_ws(s@, a as int);
        let m = s@.skip(a as int);
        if b == a {
            // the whole remainder is whitespace, so nothing survives trimming
            assert(forall|k: int| 0 <= k < m.len() ==> is_ws(m[k]));
            lemma_drop_trailing_ws(m, 0);
            assert(m.take(0) =~= s@.subrange(a as int, b as int));
        } else {
            assert(!is_ws(s@[b - 1]));
            assert(forall|k: int| b - a <= k < m.len() ==> is_ws(m[k]));
            lemma_drop_trailing_ws(m, b - a);
            assert(m.take(b - a) =~= s@.subrange(a as int, b as int));
        }
    }
    s.substring_char(a, b).to_owned()
}

/// True when `p` occurs in `s` starting at index `i`.
pub open spec fn match_at(s: Seq<char>, p: Seq<char>, i: int) -> bool {
    0 <= i && i + p.len() <= s.len() && s.subrange(i, i + p.len()) == p
}

/// True when `p` is a prefix of `s`.
pub open spec fn has_prefix(s: Seq<char>, p: Seq<char>) -> bool {
    match_at(s, p, 0)
}

/// True when `p` occurs somewhere in `s`.
pub open spec fn contains_sub(s: Seq<char>, p: Seq<char>) -> bool {
    exists|i: int| match_at(s, p, i)
}

/// Check whether `p` occurs in `s` at position `i`.
pub fn match_at_exec(s: &str, p: &str, i: usize) -> (r: bool)
    ensures
        r == match_at(s@, p@, i as int),
{
    let n = s.unicode_len();
    let m = p.unicode_len();
    if i > n || m > n - i {
        assert(!match_at(s@, p@, i as int));
        return false;
    }
    let mut k: usize = 0;
    while k < m
        invariant
            0 <= k <= m,
            i + m <= n,
            n == s@.len(),
            m == p@.len(),
            forall|j: int| 0 <= j < k ==> s@[i + j] == p@[j],
        decreases m - k,
    {
        if s.get_char(i + k) != p.get_char(k) {
            proof {
                if match_at(s@, p@, i as int) {
                    assert(s@.subrange(i as int, i + m) == p@);
                    assert(s@.subrange(i as int, i + m)[k as int] == p@[k as int]);
                }
            }
            return false;
        }
        k = k + 1;
    }
    proof {
        assert(s@.subrange(i as int, i + m) =~= p@);
    }
    true
}

/// Check whether `p` is a prefix of `s`.
pub fn starts_with(s: &str, p: &str) -> (r: bool)
    ensures
        r == has_prefix(s@, p@),
{
    match_at_exec(s, p, 0)
}

/// Check whether `p` occurs anywhere in `s`.
pub fn contains(s: &str, p: &str) -> (r: bool)
    ensures
        r == contains_sub(s@, p@),
{
    let n = s.unicode_len();
    let m = p.unicode_len();
    if m > n {
        assert(forall|i: int| !match_at(s@, p@, i));
        return false;
    }
    if m == 0 {
        proof {
            assert(s@.subrange(0, 0) =~= p@);
            assert(match_at(s@, p@, 0));
        }
        return true;
    }
    let mut i: usize = 0;
    while i <= n - m
        invariant
            0 <= i <= n - m + 1,
            0 < m <= n,
            n == s@.len(),
            m == p@.len(),
            forall|j: int| 0 <= j < i ==> !match_at(s@, p@, j),
        decreases n - i,
    {
        if match_at_exec(s, p, i) {
            return true;
        }
        i = i + 1;
    }
    proof {
        assert(forall|j: int| j > n - m ==> !match_at(s@, p@, j));
    }
    false
}

/// The suffix of `s` from character index `i` on.
pub fn suffix_from(s: &str, i: usize) -> (r: String)
    requires
        i <= s@.len(),
    ensures
        r@ == s@.skip(i as int),
{
    let n = s.unicode_len();
    let r = s.substring_char(i, n).to_owned();
    proof {
        assert(s@.subrange(i as int, n as int) =~= s@.skip(i as int));
    }
    r
}

/// `s` with every occurrence of `f` (found left to right, non-overlapping)
/// replaced by `t`; `s` itself when `f` is empty.
pub open spec fn replace_spec(s: Seq<char>, f: Seq<char>, t: Seq<char>) -> Seq<char>
    decreases s.len(),
{
    if f.len() == 0 || s.len() < f.len() {
        s
    } else if match_at(s, f, 0) {
        t + replace_spec(s.skip(f.len() as int), f, t)
    } else {
        s.take(1) + replace_spec(s.skip(1), f, t)
    }
}

/// Replace every occurrence of `f` in `s` by `t`, scanning left to right.
pub fn replace(s: &str, f: &str, t: &str) -> (r: String)
    requires
        f@.len() > 0,
    ensures
        r@ == replace_spec(s@, f@, t@),
{
    let n = s.unicode_len();
    let m = f.unicode_len();
    let mut out = String::new();
    proof {
        assert(s@.skip(0) =~= s@);
        assert(out@ + replace_spec(s@, f@, t@) =~= replace_spec(s@, f@, t@));
    }
    let mut i: usize = 0;
    while i < n
        invariant
            0 <= i <= n,
            n == s@.len(),
            m == f@.len(),
            m > 0,
            out@ + replace_spec(s@.skip(i as int), f@, t@) == replace_spec(s@, f@, t@),
        decreases n - i,
    {
        let ghost rem = s@.skip(i as int);
        if m <= n - i && match_at_exec(s, f, i) {
            out.append(t);
            proof {
                assert(rem.subrange(0, m as int) =~= s@.subrange(i as int, i + m));
                assert(match_at(rem, f@, 0));
                assert(rem.skip(m as int) =~= s@.skip(i + m));
                assert(out@ + replace_spec(s@.skip(i + m), f@, t@) =~= replace_spec(
                    s@,
                    f@,
                    t@,
                ));
            }
            i = i + m;
        } else {
            let c = s.substring_char(i, i + 1);
            out.append(c);
            proof {
                if m <= rem.len() && match_at(rem, f@, 0) {
                    assert(s@.subrange(i as int, i + m) =~= rem.subrange(0, m as int));
                    assert(match_at(s@, f@, i as int));
                }
                assert(c@ =~= rem.take(1));
                assert(rem.skip(1) =~= s@.skip(i + 1));
                assert(out@ + replace_spec(s@.skip(i + 1), f@, t@) =~= replace_spec(
                    s@,
                    f@,
                    t@,
                ));
            }
            i = i + 1;
        }
    }
    proof {
        assert(s@.skip(n as int) =~= Seq::<char>::empty());
        assert(out@ + replace_spec(Seq::<char>::empty(), f@, t@) =~= out@);
    }
    out
}

/// The index of the first newline in `s`, or `s.len()` when there is none.
pub open spec fn first_nl(s: Seq<char>) -> int
    decreases s.len(),
{
    if s.len() == 0 {
        0
    } else if s[0] == '\n' {
        0
    } else {
        1 + first_nl(s.skip(1))
    }
}

proof fn lemma_first_nl(s: Seq<char>, e: int)
    requires
        0 <= e <= s.len(),
        forall|k: int| 0 <= k < e ==> s[k] != '\n',
        e < s.len() ==> s[e] == '\n',
    ensures
        first_nl(s) == e,
    decreases e,
{
    if e == 0 {
    } else {
        let s1 = s.skip(1);
        assert(forall|k: int| 0 <= k < e - 1 ==> s1[k] != '\n');
        lemma_first_nl(s1, e - 1);
    }
}

/// Everything in `s` before its first newline.
pub open spec fn first_line_spec(s: Seq<char>) -> Seq<char> {
    s.take(first_nl(s))
}

/// Return the prefix of `s` before the first newline (all of `s` if none).
pub fn first_line(s: &str) -> (r: String)
    ensures
        r@ == first_line_spec(s@),
{
    let n = s.unicode_len();
    let mut e: usize = 0;
    while e < n && s.get_char(e) != '\n'
        invariant
            0 <= e <= n,
            n == s@.len(),
            forall|k: int| 0 <= k < e ==> s@[k] != '\n',
        decreases n - e,
    {
        e = e + 1;
    }
    proof {
        lemma_first_nl(s@, e as int);
        assert(s@.subrange(0, e as int) =~= s@.take(e as int));
    }
    s.substring_char(0, e).to_owned()
}

} // verus!
