//! Verified helpers over text: character search, substring matching,
//! placeholder replacement, and line scanning.

use vstd::prelude::*;

verus! {

/// The pattern `pat` occurs in `s` at position `i`.
pub open spec fn occurs_at(s: Seq<char>, pat: Seq<char>, i: int) -> bool {
    0 <= i && i + pat.len() <= s.len() && s.subrange(i, i + pat.len() as int) == pat
}

/// The pattern `pat` occurs somewhere in `s`.
pub open spec fn contains_seq(s: Seq<char>, pat: Seq<char>) -> bool {
    exists|i: int| occurs_at(s, pat, i)
}

/// Compare two string slices for equality of their character sequences.
pub fn str_eq(a: &str, b: &str) -> (r: bool)
    ensures
        r == (a@ == b@),
{
    let alen = a.unicode_len();
    let blen = b.unicode_len();
    if alen != blen {
        assert(a@ != b@);
        return false;
    }
    let mut i: usize = 0;
    while i < alen
        invariant
            alen == a@.len(),
            blen == b@.len(),
            alen == blen,
            i <= alen,
            forall|j: int| 0 <= j < i ==> a@[j] == b@[j],
        decreases alen - i,
    {
        if a.get_char(i) != b.get_char(i) {
            assert(a@ != b@);
            return false;
        }
        i += 1;
    }
    assert(a@ =~= b@);
    true
}

/// The pattern matches at position `i` of `s`.
pub fn matches_at(s: &str, pat: &str, i: usize) -> (r: bool)
    requires
        i + pat@.len() <= s@.len(),
    ensures
        r == occurs_at(s@, pat@, i as int),
{
    let n = s.unicode_len();
    let m = pat.unicode_len();
    let mut j: usize = 0;
    while j < m
        invariant
            n == s@.len(),
            m == pat@.len(),
            i + m <= n,
            j <= m,
            forall|k: int| 0 <= k < j ==> s@[i + k] == pat@[k],
        decreases m - j,
    {
        if s.get_char(i + j) != pat.get_char(j) {
            assert(s@.subrange(i as int, i + m) != pat@) by {
                assert(s@.subrange(i as int, i + m)[j as int] != pat@[j as int]);
            }
            return false;
        }
        j += 1;
    }
    assert(s@.subrange(i as int, i + m) =~= pat@);
    true
}

/// Index of the first occurrence of `c` in `s` at or after `from`;
/// `s@.len()` when there is none.
pub fn find_char(s: &str, c: char, from: usize) -> (r: usize)
    requires
        from <= s@.len(),
    ensures
        from <= r <= s@.len(),
        forall|j: int| from <= j < r ==> s@[j] != c,
        r < s@.len() ==> s@[r as int] == c,
{
    let n = s.unicode_len();
    let mut i: usize = from;
    while i < n
        invariant
            n == s@.len(),
            from <= i <= n,
            forall|j: int| from <= j < i ==> s@[j] != c,
        decreases n - i,
    {
        if s.get_char(i) == c {
            return i;
        }
        i += 1;
    }
    n
}

/// Index of the last occurrence of `c` in `s`, if any.
pub fn rfind_char(s: &str, c: char) -> (r: Option<usize>)
    ensures
        match r {
            Some(i) => i < s@.len() && s@[i as int] == c && forall|j: int|
                i < j < s@.len() ==> s@[j] != c,
            None => forall|j: int| 0 <= j < s@.len() ==> s@[j] != c,
        },
{
    let n = s.unicode_len();
    let mut i: usize = n;
    while i > 0
        invariant
            n == s@.len(),
            i <= n,
            forall|j: int| i <= j < n ==> s@[j] != c,
        decreases i,
    {
        i -= 1;
        if s.get_char(i) == c {
            return Some(i);
        }
    }
    None
}

/// First position at or after `from` where `pat` occurs in `s`, if any.
pub fn find_from(s: &str, pat: &str, from: usize) -> (r: Option<usize>)
    requires
        from <= s@.len(),
    ensures
        match r {
            Some(i) => from <= i && occurs_at(s@, pat@, i as int) && forall|j: int|
                from <= j < i ==> !occurs_at(s@, pat@, j),
            None => forall|j: int| from <= j ==> !occurs_at(s@, pat@, j),
        },
{
    let n = s.unicode_len();
    let m = pat.unicode_len();
    if m > n {
        return None;
    }
    if m == 0 {
        assert(s@.subrange(from as int, from as int) =~= pat@);
        return Some(from);
    }
    let mut i: usize = from;
    while i <= n - m
        invariant
            n == s@.len(),
            m == pat@.len(),
            1 <= m <= n,
            from <= i <= n,
            forall|j: int| from <= j < i ==> !occurs_at(s@, pat@, j),
        decreases n - i,
    {
        if matches_at(s, pat, i) {
            return Some(i);
        }
        i += 1;
    }
    None
}

/// `s` with every occurrence of `pat` replaced by `to`, scanning left to
/// right and never re-examining replaced text, as `str::replace` does.
pub open spec fn replaced(s: Seq<char>, pat: Seq<char>, to: Seq<char>) -> Seq<char>
    decreases s.len(),
{
    if pat.len() == 0 || s.len() == 0 {
        s
    } else if pat.len() <= s.len() && s.subrange(0, pat.len() as int) == pat {
        to + replaced(s.skip(pat.len() as int), pat, to)
    } else {
        seq![s[0]] + replaced(s.skip(1), pat, to)
    }
}

/// Does `pat` occur anywhere in `s`?
pub fn contains_sub(s: &str, pat: &str) -> (r: bool)
    ensures
        r == contains_seq(s@, pat@),
{
    match find_from(s, pat, 0) {
        Some(_) => true,
        None => false,
    }
}

/// The characters of `s` after the last occurrence of `sep`; all of `s`
/// when `sep` does not occur, as `rsplit_once` keeps the whole string.
pub open spec fn tail_after(s: Seq<char>, sep: char) -> Seq<char>
    decreases s.len(),
{
    if s.len() == 0 {
        s
    } else if s.last() == sep {
        Seq::empty()
    } else {
        tail_after(s.drop_last(), sep).push(s.last())
    }
}

proof fn lemma_tail_after_no_sep(s: Seq<char>, sep: char)
    requires
        forall|j: int| 0 <= j < s.len() ==> s[j] != sep,
    ensures
        tail_after(s, sep) == s,
    decreases s.len(),
{
    if s.len() > 0 {
        lemma_tail_after_no_sep(s.drop_last(), sep);
        assert(tail_after(s, sep) =~= s);
    }
}

proof fn lemma_tail_after_last(s: Seq<char>, sep: char, i: int)
    requires
        0 <= i < s.len(),
        s[i] == sep,
        forall|j: int| i < j < s.len() ==> s[j] != sep,
    ensures
        tail_after(s, sep) == s.skip(i + 1),
    decreases s.len(),
{
    if i == s.len() - 1 {
        assert(tail_after(s, sep) =~= s.skip(i + 1));
    } else {
        lemma_tail_after_last(s.drop_last(), sep, i);
        assert(tail_after(s, sep) =~= s.skip(i + 1));
    }
}

/// The part of `s` after its last `sep`, or all of `s` when there is none.
pub fn tail_after_sep<'a>(s: &'a str, sep: char) -> (r: &'a str)
    ensures
        r@ == tail_after(s@, sep),
{
    let n = s.unicode_len();
    match rfind_char(s, sep) {
        Some(i) => {
            let r = s.substring_char(i + 1, n);
            proof {
                lemma_tail_after_last(s@, sep, i as int);
                assert(r@ =~= s@.skip(i + 1));
            }
            r
        },
        None => {
            proof {
                lemma_tail_after_no_sep(s@, sep);
            }
            s
        },
    }
}

/// How many times the character `c` occurs in `s`.
pub open spec fn count_char(s: Seq<char>, c: char) -> nat
    decreases s.len(),
{
    if s.len() == 0 {
        0
    } else {
        count_char(s.drop_last(), c) + (if s.last() == c {
            1nat
        } else {
            0nat
        })
    }
}

/// Count the occurrences of `c` in `s`.
pub fn count_char_in(s: &str, c: char) -> (r: usize)
    ensures
        r == count_char(s@, c),
{
    let n = s.unicode_len();
    let mut cnt: usize = 0;
    let mut i: usize = 0;
    proof {
        assert(s@.take(0) =~= Seq::<char>::empty());
    }
    while i < n
        invariant
            n == s@.len(),
            i <= n,
            cnt <= i,
            cnt == count_char(s@.take(i as int), c),
        decreases n - i,
    {
        proof {
            assert(s@.take(i + 1).drop_last() =~= s@.take(i as int));
            assert(s@.take(i + 1).last() == s@[i as int]);
        }
        if s.get_char(i) == c {
            cnt += 1;
        }
        i += 1;
    }
    proof {
        assert(s@.take(n as int) =~= s@);
    }
    cnt
}

/// `c` matches the pattern character `p` when they are equal, or when `p` is
/// a lower-case ASCII letter and `c` is its upper-case form: the match a
/// lower-cased haystack would give against a lower-case pattern.
pub open spec fn matches_ci(c: char, p: char) -> bool {
    c == p || (97 <= p as int <= 122 && c as int + 32 == p as int)
}

/// The pattern occurs at position `i` of `s`, ignoring ASCII case.
pub open spec fn ci_occurs_at(s: Seq<char>, pat: Seq<char>, i: int) -> bool {
    0 <= i && i + pat.len() <= s.len() && forall|j: int|
        0 <= j < pat.len() ==> matches_ci(s[i + j], pat[j])
}

/// The pattern occurs somewhere in `s`, ignoring ASCII case.
pub open spec fn contains_ci(s: Seq<char>, pat: Seq<char>) -> bool {
    exists|i: int| ci_occurs_at(s, pat, i)
}

fn char_matches_ci(c: char, p: char) -> (r: bool)
    ensures
        r == matches_ci(c, p),
{
    if c == p {
        true
    } else {
        let cv = c as u32;
        let pv = p as u32;
        97 <= pv && pv <= 122 && cv + 32 == pv
    }
}

/// Does `pat` occur anywhere in `s`, ignoring ASCII case?
pub fn contains_ci_sub(s: &str, pat: &str) -> (r: bool)
    ensures
        r == contains_ci(s@, pat@),
{
    let n = s.unicode_len();
    let m = pat.unicode_len();
    if m > n {
        assert(forall|i: int| !ci_occurs_at(s@, pat@, i));
        return false;
    }
    if m == 0 {
        assert(ci_occurs_at(s@, pat@, 0));
        return true;
    }
    let mut i: usize = 0;
    while i <= n - m
        invariant
            n == s@.len(),
            m == pat@.len(),
            1 <= m <= n,
            i <= n,
            forall|k: int| 0 <= k < i ==> !ci_occurs_at(s@, pat@, k),
        decreases n - i,
    {
        let mut j: usize = 0;
        let mut hit = true;
        while j < m
            invariant
                n == s@.len(),
                m == pat@.len(),
                i + m <= n,
                j <= m,
                hit ==> forall|k: int| 0 <= k < j ==> matches_ci(s@[i + k], pat@[k]),
                !hit ==> !ci_occurs_at(s@, pat@, i as int),
            decreases m - j,
        {
            if !char_matches_ci(s.get_char(i + j), pat.get_char(j)) {
                assert(!ci_occurs_at(s@, pat@, i as int));
                hit = false;
                j = m;
            } else {
                j += 1;
            }
        }
        if hit {
            assert(ci_occurs_at(s@, pat@, i as int));
            return true;
        }
        i += 1;
    }
    assert(forall|k: int| 0 <= k ==> !ci_occurs_at(s@, pat@, k)) by {
        assert(forall|k: int| k > n - m ==> !ci_occurs_at(s@, pat@, k));
    }
    false
}

/// Every occurrence of `pat` in `s` replaced by `to`.
pub fn replace_all(s: &str, pat: &str, to: &str) -> (r: String)
    requires
        pat@.len() > 0,
    ensures
        r@ == replaced(s@, pat@, to@),
{
    let n = s.unicode_len();
    let m = pat.unicode_len();
    let mut out = String::new();
    let mut i: usize = 0;
    proof {
        assert(s@.skip(0) =~= s@);
        assert(out@ + replaced(s@, pat@, to@) =~= replaced(s@, pat@, to@));
    }
    while i < n
        invariant
            n == s@.len(),
            m == pat@.len(),
            m > 0,
            i <= n,
            out@ + replaced(s@.skip(i as int), pat@, to@) == replaced(s@, pat@, to@),
        decreases n - i,
    {
        let ghost tail = s@.skip(i as int);
        if m <= n - i && matches_at(s, pat, i) {
            out.append(to);
            proof {
                assert(tail.subrange(0, m as int) =~= s@.subrange(i as int, i + m));
                assert(tail.subrange(0, m as int) == pat@);
                assert(replaced(tail, pat@, to@) == to@ + replaced(
                    tail.skip(m as int),
                    pat@,
                    to@,
                ));
                assert(tail.skip(m as int) =~= s@.skip(i + m));
                assert(out@ + replaced(s@.skip(i + m), pat@, to@) =~= replaced(s@, pat@, to@));
            }
            i += m;
        } else {
            let piece = s.substring_char(i, i + 1);
            out.append(piece);
            proof {
                assert(tail.len() > 0);
                assert(!(m <= tail.len() && tail.subrange(0, m as int) == pat@)) by {
                    if m <= tail.len() && tail.subrange(0, m as int) == pat@ {
                        assert(s@.subrange(i as int, i + m) =~= tail.subrange(0, m as int));
                        assert(occurs_at(s@, pat@, i as int));
                    }
                }
                assert(replaced(tail, pat@, to@) == seq![tail[0]] + replaced(
                    tail.skip(1),
                    pat@,
                    to@,
                ));
                assert(piece@ =~= seq![tail[0]]);
                assert(tail.skip(1) =~= s@.skip(i + 1));
                assert(out@ + replaced(s@.skip(i + 1), pat@, to@) =~= replaced(s@, pat@, to@));
            }
            i += 1;
        }
    }
    proof {
        assert(s@.skip(n as int) =~= Seq::<char>::empty());
        assert(out@ + replaced(s@.skip(n as int), pat@, to@) =~= out@);
    }
    out
}

}
