//! Searching, splitting and substituting in character sequences.

use vstd::prelude::*;

verus! {

/// The position of the first `c` in `s`, or `s.len()` if there is none.
pub open spec fn find_char(s: Seq<char>, c: char) -> int
    decreases s.len(),
{
    if s.len() == 0 || s[0] == c {
        0
    } else {
        1 + find_char(s.drop_first(), c)
    }
}

/// The fields of `s` between occurrences of `sep`. There is always at
/// least one field; empty fields are kept.
pub open spec fn split(s: Seq<char>, sep: char) -> Seq<Seq<char>>
    decreases s.len(),
{
    let i = find_char(s, sep);
    if 0 <= i < s.len() {
        seq![s.subrange(0, i)] + split(s.subrange(i + 1, s.len() as int), sep)
    } else {
        seq![s]
    }
}

/// `find_char` is the first position that holds `c`.
pub proof fn lemma_find_char(s: Seq<char>, c: char, k: int)
    requires
        0 <= k <= s.len(),
        forall|j: int| 0 <= j < k ==> s[j] != c,
        k < s.len() ==> s[k] == c,
    ensures
        find_char(s, c) == k,
    decreases k,
{
    if k > 0 {
        let t = s.drop_first();
        assert forall|j: int| 0 <= j < k - 1 implies t[j] != c by {
            assert(t[j] == s[j + 1]);
        }
        lemma_find_char(t, c, k - 1);
    }
}

/// Whether `needle` stands in `hay` at position `i`.
pub open spec fn occurs_at(hay: Seq<char>, needle: Seq<char>, i: int) -> bool {
    &&& 0 <= i
    &&& i + needle.len() <= hay.len()
    &&& hay.subrange(i, i + needle.len()) == needle
}

/// Whether `needle` stands somewhere in `hay`.
pub open spec fn contains(hay: Seq<char>, needle: Seq<char>) -> bool {
    exists|i: int| occurs_at(hay, needle, i)
}

/// Whether `i` is the first position at which `needle` stands in `hay`.
pub open spec fn first_occurrence(hay: Seq<char>, needle: Seq<char>, i: int) -> bool {
    &&& occurs_at(hay, needle, i)
    &&& forall|j: int| 0 <= j < i ==> !occurs_at(hay, needle, j)
}

/// `s` with every occurrence of the non-empty `from` replaced by `to`,
/// scanning from the left; occurrences do not overlap.
pub open spec fn replace(s: Seq<char>, from: Seq<char>, to: Seq<char>) -> Seq<char>
    decreases s.len(),
{
    if from.len() == 0 || s.len() < from.len() {
        s
    } else if s.subrange(0, from.len() as int) == from {
        to + replace(s.subrange(from.len() as int, s.len() as int), from, to)
    } else {
        seq![s[0]] + replace(s.drop_first(), from, to)
    }
}

/// `s` without its trailing run of `c`.
pub open spec fn strip_trailing(s: Seq<char>, c: char) -> Seq<char>
    decreases s.len(),
{
    if s.len() > 0 && s.last() == c {
        strip_trailing(s.drop_last(), c)
    } else {
        s
    }
}

/// `s` without its leading run of `c`.
pub open spec fn strip_leading(s: Seq<char>, c: char) -> Seq<char>
    decreases s.len(),
{
    if s.len() > 0 && s[0] == c {
        strip_leading(s.drop_first(), c)
    } else {
        s
    }
}

/// Whether `needle` stands in `hay` at position `i`.
pub(crate) fn matches_at(hay: &Vec<char>, needle: &Vec<char>, i: usize) -> (b: bool)
    requires
        i <= hay@.len(),
    ensures
        b == occurs_at(hay@, needle@, i as int),
{
    let n = needle.len();
    let h = hay.len();
    if n > h - i {
        return false;
    }
    let mut k: usize = 0;
    while k < n
        invariant
            k <= n == needle@.len(),
            i + n <= h == hay@.len(),
            forall|j: int| 0 <= j < k ==> hay@[i + j] == needle@[j],
        decreases n - k,
    {
        if hay[i + k] != needle[k] {
            proof {
                let sub = hay@.subrange(i as int, i + n);
                assert(sub[k as int] == hay@[i + k]);
            }
            return false;
        }
        k += 1;
    }
    proof {
        let sub = hay@.subrange(i as int, i + n);
        assert forall|j: int| 0 <= j < n implies sub[j] == needle@[j] by {
            assert(sub[j] == hay@[i + j]);
        }
        assert(sub =~= needle@);
    }
    true
}

/// The first position from `start` on at which `needle` stands in `hay`.
pub(crate) fn find_from(hay: &Vec<char>, needle: &Vec<char>, start: usize) -> (r: Option<usize>)
    requires
        start <= hay@.len(),
    ensures
        match r {
            Some(i) => start <= i && occurs_at(hay@, needle@, i as int) && forall|j: int|
                start <= j < i ==> !occurs_at(hay@, needle@, j),
            None => forall|j: int| start <= j ==> !occurs_at(hay@, needle@, j),
        },
{
    let mut i: usize = start;
    while i < hay.len()
        invariant
            start <= i <= hay@.len(),
            forall|j: int| start <= j < i ==> !occurs_at(hay@, needle@, j),
        decreases hay@.len() - i,
    {
        if matches_at(hay, needle, i) {
            return Some(i);
        }
        i += 1;
    }
    if matches_at(hay, needle, i) {
        Some(i)
    } else {
        None
    }
}

/// The first position at which `needle` stands in `hay`.
pub fn find(hay: &Vec<char>, needle: &Vec<char>) -> (r: Option<usize>)
    ensures
        match r {
            Some(i) => first_occurrence(hay@, needle@, i as int),
            None => !contains(hay@, needle@),
        },
{
    find_from(hay, needle, 0)
}

/// Whether `needle` stands somewhere in the string `hay`.
pub fn str_contains(hay: &str, needle: &str) -> (b: bool)
    ensures
        b == contains(hay@, needle@),
{
    let h = crate::text::chars_of(hay);
    let n = crate::text::chars_of(needle);
    find(&h, &n).is_some()
}

/// Whether the character `c` occurs in the string `s`.
pub fn str_contains_char(s: &str, c: char) -> (b: bool)
    ensures
        b == s@.contains(c),
{
    let v = crate::text::chars_of(s);
    let mut i: usize = 0;
    while i < v.len()
        invariant
            i <= v@.len(),
            v@ == s@,
            forall|j: int| 0 <= j < i ==> v@[j] != c,
        decreases v@.len() - i,
    {
        if v[i] == c {
            return true;
        }
        i += 1;
    }
    false
}

/// `s` with every occurrence of `from` replaced by `to`. An empty `from`
/// occurs nowhere.
pub fn replace_chars(s: &Vec<char>, from: &Vec<char>, to: &Vec<char>) -> (r: Vec<char>)
    ensures
        r@ == replace(s@, from@, to@),
{
    let n = s.len();
    let m = from.len();
    if m == 0 {
        return s.clone();
    }
    let mut out: Vec<char> = Vec::new();
    let mut i: usize = 0;
    proof {
        assert(s@.subrange(0, n as int) == s@);
        assert(out@ + replace(s@, from@, to@) == replace(s@, from@, to@));
    }
    while i < n
        invariant
            i <= n == s@.len(),
            m == from@.len(),
            m > 0,
            replace(s@, from@, to@) == out@ + replace(s@.subrange(i as int, n as int), from@, to@),
        decreases n - i,
    {
        let ghost rest = s@.subrange(i as int, n as int);
        if matches_at(s, from, i) {
            proof {
                assert(rest.subrange(0, m as int) == s@.subrange(i as int, i + m));
                assert(rest.subrange(m as int, rest.len() as int) == s@.subrange(
                    i + m,
                    n as int,
                ));
            }
            let ghost before = out@;
            crate::text::append_chars(&mut out, to);
            proof {
                let tail = replace(s@.subrange(i + m, n as int), from@, to@);
                assert(before + (to@ + tail) == (before + to@) + tail);
            }
            i += m;
        } else {
            proof {
                if rest.len() >= m {
                    assert(rest.subrange(0, m as int) == s@.subrange(i as int, i + m));
                }
                assert(rest.drop_first() == s@.subrange(i + 1, n as int));
                let tail = replace(s@.subrange(i + 1, n as int), from@, to@);
                if rest.len() >= m {
                    assert(replace(rest, from@, to@) == seq![rest[0]] + tail);
                } else {
                    lemma_replace_short(rest, from@, to@);
                    lemma_replace_short(rest.drop_first(), from@, to@);
                    assert(rest == seq![rest[0]] + rest.drop_first());
                }
                assert(out@ + (seq![rest[0]] + tail) == out@.push(s@[i as int]) + tail);
            }
            out.push(s[i]);
            i += 1;
        }
    }
    proof {
        assert(s@.subrange(n as int, n as int) == Seq::<char>::empty());
        assert(out@ + Seq::<char>::empty() == out@);
    }
    out
}

/// A sequence shorter than the pattern holds no occurrence of it.
pub proof fn lemma_replace_short(s: Seq<char>, from: Seq<char>, to: Seq<char>)
    requires
        s.len() < from.len(),
    ensures
        replace(s, from, to) == s,
{
}

/// The fields of `s` between occurrences of `sep`, each as the pair of
/// its bounds in `s`.
pub fn split_bounds(s: &Vec<char>, sep: char) -> (r: Vec<(usize, usize)>)
    ensures
        r@.len() == split(s@, sep).len(),
        forall|k: int|
            0 <= k < r@.len() ==> (#[trigger] r@[k]).0 <= r@[k].1 <= s@.len() && s@.subrange(
                r@[k].0 as int,
                r@[k].1 as int,
            ) == split(s@, sep)[k],
{
    let n = s.len();
    let mut out: Vec<(usize, usize)> = Vec::new();
    let mut start: usize = 0;
    let mut i: usize = 0;
    proof {
        assert(s@.subrange(0, n as int) == s@);
    }
    while i < n
        invariant
            start <= i <= n == s@.len(),
            forall|j: int| start <= j < i ==> s@[j] != sep,
            split(s@, sep).len() == out@.len() + split(s@.subrange(start as int, n as int), sep).len(),
            forall|k: int|
                0 <= k < out@.len() ==> (#[trigger] out@[k]).0 <= out@[k].1 <= s@.len()
                    && s@.subrange(out@[k].0 as int, out@[k].1 as int) == split(s@, sep)[k],
            forall|k: int|
                0 <= k < split(s@.subrange(start as int, n as int), sep).len() ==> split(
                    s@,
                    sep,
                )[out@.len() + k] == #[trigger] split(s@.subrange(start as int, n as int), sep)[k],
        decreases n - i,
    {
        if s[i] == sep {
            let ghost rest = s@.subrange(start as int, n as int);
            let ghost after = s@.subrange(i + 1, n as int);
            proof {
                assert forall|j: int| 0 <= j < i - start implies rest[j] != sep by {
                    assert(rest[j] == s@[start + j]);
                }
                assert(rest[i - start] == sep);
                lemma_find_char(rest, sep, i - start);
                assert(rest.subrange(0, i - start) == s@.subrange(start as int, i as int));
                assert(rest.subrange(i - start + 1, rest.len() as int) == after);
                assert(split(rest, sep) == seq![s@.subrange(start as int, i as int)] + split(
                    after,
                    sep,
                ));
                assert(split(rest, sep)[0] == s@.subrange(start as int, i as int));
                assert forall|k: int| 0 <= k < split(after, sep).len() implies split(s@, sep)[out@.len()
                    + 1 + k] == #[trigger] split(after, sep)[k] by {
                    assert(split(rest, sep)[k + 1] == split(after, sep)[k]);
                }
            }
            out.push((start, i));
            start = i + 1;
        }
        i += 1;
    }
    proof {
        let rest = s@.subrange(start as int, n as int);
        assert forall|j: int| 0 <= j < rest.len() implies rest[j] != sep by {
            assert(rest[j] == s@[start + j]);
        }
        lemma_find_char(rest, sep, rest.len() as int);
        assert(split(rest, sep) == seq![rest]);
        assert(split(rest, sep)[0] == rest);
    }
    out.push((start, n));
    out
}

/// The length of `s` without its trailing run of `c`.
pub fn strip_trailing_len(s: &Vec<char>, c: char) -> (b: usize)
    ensures
        b <= s@.len(),
        s@.subrange(0, b as int) == strip_trailing(s@, c),
{
    let mut b: usize = s.len();
    proof {
        assert(s@.subrange(0, b as int) == s@);
    }
    while b > 0 && s[b - 1] == c
        invariant
            b <= s@.len(),
            strip_trailing(s@, c) == strip_trailing(s@.subrange(0, b as int), c),
        decreases b,
    {
        proof {
            let t = s@.subrange(0, b as int);
            assert(t.last() == s@[b - 1]);
            assert(t.drop_last() == s@.subrange(0, b - 1));
        }
        b -= 1;
    }
    proof {
        assert(s@.subrange(0, s@.len() as int) == s@);
        let t = s@.subrange(0, b as int);
        if b > 0 {
            assert(t.last() == s@[b - 1]);
        }
    }
    b
}

/// The number of characters in the leading run of `c` in `s`.
pub fn strip_leading_len(s: &Vec<char>, c: char) -> (a: usize)
    ensures
        a <= s@.len(),
        s@.subrange(a as int, s@.len() as int) == strip_leading(s@, c),
{
    let n = s.len();
    let mut a: usize = 0;
    proof {
        assert(s@.subrange(0, n as int) == s@);
    }
    while a < n && s[a] == c
        invariant
            a <= n == s@.len(),
            strip_leading(s@, c) == strip_leading(s@.subrange(a as int, n as int), c),
        decreases n - a,
    {
        proof {
            let t = s@.subrange(a as int, n as int);
            assert(t[0] == s@[a as int]);
            assert(t.drop_first() == s@.subrange(a + 1, n as int));
        }
        a += 1;
    }
    proof {
        assert(s@.subrange(0, n as int) == s@);
        let t = s@.subrange(a as int, n as int);
        if a < n {
            assert(t[0] == s@[a as int]);
        }
    }
    a
}

} // verus!
