//! Counting the lines and words of a response body.

use crate::text::{char_is_whitespace, chars_of, is_whitespace};
use vstd::prelude::*;

verus! {

/// How often `c` occurs in `s`.
pub open spec fn count_char(s: Seq<char>, c: char) -> nat
    decreases s.len(),
{
    if s.len() == 0 {
        0
    } else {
        count_char(s.drop_last(), c) + if s.last() == c {
            1nat
        } else {
            0nat
        }
    }
}

/// The number of lines of `s`: one for each line feed, and one more for
/// text behind the last line feed.
pub open spec fn line_count(s: Seq<char>) -> nat {
    count_char(s, '\n') + if s.len() > 0 && s.last() != '\n' {
        1nat
    } else {
        0nat
    }
}

/// Whether a word begins at position `i` of `s`: a character that is no
/// white space, at the start or behind white space.
pub open spec fn starts_word(s: Seq<char>, i: int) -> bool {
    &&& 0 <= i < s.len()
    &&& !is_whitespace(s[i])
    &&& (i == 0 || is_whitespace(s[i - 1]))
}

/// The number of words of `s`: maximal runs of characters that are no
/// white space.
pub open spec fn word_count(s: Seq<char>) -> nat
    decreases s.len(),
{
    if s.len() == 0 {
        0
    } else {
        word_count(s.drop_last()) + if starts_word(s, s.len() - 1) {
            1nat
        } else {
            0nat
        }
    }
}

/// There are no more line feeds, and no more words, than characters.
pub proof fn lemma_counts_bounded(s: Seq<char>)
    ensures
        count_char(s, '\n') <= s.len(),
        word_count(s) <= s.len(),
        line_count(s) <= s.len(),
    decreases s.len(),
{
    if s.len() > 0 {
        lemma_counts_bounded(s.drop_last());
    }
}

/// The number of lines of `body`.
pub fn count_lines(body: &str) -> (n: usize)
    ensures
        n == line_count(body@),
{
    let v = chars_of(body);
    let mut feeds: usize = 0;
    let mut i: usize = 0;
    proof {
        assert(v@.subrange(0, 0) == Seq::<char>::empty());
    }
    while i < v.len()
        invariant
            i <= v@.len(),
            feeds == count_char(v@.subrange(0, i as int), '\n'),
            feeds <= i,
        decreases v@.len() - i,
    {
        proof {
            let next = v@.subrange(0, i + 1);
            assert(next.drop_last() == v@.subrange(0, i as int));
            assert(next.last() == v@[i as int]);
        }
        if v[i] == '\n' {
            feeds += 1;
        }
        i += 1;
    }
    proof {
        assert(v@.subrange(0, v@.len() as int) == v@);
    }
    if v.len() > 0 && v[v.len() - 1] != '\n' {
        proof {
            // the last character is no line feed, so fewer feeds than characters
            let init = v@.drop_last();
            lemma_counts_bounded(init);
        }
        feeds + 1
    } else {
        feeds
    }
}

/// The number of words of `body`.
pub fn count_words(body: &str) -> (n: usize)
    ensures
        n == word_count(body@),
{
    let v = chars_of(body);
    let mut words: usize = 0;
    let mut i: usize = 0;
    proof {
        assert(v@.subrange(0, 0) == Seq::<char>::empty());
    }
    while i < v.len()
        invariant
            i <= v@.len(),
            words == word_count(v@.subrange(0, i as int)),
            words <= i,
        decreases v@.len() - i,
    {
        proof {
            let next = v@.subrange(0, i + 1);
            assert(next.drop_last() == v@.subrange(0, i as int));
            assert(next[i as int] == v@[i as int]);
            if i > 0 {
                assert(next[i - 1] == v@[i - 1]);
            }
        }
        if !char_is_whitespace(v[i]) && (i == 0 || char_is_whitespace(v[i - 1])) {
            words += 1;
        }
        i += 1;
    }
    proof {
        assert(v@.subrange(0, v@.len() as int) == v@);
    }
    words
}

} // verus!
