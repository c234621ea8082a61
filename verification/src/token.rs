//! The token of the synthetic candidates: a pseudo-random string that no
//! real word is likely to equal.

use crate::text::push_char;
use vstd::prelude::*;

verus! {

/// The letter of the token alphabet at `index`: `a` to `z`, then `0` to
/// `9`.
pub open spec fn alphabet_char(index: nat) -> char {
    if index < 26 {
        (97 + index) as char
    } else {
        (48 + index - 26) as char
    }
}

/// The state that follows `state` in the linear congruential sequence.
pub open spec fn next_state(state: usize) -> usize {
    state.wrapping_mul(1103515245).wrapping_add(12345)
}

/// The token of `len` letters that the sequence gives from `seed` on.
pub open spec fn token(seed: usize, len: nat) -> Seq<char>
    decreases len,
{
    if len == 0 {
        Seq::empty()
    } else {
        seq![alphabet_char((seed % 36) as nat)] + token(next_state(seed), (len - 1) as nat)
    }
}

/// Whether `c` is a letter of the token alphabet.
pub open spec fn in_alphabet(c: char) -> bool {
    ('a' <= c <= 'z') || ('0' <= c <= '9')
}

/// A token has the length asked for and holds letters of the alphabet
/// only.
pub proof fn lemma_token_shape(seed: usize, len: nat)
    ensures
        token(seed, len).len() == len,
        forall|i: int| 0 <= i < len ==> in_alphabet(#[trigger] token(seed, len)[i]),
    decreases len,
{
    if len > 0 {
        lemma_token_shape(next_state(seed), (len - 1) as nat);
        let head = alphabet_char((seed % 36) as nat);
        let tail = token(next_state(seed), (len - 1) as nat);
        assert(in_alphabet(head));
        assert forall|i: int| 0 <= i < len implies in_alphabet(#[trigger] token(seed, len)[i]) by {
            if i > 0 {
                assert(token(seed, len)[i] == tail[i - 1]);
            }
        }
    }
}

/// The time that has passed since the Unix epoch, in nanoseconds and cut
/// to the machine's word (`SystemTime::elapsed` on `UNIX_EPOCH`). Nothing
/// is claimed of the value: it differs from call to call. With the clock
/// before the epoch it is zero.
#[verifier::external_body]
fn clock_seed() -> usize {
    match std::time::UNIX_EPOCH.elapsed() {
        Ok(passed) => passed.as_nanos() as usize,
        Err(_) => 0,
    }
}

/// The token of `len` letters for `seed`.
pub fn token_from_seed(seed: usize, len: usize) -> (text: String)
    ensures
        text@ == token(seed, len as nat),
{
    let mut text = String::new();
    let mut n: usize = seed;
    let mut i: usize = 0;
    while i < len
        invariant
            i <= len,
            token(seed, len as nat) == text@ + token(n, (len - i) as nat),
        decreases len - i,
    {
        let index = n % 36;
        let c = if index < 26 {
            (97 + index as u8) as char
        } else {
            (48 + (index as u8 - 26)) as char
        };
        let ghost before = text@;
        let ghost rest = token(next_state(n), (len - i - 1) as nat);
        proof {
            assert(c == alphabet_char(index as nat));
            assert(before + (seq![c] + rest) =~= before.push(c) + rest);
        }
        push_char(&mut text, c);
        n = n.wrapping_mul(1103515245).wrapping_add(12345);
        i += 1;
    }
    proof {
        assert(text@ + Seq::<char>::empty() =~= text@);
    }
    text
}

/// A token of `len` letters, seeded from the clock: some token of the
/// sequence, of the length asked for and made of the alphabet's letters.
pub fn rand_string(len: usize) -> (text: String)
    ensures
        exists|seed: usize| text@ == token(seed, len as nat),
        text@.len() == len,
        forall|i: int| 0 <= i < len ==> in_alphabet(#[trigger] text@[i]),
{
    let seed = clock_seed();
    proof {
        lemma_token_shape(seed, len as nat);
    }
    token_from_seed(seed, len)
}

} // verus!
