//! Seeds, and the ten-character form of a seed that the mixing steps work on.

use crate::error::PotdError;
use crate::text::{push_char, same_text, text_result};
use crate::vals::DEFAULT_SEED;
use vstd::prelude::*;
use vstd::utf8::{encode_utf8, is_ascii_chars, is_ascii_chars_encode_utf8};

verus! {

/// The length of the normalized seed.
pub const PADDED_LEN: usize = 10;

/// The length of a seed as `str::len` counts it: the bytes of its UTF-8 form.
/// For a seed of ASCII characters this is the number of characters.
pub open spec fn seed_length(seed: Seq<char>) -> nat {
    encode_utf8(seed).len()
}

/// Whether a seed is accepted: the default seed, or one of 4 to 8 bytes.
pub open spec fn is_valid_seed(seed: Seq<char>) -> bool {
    seed == DEFAULT_SEED@ || 4 <= seed_length(seed) <= 8
}

/// The seed repeated from its start, over and over, and cut off after ten
/// characters.
pub open spec fn pad_seed_spec(seed: Seq<char>) -> Seq<char> {
    Seq::new(PADDED_LEN as nat, |i: int| seed[i % (seed.len() as int)])
}

/// What [`validate_seed`] makes of a seed: its ten-character form, or
/// `InvalidSeedLength`.
pub open spec fn validate_seed_spec(seed: Seq<char>) -> Result<Seq<char>, PotdError> {
    if !is_valid_seed(seed) {
        Err(PotdError::InvalidSeedLength)
    } else if seed == DEFAULT_SEED@ {
        Ok(seed)
    } else {
        Ok(pad_seed_spec(seed))
    }
}

/// A seed of ASCII characters is as long as it has characters.
pub proof fn lemma_ascii_seed_length(seed: Seq<char>)
    requires
        is_ascii_chars(seed),
    ensures
        seed_length(seed) == seed.len(),
{
    is_ascii_chars_encode_utf8(seed);
}

/// A seed that has bytes has characters.
pub proof fn lemma_seed_not_empty(seed: Seq<char>)
    requires
        seed_length(seed) > 0,
    ensures
        seed.len() > 0,
{
}

/// The default seed has ten characters, which make ten bytes.
pub proof fn lemma_default_seed_len()
    ensures
        DEFAULT_SEED@.len() == PADDED_LEN,
        seed_length(DEFAULT_SEED@) == PADDED_LEN,
{
    reveal_strlit("MPSJKMDHAI");
    lemma_ascii_seed_length(DEFAULT_SEED@);
}

/// A seed of ten characters is its own ten-character form.
pub proof fn lemma_pad_of_ten(seed: Seq<char>)
    requires
        seed.len() == PADDED_LEN,
    ensures
        pad_seed_spec(seed) == seed,
{
    assert(pad_seed_spec(seed) =~= seed);
}

/// Every accepted seed has a ten-character form.
pub proof fn lemma_padded_len(seed: Seq<char>)
    ensures
        validate_seed_spec(seed) matches Ok(padded) ==> padded.len() == PADDED_LEN,
{
    lemma_default_seed_len();
}

/// Repeats `seed` from its start until ten characters are reached; a longer
/// seed is cut off after its tenth character.
pub fn pad_seed(seed: &str) -> (padded: String)
    requires
        seed@.len() > 0,
    ensures
        padded@ == pad_seed_spec(seed@),
{
    let n: usize = seed.unicode_len();
    let mut padded = String::new();
    let mut i: usize = 0;
    while i < PADDED_LEN
        invariant
            n == seed@.len(),
            n > 0,
            i <= PADDED_LEN,
            padded@.len() == i,
            forall|k: int| 0 <= k < i ==> padded@[k] == seed@[k % (n as int)],
        decreases PADDED_LEN - i,
    {
        push_char(&mut padded, seed.get_char(i % n));
        i += 1;
    }
    assert(padded@ =~= pad_seed_spec(seed@));
    padded
}

/// Checks the length of `seed` and returns its ten-character form.
///
/// The default seed is returned as it is. Any other seed must be 4 to 8 bytes
/// long.
pub fn validate_seed(seed: &str) -> (res: Result<String, PotdError>)
    ensures
        text_result(res) == validate_seed_spec(seed@),
        res matches Ok(padded) ==> padded@.len() == PADDED_LEN,
{
    proof {
        lemma_padded_len(seed@);
    }
    let length: usize = seed.as_bytes().len();
    if same_text(seed, DEFAULT_SEED) {
        Ok(String::from_str(seed))
    } else if length < 4 || length > 8 {
        Err(PotdError::InvalidSeedLength)
    } else {
        proof {
            lemma_seed_not_empty(seed@);
        }
        Ok(pad_seed(seed))
    }
}

} // verus!
