//! The encrypted form of a seed that goes into a device configuration.
//!
//! The seed's bytes are filled up with zeros to one block of eight bytes, the
//! block is encrypted with DES in CBC mode under a fixed key, and the eight
//! bytes that come out are written in hexadecimal with dots between them. The
//! encryption itself is done by the `des` and `block-modes` crates.

use crate::date_text::is_digit;
use crate::error::PotdError;
use crate::seed::is_valid_seed;
use crate::text::{push_char, same_text, text_result};
use crate::vals::{ALPHANUM, DEFAULT_DES, DEFAULT_SEED, DES_IV, DES_KEY};
use block_modes::BlockMode;
use vstd::prelude::*;
use vstd::utf8::encode_utf8;

verus! {

/// The length of a cipher block in bytes.
pub const BLOCK_LEN: usize = 8;

/// The block that DES in CBC mode makes of one block of eight bytes under a key
/// and an initialization vector of eight bytes each.
pub uninterp spec fn des_cbc_encrypt(key: Seq<u8>, iv: Seq<u8>, block: Seq<u8>) -> Seq<u8>;

/// `block_modes::BlockMode::encrypt` of `Cbc<des::Des, ZeroPadding>`, made by
/// `new_from_slices`, on a buffer that holds exactly one block: the block is
/// encrypted in place, nothing is added to it, and the result depends on key,
/// initialization vector and block alone.
#[verifier::external_body]
fn des_cbc_encrypt_block(key: &[u8; 8], iv: &[u8; 8], block: &[u8; 8]) -> (out: [u8; 8])
    ensures
        out@ == des_cbc_encrypt(key@, iv@, block@),
{
    let mut buffer = *block;
    let cipher = block_modes::Cbc::<des::Des, block_padding::ZeroPadding>::new_from_slices(
        key,
        iv,
    ).unwrap();
    let filled: usize = buffer.len();
    cipher.encrypt(&mut buffer, filled).unwrap();
    buffer
}

/// At most eight bytes, followed by as many zeros as it takes to make eight.
pub open spec fn zero_padded(bytes: Seq<u8>) -> Seq<u8> {
    Seq::new(
        BLOCK_LEN as nat,
        |i: int|
            if i < bytes.len() {
                bytes[i]
            } else {
                0u8
            },
    )
}

/// The symbol for a number below 16: `0` to `9`, then `A` to `F`.
pub open spec fn hex_digit(value: int) -> char {
    ALPHANUM[value]
}

/// A byte as two hexadecimal symbols, the high half first.
pub open spec fn hex_pair(byte: u8) -> Seq<char> {
    seq![hex_digit(byte as int / 16), hex_digit(byte as int % 16)]
}

/// Bytes written as pairs of hexadecimal symbols with a dot between one pair
/// and the next.
pub open spec fn des_token(bytes: Seq<u8>) -> Seq<char>
    decreases bytes.len(),
{
    if bytes.len() == 0 {
        Seq::empty()
    } else if bytes.len() == 1 {
        hex_pair(bytes[0])
    } else {
        des_token(bytes.drop_last()).push('.') + hex_pair(bytes.last())
    }
}

/// What [`seed_to_des`] makes of a seed.
pub open spec fn seed_to_des_spec(seed: Seq<char>) -> Result<Seq<char>, PotdError> {
    if !is_valid_seed(seed) {
        Err(PotdError::InvalidSeedLength)
    } else if seed == DEFAULT_SEED@ {
        Ok(DEFAULT_DES@)
    } else {
        Ok(des_token(des_cbc_encrypt(DES_KEY@, DES_IV@, zero_padded(encode_utf8(seed)))))
    }
}

/// One of the symbols `0` to `9` and `A` to `F`.
pub open spec fn is_hex_symbol(c: char) -> bool {
    is_digit(c) || ('A' <= c && c <= 'F')
}

/// Whether a text has the form of a token for eight bytes: 23 symbols, a dot in
/// every third place, and capital hexadecimal symbols in the others.
pub open spec fn is_token_shaped(token: Seq<char>) -> bool {
    &&& token.len() == 3 * BLOCK_LEN - 1
    &&& forall|i: int|
        0 <= i < token.len() ==> if i % 3 == 2 {
            #[trigger] token[i] == '.'
        } else {
            is_hex_symbol(token[i])
        }
}

/// The symbol for a number below 16 is a capital hexadecimal symbol.
proof fn lemma_hex_digit(value: int)
    requires
        0 <= value < 16,
    ensures
        is_hex_symbol(hex_digit(value)),
{
}

/// A token of `n` bytes has `3 * n - 1` symbols: byte `k` stands in the places
/// `3 * k` and `3 * k + 1`, and a dot in every third place.
pub proof fn lemma_des_token_at(bytes: Seq<u8>, i: int)
    requires
        0 <= i < 3 * bytes.len() - 1,
    ensures
        des_token(bytes).len() == 3 * bytes.len() - 1,
        des_token(bytes)[i] == (if i % 3 == 0 {
            hex_digit(bytes[i / 3] as int / 16)
        } else if i % 3 == 1 {
            hex_digit(bytes[i / 3] as int % 16)
        } else {
            '.'
        }),
    decreases bytes.len(),
{
    let n: int = bytes.len() as int;
    if n > 1 {
        let front = bytes.drop_last();
        lemma_des_token_at(front, if i < 3 * n - 4 {
            i
        } else {
            0
        });
        if i < 3 * n - 4 {
            assert(front[i / 3] == bytes[i / 3]);
        }
    }
}

/// The token of eight bytes has the form of a token.
pub proof fn lemma_des_token_shape(bytes: Seq<u8>)
    requires
        bytes.len() == BLOCK_LEN,
    ensures
        is_token_shaped(des_token(bytes)),
{
    let token = des_token(bytes);
    lemma_des_token_at(bytes, 0);
    assert forall|i: int| 0 <= i < token.len() implies if i % 3 == 2 {
        #[trigger] token[i] == '.'
    } else {
        is_hex_symbol(token[i])
    } by {
        lemma_des_token_at(bytes, i);
        lemma_hex_digit(bytes[i / 3] as int / 16);
        lemma_hex_digit(bytes[i / 3] as int % 16);
    }
}

/// The token of the default seed has the form of a token.
pub proof fn lemma_default_token_shape()
    ensures
        is_token_shaped(DEFAULT_DES@),
{
    reveal_strlit("DB.B5.CB.D6.11.17.D6.EB");
}

/// Fills `bytes` up with zeros to one block.
pub fn zero_padded_block(bytes: &[u8]) -> (block: [u8; 8])
    requires
        bytes@.len() <= BLOCK_LEN,
    ensures
        block@ == zero_padded(bytes@),
{
    let mut block: [u8; 8] = [0, 0, 0, 0, 0, 0, 0, 0];
    let mut i: usize = 0;
    while i < bytes.len()
        invariant
            bytes@.len() <= BLOCK_LEN,
            i <= bytes@.len(),
            forall|k: int| 0 <= k < i ==> block@[k] == bytes@[k],
            forall|k: int| i <= k < BLOCK_LEN ==> block@[k] == 0,
        decreases bytes@.len() - i,
    {
        block[i] = bytes[i];
        i += 1;
    }
    assert(block@ =~= zero_padded(bytes@));
    block
}

/// Writes bytes as a token: two capital hexadecimal symbols for each byte, and
/// a dot between one byte and the next.
pub fn format_des_token(bytes: &[u8]) -> (token: String)
    ensures
        token@ == des_token(bytes@),
        bytes@.len() == BLOCK_LEN ==> is_token_shaped(token@),
{
    let mut token = String::new();
    let mut i: usize = 0;
    while i < bytes.len()
        invariant
            i <= bytes@.len(),
            token@ == des_token(bytes@.take(i as int)),
        decreases bytes@.len() - i,
    {
        let byte: u8 = bytes[i];
        if i > 0 {
            push_char(&mut token, '.');
        }
        push_char(&mut token, ALPHANUM[(byte / 16) as usize]);
        push_char(&mut token, ALPHANUM[(byte % 16) as usize]);
        proof {
            let next = bytes@.take(i + 1);
            assert(next.drop_last() =~= bytes@.take(i as int));
            assert(next.last() == byte);
            assert(token@ =~= des_token(next));
        }
        i += 1;
    }
    proof {
        assert(bytes@.take(bytes@.len() as int) =~= bytes@);
        if bytes@.len() == BLOCK_LEN {
            lemma_des_token_shape(bytes@);
        }
    }
    token
}

/// The encrypted form of `seed` for a device configuration.
///
/// The default seed has a fixed token of its own. Any other seed must be 4 to 8
/// bytes long.
pub fn seed_to_des(seed: &str) -> (res: Result<String, PotdError>)
    ensures
        text_result(res) == seed_to_des_spec(seed@),
        res matches Ok(token) ==> is_token_shaped(token@),
{
    if same_text(seed, DEFAULT_SEED) {
        proof {
            lemma_default_token_shape();
        }
        return Ok(String::from_str(DEFAULT_DES));
    }
    let bytes = seed.as_bytes();
    if bytes.len() < 4 || bytes.len() > 8 {
        return Err(PotdError::InvalidSeedLength);
    }
    let block = zero_padded_block(bytes);
    let encrypted = des_cbc_encrypt_block(&DES_KEY, &DES_IV, &block);
    Ok(format_des_token(&encrypted))
}

} // verus!
