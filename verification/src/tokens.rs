//! A character's stored ESI tokens: opening the encrypted columns, and the
//! two decisions of the per-character client cache.

use vstd::prelude::*;
use vstd::utf8::{decode_utf8, valid_utf8};

use crate::cipher::{aead_error_text, aes256gcm_open, TokenCipher};
use crate::text::dec_digits;

verus! {

/// `String::from_utf8`: the text the bytes encode, or `None` when they are
/// not valid UTF-8.
#[verifier::external_body]
fn utf8_text(bytes: Vec<u8>) -> (r: Option<String>)
    ensures
        match r {
            Some(s) => valid_utf8(bytes@) && s@ == decode_utf8(bytes@),
            None => !valid_utf8(bytes@),
        },
{
    String::from_utf8(bytes).ok()
}

/// The token columns of a character row, still encrypted.
#[derive(Debug, Clone)]
pub struct StoredTokens {
    pub refresh_token_ciphertext: Vec<u8>,
    pub refresh_token_nonce: Vec<u8>,
    pub access_token_ciphertext: Option<Vec<u8>>,
    pub access_token_nonce: Option<Vec<u8>>,
    pub access_token_expires_at: Option<i64>,
}

/// The tokens in clear.
#[derive(Debug, Clone)]
pub struct LoadedTokens {
    pub refresh_token: String,
    pub access_token: Option<String>,
    pub access_token_expires_at: Option<i64>,
}

/// What opening one column gives: the text, or the error's message.
pub open spec fn open_column(key: Seq<u8>, ct: Seq<u8>, nonce: Seq<u8>, is_refresh: bool) -> Result<
    Seq<char>,
    Seq<char>,
> {
    if nonce.len() != 12 {
        Err("nonce must be 12 bytes, got "@ + dec_digits(nonce.len()))
    } else {
        match aes256gcm_open(key, nonce, ct, Seq::<u8>::empty()) {
            None => Err("AES-GCM decrypt failed: "@ + aead_error_text()),
            Some(pt) => if valid_utf8(pt) {
                Ok(decode_utf8(pt))
            } else {
                Err(
                    if is_refresh {
                        "refresh token plaintext is not UTF-8"@
                    } else {
                        "access token plaintext is not UTF-8"@
                    },
                )
            },
        }
    }
}

/// Opening a row: the refresh token, then the access token when both its
/// columns are set; the first failure is the answer.
pub open spec fn open_tokens_spec(
    key: Seq<u8>,
    refresh: (Seq<u8>, Seq<u8>),
    access: Option<(Seq<u8>, Seq<u8>)>,
) -> Result<(Seq<char>, Option<Seq<char>>), Seq<char>> {
    match open_column(key, refresh.0, refresh.1, true) {
        Err(e) => Err(e),
        Ok(rt) => match access {
            None => Ok((rt, None)),
            Some((ct, nonce)) => match open_column(key, ct, nonce, false) {
                Err(e) => Err(e),
                Ok(at) => Ok((rt, Some(at))),
            },
        },
    }
}

pub open spec fn access_columns(row: StoredTokens) -> Option<(Seq<u8>, Seq<u8>)> {
    match (row.access_token_ciphertext, row.access_token_nonce) {
        (Some(ct), Some(nonce)) => Some((ct@, nonce@)),
        _ => None,
    }
}

fn open_one(cipher: &TokenCipher, ct: &Vec<u8>, nonce: &Vec<u8>, is_refresh: bool) -> (r: Result<String, String>)
    requires
        cipher.wf(),
    ensures
        (match r {
            Ok(s) => Ok(s@),
            Err(e) => Err(e@),
        }) == open_column(cipher.key(), ct@, nonce@, is_refresh),
{
    match cipher.decrypt(ct.as_slice(), nonce.as_slice()) {
        Err(e) => Err(e),
        Ok(pt) => match utf8_text(pt) {
            Some(s) => Ok(s),
            None => if is_refresh {
                Err(String::from_str("refresh token plaintext is not UTF-8"))
            } else {
                Err(String::from_str("access token plaintext is not UTF-8"))
            },
        },
    }
}

/// Decrypts a character's stored tokens.
pub fn open_stored_tokens(cipher: &TokenCipher, row: &StoredTokens) -> (r: Result<LoadedTokens, String>)
    requires
        cipher.wf(),
    ensures
        (match r {
            Ok(t) => Ok(
                (
                    t.refresh_token@,
                    match t.access_token {
                        Some(a) => Some(a@),
                        None => None,
                    },
                ),
            ),
            Err(e) => Err(e@),
        }) == open_tokens_spec(
            cipher.key(),
            (row.refresh_token_ciphertext@, row.refresh_token_nonce@),
            access_columns(*row),
        ),
        r matches Ok(t) ==> t.access_token_expires_at == row.access_token_expires_at,
{
    let refresh_token = match open_one(cipher, &row.refresh_token_ciphertext, &row.refresh_token_nonce, true) {
        Err(e) => {
            return Err(e);
        },
        Ok(s) => s,
    };
    let access_token = match (&row.access_token_ciphertext, &row.access_token_nonce) {
        (Some(ct), Some(nonce)) => match open_one(cipher, ct, nonce, false) {
            Err(e) => {
                return Err(e);
            },
            Ok(s) => Some(s),
        },
        _ => None,
    };
    Ok(LoadedTokens { refresh_token, access_token, access_token_expires_at: row.access_token_expires_at })
}

/// A cached client is reused while the refresh token in the database is
/// the one it was built with (compared by hash).
pub fn reuse_cached_client(stored_hash: u64, known_hash: u64) -> (r: bool)
    ensures
        r == (stored_hash == known_hash),
{
    stored_hash == known_hash
}

/// After a batch, the client's tokens are written back only when its
/// refresh token rotated.
pub fn rotation_to_persist(prior_hash: u64, new_hash: u64) -> (r: bool)
    ensures
        r == (prior_hash != new_hash),
{
    prior_hash != new_hash
}

} // verus!
