//! Key material: a 32-byte key and a 12-byte nonce, each given as base64.
use vstd::prelude::*;
use base64::Engine;
use crate::error::ConfigError;

verus! {

/// The bytes that standard base64 (with padding) decodes `s` to, if it is
/// valid.
pub uninterp spec fn base64_decoded(s: Seq<char>) -> Option<Seq<u8>>;

#[verifier::external_type_specification]
#[verifier::external_body]
pub struct ExDecodeError(base64::DecodeError);

/// Relies on base64's `general_purpose::STANDARD.decode`: the outcome depends
/// on the text alone.
#[verifier::external_body]
fn base64_decode(s: &str) -> (r: Result<Vec<u8>, base64::DecodeError>)
    ensures
        r matches Ok(v) ==> base64_decoded(s@) == Some(v@),
        r is Err ==> base64_decoded(s@) is None,
{
    base64::engine::general_purpose::STANDARD.decode(s)
}

pub const KEY_LEN: usize = 32;
pub const NONCE_LEN: usize = 12;

/// The key held by decoded material: its first 32 bytes.
pub fn key_from_bytes(b: &Vec<u8>) -> (r: Result<[u8; 32], ConfigError>)
    ensures
        b@.len() < KEY_LEN ==> r == Err::<[u8; 32], ConfigError>(ConfigError::KeyTooShort),
        b@.len() >= KEY_LEN ==> (r matches Ok(k) && k@ == b@.subrange(0, KEY_LEN as int)),
{
    if b.len() < KEY_LEN {
        return Err(ConfigError::KeyTooShort);
    }
    let mut k: [u8; 32] = [0u8; 32];
    let mut i: usize = 0;
    while i < KEY_LEN
        invariant
            i <= KEY_LEN <= b@.len(),
            forall|j: int| 0 <= j < i ==> k@[j] == b@[j],
        decreases KEY_LEN - i,
    {
        k[i] = b[i];
        i = i + 1;
    }
    assert(k@ =~= b@.subrange(0, KEY_LEN as int));
    Ok(k)
}

/// The nonce held by decoded material: its first 12 bytes.
pub fn nonce_from_bytes(b: &Vec<u8>) -> (r: Result<[u8; 12], ConfigError>)
    ensures
        b@.len() < NONCE_LEN ==> r == Err::<[u8; 12], ConfigError>(ConfigError::NonceTooShort),
        b@.len() >= NONCE_LEN ==> (r matches Ok(n) && n@ == b@.subrange(0, NONCE_LEN as int)),
{
    if b.len() < NONCE_LEN {
        return Err(ConfigError::NonceTooShort);
    }
    let mut n: [u8; 12] = [0u8; 12];
    let mut i: usize = 0;
    while i < NONCE_LEN
        invariant
            i <= NONCE_LEN <= b@.len(),
            forall|j: int| 0 <= j < i ==> n@[j] == b@[j],
        decreases NONCE_LEN - i,
    {
        n[i] = b[i];
        i = i + 1;
    }
    assert(n@ =~= b@.subrange(0, NONCE_LEN as int));
    Ok(n)
}

/// The key and nonce given in base64. The key is checked first: text that
/// is not base64, or that decodes to too few bytes, is refused.
pub fn key_and_nonce_from_base64(key_b64: &str, nonce_b64: &str) -> (r: Result<
    ([u8; 32], [u8; 12]),
    ConfigError,
>)
    ensures
        match (base64_decoded(key_b64@), base64_decoded(nonce_b64@)) {
            (None, _) => r == Err::<([u8; 32], [u8; 12]), ConfigError>(ConfigError::KeyNotBase64),
            (Some(k), _) if k.len() < KEY_LEN => r == Err::<([u8; 32], [u8; 12]), ConfigError>(
                ConfigError::KeyTooShort,
            ),
            (Some(_), None) => r == Err::<([u8; 32], [u8; 12]), ConfigError>(
                ConfigError::NonceNotBase64,
            ),
            (Some(_), Some(n)) if n.len() < NONCE_LEN => r == Err::<
                ([u8; 32], [u8; 12]),
                ConfigError,
            >(ConfigError::NonceTooShort),
            (Some(k), Some(n)) => r matches Ok((kk, nn)) && kk@ == k.subrange(0, KEY_LEN as int)
                && nn@ == n.subrange(0, NONCE_LEN as int),
        },
{
    let k = match base64_decode(key_b64) {
        Ok(k) => k,
        Err(_) => return Err(ConfigError::KeyNotBase64),
    };
    let key = key_from_bytes(&k)?;
    let n = match base64_decode(nonce_b64) {
        Ok(n) => n,
        Err(_) => return Err(ConfigError::NonceNotBase64),
    };
    let nonce = nonce_from_bytes(&n)?;
    Ok((key, nonce))
}

} // verus!
