//! Authenticated encryption, digests and hex text, as the `orion`, `blake2`
//! and `hex` crates compute them.

use blake2::Digest;
use vstd::prelude::*;

verus! {

/// What `orion::aead::open` returns for the key made of `key` and the sealed
/// bytes `sealed`: the plaintext, or `None` where it refuses.
pub uninterp spec fn aead_opened(key: Seq<u8>, sealed: Seq<u8>) -> Option<Seq<u8>>;

/// The BLAKE2s-256 digest of `data`.
pub uninterp spec fn blake2s256(data: Seq<u8>) -> Seq<u8>;

/// The BLAKE2b digest of `data` with an output of ten bytes.
pub uninterp spec fn blake2b80(data: Seq<u8>) -> Seq<u8>;

/// The bytes XChaCha20-Poly1305 adds to a plaintext: a 24-byte nonce in
/// front and a 16-byte tag behind.
pub const SEAL_OVERHEAD: usize = 40;

/// The only key length the cipher accepts.
pub const KEY_LENGTH: usize = 32;

/// The length up to which sealing is promised: 256 MiB. The cipher reaches
/// further, to the end of its 32-bit block counter; the promise stops
/// where every machine can still hold the result.
pub const SEAL_LIMIT: usize = 0x1000_0000;

/// The cipher seals the plaintext under the key: the key has the one
/// length it accepts, and the plaintext is neither empty nor longer than
/// what is promised.
pub open spec fn sealable(key: Seq<u8>, plaintext: Seq<u8>) -> bool {
    key.len() == KEY_LENGTH && 0 < plaintext.len() <= SEAL_LIMIT
}

/// The lowercase hex digit of a value below sixteen.
pub open spec fn hex_digit(nibble: int) -> char {
    if nibble < 10 {
        ('0' as u8 + nibble) as char
    } else {
        ('a' as u8 + (nibble - 10)) as char
    }
}

/// Two lowercase hex digits for each byte, the high half first.
pub open spec fn hex_text(data: Seq<u8>) -> Seq<char> {
    Seq::new(
        2 * data.len(),
        |i: int|
            if i % 2 == 0 {
                hex_digit(data[i / 2] as int / 16)
            } else {
                hex_digit(data[i / 2] as int % 16)
            },
    )
}

/// `orion::aead::seal` under the key `SecretKey::from_slice(key)`.
///
/// Trusted: the call fails on an empty plaintext and on a key that is not 32
/// bytes long, and succeeds on every other plaintext of up to 256 MiB: it
/// refuses nothing else before its block counter ends, which is far
/// beyond. A result is 40 bytes longer than the plaintext, and
/// `orion::aead::open` under the same key gives the plaintext back. The
/// nonce is random, so nothing more is said of the bytes.
#[verifier::external_body]
pub(crate) fn aead_seal(key: &[u8], plaintext: &[u8]) -> (res: Result<
    Vec<u8>,
    orion::errors::UnknownCryptoError,
>)
    ensures
        plaintext@.len() == 0 ==> res is Err,
        key@.len() != KEY_LENGTH ==> res is Err,
        sealable(key@, plaintext@) ==> res is Ok,
        res matches Ok(sealed) ==> sealed@.len() == plaintext@.len() + SEAL_OVERHEAD
            && aead_opened(key@, sealed@) == Some(plaintext@),
{
    let secret_key = orion::aead::SecretKey::from_slice(key)?;
    orion::aead::seal(&secret_key, plaintext)
}

/// `orion::aead::open` under the key `SecretKey::from_slice(key)`.
///
/// Trusted: the plaintext, or the refusal of either call, is a function of
/// the two arguments, here named `aead_opened`.
#[verifier::external_body]
pub(crate) fn aead_open(key: &[u8], sealed: &[u8]) -> (res: Result<
    Vec<u8>,
    orion::errors::UnknownCryptoError,
>)
    ensures
        match res {
            Ok(plain) => aead_opened(key@, sealed@) == Some(plain@),
            Err(_) => aead_opened(key@, sealed@) is None,
        },
{
    let secret_key = orion::aead::SecretKey::from_slice(key)?;
    orion::aead::open(&secret_key, sealed)
}

/// `Blake2s256` over `data`, as `Digest::new`, `update` and `finalize` give it.
///
/// Trusted: the digest is a function of the data and is 32 bytes long.
#[verifier::external_body]
pub(crate) fn blake2s256_digest(data: &[u8]) -> (digest: Vec<u8>)
    ensures
        digest@ == blake2s256(data@),
        digest@.len() == 32,
{
    let mut hasher = blake2::Blake2s256::new();
    hasher.update(data);
    hasher.finalize().to_vec()
}

/// `Blake2b<U10>` over `data`, as `Digest::new`, `update` and `finalize` give it.
///
/// Trusted: the digest is a function of the data and is 10 bytes long.
#[verifier::external_body]
pub(crate) fn blake2b80_digest(data: &[u8]) -> (digest: Vec<u8>)
    ensures
        digest@ == blake2b80(data@),
        digest@.len() == 10,
{
    let mut hasher = blake2::Blake2b::<blake2::digest::consts::U10>::new();
    hasher.update(data);
    hasher.finalize().to_vec()
}

/// `hex::encode`.
///
/// Trusted: two lowercase hex digits for each byte.
#[verifier::external_body]
pub(crate) fn hex_encode(data: &[u8]) -> (text: String)
    ensures
        text@ == hex_text(data@),
{
    hex::encode(data)
}

/// `std::str::from_utf8`, asked only whether it accepts.
///
/// Trusted: it accepts exactly the byte sequences that are UTF-8.
#[verifier::external_body]
pub(crate) fn is_utf8(bytes: &[u8]) -> (res: bool)
    ensures
        res == vstd::utf8::valid_utf8(bytes@),
{
    std::str::from_utf8(bytes).is_ok()
}

/// The hex text of the BLAKE2s-256 digest of a string's bytes.
pub open spec fn hashed(text: Seq<char>) -> Seq<char> {
    hex_text(blake2s256(vstd::utf8::encode_utf8(text)))
}

/// Hashes a password or an unlock key for storage and comparison.
pub fn hash(str: &str) -> (digest: String)
    ensures
        digest@ == hashed(str@),
        digest@.len() == 64,
{
    let digest = blake2s256_digest(str.as_bytes());
    hex_encode(digest.as_slice())
}

} // verus!
