//! What is stored for a payload: the bytes as they go to the object store,
//! the type found in them, and the key material that belongs to them.

use crate::crypto::{aead_open, aead_opened, aead_seal, KEY_LENGTH, SEAL_LIMIT, SEAL_OVERHEAD};
use crate::entropy::{
    is_generated_key,
    lemma_generated_key_bytes,
    random_alphanumeric,
    GENERATED_KEY_LENGTH,
};
use crate::error::Error;
use crate::keys::{latest, Keys};
use crate::views::{copy_bytes_of, opt_bytes, opt_text};
use vstd::prelude::*;
use vstd::utf8::encode_utf8;

verus! {

/// The MIME type that `infer::get` finds in the first bytes of a payload.
pub uninterp spec fn sniffed_mime(payload: Seq<u8>) -> Option<Seq<char>>;

/// `infer::get` and, of the type it finds, `mime_type`.
///
/// Trusted: the type, or its absence, is a function of the bytes.
#[verifier::external_body]
pub(crate) fn sniff_mime(payload: &[u8]) -> (mime: Option<String>)
    ensures
        opt_text(mime) == sniffed_mime(payload@),
{
    infer::get(payload).map(|t| t.mime_type().to_owned())
}

#[derive(Debug)]
pub struct Data {
    /// The bytes for the object store: the payload itself or its ciphertext.
    pub data: Vec<u8>,
    /// The type found in the payload, if any was.
    pub mime_type: Option<String>,
    /// The key the payload was sealed with, if it was sealed.
    pub key: Option<String>,
    /// The data key, sealed under the latest master key.
    pub encrypted_key: Option<Vec<u8>>,
    /// The version of that master key.
    pub encrypted_key_version: Option<u8>,
}

pub struct DataView {
    pub data: Seq<u8>,
    pub mime_type: Option<Seq<char>>,
    pub key: Option<Seq<char>>,
    pub encrypted_key: Option<Seq<u8>>,
    pub encrypted_key_version: Option<u8>,
}

impl View for Data {
    type V = DataView;

    open spec fn view(&self) -> DataView {
        DataView {
            data: self.data@,
            mime_type: opt_text(self.mime_type),
            key: opt_text(self.key),
            encrypted_key: opt_bytes(self.encrypted_key),
            encrypted_key_version: self.encrypted_key_version,
        }
    }
}

/// `sealed` opens to `plain` under the key written as `key`.
pub open spec fn opens_to(key: Seq<char>, sealed: Seq<u8>, plain: Seq<u8>) -> bool {
    aead_opened(encode_utf8(key), sealed) == Some(plain)
}

/// The text is a key that the cipher accepts: 32 bytes long.
pub open spec fn is_cipher_key(key: Seq<char>) -> bool {
    encode_utf8(key).len() == KEY_LENGTH
}

/// The cipher seals the payload, given fit keys: the payload is neither
/// empty nor longer than what sealing is promised for.
pub open spec fn is_sealable_payload(payload: Seq<u8>) -> bool {
    0 < payload.len() <= SEAL_LIMIT
}

/// The key that seals the payload: the one given, or one generated here.
pub open spec fn is_data_key(key: Seq<char>, given: Option<Seq<char>>) -> bool {
    match given {
        Some(k) => key == k,
        None => is_generated_key(key),
    }
}

impl DataView {
    /// The payload stored as it is, with no key material.
    pub open spec fn is_plain(self, payload: Seq<u8>) -> bool {
        &&& self.data == payload
        &&& self.key is None
        &&& self.encrypted_key is None
        &&& self.encrypted_key_version is None
    }

    /// The payload sealed under `self.key`, which is not kept anywhere.
    pub open spec fn is_unmanaged(self, payload: Seq<u8>, given: Option<Seq<char>>) -> bool {
        &&& (self.key matches Some(k) && is_data_key(k, given) && opens_to(k, self.data, payload))
        &&& self.data.len() == payload.len() + SEAL_OVERHEAD
        &&& self.encrypted_key is None
        &&& self.encrypted_key_version is None
    }

    /// The payload sealed under `self.key`, and that key sealed under the
    /// latest master key, whose version is recorded.
    pub open spec fn is_managed(
        self,
        payload: Seq<u8>,
        given: Option<Seq<char>>,
        keys: Seq<crate::keys::KeyView>,
    ) -> bool {
        &&& (self.key matches Some(k) && is_data_key(k, given) && opens_to(k, self.data, payload))
        &&& self.data.len() == payload.len() + SEAL_OVERHEAD
        &&& (self.encrypted_key matches Some(w) && (self.key matches Some(k) && opens_to(
            latest(keys).key,
            w,
            encode_utf8(k),
        )))
        &&& self.encrypted_key_version == Some(latest(keys).ver)
    }

    /// What `Data::create` returns for a payload in the mode asked for.
    pub open spec fn is_stored_form(
        self,
        payload: Seq<u8>,
        given: Option<Seq<char>>,
        keys: Seq<crate::keys::KeyView>,
        encrypt_key: bool,
        encrypt_data: bool,
    ) -> bool {
        &&& self.mime_type == sniffed_mime(payload)
        &&& if !encrypt_data {
            self.is_plain(payload)
        } else if !encrypt_key {
            self.is_unmanaged(payload, given)
        } else {
            self.is_managed(payload, given, keys)
        }
    }
}

impl Data {
    /// Seals `value` under `key`.
    ///
    /// Under a key of 32 bytes every value that is not empty is sealed, up
    /// to 256 MiB for certain. An empty value and every other key are
    /// refused. What is returned opens to `value` under `key`.
    pub fn encrypt(key: String, value: Vec<u8>) -> (res: Result<Vec<u8>, Error>)
        ensures
            is_cipher_key(key@) && is_sealable_payload(value@) ==> res is Ok,
            value@.len() == 0 ==> res is Err,
            !is_cipher_key(key@) ==> res is Err,
            res matches Ok(sealed) ==> opens_to(key@, sealed@, value@) && sealed@.len()
                == value@.len() + SEAL_OVERHEAD,
            res matches Err(e) ==> e is CryptoError,
    {
        match aead_seal(key.as_str().as_bytes(), value.as_slice()) {
            Ok(sealed) => Ok(sealed),
            Err(e) => Err(Error::CryptoError(e)),
        }
    }

    /// Opens what was sealed under `key`.
    ///
    /// Whatever the cipher refuses, be it the key, the length or the tag,
    /// comes back as the one error `CryptoError`.
    pub fn decrypt(key: &str, sealed: &[u8]) -> (res: Result<Vec<u8>, Error>)
        ensures
            match res {
                Ok(plain) => opens_to(key@, sealed@, plain@),
                Err(e) => e is CryptoError && aead_opened(encode_utf8(key@), sealed@) is None,
            },
    {
        match aead_open(key.as_bytes(), sealed) {
            Ok(plain) => Ok(plain),
            Err(e) => Err(Error::CryptoError(e)),
        }
    }

    /// Prepares a payload for storage.
    ///
    /// With `encrypt_data` unset the payload is stored as it is. With it set
    /// the payload is sealed under `key`, or under a fresh key where none is
    /// given; with `encrypt_key` set too, that key is sealed under the latest
    /// master key. The type is the one found in the payload.
    ///
    /// Storing as it is never fails. Sealing succeeds on every payload that
    /// is not empty, up to 256 MiB for certain, where the key given and,
    /// for wrapping, the latest master key are 32 bytes long. It fails
    /// with `CryptoError` on an empty payload and on any other key.
    pub fn create(
        value: Vec<u8>,
        key: Option<String>,
        keys: &Keys,
        encrypt_key: bool,
        encrypt_data: bool,
    ) -> (res: Result<Data, Error>)
        requires
            encrypt_data && encrypt_key ==> keys@.len() > 0,
        ensures
            res matches Ok(d) ==> d@.is_stored_form(
                value@,
                opt_text(key),
                keys@,
                encrypt_key,
                encrypt_data,
            ),
            res matches Err(e) ==> encrypt_data && e is CryptoError,
            (is_sealable_payload(value@) && (key matches Some(k) ==> is_cipher_key(k@)) && (
            encrypt_key ==> is_cipher_key(latest(keys@).key))) ==> res is Ok,
            encrypt_data && value@.len() == 0 ==> res is Err,
            encrypt_data && (key matches Some(k) && !is_cipher_key(k@)) ==> res is Err,
            encrypt_data && encrypt_key && !is_cipher_key(latest(keys@).key) ==> res is Err,
    {
        let content_type = sniff_mime(value.as_slice());

        if encrypt_data {
            let key = match key {
                Some(k) => k,
                None => {
                    let fresh = random_alphanumeric(GENERATED_KEY_LENGTH);
                    proof {
                        lemma_generated_key_bytes(fresh@);
                    }
                    fresh
                },
            };

            let ciphertext = match Data::encrypt(key.clone(), value) {
                Ok(sealed) => sealed,
                Err(e) => {
                    return Err(e);
                },
            };

            if encrypt_key {
                let latest_encrypt_key = keys.latest_key();
                let encrypted_key = match Data::encrypt(
                    latest_encrypt_key.key.clone(),
                    copy_bytes_of(key.as_str()),
                ) {
                    Ok(sealed) => sealed,
                    Err(e) => {
                        return Err(e);
                    },
                };

                Ok(
                    Data {
                        data: ciphertext,
                        mime_type: content_type,
                        key: Some(key),
                        encrypted_key: Some(encrypted_key),
                        encrypted_key_version: Some(latest_encrypt_key.ver),
                    },
                )
            } else {
                Ok(
                    Data {
                        data: ciphertext,
                        mime_type: content_type,
                        key: Some(key),
                        encrypted_key: None,
                        encrypted_key_version: None,
                    },
                )
            }
        } else {
            Ok(
                Data {
                    data: value,
                    mime_type: content_type,
                    key: None,
                    encrypted_key: None,
                    encrypted_key_version: None,
                },
            )
        }
    }
}

} // verus!
