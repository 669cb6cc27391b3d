use tackd::crypto::hash;
use tackd::data::Data;
use tackd::error::Error;
use tackd::keys::{Key, Keys};
use tackd::state::GetRequest;

const KEY_A: &str = "0123456789abcdef0123456789abcdef";
const KEY_B: &str = "fedcba9876543210fedcba9876543210";

fn registry() -> Keys {
    Keys {
        keys: vec![
            Key { ver: 4, key: KEY_A.to_string() },
            Key { ver: 9, key: KEY_B.to_string() },
        ],
    }
}

#[test]
fn hash_is_blake2s_in_lowercase_hex() {
    assert_eq!(
        hash("abc"),
        "508c5e8c327c14e2e1a72ba34eeb452f37458b209ed63a294d999b4c86675982"
    );
    assert_eq!(
        hash(""),
        "69217a3079908094e11121d042354a7c1f55b6482ca1a51e1b250dfd1ed0eef9"
    );
    assert_eq!(hash("abc").len(), 64);
    assert_ne!(hash("abc"), hash("abd"));
}

#[test]
fn encrypt_adds_nonce_and_tag() {
    let sealed = Data::encrypt(KEY_A.to_string(), b"hello".to_vec()).unwrap();
    assert_eq!(sealed.len(), 5 + 40);
    assert_ne!(&sealed[24..29], b"hello");
    // The nonce is fresh each time.
    let again = Data::encrypt(KEY_A.to_string(), b"hello".to_vec()).unwrap();
    assert_ne!(sealed, again);
}

#[test]
fn encrypt_refuses_an_empty_value() {
    let res = Data::encrypt(KEY_A.to_string(), Vec::new());
    assert!(matches!(res, Err(Error::CryptoError(_))));
}

#[test]
fn encrypt_refuses_a_key_of_wrong_length() {
    for key in ["", "short", "0123456789abcdef0123456789abcdef0"] {
        let res = Data::encrypt(key.to_string(), b"hello".to_vec());
        assert!(matches!(res, Err(Error::CryptoError(_))), "key {:?}", key);
    }
    // Thirty-two bytes, not thirty-two characters.
    let umlauts = "ä".repeat(16);
    assert_eq!(umlauts.len(), 32);
    assert!(Data::encrypt(umlauts, b"hello".to_vec()).is_ok());
    let too_many = "ä".repeat(32);
    assert!(Data::encrypt(too_many, b"hello".to_vec()).is_err());
}

#[test]
fn create_without_encryption_keeps_the_payload() {
    let data = Data::create(b"as it is".to_vec(), None, &registry(), true, false).unwrap();
    assert_eq!(data.data, b"as it is".to_vec());
    assert_eq!(data.mime_type, None);
    assert_eq!(data.key, None);
    assert_eq!(data.encrypted_key, None);
    assert_eq!(data.encrypted_key_version, None);
    // Nothing is sealed, so nothing is refused.
    let empty = Data::create(Vec::new(), None, &Keys { keys: Vec::new() }, false, false).unwrap();
    assert!(empty.data.is_empty());
}

#[test]
fn create_unmanaged_returns_the_data_key() {
    let data = Data::create(b"secret".to_vec(), None, &registry(), false, true).unwrap();
    let key = data.key.clone().unwrap();
    assert_eq!(key.len(), 32);
    assert!(key.chars().all(|c| c.is_ascii_alphanumeric()));
    assert_eq!(data.data.len(), 6 + 40);
    assert_eq!(data.encrypted_key, None);
    assert_eq!(data.encrypted_key_version, None);
    let other = Data::create(b"secret".to_vec(), None, &registry(), false, true).unwrap();
    assert_ne!(other.key.unwrap(), key);
}

#[test]
fn create_with_a_given_key_uses_it() {
    let data =
        Data::create(b"secret".to_vec(), Some(KEY_A.to_string()), &registry(), false, true).unwrap();
    assert_eq!(data.key.as_deref(), Some(KEY_A));
    let refused = Data::create(b"secret".to_vec(), Some("short".to_string()), &registry(), false, true);
    assert!(matches!(refused, Err(Error::CryptoError(_))));
}

#[test]
fn create_managed_wraps_the_data_key_under_the_latest_master_key() {
    let data = Data::create(b"secret".to_vec(), None, &registry(), true, true).unwrap();
    let key = data.key.clone().unwrap();
    assert_eq!(key.len(), 32);
    assert_ne!(key, KEY_A);
    assert_ne!(key, KEY_B);
    assert_eq!(data.encrypted_key_version, Some(9));
    assert_eq!(data.encrypted_key.as_ref().unwrap().len(), 32 + 40);
    assert_eq!(data.data.len(), 6 + 40);
}

#[test]
fn create_finds_the_type_in_the_payload() {
    let png = vec![0x89, b'P', b'N', b'G', 0x0D, 0x0A, 0x1A, 0x0A, 0, 0, 0, 0x0D];
    let data = Data::create(png, None, &registry(), false, false).unwrap();
    assert_eq!(data.mime_type.as_deref(), Some("image/png"));
    let pdf = b"%PDF-1.7 and so on".to_vec();
    let data = Data::create(pdf, None, &registry(), false, true).unwrap();
    assert_eq!(data.mime_type.as_deref(), Some("application/pdf"));
    let text = Data::create(b"just words".to_vec(), None, &registry(), false, false).unwrap();
    assert_eq!(text.mime_type, None);
}

#[test]
fn request_holds_what_it_is_given() {
    let req = GetRequest { link_id: "l".to_string(), key: None, password: Some("p".to_string()) };
    assert_eq!(req.link_id, "l");
    assert_eq!(req.password.as_deref(), Some("p"));
}

#[test]
fn decrypt_opens_what_encrypt_sealed() {
    let sealed = Data::encrypt(KEY_A.to_string(), b"hello".to_vec()).unwrap();
    assert_eq!(Data::decrypt(KEY_A, &sealed).unwrap(), b"hello".to_vec());
    let long: Vec<u8> = (0..100_000u32).map(|i| (i % 251) as u8).collect();
    let sealed = Data::encrypt(KEY_B.to_string(), long.clone()).unwrap();
    assert_eq!(Data::decrypt(KEY_B, &sealed).unwrap(), long);
}

#[test]
fn decrypt_refuses_with_one_error() {
    let sealed = Data::encrypt(KEY_A.to_string(), b"hello".to_vec()).unwrap();
    // Another key.
    assert!(matches!(Data::decrypt(KEY_B, &sealed), Err(Error::CryptoError(_))));
    // A key the cipher does not take.
    assert!(matches!(Data::decrypt("short", &sealed), Err(Error::CryptoError(_))));
    assert!(matches!(Data::decrypt("", &sealed), Err(Error::CryptoError(_))));
    // A changed byte, in the nonce, the text and the tag.
    for at in [0, 24, sealed.len() - 1] {
        let mut changed = sealed.clone();
        changed[at] ^= 1;
        assert!(matches!(Data::decrypt(KEY_A, &changed), Err(Error::CryptoError(_))), "{}", at);
    }
    // Too short to hold nonce, tag and a byte.
    assert!(matches!(Data::decrypt(KEY_A, &sealed[..40]), Err(Error::CryptoError(_))));
    assert!(matches!(Data::decrypt(KEY_A, &[]), Err(Error::CryptoError(_))));
}

#[test]
fn managed_data_key_opens_under_the_master_key() {
    let data = Data::create(b"secret".to_vec(), None, &registry(), true, true).unwrap();
    let key = data.key.clone().unwrap();
    let wrapped = data.encrypted_key.clone().unwrap();
    assert_eq!(Data::decrypt(KEY_B, &wrapped).unwrap(), key.as_bytes().to_vec());
    assert!(Data::decrypt(KEY_A, &wrapped).is_err());
    assert_eq!(Data::decrypt(&key, &data.data).unwrap(), b"secret".to_vec());
}

#[test]
fn sealing_succeeds_on_every_fit_input() {
    for len in [1usize, 2, 63, 64, 65, 4096, 1 << 20] {
        let value = vec![7u8; len];
        let sealed = Data::encrypt(KEY_A.to_string(), value.clone()).unwrap();
        assert_eq!(sealed.len(), len + 40);
        assert_eq!(Data::decrypt(KEY_A, &sealed).unwrap(), value);
        for (encrypt_key, given) in
            [(false, None), (true, None), (false, Some(KEY_B)), (true, Some(KEY_B))]
        {
            let made = Data::create(
                value.clone(),
                given.map(|k| k.to_string()),
                &registry(),
                encrypt_key,
                true,
            );
            assert!(made.is_ok(), "{} {} {:?}", len, encrypt_key, given);
        }
    }
}

#[test]
fn sealed_png_keeps_the_type_of_its_plaintext() {
    let png = vec![0x89, 0x50, 0x4E, 0x47, 0x0D, 0x0A, 0x1A, 0x0A];
    let keys = Keys { keys: vec![Key { ver: 1, key: "a".repeat(32) }] };
    let made = Data::create(png.clone(), None, &keys, false, true).unwrap();
    assert_eq!(made.mime_type.as_deref(), Some("image/png"));
    assert_ne!(made.data, png);
    assert_eq!(made.data.len(), 48);
    assert_eq!(Data::decrypt(made.key.as_deref().unwrap(), &made.data).unwrap(), png);
}
