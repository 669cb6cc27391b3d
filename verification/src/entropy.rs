//! Random identifiers and keys, from the `uuid` and `rand` crates.

use rand::distributions::DistString;
use vstd::prelude::*;

verus! {

/// The length of a generated key: as many characters as the cipher wants bytes.
pub const GENERATED_KEY_LENGTH: usize = 32;

/// A letter of either case or a digit, of ASCII.
pub open spec fn is_alphanumeric(c: char) -> bool {
    ('0' <= c && c <= '9') || ('a' <= c && c <= 'z') || ('A' <= c && c <= 'Z')
}

/// Every character is a letter or a digit.
pub open spec fn all_alphanumeric(s: Seq<char>) -> bool {
    forall|i: int| 0 <= i < s.len() ==> is_alphanumeric(#[trigger] s[i])
}

/// The shape of a key that this library generates.
pub open spec fn is_generated_key(s: Seq<char>) -> bool {
    s.len() == GENERATED_KEY_LENGTH && all_alphanumeric(s)
}

/// A generated key is as many bytes as characters.
pub proof fn lemma_generated_key_bytes(s: Seq<char>)
    requires
        is_generated_key(s),
    ensures
        vstd::utf8::encode_utf8(s).len() == GENERATED_KEY_LENGTH,
{
    assert(vstd::utf8::is_ascii_chars(s)) by {
        assert forall|i: int| 0 <= i < s.len() implies '\0' <= #[trigger] s[i] <= '\u{7f}' by {
            assert(is_alphanumeric(s[i]));
        }
    }
    vstd::utf8::is_ascii_chars_encode_utf8(s);
}

/// `Alphanumeric.sample_string` with the thread's generator.
///
/// Trusted: the string has `len` characters, each a letter or a digit of
/// ASCII. Which ones is chance.
#[verifier::external_body]
pub(crate) fn random_alphanumeric(len: usize) -> (s: String)
    ensures
        s@.len() == len,
        all_alphanumeric(s@),
{
    rand::distributions::Alphanumeric.sample_string(&mut rand::thread_rng(), len)
}

/// `Uuid::new_v4()` written as text.
///
/// Trusted: the text is the hyphenated form, 36 characters long. Which
/// identifier is chance.
#[verifier::external_body]
pub(crate) fn random_id() -> (id: String)
    ensures
        id@.len() == 36,
{
    uuid::Uuid::new_v4().to_string()
}

} // verus!
