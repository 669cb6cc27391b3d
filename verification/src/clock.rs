//! Instants as milliseconds since the Unix epoch, the clock that gives them
//! and the text that stands for them.

use vstd::prelude::*;

verus! {

/// What `Display` writes for the `bson::DateTime` of an instant.
pub uninterp spec fn datetime_text(millis: i64) -> Seq<char>;

/// The RFC 3339 text of the `bson::DateTime` of an instant, where it has one.
pub uninterp spec fn rfc3339_text(millis: i64) -> Option<Seq<char>>;

/// `Utc::now().timestamp_millis()`.
///
/// Trusted: nothing is said of the instant.
#[verifier::external_body]
pub(crate) fn now_millis() -> i64 {
    chrono::Utc::now().timestamp_millis()
}

/// `to_string` of `bson::DateTime::from_millis(millis)`.
///
/// Trusted: the text is a function of the instant.
#[verifier::external_body]
pub(crate) fn datetime_to_string(millis: i64) -> (text: String)
    ensures
        text@ == datetime_text(millis),
{
    bson::DateTime::from_millis(millis).to_string()
}

/// `try_to_rfc3339_string` of `bson::DateTime::from_millis(millis)`, a
/// refusal turned into `None`.
///
/// Trusted: the text, or its absence, is a function of the instant.
#[verifier::external_body]
pub(crate) fn datetime_to_rfc3339(millis: i64) -> (text: Option<String>)
    ensures
        crate::views::opt_text(text) == rfc3339_text(millis),
{
    bson::DateTime::from_millis(millis).try_to_rfc3339_string().ok()
}

/// The instant `seconds` after `now`, kept within what an instant can hold.
pub open spec fn instant_after(now: i64, seconds: i64) -> int {
    let at = now + seconds * 1000;
    if at > i64::MAX {
        i64::MAX as int
    } else if at < i64::MIN {
        i64::MIN as int
    } else {
        at
    }
}

/// The instant at which something made at `now` and kept for `seconds` expires.
pub fn expiry_instant(now: i64, seconds: i64) -> (at: i64)
    ensures
        at == instant_after(now, seconds),
{
    let wide: i128 = now as i128 + seconds as i128 * 1000;
    if wide > i64::MAX as i128 {
        i64::MAX
    } else if wide < i64::MIN as i128 {
        i64::MIN
    } else {
        wide as i64
    }
}

} // verus!
