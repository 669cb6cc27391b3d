//! The failures the service reports, with the text and the HTTP status of each.

use vstd::prelude::*;
use vstd::string::StringExecFns;

verus! {

/// The error that every failing `orion` operation returns. It carries nothing.
#[verifier::external_type_specification]
#[verifier::external_body]
pub struct ExUnknownCryptoError(orion::errors::UnknownCryptoError);

#[derive(Debug)]
pub enum Error {
    /// Missing, expired, wrong password or key, or undecryptable: one answer
    /// for all, so that a failure never confirms that an object exists.
    NotFound,
    /// A write to the metadata store failed.
    BadInsert,
    /// The cleanup lock was not acquired. A signal, not a fault.
    CleanupNotRequired,
    UserExists,
    BadLogin,
    /// Authenticated, but the role does not allow the operation.
    Unauthorized,
    /// Key material the cipher refuses.
    CryptoError(orion::errors::UnknownCryptoError),
    /// A stored document could not be decoded; holds the decoder's message.
    DeError(String),
    /// A value could not be encoded for the store; holds the encoder's message.
    SerError(String),
    /// The metadata store failed; holds its message.
    Mongo(String),
    /// The object store failed; holds its message.
    Storage(String),
    /// A field of a stored document was missing or of another type.
    Bson(String),
    /// Bytes that should have been text were not UTF-8.
    Utf(String),
    /// The second object store failed; holds its message.
    Azure(String),
    /// An expiry that is neither a number of seconds nor a duration; holds
    /// the parser's message.
    Ms(String),
}

/// The JSON object `{"error": "<text>"}`.
pub open spec fn error_body(text: Seq<char>) -> Seq<char> {
    "{\"error\": \""@ + text + "\"}"@
}

/// `Display::to_string` of an `orion::errors::UnknownCryptoError`, which
/// writes the type's name whatever the cause was.
#[verifier::external_body]
fn crypto_error_text(e: &orion::errors::UnknownCryptoError) -> (text: String)
    ensures
        text@ == "UnknownCryptoError"@,
{
    e.to_string()
}

fn body_of(text: &str) -> (body: String)
    ensures
        body@ == error_body(text@),
{
    let mut body = String::from_str("{\"error\": \"");
    body.append(text);
    body.append("\"}");
    body
}

impl Error {
    /// The text inside the JSON body.
    pub open spec fn text(self) -> Seq<char> {
        match self {
            Error::NotFound => "Not found"@,
            Error::BadInsert => "Unable to insert metadata"@,
            Error::CleanupNotRequired => "Cleanup not required at this time"@,
            Error::UserExists => "User already exists"@,
            Error::BadLogin => "Incorrect login credentials"@,
            Error::Unauthorized => "Unauthorized"@,
            Error::CryptoError(_) => "UnknownCryptoError"@,
            Error::DeError(m) => m@,
            Error::SerError(m) => m@,
            Error::Mongo(m) => m@,
            Error::Storage(m) => m@,
            Error::Bson(m) => m@,
            Error::Utf(m) => m@,
            Error::Azure(m) => m@,
            Error::Ms(m) => m@,
        }
    }

    /// The HTTP status the error is answered with.
    pub open spec fn status(self) -> int {
        match self {
            Error::NotFound => 404,
            Error::UserExists => 409,
            Error::BadLogin => 401,
            Error::Unauthorized => 401,
            Error::DeError(_) => 404,
            _ => 500,
        }
    }

    /// The response body: a JSON object with the one member `error`.
    pub fn message(&self) -> (body: String)
        ensures
            body@ == error_body(self.text()),
    {
        match self {
            Error::NotFound => body_of("Not found"),
            Error::BadInsert => body_of("Unable to insert metadata"),
            Error::CleanupNotRequired => body_of("Cleanup not required at this time"),
            Error::UserExists => body_of("User already exists"),
            Error::BadLogin => body_of("Incorrect login credentials"),
            Error::Unauthorized => body_of("Unauthorized"),
            Error::CryptoError(e) => {
                let text = crypto_error_text(e);
                body_of(text.as_str())
            },
            Error::DeError(m) => body_of(m.as_str()),
            Error::SerError(m) => body_of(m.as_str()),
            Error::Mongo(m) => body_of(m.as_str()),
            Error::Storage(m) => body_of(m.as_str()),
            Error::Bson(m) => body_of(m.as_str()),
            Error::Utf(m) => body_of(m.as_str()),
            Error::Azure(m) => body_of(m.as_str()),
            Error::Ms(m) => body_of(m.as_str()),
        }
    }

    pub fn status_code(&self) -> (code: u16)
        ensures
            code == self.status(),
    {
        match self {
            Error::NotFound => 404,
            Error::UserExists => 409,
            Error::BadLogin | Error::Unauthorized => 401,
            Error::DeError(_) => 404,
            _ => 500,
        }
    }
}

} // verus!
