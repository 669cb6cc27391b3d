//! Who a request says it is: what its `Authorization` header holds.

use vstd::prelude::*;

verus! {

/// The name and the password that `headers::authorization::Basic` reads
/// from the value of an `Authorization` header, or `None` where it reads none.
pub uninterp spec fn basic_credentials(header: Seq<u8>) -> Option<(Seq<char>, Seq<char>)>;

/// The six bytes every `Basic` header begins with.
pub open spec fn basic_prefix() -> Seq<u8> {
    seq![0x42u8, 0x61u8, 0x73u8, 0x69u8, 0x63u8, 0x20u8]
}

/// The header's value begins with `Basic` and a space.
pub open spec fn is_basic(header: Seq<u8>) -> bool {
    header.len() >= 6 && header.take(6) == basic_prefix()
}

/// `Basic::decode` on the `HeaderValue` made of `header`, with the
/// `username` and the `password` of what it returns.
///
/// Trusted: the pair, or its absence, is a function of the bytes. The
/// decoder reads behind the scheme without looking, so it is only handed a
/// value that begins with the scheme.
#[verifier::external_body]
fn decode_basic(header: &[u8]) -> (res: Option<(String, String)>)
    requires
        is_basic(header@),
    ensures
        match res {
            Some(pair) => basic_credentials(header@) == Some((pair.0@, pair.1@)),
            None => basic_credentials(header@) is None,
        },
{
    let value = headers::HeaderValue::from_bytes(header).ok()?;
    let basic = <headers::authorization::Basic as headers::authorization::Credentials>::decode(
        &value,
    )?;
    Some((basic.username().to_owned(), basic.password().to_owned()))
}

/// What a request says of its sender.
#[derive(Debug)]
pub enum Credentials {
    /// It has no `Authorization` header: nobody, who may upload.
    Anonymous,
    /// It names an account or an API key, with the password or the secret.
    Login { username: String, password: String },
    /// Its header cannot be read: it is turned away.
    Rejected,
}

pub enum CredentialsView {
    Anonymous,
    Login { username: Seq<char>, password: Seq<char> },
    Rejected,
}

impl View for Credentials {
    type V = CredentialsView;

    open spec fn view(&self) -> CredentialsView {
        match self {
            Credentials::Anonymous => CredentialsView::Anonymous,
            Credentials::Login { username, password } => CredentialsView::Login {
                username: username@,
                password: password@,
            },
            Credentials::Rejected => CredentialsView::Rejected,
        }
    }
}

/// What the `Authorization` header of a request says of its sender.
pub open spec fn credentials_of(header: Option<Seq<u8>>) -> CredentialsView {
    match header {
        None => CredentialsView::Anonymous,
        Some(h) => if is_basic(h) {
            match basic_credentials(h) {
                Some((username, password)) => CredentialsView::Login { username, password },
                None => CredentialsView::Rejected,
            }
        } else {
            CredentialsView::Rejected
        },
    }
}

/// Reads the `Authorization` header of a request.
pub fn auth(header: Option<&Vec<u8>>) -> (res: Credentials)
    ensures
        res@ == credentials_of(
            match header {
                Some(h) => Some(h@),
                None => None,
            },
        ),
{
    let h = match header {
        Some(h) => h,
        None => {
            return Credentials::Anonymous;
        },
    };
    if h.len() < 6 || h[0] != 0x42 || h[1] != 0x61 || h[2] != 0x73 || h[3] != 0x69 || h[4] != 0x63
        || h[5] != 0x20 {
        proof {
            if h@.len() >= 6 {
                assert(h@.take(6)[0] == h@[0]);
                assert(h@.take(6)[1] == h@[1]);
                assert(h@.take(6)[2] == h@[2]);
                assert(h@.take(6)[3] == h@[3]);
                assert(h@.take(6)[4] == h@[4]);
                assert(h@.take(6)[5] == h@[5]);
            }
        }
        return Credentials::Rejected;
    }
    proof {
        assert(h@.take(6) =~= basic_prefix());
    }
    match decode_basic(h.as_slice()) {
        Some((username, password)) => Credentials::Login { username, password },
        None => Credentials::Rejected,
    }
}

} // verus!
