//! Secrets: uploads that are always sealed, kept for a month at most and
//! read once unless told otherwise.

use crate::clock::{expiry_instant, instant_after, now_millis};
use crate::crypto::{aead_seal, hash, SEAL_LIMIT, SEAL_OVERHEAD};
use crate::data::{is_cipher_key, is_sealable_payload, opens_to, sniff_mime, sniffed_mime};
use crate::database::metadata::{
    expire_reads_of,
    hashed_password,
    parse_seconds,
    parsed_seconds,
    to_whole_seconds,
    whole_seconds,
};
use crate::entropy::{
    is_generated_key,
    lemma_generated_key_bytes,
    random_alphanumeric,
    random_id,
    GENERATED_KEY_LENGTH,
};
use crate::error::Error;
use crate::handlers::{HeaderTextView, QueriesSet, QueriesSetView, RequestHeaders, RequestHeadersView};
use crate::keys::{latest, Keys, KeyView};
use crate::links::{Link, LinkScrubbed, LinkView, LinkWithKey, LinkWithKeyView, Links};
use crate::views::{copy_opt_text, opt_bytes, opt_text};
use vstd::prelude::*;
use vstd::utf8::encode_utf8;

pub use crate::database::metadata::{Lifecycle, LifecycleCurrent, LifecycleMax};

verus! {

/// The longest a secret is kept: thirty days.
pub const MAX_SECRET_SECONDS: i64 = 2592000;

/// How long a secret is kept that names no expiry: an hour.
pub const DEFAULT_SECRET_SECONDS: i64 = 3600;

/// How often a secret is read that names neither reads nor expiry.
pub const DEFAULT_SECRET_READS: i64 = 1;

#[derive(Debug)]
pub struct Meta {
    pub content_type: String,
    pub user_agent: Option<String>,
    pub x_forwarded_for: Option<String>,
    /// The length of what the object store holds.
    pub bytes: usize,
    pub filename: Option<String>,
}

pub struct MetaView {
    pub content_type: Seq<char>,
    pub user_agent: Option<Seq<char>>,
    pub x_forwarded_for: Option<Seq<char>>,
    pub bytes: usize,
    pub filename: Option<Seq<char>>,
}

impl View for Meta {
    type V = MetaView;

    open spec fn view(&self) -> MetaView {
        MetaView {
            content_type: self.content_type@,
            user_agent: opt_text(self.user_agent),
            x_forwarded_for: opt_text(self.x_forwarded_for),
            bytes: self.bytes,
            filename: opt_text(self.filename),
        }
    }
}

impl Clone for Meta {
    fn clone(&self) -> (res: Self)
        ensures
            res@ == self@,
    {
        Meta {
            content_type: self.content_type.clone(),
            user_agent: copy_opt_text(&self.user_agent),
            x_forwarded_for: copy_opt_text(&self.x_forwarded_for),
            bytes: self.bytes,
            filename: copy_opt_text(&self.filename),
        }
    }
}

/// The limits as they are shown: the expiry in seconds since the epoch.
#[derive(Debug, Clone, Copy)]
pub struct LifecycleMaxScrubbed {
    pub reads: i64,
    pub seconds: i64,
    pub expires: i64,
}

#[derive(Debug, Clone, Copy)]
pub struct LifecycleScrubbed {
    pub max: LifecycleMaxScrubbed,
    pub current: LifecycleCurrent,
}

/// How the data key of a secret is kept.
#[derive(Debug)]
pub struct Encryption {
    /// The data key is kept here, wrapped: the service can open the secret
    /// by itself.
    pub managed: bool,
    /// The data key, sealed under a master key.
    pub key: Option<Vec<u8>>,
    /// The version of that master key.
    pub version: Option<u8>,
}

pub struct EncryptionView {
    pub managed: bool,
    pub key: Option<Seq<u8>>,
    pub version: Option<u8>,
}

impl View for Encryption {
    type V = EncryptionView;

    open spec fn view(&self) -> EncryptionView {
        EncryptionView { managed: self.managed, key: opt_bytes(self.key), version: self.version }
    }
}

#[derive(Debug)]
pub struct Facts {
    pub owner: Option<String>,
    /// The hash of the password that a download must give.
    pub pwd: Option<String>,
    pub encryption: Encryption,
}

pub struct FactsView {
    pub owner: Option<Seq<char>>,
    pub pwd: Option<Seq<char>>,
    pub encryption: EncryptionView,
}

impl View for Facts {
    type V = FactsView;

    open spec fn view(&self) -> FactsView {
        FactsView {
            owner: opt_text(self.owner),
            pwd: opt_text(self.pwd),
            encryption: self.encryption@,
        }
    }
}

/// The record of one secret.
#[derive(Debug)]
pub struct Secret {
    pub id: String,
    pub active: bool,
    pub meta: Meta,
    pub lifecycle: Lifecycle,
    pub facts: Facts,
    pub links: Links,
}

pub struct SecretView {
    pub id: Seq<char>,
    pub active: bool,
    pub meta: MetaView,
    pub lifecycle: Lifecycle,
    pub facts: FactsView,
    pub links: Seq<LinkView>,
}

impl View for Secret {
    type V = SecretView;

    open spec fn view(&self) -> SecretView {
        SecretView {
            id: self.id@,
            active: self.active,
            meta: self.meta@,
            lifecycle: self.lifecycle,
            facts: self.facts@,
            links: self.links@,
        }
    }
}

/// The record as its owner may see it.
#[derive(Debug)]
pub struct SecretScrubbed {
    pub id: String,
    pub meta: Meta,
    pub lifecycle: LifecycleScrubbed,
    pub links: Vec<LinkScrubbed>,
}

pub struct SecretScrubbedView {
    pub id: Seq<char>,
    pub meta: MetaView,
    pub lifecycle: LifecycleScrubbed,
    pub links: Seq<LinkView>,
}

impl View for SecretScrubbed {
    type V = SecretScrubbedView;

    open spec fn view(&self) -> SecretScrubbedView {
        SecretScrubbedView {
            id: self.id@,
            meta: self.meta@,
            lifecycle: self.lifecycle,
            links: Seq::new(self.links@.len(), |i: int| self.links@[i]@),
        }
    }
}

/// A new record with what goes beside it.
#[derive(Debug)]
pub struct SecretPlusData {
    pub secret: Secret,
    /// The key told to the uploader: the unlock key of the first link, or,
    /// where the link has none, the data key.
    pub key: String,
    /// The ciphertext for the object store.
    pub value: Vec<u8>,
}

pub struct SecretPlusDataView {
    pub secret: SecretView,
    pub key: Seq<char>,
    pub value: Seq<u8>,
}

impl View for SecretPlusData {
    type V = SecretPlusDataView;

    open spec fn view(&self) -> SecretPlusDataView {
        SecretPlusDataView { secret: self.secret@, key: self.key@, value: self.value@ }
    }
}

impl EncryptionView {
    /// How the data key `key` of a secret is kept: not at all where the
    /// secret has no owner; else sealed under the latest master key, whose
    /// version is recorded.
    pub open spec fn keeps(self, key: Seq<char>, owned: bool, keys: Seq<KeyView>) -> bool {
        if owned {
            &&& self.managed
            &&& (self.key matches Some(w) && w.len() == encode_utf8(key).len() + SEAL_OVERHEAD
                && opens_to(latest(keys).key, w, encode_utf8(key)))
            &&& self.version == Some(latest(keys).ver)
        } else {
            !self.managed && self.key is None && self.version is None
        }
    }
}

impl Encryption {
    /// Says how the data key of a secret is kept.
    ///
    /// For a secret without an owner nothing is kept, and nothing fails.
    /// For an owner the key is sealed under the latest master key. That
    /// succeeds where the master key is 32 bytes long and the data key is
    /// not empty, up to 256 MiB for certain, and fails with `CryptoError`
    /// on any other master key and on an empty data key.
    pub fn new(current_user: &Option<String>, keys: &Keys, key: String) -> (res: Result<
        Encryption,
        Error,
    >)
        requires
            current_user is Some ==> keys@.len() > 0,
        ensures
            res matches Ok(e) ==> e@.keeps(key@, current_user is Some, keys@),
            res matches Err(e) ==> e is CryptoError && current_user is Some,
            (current_user is Some ==> is_cipher_key(latest(keys@).key) && 0 < encode_utf8(
                key@,
            ).len() <= SEAL_LIMIT) ==> res is Ok,
            current_user is Some && !is_cipher_key(latest(keys@).key) ==> res is Err,
            current_user is Some && encode_utf8(key@).len() == 0 ==> res is Err,
    {
        if current_user.is_none() {
            return Ok(Encryption { managed: false, key: None, version: None });
        }
        let latest_encrypt_key = keys.latest_key();
        let (_, key_encrypted) = match Secret::seal(
            Some(latest_encrypt_key.key.as_str()),
            crate::views::copy_bytes_of(key.as_str()),
        ) {
            Ok(sealed) => sealed,
            Err(e) => {
                return Err(e);
            },
        };
        Ok(Encryption { managed: true, key: Some(key_encrypted), version: Some(latest_encrypt_key.ver) })
    }
}

/// A number of seconds, held to the longest time a secret is kept.
pub open spec fn capped_for_secret(seconds: i64) -> i64 {
    if seconds > MAX_SECRET_SECONDS {
        MAX_SECRET_SECONDS
    } else {
        seconds
    }
}

/// The seconds a secret is kept: what the request asks for, held to the
/// cap, or an hour where it asks for nothing. An expiry that is no number
/// of seconds asks for nothing.
pub open spec fn secret_seconds_of(expires: Option<Seq<char>>) -> i64 {
    match requested_seconds(expires) {
        Some(s) => capped_for_secret(s),
        None => DEFAULT_SECRET_SECONDS,
    }
}

/// The seconds a request asks for.
pub open spec fn requested_seconds(expires: Option<Seq<char>>) -> Option<i64> {
    match expires {
        Some(e) => parsed_seconds(e),
        None => None,
    }
}

impl SecretView {
    /// The record as its owner may see it.
    pub open spec fn scrubbed(self) -> SecretScrubbedView {
        SecretScrubbedView {
            id: self.id,
            meta: self.meta,
            lifecycle: LifecycleScrubbed {
                max: LifecycleMaxScrubbed {
                    reads: self.lifecycle.max.reads,
                    seconds: self.lifecycle.max.seconds,
                    expires: whole_seconds(self.lifecycle.max.expires),
                },
                current: self.lifecycle.current,
            },
            links: self.links.map_values(|l: LinkView| l.listed()),
        }
    }
}

/// The record and its company for a secret with the id `id` that arrived
/// at `now`, was sealed to `value` under `key`, whose key is kept as `enc`
/// says, and which is reached through `l`.
pub open spec fn assembled_secret(
    id: Seq<char>,
    now: i64,
    key: Seq<char>,
    value: Seq<u8>,
    mime: Option<Seq<char>>,
    enc: EncryptionView,
    l: LinkWithKeyView,
    q: QueriesSetView,
    h: RequestHeadersView,
    owner: Option<Seq<char>>,
) -> SecretPlusDataView {
    let seconds = secret_seconds_of(q.expires);
    SecretPlusDataView {
        secret: SecretView {
            id,
            active: true,
            meta: MetaView {
                content_type: match mime {
                    Some(m) => m,
                    None => match h.content_type {
                        HeaderTextView::Text(t) => t,
                        HeaderTextView::Opaque => "error"@,
                        HeaderTextView::Absent => "none"@,
                    },
                },
                user_agent: h.user_agent.recorded(),
                x_forwarded_for: h.x_forwarded_for.recorded(),
                bytes: value.len() as usize,
                filename: q.filename,
            },
            lifecycle: Lifecycle {
                max: LifecycleMax {
                    reads: expire_reads_of(
                        q.reads,
                        requested_seconds(q.expires) is Some,
                        DEFAULT_SECRET_READS,
                    ),
                    seconds,
                    expires: instant_after(now, seconds) as i64,
                },
                current: LifecycleCurrent { reads: 0 },
            },
            facts: FactsView { owner, pwd: hashed_password(q.pwd), encryption: enc },
            links: seq![l.link],
        },
        key: match l.key {
            Some(k) => k,
            None => key,
        },
        value,
    }
}

impl SecretPlusDataView {
    /// What `Secret::create` returns for an upload: the record assembled
    /// from a fresh id, the time of arrival, the payload sealed under a
    /// fresh data key, the way that key is kept, and a new first link.
    pub open spec fn is_secret_of(
        self,
        payload: Seq<u8>,
        q: QueriesSetView,
        h: RequestHeadersView,
        owner: Option<Seq<char>>,
        keys: Seq<KeyView>,
    ) -> bool {
        exists|id: Seq<char>, now: i64, key: Seq<char>, enc: EncryptionView, l: LinkWithKeyView|
            {
                &&& id.len() == 36
                &&& is_generated_key(key)
                &&& opens_to(key, self.value, payload)
                &&& self.value.len() == payload.len() + SEAL_OVERHEAD
                &&& enc.keeps(key, owner is Some, keys)
                &&& l.is_new_for(owner is Some)
                &&& self == #[trigger] assembled_secret(
                    id,
                    now,
                    key,
                    self.value,
                    sniffed_mime(payload),
                    enc,
                    l,
                    q,
                    h,
                    owner,
                )
            }
    }
}

impl Secret {
    pub fn to_json(&self) -> (res: SecretScrubbed)
        ensures
            res@ == self@.scrubbed(),
    {
        SecretScrubbed {
            id: self.id.clone(),
            meta: self.meta.clone(),
            lifecycle: LifecycleScrubbed {
                current: self.lifecycle.current,
                max: LifecycleMaxScrubbed {
                    reads: self.lifecycle.max.reads,
                    seconds: self.lifecycle.max.seconds,
                    expires: to_whole_seconds(self.lifecycle.max.expires),
                },
            },
            links: self.links.to_vec(),
        }
    }

    /// Seals `data` under `key`, or under a fresh key where none is given,
    /// and returns the key with the ciphertext.
    ///
    /// Under a key of 32 bytes, given or fresh, all data that is not empty
    /// is sealed, up to 256 MiB for certain. Empty data and every other
    /// key are refused.
    pub fn seal(key: Option<&str>, data: Vec<u8>) -> (res: Result<(String, Vec<u8>), Error>)
        ensures
            is_sealable_payload(data@) && (key matches Some(k) ==> is_cipher_key(k@)) ==> res
                is Ok,
            res matches Ok(sealed) ==> {
                &&& match key {
                    Some(k) => sealed.0@ == k@,
                    None => is_generated_key(sealed.0@),
                }
                &&& opens_to(sealed.0@, sealed.1@, data@)
                &&& sealed.1@.len() == data@.len() + SEAL_OVERHEAD
            },
            res matches Err(e) ==> e is CryptoError,
            data@.len() == 0 ==> res is Err,
            (key matches Some(k) && !is_cipher_key(k@)) ==> res is Err,
    {
        let key = match key {
            Some(k) => k.to_owned(),
            None => {
                let fresh = random_alphanumeric(GENERATED_KEY_LENGTH);
                proof {
                    lemma_generated_key_bytes(fresh@);
                }
                fresh
            },
        };
        match aead_seal(key.as_str().as_bytes(), data.as_slice()) {
            Ok(ciphertext) => Ok((key, ciphertext)),
            Err(e) => Err(Error::CryptoError(e)),
        }
    }

    /// Puts a record together from its parts.
    pub fn assemble(
        id: String,
        now: i64,
        key: String,
        ciphertext: Vec<u8>,
        mime: Option<String>,
        encryption: Encryption,
        link: LinkWithKey,
        queries: &QueriesSet,
        headers: &RequestHeaders,
        current_user: Option<String>,
    ) -> (res: SecretPlusData)
        ensures
            res@ == assembled_secret(
                id@,
                now,
                key@,
                ciphertext@,
                opt_text(mime),
                encryption@,
                link@,
                queries@,
                headers@,
                opt_text(current_user),
            ),
    {
        let content_type = match mime {
            Some(m) => m,
            None => match &headers.content_type {
                crate::handlers::HeaderText::Text(t) => t.clone(),
                crate::handlers::HeaderText::Opaque => "error".to_owned(),
                crate::handlers::HeaderText::Absent => "none".to_owned(),
            },
        };

        let initial_url_key = match link.key {
            Some(k) => k,
            None => key,
        };

        let requested = match &queries.expires {
            Some(e) => parse_seconds(e.as_str()),
            None => None,
        };

        let expire_reads = match queries.reads {
            Some(r) => r,
            None => if requested.is_none() {
                DEFAULT_SECRET_READS
            } else {
                -1
            },
        };

        let expire_seconds = match requested {
            Some(v) => if v > MAX_SECRET_SECONDS {
                MAX_SECRET_SECONDS
            } else {
                v
            },
            None => DEFAULT_SECRET_SECONDS,
        };

        let pwd = match &queries.pwd {
            Some(p) => Some(hash(p.as_str())),
            None => None,
        };

        let mut links: Vec<Link> = Vec::new();
        links.push(link.link);
        let links = Links(links);
        proof {
            assert(links@ =~= seq![link@.link]);
        }

        let secret = Secret {
            id,
            active: true,
            meta: Meta {
                content_type,
                bytes: ciphertext.len(),
                x_forwarded_for: headers.x_forwarded_for.recorded(),
                user_agent: headers.user_agent.recorded(),
                filename: copy_opt_text(&queries.filename),
            },
            lifecycle: Lifecycle {
                max: LifecycleMax {
                    reads: expire_reads,
                    seconds: expire_seconds,
                    expires: expiry_instant(now, expire_seconds),
                },
                current: LifecycleCurrent { reads: 0 },
            },
            facts: Facts { owner: current_user, pwd, encryption },
            links,
        };

        SecretPlusData { secret, key: initial_url_key, value: ciphertext }
    }

    /// Turns an upload into the record of a secret and the ciphertext to store.
    ///
    /// The payload is sealed under a fresh data key. For an upload with an
    /// owner that key is kept, wrapped under the latest master key, and the
    /// first link has an unlock key, which is the key told to the uploader;
    /// an upload without an owner is told the data key itself.
    ///
    /// Succeeds on every payload that is not empty, up to 256 MiB for
    /// certain, where the upload has no owner or the latest master key is
    /// 32 bytes long. Fails with `CryptoError` on an empty payload and on
    /// any other master key.
    pub fn create(
        value: Vec<u8>,
        queries: &QueriesSet,
        headers: RequestHeaders,
        current_user: Option<String>,
        keys: &Keys,
    ) -> (res: Result<SecretPlusData, Error>)
        requires
            current_user is Some ==> keys@.len() > 0,
        ensures
            res matches Ok(s) ==> s@.is_secret_of(
                value@,
                queries@,
                headers@,
                opt_text(current_user),
                keys@,
            ),
            res matches Err(e) ==> e is CryptoError,
            is_sealable_payload(value@) && (current_user is Some ==> is_cipher_key(
                latest(keys@).key,
            )) ==> res is Ok,
            value@.len() == 0 ==> res is Err,
            current_user is Some && !is_cipher_key(latest(keys@).key) ==> res is Err,
    {
        let id = random_id();
        let mime = sniff_mime(value.as_slice());

        let (key, ciphertext) = match Secret::seal(None, value) {
            Ok(sealed) => sealed,
            Err(e) => {
                return Err(e);
            },
        };
        proof {
            lemma_generated_key_bytes(key@);
        }

        let encryption_block = match Encryption::new(&current_user, keys, key.clone()) {
            Ok(e) => e,
            Err(e) => {
                return Err(e);
            },
        };

        let link_with_key = match Link::new(current_user.as_ref()) {
            Ok(l) => l,
            Err(e) => {
                return Err(e);
            },
        };

        let now = now_millis();
        Ok(
            Self::assemble(
                id,
                now,
                key,
                ciphertext,
                mime,
                encryption_block,
                link_with_key,
                queries,
                &headers,
                current_user,
            ),
        )
    }
}

} // verus!
