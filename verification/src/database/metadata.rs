//! The record kept for each upload, and how an upload becomes one.

use crate::clock::{datetime_to_rfc3339, expiry_instant, instant_after, now_millis, rfc3339_text};
use crate::config::{Configs, ConfigsView};
use crate::crypto::{hash, hashed};
use crate::data::{is_cipher_key, is_sealable_payload, Data, DataView};
use crate::database::links::{
    scrubbed_list,
    Link,
    LinkScrubbed,
    LinkScrubbedView,
    LinkView,
    LinkWithKey,
    LinkWithKeyView,
    Links,
};
use crate::entropy::random_id;
use crate::error::Error;
use crate::handlers::{QueriesSet, QueriesSetView, RequestHeaders, RequestHeadersView};
use crate::helpers::{build_download_url, download_url, pairs_text};
use crate::keys::latest;
use crate::views::{copy_opt_text, copy_opt_texts, opt_bytes, opt_text, opt_texts};
use vstd::prelude::*;
use vstd::string::StringExecFns;

verus! {

/// The longest an upload is kept at a caller's request: seven years of 365 days.
pub const MAX_EXPIRE_SECONDS: i64 = 220752000;

/// A decimal digit of ASCII.
pub open spec fn is_digit(c: char) -> bool {
    '0' <= c && c <= '9'
}

/// The number that a run of decimal digits writes.
pub open spec fn digits_value(digits: Seq<char>) -> int
    decreases digits.len(),
{
    if digits.len() == 0 {
        0
    } else {
        digits_value(digits.drop_last()) * 10 + (digits.last() as int - '0' as int)
    }
}

/// One more digit behind a run multiplies what it writes by ten and adds
/// the digit.
pub proof fn lemma_digits_value_push(digits: Seq<char>, c: char)
    ensures
        digits_value(digits.push(c)) == digits_value(digits) * 10 + (c as int - '0' as int),
{
    assert(digits.push(c).drop_last() =~= digits);
}

/// The whole number that a text writes in the form that `str::parse::<i64>`
/// reads: a `+` or a `-` or neither, then decimal digits, at least one, and
/// nothing else; `None` for every other text and for a number that an
/// `i64` cannot hold.
pub open spec fn parsed_seconds(text: Seq<char>) -> Option<i64> {
    let signed = text.len() > 0 && (text[0] == '-' || text[0] == '+');
    let digits = if signed {
        text.skip(1)
    } else {
        text
    };
    let value = if signed && text[0] == '-' {
        -digits_value(digits)
    } else {
        digits_value(digits)
    };
    if digits.len() > 0 && (forall|i: int| 0 <= i < digits.len() ==> is_digit(#[trigger] digits[i]))
        && i64::MIN <= value <= i64::MAX {
        Some(value as i64)
    } else {
        None
    }
}

/// What `ms_converter::ms` makes of a text: the milliseconds it stands
/// for, or the message with which the parser refuses it.
pub uninterp spec fn parsed_millis(text: Seq<char>) -> Result<i64, Seq<char>>;

/// The text holds a point, so that the number in it may have a fraction.
pub open spec fn has_point(text: Seq<char>) -> bool {
    text.contains('.')
}

/// The expiry can be read: there is none, or it is a number of seconds, or
/// the duration parser reads it.
pub open spec fn is_readable_expiry(expires: Option<Seq<char>>) -> bool {
    match expires {
        None => true,
        Some(e) => parsed_seconds(e) is Some || parsed_millis(e) is Ok,
    }
}

/// What `i64::to_string` writes.
pub uninterp spec fn decimal_text(n: i64) -> Seq<char>;

/// `str::parse::<i64>`, a refusal turned into `None`.
///
/// Trusted: it reads an optional sign and then decimal digits, at least
/// one, and refuses every other text and every number out of range.
#[verifier::external_body]
pub(crate) fn parse_seconds(text: &str) -> (res: Option<i64>)
    ensures
        res == parsed_seconds(text@),
{
    text.parse::<i64>().ok()
}

/// `ms_converter::ms`: the milliseconds of a duration such as `2h` or
/// `1.5 days`, or the parser's message where it refuses.
///
/// Trusted: whether the parser reads a text, and the message with which
/// it refuses one, is a function of the text; so are the milliseconds of a
/// text without a point. The fraction behind a point is scaled with
/// `f64::powi`, of whose precision std promises nothing, so of the
/// milliseconds of such a text nothing is said.
#[verifier::external_body]
fn parse_duration(text: &str) -> (res: Result<i64, String>)
    ensures
        match res {
            Ok(millis) => parsed_millis(text@) is Ok && (has_point(text@) || parsed_millis(text@)
                == Ok::<i64, Seq<char>>(millis)),
            Err(message) => parsed_millis(text@) == Err::<i64, Seq<char>>(message@),
        },
{
    ms_converter::ms(text).map_err(|e| e.to_string())
}

/// `i64::to_string`.
///
/// Trusted: the text is a function of the number.
#[verifier::external_body]
fn decimal(n: i64) -> (text: String)
    ensures
        text@ == decimal_text(n),
{
    n.to_string()
}

#[derive(Debug)]
pub struct Meta {
    /// When the upload arrived, in milliseconds since the epoch.
    pub created: i64,
    pub content_type: String,
    /// The expiry as the request wrote it.
    pub expires: Option<String>,
    pub user_agent: Option<String>,
    pub x_forwarded_for: Option<String>,
    /// The length of what the object store holds.
    pub bytes: usize,
    pub filename: Option<String>,
    pub tags: Option<Vec<String>>,
}

pub struct MetaView {
    pub created: i64,
    pub content_type: Seq<char>,
    pub expires: Option<Seq<char>>,
    pub user_agent: Option<Seq<char>>,
    pub x_forwarded_for: Option<Seq<char>>,
    pub bytes: usize,
    pub filename: Option<Seq<char>>,
    pub tags: Option<Seq<Seq<char>>>,
}

impl View for Meta {
    type V = MetaView;

    open spec fn view(&self) -> MetaView {
        MetaView {
            created: self.created,
            content_type: self.content_type@,
            expires: opt_text(self.expires),
            user_agent: opt_text(self.user_agent),
            x_forwarded_for: opt_text(self.x_forwarded_for),
            bytes: self.bytes,
            filename: opt_text(self.filename),
            tags: opt_texts(self.tags),
        }
    }
}

impl Clone for Meta {
    fn clone(&self) -> (res: Self)
        ensures
            res@ == self@,
    {
        Meta {
            created: self.created,
            content_type: self.content_type.clone(),
            expires: copy_opt_text(&self.expires),
            user_agent: copy_opt_text(&self.user_agent),
            x_forwarded_for: copy_opt_text(&self.x_forwarded_for),
            bytes: self.bytes,
            filename: copy_opt_text(&self.filename),
            tags: copy_opt_texts(&self.tags),
        }
    }
}

#[derive(Debug, Clone, Copy)]
pub struct LifecycleMax {
    /// Reads allowed. Zero or less: as many as the time allows.
    pub reads: i64,
    /// Seconds the upload is kept.
    pub seconds: i64,
    /// The instant after which the upload is gone, in milliseconds since the epoch.
    pub expires: i64,
}

#[derive(Debug, Clone, Copy)]
pub struct LifecycleCurrent {
    pub reads: i64,
}

#[derive(Debug, Clone, Copy)]
pub struct Lifecycle {
    pub max: LifecycleMax,
    pub current: LifecycleCurrent,
}

/// The limits as they are shown: the expiry as text.
#[derive(Debug)]
pub struct LifecycleMaxJson {
    pub reads: i64,
    pub seconds: i64,
    pub expires: String,
}

pub struct LifecycleMaxJsonView {
    pub reads: i64,
    pub seconds: i64,
    pub expires: Seq<char>,
}

impl View for LifecycleMaxJson {
    type V = LifecycleMaxJsonView;

    open spec fn view(&self) -> LifecycleMaxJsonView {
        LifecycleMaxJsonView { reads: self.reads, seconds: self.seconds, expires: self.expires@ }
    }
}

#[derive(Debug)]
pub struct LifecyclePublic {
    pub max: LifecycleMaxJson,
    pub current: LifecycleCurrent,
}

pub struct LifecyclePublicView {
    pub max: LifecycleMaxJsonView,
    pub current: LifecycleCurrent,
}

impl View for LifecyclePublic {
    type V = LifecyclePublicView;

    open spec fn view(&self) -> LifecyclePublicView {
        LifecyclePublicView { max: self.max@, current: self.current }
    }
}

/// How the stored bytes are protected.
#[derive(Debug)]
pub struct Encryption {
    /// The stored bytes are a ciphertext.
    pub encrypted: bool,
    /// The data key is kept here, wrapped: the service can open the
    /// ciphertext by itself.
    pub managed: bool,
    /// The data key, sealed under a master key.
    pub key: Option<Vec<u8>>,
    /// The version of that master key.
    pub version: Option<u8>,
}

pub struct EncryptionView {
    pub encrypted: bool,
    pub managed: bool,
    pub key: Option<Seq<u8>>,
    pub version: Option<u8>,
}

impl View for Encryption {
    type V = EncryptionView;

    open spec fn view(&self) -> EncryptionView {
        EncryptionView {
            encrypted: self.encrypted,
            managed: self.managed,
            key: opt_bytes(self.key),
            version: self.version,
        }
    }
}

impl Clone for Encryption {
    fn clone(&self) -> (res: Self)
        ensures
            res@ == self@,
    {
        Encryption {
            encrypted: self.encrypted,
            managed: self.managed,
            key: crate::views::copy_opt_bytes(&self.key),
            version: self.version,
        }
    }
}

#[derive(Debug)]
pub struct Facts {
    pub owner: Option<String>,
    /// The hash of the password that a download must give.
    pub pwd: Option<String>,
    pub encryption: Encryption,
    /// The deployment ignored link keys when this was uploaded.
    pub ignore_link_key: bool,
}

pub struct FactsView {
    pub owner: Option<Seq<char>>,
    pub pwd: Option<Seq<char>>,
    pub encryption: EncryptionView,
    pub ignore_link_key: bool,
}

impl View for Facts {
    type V = FactsView;

    open spec fn view(&self) -> FactsView {
        FactsView {
            owner: opt_text(self.owner),
            pwd: opt_text(self.pwd),
            encryption: self.encryption@,
            ignore_link_key: self.ignore_link_key,
        }
    }
}

impl Clone for Facts {
    fn clone(&self) -> (res: Self)
        ensures
            res@ == self@,
    {
        Facts {
            owner: copy_opt_text(&self.owner),
            pwd: copy_opt_text(&self.pwd),
            encryption: self.encryption.clone(),
            ignore_link_key: self.ignore_link_key,
        }
    }
}

/// The record of one upload.
#[derive(Debug)]
pub struct MetaData {
    pub id: String,
    /// Unset once the upload is deleted, for good.
    pub active: bool,
    pub meta: Meta,
    pub lifecycle: Lifecycle,
    pub facts: Facts,
    pub links: Links,
}

pub struct MetaDataView {
    pub id: Seq<char>,
    pub active: bool,
    pub meta: MetaView,
    pub lifecycle: Lifecycle,
    pub facts: FactsView,
    pub links: Seq<LinkView>,
}

impl View for MetaData {
    type V = MetaDataView;

    open spec fn view(&self) -> MetaDataView {
        MetaDataView {
            id: self.id@,
            active: self.active,
            meta: self.meta@,
            lifecycle: self.lifecycle,
            facts: self.facts@,
            links: self.links@,
        }
    }
}

impl Clone for MetaData {
    fn clone(&self) -> (res: Self)
        ensures
            res@ == self@,
    {
        MetaData {
            id: self.id.clone(),
            active: self.active,
            meta: self.meta.clone(),
            lifecycle: self.lifecycle,
            facts: self.facts.clone(),
            links: self.links.clone(),
        }
    }
}

/// The record as its owner may see it.
#[derive(Debug)]
pub struct MetaDataPublic {
    pub id: String,
    pub meta: Meta,
    pub lifecycle: LifecyclePublic,
    pub links: Vec<LinkScrubbed>,
}

pub struct MetaDataPublicView {
    pub id: Seq<char>,
    pub meta: MetaView,
    pub lifecycle: LifecyclePublicView,
    pub links: Seq<LinkScrubbedView>,
}

impl View for MetaDataPublic {
    type V = MetaDataPublicView;

    open spec fn view(&self) -> MetaDataPublicView {
        MetaDataPublicView {
            id: self.id@,
            meta: self.meta@,
            lifecycle: self.lifecycle@,
            links: scrubbed_list(self.links@),
        }
    }
}

/// A new record with what goes beside it.
#[derive(Debug)]
pub struct MetaDataPayload {
    pub metadata: MetaData,
    /// The key told to the uploader: the unlock key of the first link, or,
    /// for an upload that the service cannot open by itself, the data key.
    pub key: Option<String>,
    /// The bytes for the object store.
    pub data: Vec<u8>,
    /// The address under which the upload is downloaded.
    pub url: String,
}

pub struct MetaDataPayloadView {
    pub metadata: MetaDataView,
    pub key: Option<Seq<char>>,
    pub data: Seq<u8>,
    pub url: Seq<char>,
}

impl View for MetaDataPayload {
    type V = MetaDataPayloadView;

    open spec fn view(&self) -> MetaDataPayloadView {
        MetaDataPayloadView {
            metadata: self.metadata@,
            key: opt_text(self.key),
            data: self.data@,
            url: self.url@,
        }
    }
}

/// The whole seconds in a number of milliseconds, rounded towards zero.
pub open spec fn whole_seconds(millis: i64) -> i64 {
    if millis >= 0 {
        (millis / 1000) as i64
    } else {
        (-((-millis) / 1000)) as i64
    }
}

/// The whole seconds in a number of milliseconds, rounded towards zero.
pub fn to_whole_seconds(millis: i64) -> (seconds: i64)
    ensures
        seconds == whole_seconds(millis),
{
    if millis >= 0 {
        millis / 1000
    } else {
        let wide: i128 = -(millis as i128);
        let whole: i128 = wide / 1000;
        (-whole) as i64
    }
}

/// The expiry of a limit as text: RFC 3339 where the instant has such a
/// form, else the whole seconds since the epoch.
pub open spec fn expiry_text(expires: i64) -> Seq<char> {
    match rfc3339_text(expires) {
        Some(t) => t,
        None => decimal_text(whole_seconds(expires)),
    }
}

/// The limits as they are shown.
pub open spec fn shown_limits(max: LifecycleMax) -> LifecycleMaxJsonView {
    LifecycleMaxJsonView { reads: max.reads, seconds: max.seconds, expires: expiry_text(max.expires) }
}

/// The limits and the count as they are shown.
pub open spec fn shown_lifecycle(lifecycle: Lifecycle) -> LifecyclePublicView {
    LifecyclePublicView { max: shown_limits(lifecycle.max), current: lifecycle.current }
}

impl From<LifecycleMax> for LifecycleMaxJson {
    fn from(item: LifecycleMax) -> (res: Self)
        ensures
            res@ == shown_limits(item),
    {
        let expires = match datetime_to_rfc3339(item.expires) {
            Some(t) => t,
            None => decimal(to_whole_seconds(item.expires)),
        };
        LifecycleMaxJson { reads: item.reads, seconds: item.seconds, expires }
    }
}

impl vstd::std_specs::convert::FromSpecImpl<LifecycleMax> for LifecycleMaxJson {
    open spec fn obeys_from_spec() -> bool {
        false
    }

    open spec fn from_spec(item: LifecycleMax) -> Self {
        arbitrary()
    }
}

impl From<Lifecycle> for LifecyclePublic {
    fn from(item: Lifecycle) -> (res: Self)
        ensures
            res@ == shown_lifecycle(item),
    {
        LifecyclePublic { max: LifecycleMaxJson::from(item.max), current: item.current }
    }
}

impl vstd::std_specs::convert::FromSpecImpl<Lifecycle> for LifecyclePublic {
    open spec fn obeys_from_spec() -> bool {
        false
    }

    open spec fn from_spec(item: Lifecycle) -> Self {
        arbitrary()
    }
}

impl MetaDataView {
    /// What holds of every record that an upload made, whatever was read,
    /// added or taken since: no count is negative, and the data key is
    /// kept, with the version of its master key, exactly where the record
    /// says that the service keeps it, which it does only for sealed bytes.
    pub open spec fn well_formed(self) -> bool {
        &&& self.lifecycle.current.reads >= 0
        &&& forall|i: int| 0 <= i < self.links.len() ==> (#[trigger] self.links[i]).reads >= 0
        &&& self.facts.encryption.managed ==> self.facts.encryption.encrypted
        &&& self.facts.encryption.managed <==> self.facts.encryption.key is Some
        &&& self.facts.encryption.managed <==> self.facts.encryption.version is Some
    }

    /// The record as its owner may see it.
    pub open spec fn public(self) -> MetaDataPublicView {
        MetaDataPublicView {
            id: self.id,
            meta: self.meta,
            lifecycle: shown_lifecycle(self.lifecycle),
            links: self.links.map_values(|l: LinkView| l.scrubbed()),
        }
    }
}

impl MetaData {
    pub fn to_json(&self) -> (res: MetaDataPublic)
        ensures
            res@ == self@.public(),
    {
        MetaDataPublic {
            id: self.id.clone(),
            meta: self.meta.clone(),
            lifecycle: LifecyclePublic::from(self.lifecycle),
            links: self.links.to_vec(),
        }
    }
}

/// What a request says of its expiry, once its text is read.
#[derive(Debug)]
pub enum RequestedExpiry {
    /// The request names no expiry.
    Unset,
    /// The request gives a number: seconds.
    Seconds(i64),
    /// The request gives a duration, here in milliseconds.
    Millis(i64),
}

/// A number of seconds, held to the longest time an upload is kept.
pub open spec fn capped(seconds: i64) -> i64 {
    if seconds > MAX_EXPIRE_SECONDS {
        MAX_EXPIRE_SECONDS
    } else {
        seconds
    }
}

/// The seconds an upload is kept: what the request asks for, held to the
/// cap; the deployment's retention where it asks for nothing.
pub open spec fn expire_seconds_of(requested: RequestedExpiry, retention: i64) -> i64 {
    match requested {
        RequestedExpiry::Unset => retention,
        RequestedExpiry::Seconds(s) => capped(s),
        RequestedExpiry::Millis(m) => capped(whole_seconds(m)),
    }
}

/// The seconds an upload is kept.
pub fn expire_seconds(requested: &RequestedExpiry, retention: i64) -> (seconds: i64)
    ensures
        seconds == expire_seconds_of(*requested, retention),
        !(requested is Unset) ==> seconds <= MAX_EXPIRE_SECONDS,
{
    let asked = match requested {
        RequestedExpiry::Unset => {
            return retention;
        },
        RequestedExpiry::Seconds(s) => *s,
        RequestedExpiry::Millis(m) => to_whole_seconds(*m),
    };
    if asked > MAX_EXPIRE_SECONDS {
        MAX_EXPIRE_SECONDS
    } else {
        asked
    }
}

/// The reads an upload allows: what the request asks for; the deployment's
/// default where it names neither reads nor expiry; no limit where it names
/// an expiry alone.
pub open spec fn expire_reads_of(reads: Option<i64>, expiry_named: bool, default_reads: i64) -> i64 {
    match reads {
        Some(r) => r,
        None => if expiry_named {
            -1i64
        } else {
            default_reads
        },
    }
}

/// `seconds` is what an upload with the expiry text `expires` is kept:
/// the retention where there is none; the number, held to the cap, where
/// it is one; else the whole seconds of the duration that the parser
/// reads, held to the cap. Of a duration written with a point no more is
/// said than that it was turned into milliseconds.
pub open spec fn is_expiry_for(seconds: i64, expires: Option<Seq<char>>, retention: i64) -> bool {
    match expires {
        None => seconds == retention,
        Some(e) => match parsed_seconds(e) {
            Some(s) => seconds == capped(s),
            None => match parsed_millis(e) {
                Ok(m) => if has_point(e) {
                    exists|got: i64| seconds == #[trigger] capped(whole_seconds(got))
                } else {
                    seconds == capped(whole_seconds(m))
                },
                Err(_) => false,
            },
        },
    }
}

impl QueriesSet {
    /// Reads the expiry of an upload: a number is seconds; anything else is
    /// handed to the duration parser, and is the milliseconds that it reads
    /// or, with its message, the error `Ms`.
    pub fn requested_expiry(&self) -> (res: Result<RequestedExpiry, Error>)
        ensures
            match self@.expires {
                None => res == Ok::<RequestedExpiry, Error>(RequestedExpiry::Unset),
                Some(e) => match parsed_seconds(e) {
                    Some(s) => res == Ok::<RequestedExpiry, Error>(RequestedExpiry::Seconds(s)),
                    None => match parsed_millis(e) {
                        Ok(m) => res matches Ok(RequestedExpiry::Millis(got)) && (has_point(e)
                            || got == m),
                        Err(t) => res matches Err(Error::Ms(message)) && message@ == t,
                    },
                },
            },
    {
        match &self.expires {
            None => Ok(RequestedExpiry::Unset),
            Some(expires) => match parse_seconds(expires.as_str()) {
                Some(seconds) => Ok(RequestedExpiry::Seconds(seconds)),
                None => match parse_duration(expires.as_str()) {
                    Ok(millis) => Ok(RequestedExpiry::Millis(millis)),
                    Err(message) => Err(Error::Ms(message)),
                },
            },
        }
    }

    /// The reads an upload allows.
    pub fn expire_reads(&self, default_reads: i64) -> (reads: i64)
        ensures
            reads == expire_reads_of(self.reads, self.expires is Some, default_reads),
    {
        match self.reads {
            Some(r) => r,
            None => if self.expires.is_none() {
                default_reads
            } else {
                -1
            },
        }
    }
}

/// The key told to the uploader: the unlock key of the link where it has
/// one; else the data key, unless the service keeps that key itself.
pub open spec fn upload_key(
    link_key: Option<Seq<char>>,
    data_key: Option<Seq<char>>,
    managed: bool,
) -> Option<Seq<char>> {
    match link_key {
        Some(k) => Some(k),
        None => if managed {
            None
        } else {
            data_key
        },
    }
}

/// The parameters behind the address of an upload: the record's id where a
/// file name takes its place in the path, then the key, which only an
/// anonymous upload under link keys carries in its address.
pub open spec fn upload_parameters(
    filename: Option<Seq<char>>,
    id: Seq<char>,
    key: Option<Seq<char>>,
    owned: bool,
    ignore_link_key: bool,
) -> Seq<(Seq<char>, Seq<char>)> {
    (if filename is Some {
        seq![("id"@, id)]
    } else {
        Seq::<(Seq<char>, Seq<char>)>::empty()
    }) + (match key {
        Some(k) => if !owned && !ignore_link_key {
            seq![("key"@, k)]
        } else {
            Seq::<(Seq<char>, Seq<char>)>::empty()
        },
        None => Seq::<(Seq<char>, Seq<char>)>::empty(),
    })
}

/// The hash of an optional password.
pub open spec fn hashed_password(pwd: Option<Seq<char>>) -> Option<Seq<char>> {
    match pwd {
        Some(p) => Some(hashed(p)),
        None => None,
    }
}

/// The record and its company for an upload with the id `id` that arrived
/// at `now`, is stored as `d`, is reached through `l` and is kept `seconds`.
pub open spec fn assembled(
    id: Seq<char>,
    now: i64,
    d: DataView,
    l: LinkWithKeyView,
    seconds: i64,
    q: QueriesSetView,
    h: RequestHeadersView,
    owner: Option<Seq<char>>,
    c: ConfigsView,
) -> MetaDataPayloadView {
    let key = upload_key(l.key, d.key, d.encrypted_key is Some);
    MetaDataPayloadView {
        metadata: MetaDataView {
            id,
            active: true,
            meta: MetaView {
                created: now,
                content_type: match d.mime_type {
                    Some(m) => m,
                    None => h.content_type.text_or("none"@),
                },
                expires: q.expires,
                user_agent: h.user_agent.recorded(),
                x_forwarded_for: h.x_forwarded_for.recorded(),
                bytes: d.data.len() as usize,
                filename: q.filename,
                tags: q.tags,
            },
            lifecycle: Lifecycle {
                max: LifecycleMax {
                    reads: expire_reads_of(q.reads, q.expires is Some, c.reads),
                    seconds,
                    expires: instant_after(now, seconds) as i64,
                },
                current: LifecycleCurrent { reads: 0 },
            },
            facts: FactsView {
                owner,
                pwd: hashed_password(q.pwd),
                encryption: EncryptionView {
                    encrypted: c.encrypt_data,
                    managed: d.encrypted_key is Some,
                    key: d.encrypted_key,
                    version: d.encrypted_key_version,
                },
                ignore_link_key: c.ignore_link_key,
            },
            links: seq![l.link],
        },
        key,
        data: d.data,
        url: download_url(
            c.url,
            match q.filename {
                Some(f) => f,
                None => id,
            },
            upload_parameters(q.filename, id, key, owner is Some, c.ignore_link_key),
        ),
    }
}

impl MetaDataPayloadView {
    /// What `MetaData::create` returns for an upload: the record assembled
    /// from a fresh id, the time of arrival, the stored form of the payload,
    /// a new first link and the seconds that the expiry asks for.
    pub open spec fn is_upload_of(
        self,
        payload: Seq<u8>,
        q: QueriesSetView,
        h: RequestHeadersView,
        owner: Option<Seq<char>>,
        c: ConfigsView,
    ) -> bool {
        exists|id: Seq<char>, now: i64, d: DataView, l: LinkWithKeyView, seconds: i64|
            {
                &&& id.len() == 36
                &&& d.is_stored_form(payload, None, c.keys, owner is Some, c.encrypt_data)
                &&& l.is_new_for(owner is Some, c.ignore_link_key, c.url, None)
                &&& is_expiry_for(seconds, q.expires, c.retention)
                &&& self == #[trigger] assembled(id, now, d, l, seconds, q, h, owner, c)
            }
    }
}

impl MetaData {
    /// Puts a record together from its parts.
    pub fn assemble(
        id: String,
        now: i64,
        data: Data,
        link: LinkWithKey,
        seconds: i64,
        queries: &QueriesSet,
        headers: &RequestHeaders,
        current_user: Option<String>,
        configs: &Configs,
    ) -> (res: MetaDataPayload)
        ensures
            res@ == assembled(
                id@,
                now,
                data@,
                link@,
                seconds,
                queries@,
                headers@,
                opt_text(current_user),
                configs@,
            ),
    {
        let owned = current_user.is_some();
        let managed = data.encrypted_key.is_some();
        let initial_url_key = match link.key {
            Some(k) => Some(k),
            None => if managed {
                None
            } else {
                data.key
            },
        };

        let pwd = match &queries.pwd {
            Some(p) => Some(hash(p.as_str())),
            None => None,
        };

        let content_type = match data.mime_type {
            Some(m) => m,
            None => headers.content_type.text_or("none"),
        };

        let mut pairs: Vec<(String, String)> = Vec::new();
        let file = match &queries.filename {
            Some(filename) => {
                pairs.push((String::from_str("id"), id.clone()));
                filename.clone()
            },
            None => id.clone(),
        };
        match &initial_url_key {
            Some(key) => {
                if !owned && !configs.ignore_link_key {
                    pairs.push((String::from_str("key"), key.clone()));
                }
            },
            None => {},
        }
        proof {
            assert(pairs_text(pairs@) =~= upload_parameters(
                queries@.filename,
                id@,
                opt_text(initial_url_key),
                owned,
                configs@.ignore_link_key,
            ));
        }
        let url = build_download_url(configs.url.as_str(), file.as_str(), &pairs);

        let mut links: Vec<Link> = Vec::new();
        links.push(link.link);
        let links = Links(links);
        proof {
            assert(links@ =~= seq![link@.link]);
        }

        let metadata = MetaData {
            id,
            active: true,
            meta: Meta {
                created: now,
                content_type,
                expires: copy_opt_text(&queries.expires),
                bytes: data.data.len(),
                x_forwarded_for: headers.x_forwarded_for.recorded(),
                user_agent: headers.user_agent.recorded(),
                filename: copy_opt_text(&queries.filename),
                tags: copy_opt_texts(&queries.tags),
            },
            lifecycle: Lifecycle {
                max: LifecycleMax {
                    reads: queries.expire_reads(configs.reads),
                    seconds,
                    expires: expiry_instant(now, seconds),
                },
                current: LifecycleCurrent { reads: 0 },
            },
            facts: Facts {
                owner: current_user,
                pwd,
                encryption: Encryption {
                    encrypted: configs.encrypt_data,
                    managed,
                    key: data.encrypted_key,
                    version: data.encrypted_key_version,
                },
                ignore_link_key: configs.ignore_link_key,
            },
            links,
        };

        MetaDataPayload { metadata, key: initial_url_key, data: data.data, url }
    }

    /// Turns an upload into a record, the bytes to store and the address to
    /// hand back.
    ///
    /// The payload is stored as the deployment asks: as it is, or sealed
    /// under a fresh data key, which for an upload with an owner is kept,
    /// wrapped under the latest master key. The first link has an unlock key
    /// where the upload has an owner and the deployment uses link keys.
    ///
    /// Succeeds where the expiry can be read and, on a deployment that
    /// seals, the payload is not empty, up to 256 MiB for certain, and for
    /// an upload with an owner the latest master key is 32 bytes long.
    /// Fails with `CryptoError` on an empty payload and on any other master
    /// key; else with `Ms` and the parser's message where the expiry is
    /// neither a number nor a duration.
    pub fn create(
        payload: Vec<u8>,
        queries: &QueriesSet,
        headers: RequestHeaders,
        current_user: Option<String>,
        configs: Configs,
    ) -> (res: Result<MetaDataPayload, Error>)
        requires
            configs@.encrypt_data && current_user is Some ==> configs@.keys.len() > 0,
        ensures
            res matches Ok(p) ==> p@.is_upload_of(
                payload@,
                queries@,
                headers@,
                opt_text(current_user),
                configs@,
            ),
            res matches Ok(p) ==> p@.metadata.links.len() == 1 && p@.metadata.active
                && p@.metadata.lifecycle.current.reads == 0 && p@.metadata.well_formed(),
            res matches Err(e) ==> (e is CryptoError && configs@.encrypt_data) || (e is Ms
                && !is_readable_expiry(queries@.expires)),
            res matches Err(Error::Ms(message)) ==> (queries@.expires matches Some(x)
                && parsed_millis(x) == Err::<i64, Seq<char>>(message@)),
            is_readable_expiry(queries@.expires) && (configs@.encrypt_data ==> is_sealable_payload(
                payload@,
            ) && (current_user is Some ==> is_cipher_key(latest(configs@.keys).key))) ==> res
                is Ok,
            !is_readable_expiry(queries@.expires) ==> res is Err,
            configs@.encrypt_data && payload@.len() == 0 ==> res is Err,
            configs@.encrypt_data && current_user is Some && !is_cipher_key(
                latest(configs@.keys).key,
            ) ==> res is Err,
    {
        let id = random_id();

        let data = match Data::create(
            payload,
            None,
            &configs.keys,
            current_user.is_some(),
            configs.encrypt_data,
        ) {
            Ok(d) => d,
            Err(e) => {
                return Err(e);
            },
        };

        let link = match Link::new(current_user.as_ref(), &configs, None) {
            Ok(l) => l,
            Err(e) => {
                return Err(e);
            },
        };

        let requested = match queries.requested_expiry() {
            Ok(r) => r,
            Err(e) => {
                return Err(e);
            },
        };
        let seconds = expire_seconds(&requested, configs.retention);

        let now = now_millis();
        Ok(
            Self::assemble(
                id,
                now,
                data,
                link,
                seconds,
                queries,
                &headers,
                current_user,
                &configs,
            ),
        )
    }
}

} // verus!
