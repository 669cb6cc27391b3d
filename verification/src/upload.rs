//! Uploads: what is told of a stored upload, and the order in which the
//! stores are written so that no link ever points at missing bytes.

use crate::clock::{datetime_text, datetime_to_string};
use crate::config::Configs;
use crate::data::{is_cipher_key, is_sealable_payload};
use crate::keys::latest;
use crate::database::metadata::{
    is_readable_expiry,
    parsed_millis,
    MetaData,
    MetaDataPayload,
    MetaDataPayloadView,
    MetaDataView,
};
use crate::error::Error;
use crate::handlers::{QueriesSet, QueriesSetView, RequestHeaders};
use crate::users::CurrentUser;
use crate::views::{copy_opt_text, copy_opt_texts, opt_text, opt_texts};
use vstd::prelude::*;

verus! {

/// What is told of an upload, with the key always there.
#[derive(Debug)]
pub struct SecretSaved {
    pub id: String,
    pub key: String,
    pub expire_seconds: i64,
    pub expire_reads: i64,
    pub pwd: bool,
    pub ignore_link_key: bool,
    pub tags: Option<Vec<String>>,
}

/// The link of an upload and the key that goes with it.
#[derive(Debug)]
pub struct DataInfo {
    /// The id of the first link.
    pub id: String,
    pub key: Option<String>,
}

/// The limits an upload was stored with.
#[derive(Debug)]
pub struct MetaDataInfo {
    pub expire_seconds: i64,
    pub expire_reads: i64,
    /// A password is set.
    pub pwd: bool,
    pub tags: Option<Vec<String>>,
}

/// What an upload is answered with.
#[derive(Debug)]
pub struct SetResult {
    pub url: String,
    pub data: DataInfo,
    pub metadata: MetaDataInfo,
}

pub struct SetResultView {
    pub url: Seq<char>,
    pub id: Seq<char>,
    pub key: Option<Seq<char>>,
    pub expire_seconds: i64,
    pub expire_reads: i64,
    pub pwd: bool,
    pub tags: Option<Seq<Seq<char>>>,
}

impl View for SetResult {
    type V = SetResultView;

    open spec fn view(&self) -> SetResultView {
        SetResultView {
            url: self.url@,
            id: self.data.id@,
            key: opt_text(self.data.key),
            expire_seconds: self.metadata.expire_seconds,
            expire_reads: self.metadata.expire_reads,
            pwd: self.metadata.pwd,
            tags: opt_texts(self.metadata.tags),
        }
    }
}

impl Clone for SetResult {
    fn clone(&self) -> (res: Self)
        ensures
            res@ == self@,
    {
        SetResult {
            url: self.url.clone(),
            data: DataInfo { id: self.data.id.clone(), key: copy_opt_text(&self.data.key) },
            metadata: MetaDataInfo {
                expire_seconds: self.metadata.expire_seconds,
                expire_reads: self.metadata.expire_reads,
                pwd: self.metadata.pwd,
                tags: copy_opt_texts(&self.metadata.tags),
            },
        }
    }
}

/// The answer to an upload: its address, its first link with the key, and
/// the limits it was stored with.
pub open spec fn answer_of(p: MetaDataPayloadView, q: QueriesSetView) -> SetResultView {
    SetResultView {
        url: p.url,
        id: p.metadata.links[0].id,
        key: p.key,
        expire_seconds: p.metadata.lifecycle.max.seconds,
        expire_reads: p.metadata.lifecycle.max.reads,
        pwd: q.pwd is Some,
        tags: q.tags,
    }
}

/// Says what an upload is answered with.
pub fn set_result(payload: &MetaDataPayload, queries: &QueriesSet) -> (res: SetResult)
    requires
        payload@.metadata.links.len() > 0,
    ensures
        res@ == answer_of(payload@, queries@),
{
    SetResult {
        url: payload.url.clone(),
        data: DataInfo {
            id: payload.metadata.links.0[0].id.clone(),
            key: copy_opt_text(&payload.key),
        },
        metadata: MetaDataInfo {
            expire_seconds: payload.metadata.lifecycle.max.seconds,
            expire_reads: payload.metadata.lifecycle.max.reads,
            pwd: queries.pwd.is_some(),
            tags: copy_opt_texts(&queries.tags),
        },
    }
}

/// What the object store is told of the bytes it gets.
#[derive(Debug)]
pub struct ObjectInfo {
    pub content_type: String,
    /// The file name asked for, or `not specified`.
    pub filename: String,
    /// The expiry, as the store's date type writes it.
    pub expires: String,
}

pub struct ObjectInfoView {
    pub content_type: Seq<char>,
    pub filename: Seq<char>,
    pub expires: Seq<char>,
}

impl View for ObjectInfo {
    type V = ObjectInfoView;

    open spec fn view(&self) -> ObjectInfoView {
        ObjectInfoView {
            content_type: self.content_type@,
            filename: self.filename@,
            expires: self.expires@,
        }
    }
}

/// What the object store is told of the bytes of a record.
pub open spec fn object_info_of(doc: MetaDataView) -> ObjectInfoView {
    ObjectInfoView {
        content_type: doc.meta.content_type,
        filename: match doc.meta.filename {
            Some(f) => f,
            None => "not specified"@,
        },
        expires: datetime_text(doc.lifecycle.max.expires),
    }
}

/// Says what the object store is told of the bytes of a record.
pub fn object_info(doc: &MetaData) -> (res: ObjectInfo)
    ensures
        res@ == object_info_of(doc@),
{
    ObjectInfo {
        content_type: doc.meta.content_type.clone(),
        filename: match &doc.meta.filename {
            Some(f) => f.clone(),
            None => "not specified".to_owned(),
        },
        expires: datetime_to_string(doc.lifecycle.max.expires),
    }
}

/// Why an upload was not stored.
#[derive(Debug, Clone, Copy, PartialEq, Eq, Structural)]
pub enum SetFailure {
    /// The object store did not take the bytes. Nothing was written.
    Blob,
    /// The metadata store did not take the record. The bytes were taken back.
    Record,
}

/// Where an upload stands between two answers of the stores.
#[derive(Debug)]
pub enum SetState {
    /// Nothing was written yet.
    Ready { payload: MetaDataPayload, result: SetResult },
    /// The object store was given the bytes.
    StoringBlob { metadata: MetaData, result: SetResult },
    /// The bytes are stored; the metadata store was given the record.
    StoringRecord { id: String, result: SetResult },
    /// The record was refused; the bytes are being taken back.
    RollingBack,
    Done,
}

#[derive(Debug)]
pub enum SetEvent {
    /// The upload begins.
    Begin,
    /// Whether the store did what it was last asked to do.
    Stored(bool),
}

#[derive(Debug)]
pub enum SetAction {
    /// Store the bytes under the id.
    PutBlob { id: String, data: Vec<u8>, info: ObjectInfo },
    /// Store the record.
    InsertRecord { metadata: MetaData },
    /// Delete the bytes kept under the id.
    DeleteBlob { id: String },
    /// Answer with the result.
    Saved { result: SetResult },
    /// Answer with an error.
    Failed { failure: SetFailure },
}

pub enum SetStateView {
    Ready { payload: MetaDataPayloadView, result: SetResultView },
    StoringBlob { metadata: MetaDataView, result: SetResultView },
    StoringRecord { id: Seq<char>, result: SetResultView },
    RollingBack,
    Done,
}

pub enum SetActionView {
    PutBlob { id: Seq<char>, data: Seq<u8>, info: ObjectInfoView },
    InsertRecord { metadata: MetaDataView },
    DeleteBlob { id: Seq<char> },
    Saved { result: SetResultView },
    Failed { failure: SetFailure },
}

impl View for SetState {
    type V = SetStateView;

    open spec fn view(&self) -> SetStateView {
        match self {
            SetState::Ready { payload, result } => SetStateView::Ready {
                payload: payload@,
                result: result@,
            },
            SetState::StoringBlob { metadata, result } => SetStateView::StoringBlob {
                metadata: metadata@,
                result: result@,
            },
            SetState::StoringRecord { id, result } => SetStateView::StoringRecord {
                id: id@,
                result: result@,
            },
            SetState::RollingBack => SetStateView::RollingBack,
            SetState::Done => SetStateView::Done,
        }
    }
}

impl View for SetAction {
    type V = SetActionView;

    open spec fn view(&self) -> SetActionView {
        match self {
            SetAction::PutBlob { id, data, info } => SetActionView::PutBlob {
                id: id@,
                data: data@,
                info: info@,
            },
            SetAction::InsertRecord { metadata } => SetActionView::InsertRecord {
                metadata: metadata@,
            },
            SetAction::DeleteBlob { id } => SetActionView::DeleteBlob { id: id@ },
            SetAction::Saved { result } => SetActionView::Saved { result: result@ },
            SetAction::Failed { failure } => SetActionView::Failed { failure: *failure },
        }
    }
}

/// One step of an upload.
///
/// The bytes are written first. Only when they are stored is the record
/// written, and with it the link becomes visible. Where the record is
/// refused the bytes are deleted again, and the upload fails whether or not
/// that deletion succeeds.
pub open spec fn set_next(state: SetStateView, event: SetEvent) -> (SetStateView, SetActionView) {
    match (state, event) {
        (SetStateView::Ready { payload, result }, SetEvent::Begin) => (
            SetStateView::StoringBlob { metadata: payload.metadata, result },
            SetActionView::PutBlob {
                id: payload.metadata.id,
                data: payload.data,
                info: object_info_of(payload.metadata),
            },
        ),
        (SetStateView::StoringBlob { metadata, result }, SetEvent::Stored(true)) => (
            SetStateView::StoringRecord { id: metadata.id, result },
            SetActionView::InsertRecord { metadata },
        ),
        (SetStateView::StoringBlob { metadata, result }, SetEvent::Stored(false)) => (
            SetStateView::Done,
            SetActionView::Failed { failure: SetFailure::Blob },
        ),
        (SetStateView::StoringRecord { id, result }, SetEvent::Stored(true)) => (
            SetStateView::Done,
            SetActionView::Saved { result },
        ),
        (SetStateView::StoringRecord { id, result }, SetEvent::Stored(false)) => (
            SetStateView::RollingBack,
            SetActionView::DeleteBlob { id },
        ),
        _ => (SetStateView::Done, SetActionView::Failed { failure: SetFailure::Record }),
    }
}

/// Takes one step of an upload.
pub fn set_step(state: SetState, event: SetEvent) -> (res: (SetState, SetAction))
    ensures
        (res.0@, res.1@) == set_next(state@, event),
{
    match (state, event) {
        (SetState::Ready { payload, result }, SetEvent::Begin) => {
            let id = payload.metadata.id.clone();
            let info = object_info(&payload.metadata);
            (
                SetState::StoringBlob { metadata: payload.metadata, result },
                SetAction::PutBlob { id, data: payload.data, info },
            )
        },
        (SetState::StoringBlob { metadata, result }, SetEvent::Stored(true)) => {
            let id = metadata.id.clone();
            (SetState::StoringRecord { id, result }, SetAction::InsertRecord { metadata })
        },
        (SetState::StoringBlob { metadata, result }, SetEvent::Stored(false)) => (
            SetState::Done,
            SetAction::Failed { failure: SetFailure::Blob },
        ),
        (SetState::StoringRecord { id, result }, SetEvent::Stored(true)) => (
            SetState::Done,
            SetAction::Saved { result },
        ),
        (SetState::StoringRecord { id, result }, SetEvent::Stored(false)) => (
            SetState::RollingBack,
            SetAction::DeleteBlob { id },
        ),
        _ => (SetState::Done, SetAction::Failed { failure: SetFailure::Record }),
    }
}

/// Begins an upload: the state from which `set_step` takes it on.
pub fn set_begin(payload: MetaDataPayload, queries: &QueriesSet) -> (state: SetState)
    requires
        payload@.metadata.links.len() > 0,
    ensures
        state@ == (SetStateView::Ready {
            payload: payload@,
            result: answer_of(payload@, queries@),
        }),
{
    let result = set_result(&payload, queries);
    SetState::Ready { payload, result }
}

/// Takes an upload in: turns it into a record and the bytes to store, says
/// what it will be answered with, and hands back the state from which
/// `set_step` writes both.
///
/// It succeeds and fails where `MetaData::create` does: it succeeds where
/// the expiry can be read and, on a deployment that seals, the payload is
/// not empty, up to 256 MiB for certain, and the latest master key of an
/// upload with an owner is 32 bytes long. Nothing is written where it fails.
pub fn set(
    value: Vec<u8>,
    queries: &QueriesSet,
    headers: RequestHeaders,
    current_user: CurrentUser,
    configs: Configs,
) -> (res: Result<SetState, Error>)
    requires
        configs@.encrypt_data && current_user@.id is Some ==> configs@.keys.len() > 0,
    ensures
        res matches Ok(state) ==> (state@ matches SetStateView::Ready { payload, result }
            && payload.is_upload_of(value@, queries@, headers@, current_user@.id, configs@)
            && result == answer_of(payload, queries@)),
        res matches Err(e) ==> (e is CryptoError && configs@.encrypt_data) || (e is Ms
            && !is_readable_expiry(queries@.expires)),
        res matches Err(Error::Ms(message)) ==> (queries@.expires matches Some(x) && parsed_millis(
            x,
        ) == Err::<i64, Seq<char>>(message@)),
        is_readable_expiry(queries@.expires) && (configs@.encrypt_data ==> is_sealable_payload(
            value@,
        ) && (current_user@.id is Some ==> is_cipher_key(latest(configs@.keys).key))) ==> res
            is Ok,
        !is_readable_expiry(queries@.expires) ==> res is Err,
        configs@.encrypt_data && value@.len() == 0 ==> res is Err,
        configs@.encrypt_data && current_user@.id is Some && !is_cipher_key(
            latest(configs@.keys).key,
        ) ==> res is Err,
{
    match MetaData::create(value, queries, headers, current_user.id, configs) {
        Ok(payload) => Ok(set_begin(payload, queries)),
        Err(e) => Err(e),
    }
}

/// The record is written only behind its bytes, and never stays without
/// them: an upload writes the bytes first; it writes the record only when
/// the bytes are stored; it answers with the result only when the record is
/// stored too; and where the record is refused it deletes the bytes it
/// wrote and fails.
pub proof fn lemma_bytes_before_record(
    payload: MetaDataPayloadView,
    result: SetResultView,
    blob_stored: bool,
    record_stored: bool,
    rolled_back: bool,
)
    ensures
        ({
            let (s1, a1) = set_next(SetStateView::Ready { payload, result }, SetEvent::Begin);
            let (s2, a2) = set_next(s1, SetEvent::Stored(blob_stored));
            let (s3, a3) = set_next(s2, SetEvent::Stored(record_stored));
            let (s4, a4) = set_next(s3, SetEvent::Stored(rolled_back));
            &&& a1 == (SetActionView::PutBlob {
                id: payload.metadata.id,
                data: payload.data,
                info: object_info_of(payload.metadata),
            })
            &&& if !blob_stored {
                a2 == (SetActionView::Failed { failure: SetFailure::Blob })
            } else {
                &&& a2 == (SetActionView::InsertRecord { metadata: payload.metadata })
                &&& if record_stored {
                    a3 == (SetActionView::Saved { result })
                } else {
                    &&& a3 == (SetActionView::DeleteBlob { id: payload.metadata.id })
                    &&& a4 == (SetActionView::Failed { failure: SetFailure::Record })
                }
            }
        }),
{
}

} // verus!
