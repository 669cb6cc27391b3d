//! Downloads: who may read a stored object, how its bytes are opened, what a
//! read does to the record, and the order in which the stores are asked.

use crate::crypto::{aead_open, aead_opened, hash, hashed, is_utf8};
use crate::data::Data;
use crate::database::links::{find_link, link_index, LinkView};
use crate::database::metadata::{EncryptionView, MetaData, MetaDataView};
use crate::error::Error;
use crate::helpers::same_text;
use crate::keys::{with_version, Keys, KeyView};
use crate::views::{opt_bytes, opt_text};
use vstd::prelude::*;
use vstd::utf8::{encode_utf8, valid_utf8};

verus! {

/// What a download presents.
#[derive(Debug)]
pub struct GetRequest {
    pub link_id: String,
    /// The unlock key of the link, or the data key of an unmanaged object.
    pub key: Option<String>,
    pub password: Option<String>,
}

pub struct GetRequestView {
    pub link_id: Seq<char>,
    pub key: Option<Seq<char>>,
    pub password: Option<Seq<char>>,
}

impl View for GetRequest {
    type V = GetRequestView;

    open spec fn view(&self) -> GetRequestView {
        GetRequestView {
            link_id: self.link_id@,
            key: opt_text(self.key),
            password: opt_text(self.password),
        }
    }
}

/// The bytes of an object as they were uploaded, where what is presented
/// and what the registry holds can open them.
pub open spec fn plaintext(
    enc: EncryptionView,
    keys: Seq<KeyView>,
    key: Option<Seq<char>>,
    blob: Seq<u8>,
) -> Option<Seq<u8>> {
    if !enc.encrypted {
        Some(blob)
    } else if !enc.managed {
        match key {
            Some(k) => aead_opened(encode_utf8(k), blob),
            None => None,
        }
    } else {
        match (enc.version, enc.key) {
            (Some(v), Some(w)) => match with_version(keys, v) {
                Some(master) => match aead_opened(encode_utf8(master.key), w) {
                    Some(data_key) => if valid_utf8(data_key) {
                        aead_opened(data_key, blob)
                    } else {
                        None
                    },
                    None => None,
                },
                None => None,
            },
            _ => None,
        }
    }
}

impl MetaDataView {
    /// The record answers for the link: it is active and the link is its own.
    pub open spec fn serves(self, link_id: Seq<char>) -> bool {
        self.active && find_link(self.links, link_id) is Some
    }

    /// The password presented is the one set, where one is set.
    pub open spec fn password_ok(self, password: Option<Seq<char>>) -> bool {
        match self.facts.pwd {
            Some(h) => match password {
                Some(p) => hashed(p) == h,
                None => false,
            },
            None => true,
        }
    }

    /// Link keys apply: the service keeps the data key, and the deployment
    /// did not switch link keys off.
    pub open spec fn link_keyed(self) -> bool {
        self.facts.encryption.managed && !self.facts.ignore_link_key
    }

    /// Where link keys apply, the key presented hashes to what the link holds.
    pub open spec fn link_key_ok(self, link_id: Seq<char>, key: Option<Seq<char>>) -> bool {
        if self.link_keyed() {
            match find_link(self.links, link_id) {
                Some(l) => match (l.key, key) {
                    (Some(h), Some(k)) => hashed(k) == h,
                    _ => false,
                },
                None => false,
            }
        } else {
            true
        }
    }

    /// The time limit is passed.
    pub open spec fn expired(self, now: i64) -> bool {
        now > self.lifecycle.max.expires
    }

    /// The record lets the request through to the stored bytes.
    pub open spec fn admits(self, req: GetRequestView, now: i64) -> bool {
        &&& self.serves(req.link_id)
        &&& self.password_ok(req.password)
        &&& self.link_key_ok(req.link_id, req.key)
        &&& !self.expired(now)
    }

    /// The next read is the last one allowed.
    pub open spec fn last_read_next(self) -> bool {
        self.lifecycle.max.reads > 0 && self.lifecycle.current.reads + 1
            >= self.lifecycle.max.reads
    }

    /// What a download answers that finds this record and `blob` under it:
    /// the uploaded bytes and their type, or nothing.
    pub open spec fn download(self, blob: Seq<u8>, req: GetRequestView, keys: Seq<KeyView>, now: i64)
        -> Option<(Seq<u8>, Seq<char>)> {
        if self.admits(req, now) {
            match plaintext(self.facts.encryption, keys, req.key, blob) {
                Some(value) => Some((value, self.meta.content_type)),
                None => None,
            }
        } else {
            None
        }
    }
}

impl MetaData {
    /// Decides whether the request may have the stored bytes: the record is
    /// active and owns the link, the password and the link key match where
    /// they are asked for, and the time limit has not passed.
    pub fn admits(&self, req: &GetRequest, now: i64) -> (res: bool)
        ensures
            res == self@.admits(req@, now),
    {
        if !self.active {
            return false;
        }
        let link = match self.links.find(req.link_id.as_str()) {
            Some(l) => l,
            None => {
                return false;
            },
        };

        match &self.facts.pwd {
            Some(pwd_hash) => match &req.password {
                Some(p) => {
                    let password_hash = hash(p.as_str());
                    if !same_text(password_hash.as_str(), pwd_hash.as_str()) {
                        return false;
                    }
                },
                None => {
                    return false;
                },
            },
            None => {},
        }

        if self.facts.encryption.managed && !self.facts.ignore_link_key {
            match (&link.key, &req.key) {
                (Some(link_key), Some(client_key)) => {
                    let client_key_hash = hash(client_key.as_str());
                    if !same_text(client_key_hash.as_str(), link_key.as_str()) {
                        return false;
                    }
                },
                _ => {
                    return false;
                },
            }
        }

        now <= self.lifecycle.max.expires
    }

    /// Opens the stored bytes: as they are where nothing was sealed; with
    /// the key presented where the service keeps none; else with the data
    /// key, unwrapped under the master key of the recorded version.
    pub fn open(&self, keys: &Keys, key: Option<&String>, blob: Vec<u8>) -> (res: Option<Vec<u8>>)
        ensures
            opt_bytes(res) == plaintext(
                self@.facts.encryption,
                keys@,
                match key {
                    Some(k) => Some(k@),
                    None => None,
                },
                blob@,
            ),
    {
        if !self.facts.encryption.encrypted {
            return Some(blob);
        }
        if !self.facts.encryption.managed {
            return match key {
                Some(k) => match Data::decrypt(k.as_str(), blob.as_slice()) {
                    Ok(plain) => Some(plain),
                    Err(_) => None,
                },
                None => None,
            };
        }
        let version = match self.facts.encryption.version {
            Some(v) => v,
            None => {
                return None;
            },
        };
        let wrapped = match &self.facts.encryption.key {
            Some(w) => w,
            None => {
                return None;
            },
        };
        let master = match keys.get_ver(version) {
            Some(m) => m,
            None => {
                return None;
            },
        };
        let data_key = match Data::decrypt(master.key.as_str(), wrapped.as_slice()) {
            Ok(k) => k,
            Err(_) => {
                return None;
            },
        };
        if !is_utf8(data_key.as_slice()) {
            return None;
        }
        match aead_open(data_key.as_slice(), blob.as_slice()) {
            Ok(plain) => Some(plain),
            Err(_) => None,
        }
    }

    /// Whether the next read uses up the reads allowed.
    pub fn last_read_next(&self) -> (res: bool)
        ensures
            res == self@.last_read_next(),
    {
        self.lifecycle.max.reads > 0 && self.lifecycle.current.reads >= self.lifecycle.max.reads
            - 1
    }
}

/// One more than `n`, where a count can hold it.
pub open spec fn bumped(n: i64) -> i64 {
    if n < i64::MAX {
        (n + 1) as i64
    } else {
        n
    }
}

impl LinkView {
    /// The link with one more read.
    pub open spec fn counted(self) -> LinkView {
        LinkView { reads: bumped(self.reads), ..self }
    }
}

impl MetaDataView {
    /// The record with one more read, on itself and on the link read through.
    pub open spec fn counted(self, link_id: Seq<char>) -> MetaDataView {
        match link_index(self.links, link_id) {
            Some(i) => MetaDataView {
                lifecycle: crate::database::metadata::Lifecycle {
                    max: self.lifecycle.max,
                    current: crate::database::metadata::LifecycleCurrent {
                        reads: bumped(self.lifecycle.current.reads),
                    },
                },
                links: self.links.update(i, self.links[i].counted()),
                ..self
            },
            None => self,
        }
    }

    /// The record, deleted. Nothing brings it back.
    pub open spec fn deactivated(self) -> MetaDataView {
        MetaDataView { active: false, ..self }
    }

    /// The record with a read recorded: counted, and deleted too where
    /// the read is the last one.
    pub open spec fn recorded(self, link_id: Seq<char>, last: bool) -> MetaDataView {
        if last {
            self.counted(link_id).deactivated()
        } else {
            self.counted(link_id)
        }
    }

    /// The record after a read through `link_id`: counted, and deleted too
    /// where that read was the last one allowed.
    pub open spec fn after_read(self, link_id: Seq<char>) -> MetaDataView {
        self.recorded(link_id, self.last_read_next())
    }
}

impl MetaData {
    /// Counts a read, as the store does for an active record that owns the
    /// link. Any other record is left as it is, with `NotFound`.
    pub fn increment(&mut self, link_id: &str) -> (res: Result<(), Error>)
        ensures
            old(self)@.serves(link_id@) ==> res is Ok && final(self)@ == old(self)@.counted(link_id@),
            !old(self)@.serves(link_id@) ==> (res matches Err(e) && e is NotFound) && final(self)@
                == old(self)@,
    {
        if !self.active {
            return Err(Error::NotFound);
        }
        let i = match self.links.position(link_id) {
            Some(i) => i,
            None => {
                return Err(Error::NotFound);
            },
        };
        if self.lifecycle.current.reads < i64::MAX {
            self.lifecycle.current.reads = self.lifecycle.current.reads + 1;
        }
        let mut link = self.links.0[i].clone();
        if link.reads < i64::MAX {
            link.reads = link.reads + 1;
        }
        self.links.0.set(i, link);
        proof {
            assert(final(self)@.links =~= old(self)@.links.update(i as int, old(self)@.links[i as int].counted()));
        }
        Ok(())
    }

    /// Records a read, as the store does in one step for an active record
    /// that owns the link: the read is counted, and with `last` set the
    /// record is deleted too. Any other record is left as it is, with
    /// `NotFound`.
    pub fn record_read(&mut self, link_id: &str, last: bool) -> (res: Result<(), Error>)
        ensures
            old(self)@.serves(link_id@) ==> res is Ok && final(self)@ == old(self)@.recorded(
                link_id@,
                last,
            ),
            !old(self)@.serves(link_id@) ==> (res matches Err(e) && e is NotFound) && final(self)@
                == old(self)@,
    {
        match self.increment(link_id) {
            Ok(()) => {
                if last {
                    self.active = false;
                }
                Ok(())
            },
            Err(e) => Err(e),
        }
    }

    /// Deletes an active record, for good. A record already deleted is left
    /// as it is, with `NotFound`.
    pub fn delete(&mut self) -> (res: Result<(), Error>)
        ensures
            final(self)@ == old(self)@.deactivated(),
            old(self)@.active ==> res is Ok,
            !old(self)@.active ==> (res matches Err(e) && e is NotFound),
    {
        if !self.active {
            return Err(Error::NotFound);
        }
        self.active = false;
        Ok(())
    }
}

/// Where a download stands between two answers of the stores.
#[derive(Debug)]
pub enum GetState {
    /// Nothing was asked yet.
    Start,
    /// The record for the link was asked for.
    Lookup,
    /// The record let the request through; its bytes were asked for.
    Fetch { doc: MetaData },
    /// The bytes are open; the recording of the read was asked for. `last`
    /// holds the record's id where the read was the last one allowed.
    Count { last: Option<String>, value: Vec<u8>, content_type: String },
    /// The last read is recorded and the record with it deleted; the
    /// deletion of its bytes was asked for.
    Discard { value: Vec<u8>, content_type: String },
    /// The download was answered.
    Done,
}

/// What the stores answer.
#[derive(Debug)]
pub enum GetEvent {
    /// The download begins.
    Begin,
    /// The active record that owns the link, if the store has one.
    Document(Option<MetaData>),
    /// The bytes kept under the record's id, if the store has them.
    Blob(Option<Vec<u8>>),
    /// Whether the store did what it was last asked to change.
    Stored(bool),
}

/// What is to be done next.
#[derive(Debug)]
pub enum GetAction {
    /// Find the active record that owns the link.
    FindDocument { link_id: String },
    /// Fetch the bytes kept under the id.
    FetchBlob { id: String },
    /// Count one read on the record and on the link, if the record is still
    /// active, and with `last` set mark the record deleted in the same step.
    CountRead { id: String, link_id: String, last: bool },
    /// Delete the bytes kept under the id.
    DeleteBlob { id: String },
    /// Answer with the bytes and their type.
    Deliver { value: Vec<u8>, content_type: String },
    /// Answer `NotFound`.
    Refuse,
}

pub enum GetStateView {
    Start,
    Lookup,
    Fetch { doc: MetaDataView },
    Count { last: Option<Seq<char>>, value: Seq<u8>, content_type: Seq<char> },
    Discard { value: Seq<u8>, content_type: Seq<char> },
    Done,
}

pub enum GetEventView {
    Begin,
    Document(Option<MetaDataView>),
    Blob(Option<Seq<u8>>),
    Stored(bool),
}

pub enum GetActionView {
    FindDocument { link_id: Seq<char> },
    FetchBlob { id: Seq<char> },
    CountRead { id: Seq<char>, link_id: Seq<char>, last: bool },
    DeleteBlob { id: Seq<char> },
    Deliver { value: Seq<u8>, content_type: Seq<char> },
    Refuse,
}

impl View for GetState {
    type V = GetStateView;

    open spec fn view(&self) -> GetStateView {
        match self {
            GetState::Start => GetStateView::Start,
            GetState::Lookup => GetStateView::Lookup,
            GetState::Fetch { doc } => GetStateView::Fetch { doc: doc@ },
            GetState::Count { last, value, content_type } => GetStateView::Count {
                last: opt_text(*last),
                value: value@,
                content_type: content_type@,
            },
            GetState::Discard { value, content_type } => GetStateView::Discard {
                value: value@,
                content_type: content_type@,
            },
            GetState::Done => GetStateView::Done,
        }
    }
}

impl View for GetEvent {
    type V = GetEventView;

    open spec fn view(&self) -> GetEventView {
        match self {
            GetEvent::Begin => GetEventView::Begin,
            GetEvent::Document(d) => GetEventView::Document(
                match d {
                    Some(doc) => Some(doc@),
                    None => None,
                },
            ),
            GetEvent::Blob(b) => GetEventView::Blob(opt_bytes(*b)),
            GetEvent::Stored(ok) => GetEventView::Stored(*ok),
        }
    }
}

impl View for GetAction {
    type V = GetActionView;

    open spec fn view(&self) -> GetActionView {
        match self {
            GetAction::FindDocument { link_id } => GetActionView::FindDocument { link_id: link_id@ },
            GetAction::FetchBlob { id } => GetActionView::FetchBlob { id: id@ },
            GetAction::CountRead { id, link_id, last } => GetActionView::CountRead {
                id: id@,
                link_id: link_id@,
                last: *last,
            },
            GetAction::DeleteBlob { id } => GetActionView::DeleteBlob { id: id@ },
            GetAction::Deliver { value, content_type } => GetActionView::Deliver {
                value: value@,
                content_type: content_type@,
            },
            GetAction::Refuse => GetActionView::Refuse,
        }
    }
}

/// The end of a download that goes no further.
pub open spec fn refused() -> (GetStateView, GetActionView) {
    (GetStateView::Done, GetActionView::Refuse)
}

/// One step of a download: from where it stands and what the stores
/// answered, to where it stands next and what is to be done.
///
/// The steps run in one order: find the record, let the request through or
/// not, fetch the bytes, open them, record the read, and where it was the
/// last one allowed, which deletes the record, delete the bytes too; then
/// answer. Whatever fails on the way ends the download with `NotFound`, and
/// so does an answer that does not belong to the step.
pub open spec fn get_next(
    state: GetStateView,
    event: GetEventView,
    req: GetRequestView,
    keys: Seq<KeyView>,
    now: i64,
) -> (GetStateView, GetActionView) {
    match (state, event) {
        (GetStateView::Start, GetEventView::Begin) => (
            GetStateView::Lookup,
            GetActionView::FindDocument { link_id: req.link_id },
        ),
        (GetStateView::Lookup, GetEventView::Document(Some(doc))) => if doc.admits(req, now) {
            (GetStateView::Fetch { doc }, GetActionView::FetchBlob { id: doc.id })
        } else {
            refused()
        },
        (GetStateView::Fetch { doc }, GetEventView::Blob(Some(blob))) => match plaintext(
            doc.facts.encryption,
            keys,
            req.key,
            blob,
        ) {
            Some(value) => (
                GetStateView::Count {
                    last: if doc.last_read_next() {
                        Some(doc.id)
                    } else {
                        None
                    },
                    value,
                    content_type: doc.meta.content_type,
                },
                GetActionView::CountRead {
                    id: doc.id,
                    link_id: req.link_id,
                    last: doc.last_read_next(),
                },
            ),
            None => refused(),
        },
        (GetStateView::Count { last: Some(id), value, content_type }, GetEventView::Stored(true)) => (
            GetStateView::Discard { value, content_type },
            GetActionView::DeleteBlob { id },
        ),
        (GetStateView::Count { last: None, value, content_type }, GetEventView::Stored(true)) => (
            GetStateView::Done,
            GetActionView::Deliver { value, content_type },
        ),
        (GetStateView::Discard { value, content_type }, GetEventView::Stored(true)) => (
            GetStateView::Done,
            GetActionView::Deliver { value, content_type },
        ),
        _ => refused(),
    }
}

/// Takes one step of a download.
pub fn get_step(state: GetState, event: GetEvent, req: &GetRequest, keys: &Keys, now: i64) -> (res: (
    GetState,
    GetAction,
))
    ensures
        (res.0@, res.1@) == get_next(state@, event@, req@, keys@, now),
{
    match (state, event) {
        (GetState::Start, GetEvent::Begin) => (
            GetState::Lookup,
            GetAction::FindDocument { link_id: req.link_id.clone() },
        ),
        (GetState::Lookup, GetEvent::Document(Some(doc))) => {
            if doc.admits(req, now) {
                let id = doc.id.clone();
                (GetState::Fetch { doc }, GetAction::FetchBlob { id })
            } else {
                (GetState::Done, GetAction::Refuse)
            }
        },
        (GetState::Fetch { doc }, GetEvent::Blob(Some(blob))) => {
            match doc.open(keys, req.key.as_ref(), blob) {
                Some(value) => {
                    let content_type = doc.meta.content_type.clone();
                    let last = doc.last_read_next();
                    (
                        GetState::Count {
                            last: if last {
                                Some(doc.id.clone())
                            } else {
                                None
                            },
                            value,
                            content_type,
                        },
                        GetAction::CountRead {
                            id: doc.id.clone(),
                            link_id: req.link_id.clone(),
                            last,
                        },
                    )
                },
                None => (GetState::Done, GetAction::Refuse),
            }
        },
        (GetState::Count { last: Some(id), value, content_type }, GetEvent::Stored(true)) => (
            GetState::Discard { value, content_type },
            GetAction::DeleteBlob { id },
        ),
        (GetState::Count { last: None, value, content_type }, GetEvent::Stored(true)) => (
            GetState::Done,
            GetAction::Deliver { value, content_type },
        ),
        (GetState::Discard { value, content_type }, GetEvent::Stored(true)) => (
            GetState::Done,
            GetAction::Deliver { value, content_type },
        ),
        _ => (GetState::Done, GetAction::Refuse),
    }
}

impl GetAction {
    /// The answer of the download, where the action is one.
    pub fn response(self) -> (res: Option<Result<(Vec<u8>, String), Error>>)
        ensures
            match self@ {
                GetActionView::Deliver { value, content_type } => res matches Some(Ok(r)) && r.0@
                    == value && r.1@ == content_type,
                GetActionView::Refuse => res matches Some(Err(e)) && e is NotFound,
                _ => res is None,
            },
    {
        match self {
            GetAction::Deliver { value, content_type } => Some(Ok((value, content_type))),
            GetAction::Refuse => Some(Err(Error::NotFound)),
            _ => None,
        }
    }
}

} // verus!
