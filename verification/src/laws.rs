//! What holds of uploads and downloads taken together.

use crate::config::ConfigsView;
use crate::data::{sniffed_mime, DataView};
use crate::database::links::{
    find_link,
    is_first_link,
    lemma_first_link_unique,
    link_index,
    LinkView,
    LinkWithKeyView,
};
use crate::database::metadata::{
    assembled,
    is_expiry_for,
    parsed_seconds,
    MetaDataPayloadView,
    MetaDataView,
    MAX_EXPIRE_SECONDS,
};
use crate::handlers::{QueriesSetView, RequestHeadersView};
use crate::keys::{distinct_versions, lemma_latest_found_by_version, KeyView};
use crate::state::{get_next, plaintext, GetActionView, GetEventView, GetRequestView, GetStateView};
use vstd::prelude::*;
use vstd::utf8::encode_utf8_valid_utf8;

verus! {

/// The last action of a download for which the stores answer with `doc` and
/// `blob` and carry out every change they are asked for.
pub open spec fn download_run(
    doc: Option<MetaDataView>,
    blob: Option<Seq<u8>>,
    req: GetRequestView,
    keys: Seq<KeyView>,
    now: i64,
) -> GetActionView {
    let (s1, a1) = get_next(GetStateView::Start, GetEventView::Begin, req, keys, now);
    let (s2, a2) = get_next(s1, GetEventView::Document(doc), req, keys, now);
    if a2 is FetchBlob {
        let (s3, a3) = get_next(s2, GetEventView::Blob(blob), req, keys, now);
        if a3 is CountRead {
            let (s4, a4) = get_next(s3, GetEventView::Stored(true), req, keys, now);
            if a4 is DeleteBlob {
                get_next(s4, GetEventView::Stored(true), req, keys, now).1
            } else {
                a4
            }
        } else {
            a3
        }
    } else {
        a2
    }
}

/// The change to the record that a download asks of the store, if it asks
/// for one: the recording of a read.
pub open spec fn download_change(
    doc: Option<MetaDataView>,
    blob: Option<Seq<u8>>,
    req: GetRequestView,
    keys: Seq<KeyView>,
    now: i64,
) -> Option<GetActionView> {
    let (s1, a1) = get_next(GetStateView::Start, GetEventView::Begin, req, keys, now);
    let (s2, a2) = get_next(s1, GetEventView::Document(doc), req, keys, now);
    if a2 is FetchBlob {
        let (s3, a3) = get_next(s2, GetEventView::Blob(blob), req, keys, now);
        if a3 is CountRead {
            Some(a3)
        } else {
            None
        }
    } else {
        None
    }
}

/// A download run step by step answers what `download` says: the uploaded
/// bytes and their type where the record lets the request through and the
/// bytes open, `NotFound` otherwise. It asks the store to change the record
/// only where it delivers: to count the read, and to delete the record with
/// it where the read was the last one allowed. A download that finds no
/// record or no bytes answers `NotFound`.
pub proof fn lemma_download_run(
    doc: MetaDataView,
    blob: Seq<u8>,
    req: GetRequestView,
    keys: Seq<KeyView>,
    now: i64,
)
    ensures
        download_run(Some(doc), Some(blob), req, keys, now) == (match doc.download(
            blob,
            req,
            keys,
            now,
        ) {
            Some((value, content_type)) => GetActionView::Deliver { value, content_type },
            None => GetActionView::Refuse,
        }),
        download_change(Some(doc), Some(blob), req, keys, now) == (if doc.download(
            blob,
            req,
            keys,
            now,
        ) is Some {
            Some(
                GetActionView::CountRead {
                    id: doc.id,
                    link_id: req.link_id,
                    last: doc.last_read_next(),
                },
            )
        } else {
            None
        }),
        download_run(None, Some(blob), req, keys, now) == GetActionView::Refuse,
        download_run(Some(doc), None, req, keys, now) == GetActionView::Refuse,
{
}

/// Two records that differ in nothing a download looks at but the counts.
pub open spec fn same_access(a: MetaDataView, b: MetaDataView) -> bool {
    &&& a.id == b.id
    &&& a.active == b.active
    &&& a.meta == b.meta
    &&& a.facts == b.facts
    &&& a.lifecycle.max == b.lifecycle.max
    &&& a.links.len() == b.links.len()
    &&& forall|i: int|
        0 <= i < a.links.len() ==> (#[trigger] a.links[i]).id == b.links[i].id && a.links[i].key
            == b.links[i].key
}

/// Records with the same access find the same link under an id, up to its count.
proof fn lemma_same_access_finds(a: MetaDataView, b: MetaDataView, id: Seq<char>)
    requires
        same_access(a, b),
    ensures
        link_index(a.links, id) == link_index(b.links, id),
        find_link(a.links, id) is Some ==> find_link(a.links, id).unwrap().key == find_link(
            b.links,
            id,
        ).unwrap().key,
{
    if exists|i: int| is_first_link(a.links, id, i) {
        let i = choose|i: int| is_first_link(a.links, id, i);
        assert(is_first_link(b.links, id, i)) by {
            assert(a.links[i].id == b.links[i].id);
            assert forall|j: int| 0 <= j < i implies (#[trigger] b.links[j]).id != id by {
                assert(a.links[j].id == b.links[j].id);
            }
        }
        let k = choose|k: int| is_first_link(b.links, id, k);
        lemma_first_link_unique(b.links, id, i, k);
        assert(a.links[i].key == b.links[i].key);
    } else {
        if exists|k: int| is_first_link(b.links, id, k) {
            let k = choose|k: int| is_first_link(b.links, id, k);
            assert(is_first_link(a.links, id, k)) by {
                assert(a.links[k].id == b.links[k].id);
                assert forall|j: int| 0 <= j < k implies (#[trigger] a.links[j]).id != id by {
                    assert(a.links[j].id == b.links[j].id);
                }
            }
        }
    }
}

/// Records with the same access answer every download alike.
pub proof fn lemma_same_access_same_download(
    a: MetaDataView,
    b: MetaDataView,
    blob: Seq<u8>,
    req: GetRequestView,
    keys: Seq<KeyView>,
    now: i64,
)
    requires
        same_access(a, b),
    ensures
        a.download(blob, req, keys, now) == b.download(blob, req, keys, now),
{
    lemma_same_access_finds(a, b, req.link_id);
}

/// Counting a read changes nothing a download looks at.
pub proof fn lemma_counting_keeps_access(doc: MetaDataView, link_id: Seq<char>)
    ensures
        same_access(doc, doc.counted(link_id)),
        doc.counted(link_id).lifecycle.current.reads >= doc.lifecycle.current.reads,
{
}

/// The record after `n` reads through one link, one after the other.
pub open spec fn after_reads(doc: MetaDataView, link_id: Seq<char>, n: nat) -> MetaDataView
    decreases n,
{
    if n == 0 {
        doc
    } else {
        after_reads(doc, link_id, (n - 1) as nat).after_read(link_id)
    }
}

/// A deleted record stays deleted, whatever is read or counted after.
pub proof fn lemma_deleted_is_final(doc: MetaDataView, link_id: Seq<char>, n: nat)
    requires
        !doc.active,
    ensures
        !after_reads(doc, link_id, n).active,
        !doc.counted(link_id).active,
        !doc.deactivated().active,
    decreases n,
{
    if n > 0 {
        lemma_deleted_is_final(doc, link_id, (n - 1) as nat);
    }
}

/// Nothing that is done to a record makes it ill-formed: not a read, not
/// its deletion, not a new link, not the loss of a link, not a change of
/// its tags.
pub proof fn lemma_changes_keep_well_formed(
    doc: MetaDataView,
    link_id: Seq<char>,
    last: bool,
    link: LinkView,
    tags: Option<Seq<Seq<char>>>,
)
    requires
        doc.well_formed(),
        link.reads >= 0,
    ensures
        doc.counted(link_id).well_formed(),
        doc.recorded(link_id, last).well_formed(),
        doc.deactivated().well_formed(),
        doc.with_link(link).well_formed(),
        doc.without_link(link_id).well_formed(),
        doc.tagged(tags).well_formed(),
{
    let without = doc.without_link(link_id);
    crate::database::owned::lemma_links_without(doc.links, link_id);
    assert forall|i: int| 0 <= i < without.links.len() implies (#[trigger] without.links[i]).reads
        >= 0 by {
        assert(without.links.contains(without.links[i]));
        assert(doc.links.contains(without.links[i]));
        let k = choose|k: int| 0 <= k < doc.links.len() && doc.links[k] == without.links[i];
        assert(doc.links[k].reads >= 0);
    }
    let counted = doc.counted(link_id);
    assert forall|i: int| 0 <= i < counted.links.len() implies (#[trigger] counted.links[i]).reads
        >= 0 by {
        assert(doc.links[i].reads >= 0);
    }
    let with = doc.with_link(link);
    assert forall|i: int| 0 <= i < with.links.len() implies (#[trigger] with.links[i]).reads
        >= 0 by {
        if i < doc.links.len() {
            assert(doc.links[i].reads >= 0);
        }
    }
}

/// Deleting is done once: deleting a deleted record changes nothing.
pub proof fn lemma_delete_is_idempotent(doc: MetaDataView)
    ensures
        doc.deactivated().deactivated() == doc.deactivated(),
        !doc.active ==> doc.deactivated() == doc,
{
}

/// While a record is active, its count of reads never goes down.
pub proof fn lemma_reads_never_decrease(doc: MetaDataView, link_id: Seq<char>)
    ensures
        doc.after_read(link_id).lifecycle.current.reads >= doc.lifecycle.current.reads,
{
}

/// Reads through a link of a fresh record, below the number allowed, leave
/// the record active, counted, and as open to downloads as it was.
pub proof fn lemma_reads_below_limit(doc: MetaDataView, link_id: Seq<char>, n: nat)
    requires
        doc.lifecycle.current.reads == 0,
        doc.serves(link_id),
        doc.lifecycle.max.reads <= 0 || n < doc.lifecycle.max.reads,
    ensures
        same_access(doc, after_reads(doc, link_id, n)),
        doc.lifecycle.max.reads > 0 ==> after_reads(doc, link_id, n).lifecycle.current.reads == n,
    decreases n,
{
    if n > 0 {
        let before = after_reads(doc, link_id, (n - 1) as nat);
        lemma_reads_below_limit(doc, link_id, (n - 1) as nat);
        lemma_same_access_finds(doc, before, link_id);
        lemma_counting_keeps_access(before, link_id);
        let after = before.counted(link_id);
        assert(same_access(doc, after)) by {
            assert forall|i: int| 0 <= i < doc.links.len() implies (#[trigger] doc.links[i]).id
                == after.links[i].id && doc.links[i].key == after.links[i].key by {
                assert(before.links[i].id == after.links[i].id);
            }
        }
    }
}

/// The read that uses up the reads allowed deletes the record, and it
/// stays deleted: after as many reads through one of its links as a fresh
/// record allows, or more, the record is not active.
pub proof fn lemma_reads_at_limit(doc: MetaDataView, link_id: Seq<char>, n: nat)
    requires
        doc.lifecycle.current.reads == 0,
        doc.serves(link_id),
        doc.lifecycle.max.reads > 0,
        n >= doc.lifecycle.max.reads,
    ensures
        !after_reads(doc, link_id, n).active,
    decreases n,
{
    let before = after_reads(doc, link_id, (n - 1) as nat);
    if n == doc.lifecycle.max.reads {
        lemma_reads_below_limit(doc, link_id, (n - 1) as nat);
        assert(before.last_read_next());
    } else {
        lemma_reads_at_limit(doc, link_id, (n - 1) as nat);
        lemma_deleted_is_final(before, link_id, 1);
        assert(after_reads(before, link_id, 1) == after_reads(before, link_id, 0).after_read(link_id));
    }
}

/// A fresh record answers downloads alike until one of its limits is
/// crossed, and never after.
///
/// While fewer reads were made than are allowed, a download is answered as
/// the first one would be. Once as many reads were made as are allowed, or
/// once the time limit has passed, every download is answered `NotFound`,
/// whatever it presents.
pub proof fn lemma_readable_until_limits(
    doc: MetaDataView,
    blob: Seq<u8>,
    req: GetRequestView,
    keys: Seq<KeyView>,
    now: i64,
    n: nat,
)
    requires
        doc.lifecycle.current.reads == 0,
    ensures
        (doc.lifecycle.max.reads <= 0 || n < doc.lifecycle.max.reads) ==> after_reads(
            doc,
            req.link_id,
            n,
        ).download(blob, req, keys, now) == doc.download(blob, req, keys, now),
        (doc.lifecycle.max.reads > 0 && n >= doc.lifecycle.max.reads) ==> after_reads(
            doc,
            req.link_id,
            n,
        ).download(blob, req, keys, now) is None,
        now > doc.lifecycle.max.expires ==> doc.download(blob, req, keys, now) is None,
{
    let later = after_reads(doc, req.link_id, n);
    if doc.serves(req.link_id) {
        if doc.lifecycle.max.reads <= 0 || n < doc.lifecycle.max.reads {
            lemma_reads_below_limit(doc, req.link_id, n);
            lemma_same_access_same_download(doc, later, blob, req, keys, now);
        } else {
            lemma_reads_at_limit(doc, req.link_id, n);
        }
    } else {
        lemma_unserved_stays_unserved(doc, req.link_id, n);
    }
}

/// Reads through a link that a record does not answer for never make it
/// answer for that link.
proof fn lemma_unserved_stays_unserved(doc: MetaDataView, link_id: Seq<char>, n: nat)
    requires
        !doc.serves(link_id),
    ensures
        !after_reads(doc, link_id, n).serves(link_id),
    decreases n,
{
    if n > 0 {
        lemma_unserved_stays_unserved(doc, link_id, (n - 1) as nat);
        let before = after_reads(doc, link_id, (n - 1) as nat);
        lemma_counting_keeps_access(before, link_id);
        lemma_same_access_finds(before, before.counted(link_id), link_id);
    }
}

/// Where link keys apply, a download is answered only if it presents a key
/// whose hash is the one its link holds: without a key, or with a key of
/// another hash, the answer is `NotFound`.
pub proof fn lemma_link_key_required(
    doc: MetaDataView,
    blob: Seq<u8>,
    req: GetRequestView,
    keys: Seq<KeyView>,
    now: i64,
)
    requires
        doc.link_keyed(),
        doc.download(blob, req, keys, now) is Some,
    ensures
        req.key is Some,
        find_link(doc.links, req.link_id) is Some,
        find_link(doc.links, req.link_id).unwrap().key == Some(crate::crypto::hashed(req.key.unwrap())),
{
}

/// What an upload hands back opens what it stored: a download through the
/// first link, with the key and the password of the upload, before the time
/// limit, is answered with the payload, byte for byte, and with the type
/// found in the payload or, where none is found, the type the upload declared.
///
/// This holds in every mode: stored as it is, sealed under a key that only
/// the uploader has, or sealed under a key kept wrapped under the latest
/// master key, for which the registry must hold no version twice.
pub proof fn lemma_upload_then_download(
    p: MetaDataPayloadView,
    payload: Seq<u8>,
    q: QueriesSetView,
    h: RequestHeadersView,
    owner: Option<Seq<char>>,
    c: ConfigsView,
    now: i64,
)
    requires
        p.is_upload_of(payload, q, h, owner, c),
        c.encrypt_data && owner is Some ==> c.keys.len() > 0 && distinct_versions(c.keys),
        now <= p.metadata.lifecycle.max.expires,
    ensures
        p.metadata.links.len() == 1,
        p.metadata.lifecycle.current.reads == 0,
        p.metadata.download(
            p.data,
            GetRequestView { link_id: p.metadata.links[0].id, key: p.key, password: q.pwd },
            c.keys,
            now,
        ) == Some(
            (
                payload,
                match sniffed_mime(payload) {
                    Some(m) => m,
                    None => h.content_type.text_or("none"@),
                },
            ),
        ),
{
    let (id, at, d, l, seconds) = choose|
        id: Seq<char>,
        at: i64,
        d: DataView,
        l: LinkWithKeyView,
        seconds: i64,
    |
        {
            &&& id.len() == 36
            &&& d.is_stored_form(payload, None, c.keys, owner is Some, c.encrypt_data)
            &&& l.is_new_for(owner is Some, c.ignore_link_key, c.url, None)
            &&& is_expiry_for(seconds, q.expires, c.retention)
            &&& p == #[trigger] assembled(id, at, d, l, seconds, q, h, owner, c)
        };
    let doc = p.metadata;
    let req = GetRequestView { link_id: doc.links[0].id, key: p.key, password: q.pwd };
    assert(doc.links =~= seq![l.link]);
    assert(is_first_link(doc.links, req.link_id, 0));
    let found = choose|i: int| is_first_link(doc.links, req.link_id, i);
    lemma_first_link_unique(doc.links, req.link_id, 0, found);
    assert(find_link(doc.links, req.link_id) == Some(l.link));
    assert(doc.password_ok(req.password));
    if c.encrypt_data && owner is Some {
        lemma_latest_found_by_version(c.keys);
        let k = d.key.unwrap();
        encode_utf8_valid_utf8(k);
        assert(doc.link_key_ok(req.link_id, req.key));
        assert(plaintext(doc.facts.encryption, c.keys, req.key, p.data) == Some(payload));
    } else if c.encrypt_data {
        assert(plaintext(doc.facts.encryption, c.keys, req.key, p.data) == Some(payload));
    } else {
        assert(plaintext(doc.facts.encryption, c.keys, req.key, p.data) == Some(payload));
    }
}

/// What an upload hands back reads the upload until one of its limits is
/// crossed, and never after.
///
/// After `n` reads through the first link, a download with the key and the
/// password of the upload is answered with the payload while `n` is below
/// the reads allowed, or reads are not limited, and the time limit has not
/// passed. Once `n` has reached the reads allowed, or the time limit has
/// passed, it is answered `NotFound`.
pub proof fn lemma_upload_readable_until_limits(
    p: MetaDataPayloadView,
    payload: Seq<u8>,
    q: QueriesSetView,
    h: RequestHeadersView,
    owner: Option<Seq<char>>,
    c: ConfigsView,
    now: i64,
    n: nat,
)
    requires
        p.is_upload_of(payload, q, h, owner, c),
        c.encrypt_data && owner is Some ==> c.keys.len() > 0 && distinct_versions(c.keys),
    ensures
        ({
            let req = GetRequestView { link_id: p.metadata.links[0].id, key: p.key, password: q.pwd };
            let limits = p.metadata.lifecycle.max;
            let answer = after_reads(p.metadata, req.link_id, n).download(p.data, req, c.keys, now);
            &&& (now <= limits.expires && (limits.reads <= 0 || n < limits.reads)) ==> (answer
                matches Some(a) && a.0 == payload)
            &&& (now > limits.expires || (limits.reads > 0 && n >= limits.reads)) ==> answer is None
        }),
{
    let req = GetRequestView { link_id: p.metadata.links[0].id, key: p.key, password: q.pwd };
    let limits = p.metadata.lifecycle.max;
    if now <= limits.expires {
        lemma_upload_then_download(p, payload, q, h, owner, c, now);
        lemma_readable_until_limits(p.metadata, p.data, req, c.keys, now, n);
    } else {
        lemma_upload_then_download(p, payload, q, h, owner, c, limits.expires);
        lemma_readable_until_limits(p.metadata, p.data, req, c.keys, now, n);
        if limits.reads <= 0 || n < limits.reads {
            assert(!p.metadata.admits(req, now));
        }
    }
}

/// The sweep takes nothing that could still be read: a record that the
/// sweep takes at `now` answers every download at `now` with `NotFound`.
pub proof fn lemma_sweep_takes_only_the_unreadable(
    doc: MetaDataView,
    blob: Seq<u8>,
    req: GetRequestView,
    keys: Seq<KeyView>,
    now: i64,
)
    requires
        doc.sweepable(now),
    ensures
        doc.download(blob, req, keys, now) is None,
{
}

/// An upload that asks for more time than the cap is kept for the cap, and
/// no upload that names an expiry is kept longer.
pub proof fn lemma_expiry_is_capped(
    p: MetaDataPayloadView,
    payload: Seq<u8>,
    q: QueriesSetView,
    h: RequestHeadersView,
    owner: Option<Seq<char>>,
    c: ConfigsView,
)
    requires
        p.is_upload_of(payload, q, h, owner, c),
        q.expires is Some,
    ensures
        p.metadata.lifecycle.max.seconds <= MAX_EXPIRE_SECONDS,
        (parsed_seconds(q.expires.unwrap()) matches Some(s) && s > MAX_EXPIRE_SECONDS)
            ==> p.metadata.lifecycle.max.seconds == MAX_EXPIRE_SECONDS,
{
    let (id, at, d, l, seconds) = choose|
        id: Seq<char>,
        at: i64,
        d: DataView,
        l: LinkWithKeyView,
        seconds: i64,
    |
        {
            &&& id.len() == 36
            &&& d.is_stored_form(payload, None, c.keys, owner is Some, c.encrypt_data)
            &&& l.is_new_for(owner is Some, c.ignore_link_key, c.url, None)
            &&& is_expiry_for(seconds, q.expires, c.retention)
            &&& p == #[trigger] assembled(id, at, d, l, seconds, q, h, owner, c)
        };
    assert(p.metadata.lifecycle.max.seconds == seconds);
}

} // verus!
