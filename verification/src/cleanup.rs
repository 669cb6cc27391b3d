//! The sweep of expired uploads, and the lock that lets one server at a
//! time run it.
//!
//! The lock is one record that all servers share. The store changes it only
//! through conditional updates, each of which tests and changes the record
//! in one step; the functions here say which record such an update accepts
//! and what it leaves behind. Beside it each server has a timer of its own
//! that spares the store most attempts.

use crate::database::metadata::{MetaData, MetaDataView};
use crate::error::Error;
use crate::views::texts;
use vstd::prelude::*;

verus! {

/// Seconds a server lets pass between two of its attempts, and seconds the
/// lock rests after each run.
pub const LOCK_IDLE_SECONDS: i64 = 60;

/// Seconds after which a lock still held is taken for abandoned.
pub const LOCK_STALE_SECONDS: i64 = 300;

/// The most uploads one sweep deletes.
pub const SWEEP_BATCH: usize = 1000;

/// The shared record: whether a sweep holds the lock, and when the record
/// last changed hands, in milliseconds since the epoch.
#[derive(Debug, Clone, Copy, PartialEq, Eq, Structural)]
pub struct CleanupLock {
    pub active: bool,
    pub modified: i64,
}

impl CleanupLock {
    /// The lock is free and has rested long enough to be taken at `now`.
    pub open spec fn lockable(self, now: i64) -> bool {
        !self.active && self.modified < now - LOCK_IDLE_SECONDS * 1000
    }

    /// The lock is held, and has been for so long that its holder is gone.
    pub open spec fn abandoned(self, now: i64) -> bool {
        self.active && self.modified < now - LOCK_STALE_SECONDS * 1000
    }

    /// The record after an attempt to take the lock at `now`.
    pub open spec fn locked_at(self, now: i64) -> CleanupLock {
        if self.lockable(now) {
            CleanupLock { active: true, modified: now }
        } else {
            self
        }
    }

    /// The record after the lock was given back.
    pub open spec fn unlocked(self) -> CleanupLock {
        CleanupLock { active: false, modified: self.modified }
    }

    /// The record as a starting server leaves it: made where there was
    /// none, freed where it was abandoned, else untouched.
    pub open spec fn initialized(record: Option<CleanupLock>, now: i64) -> CleanupLock {
        match record {
            None => CleanupLock { active: false, modified: now },
            Some(r) => if r.abandoned(now) {
                CleanupLock { active: false, modified: now }
            } else {
                r
            },
        }
    }

    /// Makes sure at startup that the record is there and not held by a
    /// server that is gone.
    pub fn admin_init(record: Option<CleanupLock>, now: i64) -> (res: CleanupLock)
        ensures
            res == Self::initialized(record, now),
    {
        match record {
            None => CleanupLock { active: false, modified: now },
            Some(r) => {
                if r.active && (r.modified as i128) < now as i128 - LOCK_STALE_SECONDS as i128
                    * 1000 {
                    CleanupLock { active: false, modified: now }
                } else {
                    r
                }
            },
        }
    }

    /// Tries to take the lock at `now`. On success the lock is held from
    /// `now`; on `CleanupNotRequired` the record is as it was.
    pub fn lock_cleanup(&mut self, now: i64) -> (res: Result<(), Error>)
        ensures
            *final(self) == old(self).locked_at(now),
            old(self).lockable(now) ==> res is Ok,
            !old(self).lockable(now) ==> (res matches Err(e) && e is CleanupNotRequired),
    {
        if !self.active && (self.modified as i128) < now as i128 - LOCK_IDLE_SECONDS as i128
            * 1000 {
            self.active = true;
            self.modified = now;
            Ok(())
        } else {
            Err(Error::CleanupNotRequired)
        }
    }

    /// Gives the lock back. A lock that is not held is left as it is.
    pub fn unlock_cleanup(&mut self) -> (res: Result<(), Error>)
        ensures
            res is Ok,
            *final(self) == old(self).unlocked(),
    {
        self.active = false;
        Ok(())
    }
}

/// The condition of a conditional update on the shared record: the record
/// is held or not, as `active` says, and last changed hands before
/// `modified_before`.
#[derive(Debug, Clone, Copy, PartialEq, Eq, Structural)]
pub struct LockFilter {
    pub active: bool,
    pub modified_before: i64,
}

impl LockFilter {
    /// The update applies to the record.
    pub open spec fn matches(self, record: CleanupLock) -> bool {
        record.active == self.active && record.modified < self.modified_before
    }
}

/// The instant `seconds` before `now`, or the earliest instant there is.
fn instant_before(now: i64, seconds: i64) -> (at: i64)
    requires
        0 <= seconds <= 1_000_000,
    ensures
        at == (if now - seconds * 1000 < i64::MIN {
            i64::MIN as int
        } else {
            now - seconds * 1000
        }),
{
    let wide: i128 = now as i128 - seconds as i128 * 1000;
    if wide < i64::MIN as i128 {
        i64::MIN
    } else {
        wide as i64
    }
}

/// The condition under which the lock is taken at `now`: it applies to
/// exactly the records that are free and have rested.
pub fn lock_filter(now: i64) -> (filter: LockFilter)
    ensures
        forall|record: CleanupLock| filter.matches(record) <==> record.lockable(now),
{
    LockFilter { active: false, modified_before: instant_before(now, LOCK_IDLE_SECONDS) }
}

/// The condition under which a starting server frees the lock at `now`: it
/// applies to exactly the records that are abandoned.
pub fn stale_filter(now: i64) -> (filter: LockFilter)
    ensures
        forall|record: CleanupLock| filter.matches(record) <==> record.abandoned(now),
{
    LockFilter { active: true, modified_before: instant_before(now, LOCK_STALE_SECONDS) }
}

/// A server's own timer: lets an attempt through when more than a minute
/// has passed since the last one it let through. `now` and `last_cleanup`
/// are in seconds since the epoch.
pub fn lock_timer(last_cleanup: &mut i64, now: i64) -> (res: Result<(), Error>)
    ensures
        now > *old(last_cleanup) + LOCK_IDLE_SECONDS ==> res is Ok && *final(last_cleanup) == now,
        now <= *old(last_cleanup) + LOCK_IDLE_SECONDS ==> (res matches Err(e) && e
            is CleanupNotRequired) && *final(last_cleanup) == *old(last_cleanup),
{
    if now as i128 > *last_cleanup as i128 + LOCK_IDLE_SECONDS as i128 {
        *last_cleanup = now;
        Ok(())
    } else {
        Err(Error::CleanupNotRequired)
    }
}

/// What sets a cleanup off.
#[derive(Debug, Clone, Copy, PartialEq, Eq, Structural)]
pub enum CleanupTrigger {
    /// A download. The server's timer decides whether it counts.
    Request,
    /// The start of the server. It always counts.
    Startup,
}

/// What a server does next about cleaning up.
#[derive(Debug, Clone, Copy, PartialEq, Eq, Structural)]
pub enum CleanupAction {
    /// Try to take the shared lock.
    TryLock,
    /// Run the sweep, apart from whatever set it off.
    Sweep,
    /// Nothing: no cleanup is required now. This is no failure.
    Nothing,
}

/// Decides whether a trigger leads to an attempt on the shared lock: a
/// starting server always tries; a download tries when the server's timer
/// lets it through, and otherwise does nothing.
pub fn cleanup(trigger: CleanupTrigger, last_cleanup: &mut i64, now: i64) -> (action: CleanupAction)
    ensures
        trigger == CleanupTrigger::Startup ==> action == CleanupAction::TryLock
            && *final(last_cleanup) == *old(last_cleanup),
        trigger == CleanupTrigger::Request && now > *old(last_cleanup) + LOCK_IDLE_SECONDS ==> action
            == CleanupAction::TryLock && *final(last_cleanup) == now,
        trigger == CleanupTrigger::Request && now <= *old(last_cleanup) + LOCK_IDLE_SECONDS ==> action
            == CleanupAction::Nothing && *final(last_cleanup) == *old(last_cleanup),
{
    match trigger {
        CleanupTrigger::Startup => CleanupAction::TryLock,
        CleanupTrigger::Request => match lock_timer(last_cleanup, now) {
            Ok(()) => CleanupAction::TryLock,
            Err(_) => CleanupAction::Nothing,
        },
    }
}

/// Decides what follows an attempt on the shared lock: the sweep where
/// the lock was taken, and nothing where it was not. Whatever the attempt
/// failed with is absorbed here: it is never an error of what set the
/// cleanup off.
pub fn cleanup_locked(attempt: Result<(), Error>) -> (action: CleanupAction)
    ensures
        action == (if attempt is Ok {
            CleanupAction::Sweep
        } else {
            CleanupAction::Nothing
        }),
{
    match attempt {
        Ok(()) => CleanupAction::Sweep,
        Err(_) => CleanupAction::Nothing,
    }
}

/// Of two attempts on the lock, whichever the store takes first, at most
/// one succeeds, and the one that fails changes nothing. Where the lock
/// could be taken at all, the first attempt takes it.
pub proof fn lemma_one_sweep_at_a_time(record: CleanupLock, first: i64, second: i64)
    ensures
        record.lockable(first) ==> record.locked_at(first).active && !record.locked_at(
            first,
        ).lockable(second) && record.locked_at(first).locked_at(second) == record.locked_at(first),
        !record.lockable(first) ==> record.locked_at(first) == record,
{
}

/// A lock whose holder is gone comes back: a starting server frees a record
/// that was left held for longer than the staleness threshold, and an
/// attempt made after the lock has rested takes it.
pub proof fn lemma_abandoned_lock_is_reclaimed(record: CleanupLock, start: i64, later: i64)
    requires
        record.abandoned(start),
        later > start + LOCK_IDLE_SECONDS * 1000,
    ensures
        !CleanupLock::initialized(Some(record), start).active,
        CleanupLock::initialized(Some(record), start).lockable(later),
        CleanupLock::initialized(Some(record), start).locked_at(later) == (CleanupLock {
            active: true,
            modified: later,
        }),
{
}

/// A held lock is not taken: no attempt on the lock changes a record that
/// is held, however old it is, and a starting server changes it only where
/// it is abandoned.
pub proof fn lemma_held_lock_is_kept(record: CleanupLock, now: i64)
    requires
        record.active,
    ensures
        record.locked_at(now) == record,
        !record.abandoned(now) ==> CleanupLock::initialized(Some(record), now) == record,
{
}

impl MetaDataView {
    /// The sweep takes the record: it is active and its time limit has passed.
    pub open spec fn sweepable(self, now: i64) -> bool {
        self.active && self.lifecycle.max.expires < now
    }
}

impl MetaData {
    /// Whether the sweep takes the record.
    pub fn sweepable(&self, now: i64) -> (res: bool)
        ensures
            res == self@.sweepable(now),
    {
        self.active && self.lifecycle.max.expires < now
    }
}

/// The ids of the records among the last `n` of `docs` that a sweep at
/// `now` takes: the newest first, and no more than a batch.
pub open spec fn expired_among(docs: Seq<MetaDataView>, now: i64, n: nat) -> Seq<Seq<char>>
    decreases n,
{
    if n == 0 || n > docs.len() {
        Seq::empty()
    } else {
        let newer = expired_among(docs, now, (n - 1) as nat);
        let doc = docs[docs.len() - n];
        if doc.sweepable(now) && newer.len() < SWEEP_BATCH {
            newer.push(doc.id)
        } else {
            newer
        }
    }
}

/// A sweep takes only what has expired, and, short of a full batch, all of
/// it: every id it lists is that of a record that is active and past its
/// time limit, and where the list is shorter than a batch it holds the id
/// of every such record.
pub proof fn lemma_expired_among(docs: Seq<MetaDataView>, now: i64, n: nat)
    requires
        n <= docs.len(),
    ensures
        expired_among(docs, now, n).len() <= n,
        expired_among(docs, now, n).len() <= SWEEP_BATCH,
        forall|k: int|
            0 <= k < expired_among(docs, now, n).len() ==> exists|i: int|
                docs.len() - n <= i < docs.len() && (#[trigger] docs[i]).sweepable(now)
                    && docs[i].id == #[trigger] expired_among(docs, now, n)[k],
        expired_among(docs, now, n).len() < SWEEP_BATCH ==> forall|i: int|
            docs.len() - n <= i < docs.len() && (#[trigger] docs[i]).sweepable(now)
                ==> expired_among(docs, now, n).contains(docs[i].id),
    decreases n,
{
    if n > 0 {
        let newer = expired_among(docs, now, (n - 1) as nat);
        let res = expired_among(docs, now, n);
        let doc = docs[docs.len() - n];
        lemma_expired_among(docs, now, (n - 1) as nat);
        assert forall|k: int| 0 <= k < res.len() implies exists|i: int|
            docs.len() - n <= i < docs.len() && (#[trigger] docs[i]).sweepable(now) && docs[i].id
                == #[trigger] res[k] by {
            if k < newer.len() {
                assert(res[k] == newer[k]);
                let i = choose|i: int|
                    docs.len() - (n - 1) <= i < docs.len() && (#[trigger] docs[i]).sweepable(now)
                        && docs[i].id == newer[k];
                assert(docs[i].sweepable(now) && docs[i].id == res[k]);
            } else {
                assert(docs[docs.len() - n].sweepable(now) && doc.id == res[k]);
            }
        }
        if res.len() < SWEEP_BATCH {
            assert forall|i: int|
                docs.len() - n <= i < docs.len() && (#[trigger] docs[i]).sweepable(
                    now,
                ) implies res.contains(docs[i].id) by {
                if i == docs.len() - n {
                    assert(res[res.len() - 1] == doc.id);
                } else {
                    assert(newer.contains(docs[i].id));
                    let k = choose|k: int| 0 <= k < newer.len() && newer[k] == docs[i].id;
                    assert(res[k] == docs[i].id);
                }
            }
        }
    }
}

/// No two records have the same id.
pub open spec fn distinct_ids(docs: Seq<MetaDataView>) -> bool {
    forall|i: int, j: int|
        0 <= i < j < docs.len() ==> (#[trigger] docs[i]).id != (#[trigger] docs[j]).id
}

/// A sweep lists no record twice: where no two records have the same id,
/// no id stands twice in its list.
pub proof fn lemma_expired_once(docs: Seq<MetaDataView>, now: i64, n: nat)
    requires
        n <= docs.len(),
        distinct_ids(docs),
    ensures
        expired_among(docs, now, n).no_duplicates(),
    decreases n,
{
    if n > 0 {
        let newer = expired_among(docs, now, (n - 1) as nat);
        let res = expired_among(docs, now, n);
        let first = docs.len() - n;
        lemma_expired_once(docs, now, (n - 1) as nat);
        lemma_expired_among(docs, now, (n - 1) as nat);
        assert forall|a: int, b: int| 0 <= a < res.len() && 0 <= b < res.len() && a != b implies res[a]
            != res[b] by {
            if a < newer.len() && b < newer.len() {
                assert(newer[a] != newer[b]);
            } else {
                let k = if a < newer.len() {
                    a
                } else {
                    b
                };
                let i = choose|i: int|
                    docs.len() - (n - 1) <= i < docs.len() && (#[trigger] docs[i]).sweepable(now)
                        && docs[i].id == newer[k];
                assert(docs[first].id != docs[i].id);
            }
        }
    }
}

/// The records of a list as they stand in contracts.
pub open spec fn records(docs: Seq<MetaData>) -> Seq<MetaDataView> {
    Seq::new(docs.len(), |i: int| docs[i]@)
}

/// The ids a sweep at `now` takes from `docs`, which are in the order the
/// records were stored: the newest first, and no more than a batch.
pub fn expired_ids(docs: &Vec<MetaData>, now: i64) -> (ids: Vec<String>)
    ensures
        texts(ids@) == expired_among(records(docs@), now, docs@.len()),
        ids@.len() <= SWEEP_BATCH,
        distinct_ids(records(docs@)) ==> texts(ids@).no_duplicates(),
{
    let mut ids: Vec<String> = Vec::new();
    let mut n: usize = 0;
    while n < docs.len()
        invariant
            n <= docs.len(),
            texts(ids@) == expired_among(records(docs@), now, n as nat),
            ids@.len() <= SWEEP_BATCH,
        decreases docs.len() - n,
    {
        let doc = &docs[docs.len() - n - 1];
        assert(doc@ == records(docs@)[docs@.len() - (n + 1)]);
        if doc.sweepable(now) && ids.len() < SWEEP_BATCH {
            let ghost before = texts(ids@);
            ids.push(doc.id.clone());
            assert(texts(ids@) =~= before.push(doc@.id));
        }
        n += 1;
    }
    proof {
        if distinct_ids(records(docs@)) {
            lemma_expired_once(records(docs@), now, docs@.len());
        }
    }
    ids
}

/// Where a sweep stands between two answers of the stores.
#[derive(Debug)]
pub enum SweepState {
    /// Nothing was asked yet. The lock is held.
    Start,
    /// The expired records were asked for.
    Listing,
    /// The deletion of record `next` of the batch was asked for.
    Deactivating { ids: Vec<String>, next: usize },
    /// Record `next` is deleted; the deletion of its bytes was asked for.
    Discarding { ids: Vec<String>, next: usize },
    /// The batch is done; the lock was asked to be given back.
    Unlocking,
    Done,
}

#[derive(Debug)]
pub enum SweepEvent {
    /// The sweep begins.
    Begin,
    /// The ids of the expired records, or `None` where the store failed.
    Expired(Option<Vec<String>>),
    /// Whether the store did what it was last asked to change.
    Stored(bool),
}

#[derive(Debug)]
pub enum SweepAction {
    /// List the active records whose time limit has passed, the newest
    /// first, a batch at most.
    ListExpired,
    /// Mark the record deleted, if it is still active.
    Deactivate { id: String },
    /// Delete the bytes kept under the id.
    DeleteBlob { id: String },
    /// Give the lock back.
    Unlock,
    /// Nothing is left to do.
    Finish,
}

pub enum SweepStateView {
    Start,
    Listing,
    Deactivating { ids: Seq<Seq<char>>, next: int },
    Discarding { ids: Seq<Seq<char>>, next: int },
    Unlocking,
    Done,
}

pub enum SweepEventView {
    Begin,
    Expired(Option<Seq<Seq<char>>>),
    Stored(bool),
}

pub enum SweepActionView {
    ListExpired,
    Deactivate { id: Seq<char> },
    DeleteBlob { id: Seq<char> },
    Unlock,
    Finish,
}

impl View for SweepState {
    type V = SweepStateView;

    open spec fn view(&self) -> SweepStateView {
        match self {
            SweepState::Start => SweepStateView::Start,
            SweepState::Listing => SweepStateView::Listing,
            SweepState::Deactivating { ids, next } => SweepStateView::Deactivating {
                ids: texts(ids@),
                next: *next as int,
            },
            SweepState::Discarding { ids, next } => SweepStateView::Discarding {
                ids: texts(ids@),
                next: *next as int,
            },
            SweepState::Unlocking => SweepStateView::Unlocking,
            SweepState::Done => SweepStateView::Done,
        }
    }
}

impl View for SweepEvent {
    type V = SweepEventView;

    open spec fn view(&self) -> SweepEventView {
        match self {
            SweepEvent::Begin => SweepEventView::Begin,
            SweepEvent::Expired(ids) => SweepEventView::Expired(crate::views::opt_texts(*ids)),
            SweepEvent::Stored(ok) => SweepEventView::Stored(*ok),
        }
    }
}

impl View for SweepAction {
    type V = SweepActionView;

    open spec fn view(&self) -> SweepActionView {
        match self {
            SweepAction::ListExpired => SweepActionView::ListExpired,
            SweepAction::Deactivate { id } => SweepActionView::Deactivate { id: id@ },
            SweepAction::DeleteBlob { id } => SweepActionView::DeleteBlob { id: id@ },
            SweepAction::Unlock => SweepActionView::Unlock,
            SweepAction::Finish => SweepActionView::Finish,
        }
    }
}

/// The sweep turns to record `i` of the batch, or, behind the last one,
/// gives the lock back.
pub open spec fn sweep_on(ids: Seq<Seq<char>>, i: int) -> (SweepStateView, SweepActionView) {
    if 0 <= i < ids.len() {
        (SweepStateView::Deactivating { ids, next: i }, SweepActionView::Deactivate { id: ids[i] })
    } else {
        (SweepStateView::Unlocking, SweepActionView::Unlock)
    }
}

/// One step of a sweep.
///
/// The sweep lists the expired records, then takes them one by one: it has
/// the record deleted and, where that was done, its bytes too. A record
/// that cannot be deleted, or bytes that cannot, do not stop it: it goes on
/// with the next record. Behind the last one it gives the lock back. A
/// listing that fails ends the sweep with the lock still held; it comes
/// back as an abandoned lock does.
pub open spec fn sweep_next(state: SweepStateView, event: SweepEventView) -> (
    SweepStateView,
    SweepActionView,
) {
    match (state, event) {
        (SweepStateView::Start, SweepEventView::Begin) => (
            SweepStateView::Listing,
            SweepActionView::ListExpired,
        ),
        (SweepStateView::Listing, SweepEventView::Expired(Some(ids))) => sweep_on(ids, 0),
        (SweepStateView::Deactivating { ids, next }, SweepEventView::Stored(done)) => if done && 0
            <= next < ids.len() {
            (SweepStateView::Discarding { ids, next }, SweepActionView::DeleteBlob { id: ids[next] })
        } else {
            sweep_on(ids, next + 1)
        },
        (SweepStateView::Discarding { ids, next }, SweepEventView::Stored(_)) => sweep_on(
            ids,
            next + 1,
        ),
        _ => (SweepStateView::Done, SweepActionView::Finish),
    }
}

/// Turns to record `i` of the batch.
fn sweep_turn(ids: Vec<String>, i: usize) -> (res: (SweepState, SweepAction))
    ensures
        (res.0@, res.1@) == sweep_on(texts(ids@), i as int),
{
    if i < ids.len() {
        let id = ids[i].clone();
        (SweepState::Deactivating { ids, next: i }, SweepAction::Deactivate { id })
    } else {
        (SweepState::Unlocking, SweepAction::Unlock)
    }
}

/// Takes one step of a sweep.
pub fn sweep_step(state: SweepState, event: SweepEvent) -> (res: (SweepState, SweepAction))
    ensures
        (res.0@, res.1@) == sweep_next(state@, event@),
{
    match (state, event) {
        (SweepState::Start, SweepEvent::Begin) => (SweepState::Listing, SweepAction::ListExpired),
        (SweepState::Listing, SweepEvent::Expired(Some(ids))) => sweep_turn(ids, 0),
        (SweepState::Deactivating { ids, next }, SweepEvent::Stored(done)) => {
            if done && next < ids.len() {
                let id = ids[next].clone();
                (SweepState::Discarding { ids, next }, SweepAction::DeleteBlob { id })
            } else if next < ids.len() {
                sweep_turn(ids, next + 1)
            } else {
                (SweepState::Unlocking, SweepAction::Unlock)
            }
        },
        (SweepState::Discarding { ids, next }, SweepEvent::Stored(_)) => {
            if next < ids.len() {
                sweep_turn(ids, next + 1)
            } else {
                (SweepState::Unlocking, SweepAction::Unlock)
            }
        },
        _ => (SweepState::Done, SweepAction::Finish),
    }
}

/// No failure on one record stops a sweep: whatever the stores answer for
/// record `i` of the batch, the sweep turns to record `i + 1` next, and
/// behind the last record it gives the lock back.
pub proof fn lemma_sweep_goes_on(ids: Seq<Seq<char>>, i: int, deleted: bool, discarded: bool)
    requires
        0 <= i < ids.len(),
    ensures
        ({
            let first = sweep_next(
                SweepStateView::Deactivating { ids, next: i },
                SweepEventView::Stored(deleted),
            );
            if deleted {
                first.1 == (SweepActionView::DeleteBlob { id: ids[i] }) && sweep_next(
                    first.0,
                    SweepEventView::Stored(discarded),
                ) == sweep_on(ids, i + 1)
            } else {
                first == sweep_on(ids, i + 1)
            }
        }),
        sweep_on(ids, ids.len() as int).1 == SweepActionView::Unlock,
{
}

} // verus!
