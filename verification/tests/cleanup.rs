use tackd::cleanup::{
    cleanup, cleanup_locked, expired_ids, lock_filter, lock_timer, stale_filter, sweep_step,
    CleanupAction, CleanupLock, CleanupTrigger, LockFilter, SweepAction, SweepEvent, SweepState,
    LOCK_IDLE_SECONDS, LOCK_STALE_SECONDS, SWEEP_BATCH,
};
use tackd::config::Configs;
use tackd::database::metadata::MetaData;
use tackd::error::Error;
use tackd::handlers::{HeaderText, QueriesSet, RequestHeaders};
use tackd::keys::Keys;

const T: i64 = 1_700_000_000_000;

fn doc(expires: i64, active: bool) -> MetaData {
    let configs = Configs {
        url: "u".to_string(),
        database: "d".to_string(),
        retention: 3600,
        reads: 1,
        ignore_link_key: false,
        encrypt_data: false,
        collection_uploads: "uploads".to_string(),
        collection_admin: "admin".to_string(),
        collection_users: "users".to_string(),
        gcs_bucket: "bucket".to_string(),
        keys: Keys { keys: Vec::new() },
    };
    let queries = QueriesSet { filename: None, expires: None, reads: None, pwd: None, tags: None };
    let headers = RequestHeaders {
        content_type: HeaderText::Absent,
        x_forwarded_for: HeaderText::Absent,
        user_agent: HeaderText::Absent,
    };
    let mut made = MetaData::create(b"x".to_vec(), &queries, headers, None, configs).unwrap().metadata;
    made.lifecycle.max.expires = expires;
    made.active = active;
    made
}

#[test]
fn constants_are_a_minute_five_minutes_and_a_thousand() {
    assert_eq!(LOCK_IDLE_SECONDS, 60);
    assert_eq!(LOCK_STALE_SECONDS, 300);
    assert_eq!(SWEEP_BATCH, 1000);
}

#[test]
fn startup_makes_the_record() {
    let made = CleanupLock::admin_init(None, T);
    assert_eq!(made, CleanupLock { active: false, modified: T });
}

#[test]
fn startup_frees_an_abandoned_lock() {
    let held = CleanupLock { active: true, modified: T - 300_001 };
    assert_eq!(CleanupLock::admin_init(Some(held), T), CleanupLock { active: false, modified: T });
}

#[test]
fn startup_leaves_a_live_lock_alone() {
    let held = CleanupLock { active: true, modified: T - 300_000 };
    assert_eq!(CleanupLock::admin_init(Some(held), T), held);
    let free = CleanupLock { active: false, modified: T - 900_000 };
    assert_eq!(CleanupLock::admin_init(Some(free), T), free);
}

#[test]
fn of_two_attempts_one_takes_the_lock() {
    let mut record = CleanupLock { active: false, modified: T - 60_001 };
    assert!(record.lock_cleanup(T).is_ok());
    assert_eq!(record, CleanupLock { active: true, modified: T });
    let before = record;
    let second = record.lock_cleanup(T);
    assert!(matches!(second, Err(Error::CleanupNotRequired)));
    assert_eq!(record, before);
    let much_later = record.lock_cleanup(T + 10_000_000);
    assert!(matches!(much_later, Err(Error::CleanupNotRequired)));
    assert_eq!(record, before);
}

#[test]
fn lock_rests_a_minute_after_each_run() {
    let mut record = CleanupLock { active: false, modified: T - 60_000 };
    assert!(matches!(record.lock_cleanup(T), Err(Error::CleanupNotRequired)));
    assert_eq!(record, CleanupLock { active: false, modified: T - 60_000 });
    assert!(record.lock_cleanup(T + 1).is_ok());
    assert_eq!(record, CleanupLock { active: true, modified: T + 1 });
}

#[test]
fn abandoned_lock_is_taken_again_after_startup() {
    let left = CleanupLock { active: true, modified: T - 301_000 };
    let mut record = CleanupLock::admin_init(Some(left), T);
    assert!(matches!(record.lock_cleanup(T + 60_000), Err(Error::CleanupNotRequired)));
    assert!(record.lock_cleanup(T + 60_001).is_ok());
    assert!(record.active);
}

#[test]
fn unlock_gives_the_lock_back() {
    let mut record = CleanupLock { active: true, modified: T };
    assert!(record.unlock_cleanup().is_ok());
    assert_eq!(record, CleanupLock { active: false, modified: T });
    assert!(record.unlock_cleanup().is_ok());
    assert_eq!(record, CleanupLock { active: false, modified: T });
}

#[test]
fn lock_survives_the_ends_of_time() {
    let mut record = CleanupLock { active: false, modified: i64::MIN };
    assert!(matches!(record.lock_cleanup(i64::MIN), Err(Error::CleanupNotRequired)));
    assert!(record.lock_cleanup(i64::MAX).is_ok());
    let held = CleanupLock { active: true, modified: i64::MAX };
    assert_eq!(CleanupLock::admin_init(Some(held), i64::MIN), held);
}

#[test]
fn timer_lets_one_attempt_through_a_minute() {
    let mut last = 1000;
    assert!(matches!(lock_timer(&mut last, 1060), Err(Error::CleanupNotRequired)));
    assert_eq!(last, 1000);
    assert!(lock_timer(&mut last, 1061).is_ok());
    assert_eq!(last, 1061);
    assert!(matches!(lock_timer(&mut last, 1061), Err(Error::CleanupNotRequired)));
    assert!(matches!(lock_timer(&mut last, 900), Err(Error::CleanupNotRequired)));
    assert_eq!(last, 1061);
    let mut far = i64::MAX;
    assert!(matches!(lock_timer(&mut far, i64::MAX), Err(Error::CleanupNotRequired)));
}

#[test]
fn sweep_takes_the_expired_and_active_newest_first() {
    let docs = vec![doc(T - 1, true), doc(T, true), doc(T - 5, false), doc(T - 10, true)];
    let ids = expired_ids(&docs, T);
    assert_eq!(ids, vec![docs[3].id.clone(), docs[0].id.clone()]);
    assert!(docs[0].sweepable(T));
    assert!(!docs[1].sweepable(T));
    assert!(!docs[2].sweepable(T));
    assert!(expired_ids(&Vec::new(), T).is_empty());
}

#[test]
fn sweep_takes_a_batch_at_most() {
    let one = doc(T - 1, true);
    let docs: Vec<MetaData> = (0..1003).map(|_| one.clone()).collect();
    assert_eq!(expired_ids(&docs, T).len(), 1000);
}

fn ids(names: &[&str]) -> Vec<String> {
    names.iter().map(|n| n.to_string()).collect()
}

#[test]
fn sweep_deletes_each_record_and_its_bytes_then_unlocks() {
    let (s, a) = sweep_step(SweepState::Start, SweepEvent::Begin);
    assert!(matches!(a, SweepAction::ListExpired));
    let (s, a) = sweep_step(s, SweepEvent::Expired(Some(ids(&["a", "b"]))));
    assert!(matches!(&a, SweepAction::Deactivate { id } if id == "a"));
    let (s, a) = sweep_step(s, SweepEvent::Stored(true));
    assert!(matches!(&a, SweepAction::DeleteBlob { id } if id == "a"));
    let (s, a) = sweep_step(s, SweepEvent::Stored(true));
    assert!(matches!(&a, SweepAction::Deactivate { id } if id == "b"));
    let (s, a) = sweep_step(s, SweepEvent::Stored(true));
    assert!(matches!(&a, SweepAction::DeleteBlob { id } if id == "b"));
    let (s, a) = sweep_step(s, SweepEvent::Stored(true));
    assert!(matches!(a, SweepAction::Unlock));
    assert!(matches!(s, SweepState::Unlocking));
    let (s, a) = sweep_step(s, SweepEvent::Stored(true));
    assert!(matches!(a, SweepAction::Finish));
    assert!(matches!(s, SweepState::Done));
}

#[test]
fn sweep_goes_on_past_failures() {
    let (s, _) = sweep_step(SweepState::Start, SweepEvent::Begin);
    let (s, _) = sweep_step(s, SweepEvent::Expired(Some(ids(&["a", "b", "c"]))));
    // "a" cannot be deleted: its bytes are left alone, and "b" is next.
    let (s, a) = sweep_step(s, SweepEvent::Stored(false));
    assert!(matches!(&a, SweepAction::Deactivate { id } if id == "b"));
    let (s, a) = sweep_step(s, SweepEvent::Stored(true));
    assert!(matches!(&a, SweepAction::DeleteBlob { id } if id == "b"));
    // The bytes of "b" cannot be deleted: "c" is next.
    let (s, a) = sweep_step(s, SweepEvent::Stored(false));
    assert!(matches!(&a, SweepAction::Deactivate { id } if id == "c"));
    let (s, a) = sweep_step(s, SweepEvent::Stored(false));
    assert!(matches!(a, SweepAction::Unlock));
    let (_, a) = sweep_step(s, SweepEvent::Stored(false));
    assert!(matches!(a, SweepAction::Finish));
}

#[test]
fn sweep_of_nothing_unlocks_at_once() {
    let (s, _) = sweep_step(SweepState::Start, SweepEvent::Begin);
    let (s, a) = sweep_step(s, SweepEvent::Expired(Some(Vec::new())));
    assert!(matches!(a, SweepAction::Unlock));
    assert!(matches!(s, SweepState::Unlocking));
}

#[test]
fn sweep_that_cannot_list_ends_with_the_lock_held() {
    let (s, _) = sweep_step(SweepState::Start, SweepEvent::Begin);
    let (s, a) = sweep_step(s, SweepEvent::Expired(None));
    assert!(matches!(a, SweepAction::Finish));
    assert!(matches!(s, SweepState::Done));
    let (_, a) = sweep_step(SweepState::Start, SweepEvent::Stored(true));
    assert!(matches!(a, SweepAction::Finish));
}

#[test]
fn filters_name_the_records_that_updates_apply_to() {
    assert_eq!(lock_filter(T), LockFilter { active: false, modified_before: T - 60_000 });
    assert_eq!(stale_filter(T), LockFilter { active: true, modified_before: T - 300_000 });
    assert_eq!(lock_filter(i64::MIN), LockFilter { active: false, modified_before: i64::MIN });
    assert_eq!(
        stale_filter(i64::MIN + 5),
        LockFilter { active: true, modified_before: i64::MIN }
    );
    assert_eq!(
        lock_filter(i64::MAX),
        LockFilter { active: false, modified_before: i64::MAX - 60_000 }
    );
}

#[test]
fn filters_agree_with_the_lock() {
    for modified in [T - 400_000, T - 300_001, T - 300_000, T - 60_001, T - 60_000, T] {
        for active in [false, true] {
            let record = CleanupLock { active, modified };
            let free = lock_filter(T);
            let matches = record.active == free.active && record.modified < free.modified_before;
            let mut tried = record;
            assert_eq!(tried.lock_cleanup(T).is_ok(), matches);
            let stale = stale_filter(T);
            let matches = record.active == stale.active && record.modified < stale.modified_before;
            let freed = CleanupLock::admin_init(Some(record), T);
            assert_eq!(freed != record, matches);
        }
    }
}

#[test]
fn sweep_takes_nothing_that_can_still_be_read() {
    let docs = vec![doc(T - 1, true), doc(T, true), doc(T + 1, true)];
    for d in &docs {
        let req = tackd::state::GetRequest {
            link_id: d.links.0[0].id.clone(),
            key: None,
            password: None,
        };
        assert_eq!(d.sweepable(T), !d.admits(&req, T));
    }
}

#[test]
fn sweep_lists_no_record_twice() {
    let docs = vec![doc(T - 1, true), doc(T - 2, true), doc(T - 3, true), doc(T + 3, true)];
    let ids = expired_ids(&docs, T);
    assert_eq!(ids.len(), 3);
    let mut seen = ids.clone();
    seen.sort();
    seen.dedup();
    assert_eq!(seen.len(), 3);
}

#[test]
fn startup_always_tries_and_a_download_only_now_and_then() {
    let mut last = 1000;
    assert_eq!(cleanup(CleanupTrigger::Startup, &mut last, 1000), CleanupAction::TryLock);
    assert_eq!(last, 1000);
    assert_eq!(cleanup(CleanupTrigger::Request, &mut last, 1060), CleanupAction::Nothing);
    assert_eq!(last, 1000);
    assert_eq!(cleanup(CleanupTrigger::Request, &mut last, 1061), CleanupAction::TryLock);
    assert_eq!(last, 1061);
    assert_eq!(cleanup(CleanupTrigger::Request, &mut last, 1062), CleanupAction::Nothing);
    assert_eq!(cleanup(CleanupTrigger::Startup, &mut last, 1062), CleanupAction::TryLock);
    assert_eq!(last, 1061);
    assert_eq!(cleanup_locked(Ok(())), CleanupAction::Sweep);
    assert_eq!(cleanup_locked(Err(Error::CleanupNotRequired)), CleanupAction::Nothing);
    assert_eq!(cleanup_locked(Err(Error::NotFound)), CleanupAction::Nothing);
}
