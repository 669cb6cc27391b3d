use tackd::crypto::hash;
use tackd::error::Error;
use tackd::handlers::{HeaderText, QueriesSet, RequestHeaders};
use tackd::keys::{Key, Keys};
use tackd::links::{Link, LinkWithKey, Links};
use tackd::secret::{Encryption, Secret, MAX_SECRET_SECONDS};

const MASTER: &str = "0123456789abcdef0123456789abcdef";

fn registry() -> Keys {
    Keys {
        keys: vec![
            Key { ver: 3, key: MASTER.to_string() },
            Key { ver: 1, key: "fedcba9876543210fedcba9876543210".to_string() },
        ],
    }
}

fn queries() -> QueriesSet {
    QueriesSet { filename: None, expires: None, reads: None, pwd: None, tags: None }
}

fn headers(content_type: HeaderText) -> RequestHeaders {
    RequestHeaders {
        content_type,
        x_forwarded_for: HeaderText::Absent,
        user_agent: HeaderText::Text("curl/8".to_string()),
    }
}

#[test]
fn seal_makes_a_key_where_none_is_given() {
    let (key, sealed) = Secret::seal(None, b"hello".to_vec()).unwrap();
    assert_eq!(key.len(), 32);
    assert!(key.chars().all(|c| c.is_ascii_alphanumeric()));
    assert_eq!(sealed.len(), 45);
    let (same, _) = Secret::seal(Some(MASTER), b"hello".to_vec()).unwrap();
    assert_eq!(same, MASTER);
    assert!(matches!(Secret::seal(Some("short"), b"hello".to_vec()), Err(Error::CryptoError(_))));
    assert!(matches!(Secret::seal(None, Vec::new()), Err(Error::CryptoError(_))));
}

#[test]
fn data_key_of_an_anonymous_secret_is_not_kept() {
    let kept = Encryption::new(&None, &registry(), "k".repeat(32)).unwrap();
    assert!(!kept.managed);
    assert_eq!(kept.key, None);
    assert_eq!(kept.version, None);
    // The registry is not looked at.
    assert!(Encryption::new(&None, &Keys { keys: Vec::new() }, "k".repeat(32)).is_ok());
}

#[test]
fn data_key_of_an_owned_secret_is_wrapped() {
    let kept = Encryption::new(&Some("alice".to_string()), &registry(), "k".repeat(32)).unwrap();
    assert!(kept.managed);
    assert_eq!(kept.version, Some(3));
    assert_eq!(kept.key.unwrap().len(), 32 + 40);
    let bad = Keys { keys: vec![Key { ver: 1, key: "short".to_string() }] };
    let refused = Encryption::new(&Some("alice".to_string()), &bad, "k".repeat(32));
    assert!(matches!(refused, Err(Error::CryptoError(_))));
    let refused = Encryption::new(&Some("alice".to_string()), &registry(), String::new());
    assert!(matches!(refused, Err(Error::CryptoError(_))));
}

#[test]
fn anonymous_secret_is_told_its_data_key() {
    let made = Secret::create(
        b"hello".to_vec(),
        &queries(),
        headers(HeaderText::Text("text/plain".to_string())),
        None,
        &registry(),
    )
    .unwrap();
    let s = &made.secret;
    assert_eq!(s.id.len(), 36);
    assert!(s.active);
    assert_eq!(s.meta.content_type, "text/plain");
    assert_eq!(s.meta.bytes, 45);
    assert_eq!(s.meta.user_agent.as_deref(), Some("curl/8"));
    assert_eq!(s.meta.x_forwarded_for, None);
    assert_eq!(s.lifecycle.max.reads, 1);
    assert_eq!(s.lifecycle.max.seconds, 3600);
    assert_eq!(s.lifecycle.current.reads, 0);
    assert!(!s.facts.encryption.managed);
    assert_eq!(s.facts.owner, None);
    assert_eq!(s.facts.pwd, None);
    assert_eq!(s.links.0.len(), 1);
    assert_eq!(s.links.0[0].key, None);
    assert_eq!(made.key.len(), 32);
    assert_eq!(made.value.len(), 45);
}

#[test]
fn owned_secret_is_told_its_unlock_key() {
    let mut q = queries();
    q.pwd = Some("sesame".to_string());
    q.filename = Some("a.txt".to_string());
    let made = Secret::create(
        b"hello".to_vec(),
        &q,
        headers(HeaderText::Absent),
        Some("alice".to_string()),
        &registry(),
    )
    .unwrap();
    let s = &made.secret;
    assert_eq!(s.meta.content_type, "none");
    assert_eq!(s.meta.filename.as_deref(), Some("a.txt"));
    assert!(s.facts.encryption.managed);
    assert_eq!(s.facts.encryption.version, Some(3));
    assert_eq!(s.facts.owner.as_deref(), Some("alice"));
    assert_eq!(s.facts.pwd, Some(hash("sesame")));
    assert_eq!(s.links.0[0].key, Some(hash(&made.key)));
}

#[test]
fn secret_is_kept_a_month_at_most() {
    assert_eq!(MAX_SECRET_SECONDS, 2_592_000);
    let mut q = queries();
    q.expires = Some("400000000".to_string());
    let made =
        Secret::create(b"x".to_vec(), &q, headers(HeaderText::Opaque), None, &registry()).unwrap();
    assert_eq!(made.secret.lifecycle.max.seconds, 2_592_000);
    assert_eq!(made.secret.lifecycle.max.reads, -1);
    assert_eq!(made.secret.meta.content_type, "error");
    q.expires = Some("120".to_string());
    q.reads = Some(4);
    let made =
        Secret::create(b"x".to_vec(), &q, headers(HeaderText::Opaque), None, &registry()).unwrap();
    assert_eq!(made.secret.lifecycle.max.seconds, 120);
    assert_eq!(made.secret.lifecycle.max.reads, 4);
    // An expiry that is no number of seconds asks for nothing.
    q.expires = Some("1d".to_string());
    q.reads = None;
    let made =
        Secret::create(b"x".to_vec(), &q, headers(HeaderText::Opaque), None, &registry()).unwrap();
    assert_eq!(made.secret.lifecycle.max.seconds, 3600);
    assert_eq!(made.secret.lifecycle.max.reads, 1);
}

#[test]
fn secret_cannot_be_empty() {
    let res = Secret::create(Vec::new(), &queries(), headers(HeaderText::Absent), None, &registry());
    assert!(matches!(res, Err(Error::CryptoError(_))));
}

#[test]
fn secret_is_shown_with_its_expiry_in_seconds() {
    let mut made = Secret::create(
        b"hello".to_vec(),
        &queries(),
        headers(HeaderText::Absent),
        Some("alice".to_string()),
        &registry(),
    )
    .unwrap()
    .secret;
    made.lifecycle.max.expires = 1_700_000_000_999;
    let shown = made.to_json();
    assert_eq!(shown.id, made.id);
    assert_eq!(shown.lifecycle.max.expires, 1_700_000_000);
    assert_eq!(shown.lifecycle.max.reads, 1);
    assert_eq!(shown.links.len(), 1);
    assert_eq!(shown.links[0].id, made.links.0[0].id);
    assert_eq!(shown.links[0].key, None);
}

#[test]
fn keyed_link_for_an_owner() {
    let owner = "alice".to_string();
    let made = Link::new(Some(&owner)).unwrap();
    let key = made.key.clone().unwrap();
    assert_eq!(key.len(), 32);
    assert_eq!(made.link.key, Some(hash(&key)));
    assert_eq!(made.link.id.len(), 36);
    let told = made.to_json();
    assert_eq!(told.id, made.link.id);
    assert_eq!(told.key, Some(key));
    assert_eq!(told.created, made.link.created);
}

#[test]
fn keyless_link_for_nobody() {
    let made = Link::new(None).unwrap();
    assert_eq!(made.key, None);
    assert_eq!(made.link.key, None);
    let made: LinkWithKey = Link::default();
    assert_eq!(made.key, None);
    assert_eq!(made.link.id.len(), 36);
}

#[test]
fn keyed_links_are_found_by_id() {
    let link = |id: &str, created: i64| Link { id: id.to_string(), key: None, created };
    let links = Links(vec![link("a", 1), link("b", 2), link("a", 3)]);
    assert_eq!(links.find("a").unwrap().created, 1);
    assert_eq!(links.find("b").unwrap().created, 2);
    assert!(links.find("c").is_none());
    assert_eq!(links.first().unwrap().id, "a");
    assert!(Links(Vec::new()).first().is_none());
    assert_eq!(links.to_vec().len(), 3);
}

#[test]
fn secret_is_made_of_every_fit_payload() {
    for owner in [None, Some("alice".to_string())] {
        for len in [1usize, 64, 10_000] {
            let made = Secret::create(
                vec![1u8; len],
                &queries(),
                headers(HeaderText::Absent),
                owner.clone(),
                &registry(),
            );
            assert!(made.is_ok(), "{:?} {}", owner, len);
        }
    }
    let kept = Encryption::new(&Some("alice".to_string()), &registry(), "k".to_string());
    assert!(kept.is_ok());
}
