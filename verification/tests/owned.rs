use tackd::config::Configs;
use tackd::database::metadata::MetaData;
use tackd::database::owned::{holds, holds_all, uploads_owned};
use tackd::error::Error;
use tackd::handlers::{HeaderText, QueriesSet, RequestHeaders};
use tackd::keys::{Key, Keys};

fn configs(ignore_link_key: bool) -> Configs {
    Configs {
        url: "https://tackd.example".to_string(),
        database: "tackd".to_string(),
        retention: 3600,
        reads: 1,
        ignore_link_key,
        encrypt_data: false,
        collection_uploads: "uploads".to_string(),
        collection_admin: "admin".to_string(),
        collection_users: "users".to_string(),
        gcs_bucket: "bucket".to_string(),
        keys: Keys { keys: vec![Key { ver: 1, key: "k".to_string() }] },
    }
}

fn words(list: &[&str]) -> Vec<String> {
    list.iter().map(|w| w.to_string()).collect()
}

fn doc(owner: Option<&str>, tags: Option<&[&str]>, filename: Option<&str>) -> MetaData {
    let queries = QueriesSet {
        filename: filename.map(|f| f.to_string()),
        expires: None,
        reads: None,
        pwd: None,
        tags: tags.map(words),
    };
    let headers = RequestHeaders {
        content_type: HeaderText::Absent,
        x_forwarded_for: HeaderText::Absent,
        user_agent: HeaderText::Absent,
    };
    MetaData::create(b"x".to_vec(), &queries, headers, owner.map(|o| o.to_string()), configs(false))
        .unwrap()
        .metadata
}

#[test]
fn record_belongs_to_its_owner_while_active() {
    let mut d = doc(Some("alice"), None, None);
    assert!(d.owned_by("alice"));
    assert!(!d.owned_by("bob"));
    assert!(!d.owned_by(""));
    assert!(!doc(None, None, None).owned_by("alice"));
    d.delete().unwrap();
    assert!(!d.owned_by("alice"));
}

#[test]
fn lists_hold_what_they_hold() {
    let list = words(&["a", "b"]);
    assert!(holds(&list, "a"));
    assert!(holds(&list, "b"));
    assert!(!holds(&list, "c"));
    assert!(!holds(&Vec::new(), "a"));
    assert!(holds_all(&list, &words(&["b", "a", "a"])));
    assert!(holds_all(&list, &Vec::new()));
    assert!(!holds_all(&list, &words(&["a", "c"])));
}

#[test]
fn owner_sees_the_record() {
    let d = doc(Some("alice"), Some(&["a"]), None);
    let shown = d.get_doc("alice").unwrap();
    assert_eq!(shown.id, d.id);
    assert_eq!(shown.meta.tags, Some(words(&["a"])));
    assert!(matches!(d.get_doc("bob"), Err(Error::NotFound)));
    let links = d.get_links("alice").unwrap();
    assert_eq!(links.len(), 1);
    assert_eq!(links[0].id, d.links.0[0].id);
    assert!(matches!(d.get_links("bob"), Err(Error::NotFound)));
}

#[test]
fn owner_deletes_the_record_once() {
    let mut d = doc(Some("alice"), None, None);
    assert!(matches!(d.delete_doc("bob"), Err(Error::NotFound)));
    assert!(d.active);
    assert!(d.delete_doc("alice").is_ok());
    assert!(!d.active);
    assert!(matches!(d.delete_doc("alice"), Err(Error::NotFound)));
    assert!(!d.active);
}

#[test]
fn deleted_record_is_never_active_again() {
    let mut d = doc(Some("alice"), None, None);
    let link_id = d.links.0[0].id.clone();
    d.delete().unwrap();
    assert!(matches!(d.delete(), Err(Error::NotFound)));
    assert!(matches!(d.increment(&link_id), Err(Error::NotFound)));
    assert!(matches!(d.add_link("alice", &configs(false), None), Err(Error::NotFound)));
    assert!(matches!(d.add_doc_tags("alice", Some(words(&["a"]))), Err(Error::NotFound)));
    assert!(!d.active);
    assert_eq!(d.lifecycle.current.reads, 0);
}

#[test]
fn reads_are_counted_on_the_record_and_the_link() {
    let mut d = doc(Some("alice"), None, None);
    let first = d.links.0[0].id.clone();
    let added = d.add_link("alice", &configs(false), None).unwrap().0;
    d.increment(&first).unwrap();
    d.increment(&added.link.id).unwrap();
    d.increment(&added.link.id).unwrap();
    assert_eq!(d.lifecycle.current.reads, 3);
    assert_eq!(d.links.0[0].reads, 1);
    assert_eq!(d.links.0[1].reads, 2);
    assert!(matches!(d.increment("no such link"), Err(Error::NotFound)));
    assert_eq!(d.lifecycle.current.reads, 3);
    d.lifecycle.current.reads = i64::MAX;
    d.increment(&first).unwrap();
    assert_eq!(d.lifecycle.current.reads, i64::MAX);
    assert_eq!(d.links.0[0].reads, 2);
}

#[test]
fn owner_adds_a_link() {
    let mut d = doc(Some("alice"), None, Some("a.txt"));
    let (added, filename, ignore) =
        d.add_link("alice", &configs(false), Some(words(&["t"]))).unwrap();
    assert_eq!(d.links.0.len(), 2);
    assert_eq!(d.links.0[1].id, added.link.id);
    assert_eq!(d.links.0[1].key, added.link.key);
    assert_eq!(d.links.0[1].tags, Some(words(&["t"])));
    assert_eq!(added.key.as_ref().unwrap().len(), 32);
    assert_eq!(filename.as_deref(), Some("a.txt"));
    assert!(!ignore);
    assert!(matches!(d.add_link("bob", &configs(false), None), Err(Error::NotFound)));
    assert_eq!(d.links.0.len(), 2);
    let (bare, _, _) = d.add_link("alice", &configs(true), None).unwrap();
    assert_eq!(bare.key, None);
    assert_eq!(d.links.0.len(), 3);
}

#[test]
fn owner_takes_a_link_away() {
    let mut d = doc(Some("alice"), None, None);
    let first = d.links.0[0].id.clone();
    let second = d.add_link("alice", &configs(false), None).unwrap().0.link.id;
    assert!(matches!(d.delete_link("bob", &first), Err(Error::NotFound)));
    assert!(matches!(d.delete_link("alice", "no such link"), Err(Error::NotFound)));
    assert_eq!(d.links.0.len(), 2);
    assert!(d.delete_link("alice", &first).is_ok());
    assert_eq!(d.links.0.len(), 1);
    assert_eq!(d.links.0[0].id, second);
    assert!(matches!(d.delete_link("alice", &first), Err(Error::NotFound)));
    assert!(d.delete_link("alice", &second).is_ok());
    assert!(d.links.0.is_empty());
}

#[test]
fn tags_are_added_once_each() {
    let mut d = doc(Some("alice"), Some(&["a", "b"]), None);
    let given = d.add_doc_tags("alice", Some(words(&["b", "c", "c", "a", "d"]))).unwrap();
    assert_eq!(given, words(&["b", "c", "c", "a", "d"]));
    assert_eq!(d.meta.tags, Some(words(&["a", "b", "c", "d"])));
    let mut bare = doc(Some("alice"), None, None);
    bare.add_doc_tags("alice", Some(words(&["x", "x"]))).unwrap();
    assert_eq!(bare.meta.tags, Some(words(&["x"])));
}

#[test]
fn adding_no_tags_asks_nothing() {
    let mut d = doc(Some("alice"), Some(&["a"]), None);
    assert_eq!(d.add_doc_tags("bob", None).unwrap(), Vec::<String>::new());
    assert_eq!(d.delete_doc_tags("bob", None).unwrap(), Vec::<String>::new());
    assert_eq!(d.meta.tags, Some(words(&["a"])));
    assert!(matches!(d.add_doc_tags("bob", Some(words(&["b"]))), Err(Error::NotFound)));
    assert!(matches!(d.delete_doc_tags("bob", Some(words(&["a"]))), Err(Error::NotFound)));
    assert_eq!(d.meta.tags, Some(words(&["a"])));
}

#[test]
fn tags_are_taken_wherever_they_stand() {
    let mut d = doc(Some("alice"), Some(&["a", "b", "a", "c"]), None);
    let given = d.delete_doc_tags("alice", Some(words(&["a", "z"]))).unwrap();
    assert_eq!(given, words(&["a", "z"]));
    assert_eq!(d.meta.tags, Some(words(&["b", "c"])));
    d.delete_doc_tags("alice", Some(words(&["b", "c"]))).unwrap();
    assert_eq!(d.meta.tags, Some(Vec::new()));
    let mut bare = doc(Some("alice"), None, None);
    bare.delete_doc_tags("alice", Some(words(&["a"]))).unwrap();
    assert_eq!(bare.meta.tags, None);
}

#[test]
fn tags_are_read_as_a_list() {
    let d = doc(Some("alice"), Some(&["a", "b"]), None);
    assert_eq!(d.get_doc_tags("alice").unwrap(), words(&["a", "b"]));
    assert!(matches!(d.get_doc_tags("bob"), Err(Error::NotFound)));
    assert_eq!(doc(Some("alice"), None, None).get_doc_tags("alice").unwrap(), Vec::<String>::new());
}

#[test]
fn uploads_are_listed_for_their_owner_newest_first() {
    let mut docs = vec![
        doc(Some("alice"), Some(&["a", "b"]), None),
        doc(Some("bob"), Some(&["a"]), None),
        doc(Some("alice"), Some(&["a"]), None),
        doc(Some("alice"), None, None),
        doc(None, None, None),
    ];
    let now = docs[0].meta.created;
    docs[3].lifecycle.max.expires = now;
    let all = uploads_owned(&docs, "alice", None, now);
    assert_eq!(all.len(), 2);
    assert_eq!(all[0].id, docs[2].id);
    assert_eq!(all[1].id, docs[0].id);
    let tags = words(&["a"]);
    assert_eq!(uploads_owned(&docs, "alice", Some(&tags), now).len(), 2);
    let tags = words(&["b", "a"]);
    let tagged = uploads_owned(&docs, "alice", Some(&tags), now);
    assert_eq!(tagged.len(), 1);
    assert_eq!(tagged[0].id, docs[0].id);
    let tags = words(&["z"]);
    assert!(uploads_owned(&docs, "alice", Some(&tags), now).is_empty());
    assert!(uploads_owned(&docs, "carol", None, now).is_empty());
    assert!(docs[0].listed_for("alice", None, now));
    assert!(!docs[3].listed_for("alice", None, now));
    docs[0].delete().unwrap();
    assert_eq!(uploads_owned(&docs, "alice", None, now).len(), 1);
}

#[test]
fn added_tags_are_all_held_and_pulled_tags_are_none() {
    let mut d = doc(Some("alice"), Some(&["a", "b"]), None);
    let given = words(&["c", "a", "d", "c"]);
    d.add_doc_tags("alice", Some(given.clone())).unwrap();
    let own = d.meta.tags.clone().unwrap();
    assert!(holds_all(&own, &given));
    assert!(holds_all(&own, &words(&["a", "b"])));
    assert_eq!(own.len(), 4);
    d.delete_doc_tags("alice", Some(given.clone())).unwrap();
    let own = d.meta.tags.clone().unwrap();
    assert!(given.iter().all(|t| !holds(&own, t)));
    assert_eq!(own, words(&["b"]));
}
