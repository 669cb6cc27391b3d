use tackd::config::Configs;
use tackd::crypto::hash;
use tackd::database::links::{Link, LinkWithKey, Links, NewLinkResult};
use tackd::handlers::add_link_url;
use tackd::keys::Keys;

fn configs(ignore_link_key: bool) -> Configs {
    Configs {
        url: "https://tackd.example".to_string(),
        database: "tackd".to_string(),
        retention: 3600,
        reads: 1,
        ignore_link_key,
        encrypt_data: true,
        collection_uploads: "uploads".to_string(),
        collection_admin: "admin".to_string(),
        collection_users: "users".to_string(),
        gcs_bucket: "bucket".to_string(),
        keys: Keys { keys: Vec::new() },
    }
}

fn link(id: &str, key: Option<&str>, reads: i64) -> Link {
    Link { id: id.to_string(), key: key.map(|k| k.to_string()), created: 1000, reads, tags: None }
}

fn with_key(id: &str, key: Option<&str>) -> LinkWithKey {
    LinkWithKey {
        link: link(id, key.map(|k| hash(k)).as_deref(), 0),
        url: "https://tackd.example".to_string(),
        key: key.map(|k| k.to_string()),
    }
}

#[test]
fn anonymous_link_has_no_key() {
    let tags = Some(vec!["a".to_string()]);
    let made = Link::new(None, &configs(false), tags).unwrap();
    assert_eq!(made.key, None);
    assert_eq!(made.link.key, None);
    assert_eq!(made.link.tags, None);
    assert_eq!(made.link.reads, 0);
    assert_eq!(made.link.id.len(), 36);
    assert_eq!(made.url, "https://tackd.example");
    assert!(made.link.created > 1_600_000_000_000);
}

#[test]
fn owned_link_stores_the_hash_of_its_key() {
    let owner = "alice".to_string();
    let tags = Some(vec!["a".to_string(), "b".to_string()]);
    let made = Link::new(Some(&owner), &configs(false), tags.clone()).unwrap();
    let key = made.key.clone().unwrap();
    assert_eq!(key.len(), 32);
    assert!(key.chars().all(|c| c.is_ascii_alphanumeric()));
    assert_eq!(made.link.key, Some(hash(&key)));
    assert_ne!(made.link.key.as_deref(), Some(key.as_str()));
    assert_eq!(made.link.tags, tags);
    assert_eq!(made.link.reads, 0);
}

#[test]
fn owned_link_without_link_keys_has_no_key() {
    let owner = "alice".to_string();
    let made = Link::new(Some(&owner), &configs(true), None).unwrap();
    assert_eq!(made.key, None);
    assert_eq!(made.link.key, None);
}

#[test]
fn links_are_not_alike() {
    let owner = "alice".to_string();
    let a = Link::new(Some(&owner), &configs(false), None).unwrap();
    let b = Link::new(Some(&owner), &configs(false), None).unwrap();
    assert_ne!(a.link.id, b.link.id);
    assert_ne!(a.key, b.key);
    let id = &a.link.id;
    assert_eq!(id.matches('-').count(), 4);
    assert_eq!(id.to_lowercase(), *id);
}

#[test]
fn default_link_is_anonymous() {
    let made = Link::default(&configs(false));
    assert_eq!(made.key, None);
    assert_eq!(made.link.key, None);
    assert_eq!(made.link.id.len(), 36);
}

#[test]
fn find_returns_the_first_link_with_the_id() {
    let links = Links(vec![link("a", None, 1), link("b", None, 2), link("a", None, 3)]);
    assert_eq!(links.find("a").unwrap().reads, 1);
    assert_eq!(links.find("b").unwrap().reads, 2);
    assert!(links.find("c").is_none());
    assert!(links.find("").is_none());
    assert_eq!(links.position("b"), Some(1));
    assert_eq!(links.position("z"), None);
}

#[test]
fn first_is_the_oldest_link() {
    let links = Links(vec![link("a", None, 1), link("b", None, 2)]);
    assert_eq!(links.first().unwrap().id, "a");
    assert!(Links(Vec::new()).first().is_none());
}

#[test]
fn scrubbed_links_show_no_key() {
    let links = Links(vec![link("a", Some("hash"), 1), link("b", None, 2)]);
    let shown = links.to_vec();
    assert_eq!(shown.len(), 2);
    assert_eq!(shown[0].id, "a");
    assert_eq!(shown[0].reads, 1);
    assert_eq!(shown[0].created, 1000);
    assert_eq!(shown[1].id, "b");
    let one = link("c", Some("hash"), 7).scrub();
    assert_eq!(one.id, "c");
    assert_eq!(one.reads, 7);
}

#[test]
fn new_link_is_told_with_its_key() {
    let told = with_key("id-1", Some("unlock")).to_json();
    assert_eq!(told.id, "id-1");
    assert_eq!(told.key.as_deref(), Some("unlock"));
    assert_eq!(told.created, 1000);
}

#[test]
fn address_names_the_link() {
    let res = NewLinkResult { filename: None, link_with_key: with_key("id-1", None) }.to_json();
    assert_eq!(res.url, "https://tackd.example/download/id-1");
    assert_eq!(res.data.id, "id-1");
}

#[test]
fn address_carries_the_key() {
    let res =
        NewLinkResult { filename: None, link_with_key: with_key("id-1", Some("unlock")) }.to_json();
    assert_eq!(res.url, "https://tackd.example/download/id-1?key=unlock");
    assert_eq!(res.data.key.as_deref(), Some("unlock"));
}

#[test]
fn address_under_a_file_name_carries_the_id() {
    let res = NewLinkResult {
        filename: Some("notes.txt".to_string()),
        link_with_key: with_key("id-1", Some("unlock")),
    }
    .to_json();
    assert_eq!(res.url, "https://tackd.example/download/notes.txt?id=id-1&key=unlock");
    let res = NewLinkResult {
        filename: Some("notes.txt".to_string()),
        link_with_key: with_key("id-1", None),
    }
    .to_json();
    assert_eq!(res.url, "https://tackd.example/download/notes.txt?id=id-1");
}

#[test]
fn address_escapes_its_parameters() {
    let res = NewLinkResult {
        filename: Some("f".to_string()),
        link_with_key: with_key("a b", Some("k&=é")),
    }
    .to_json();
    assert_eq!(res.url, "https://tackd.example/download/f?id=a+b&key=k%26%3D%C3%A9");
}

#[test]
fn added_link_address_is_plain() {
    let l = with_key("id-1", Some("unlock"));
    let file = "notes.txt".to_string();
    assert_eq!(
        add_link_url("https://tackd.example", Some(&file), &l, false),
        "https://tackd.example/download/notes.txt?id=id-1&key=unlock"
    );
    assert_eq!(
        add_link_url("https://tackd.example", Some(&file), &l, true),
        "https://tackd.example/download/notes.txt?id=id-1"
    );
    assert_eq!(
        add_link_url("https://tackd.example", None, &l, false),
        "https://tackd.example/download/id-1?key=unlock"
    );
    assert_eq!(
        add_link_url("https://tackd.example", None, &l, true),
        "https://tackd.example/download/id-1"
    );
    let bare = with_key("id-2", None);
    assert_eq!(
        add_link_url("https://tackd.example", None, &bare, false),
        "https://tackd.example/download/id-2"
    );
}
