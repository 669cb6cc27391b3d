use tackd::crypto::hash;
use tackd::error::Error;
use tackd::users::{Access, ApiKey, ApiKeyHashed, Capability, CurrentUser, User};

fn access(role: &str) -> Access {
    Access { role: role.to_string() }
}

fn stored_key(key: &str, role: &str) -> ApiKeyHashed {
    ApiKeyHashed {
        key: key.to_string(),
        secret: hash("secret"),
        created: 7,
        access: access(role),
        tags: Some(vec!["ci".to_string()]),
    }
}

fn user(keys: Vec<ApiKeyHashed>) -> User {
    User {
        email: hash("a@example.org"),
        id: "user-1".to_string(),
        pwd: hash("pw"),
        created: 1,
        api_keys: keys,
    }
}

#[test]
fn only_admin_is_granted_on_request() {
    assert_eq!(Access::new(Some("admin".to_string())).role, "admin");
    assert_eq!(Access::new(Some("upload".to_string())).role, "upload");
    assert_eq!(Access::new(Some("root".to_string())).role, "upload");
    assert_eq!(Access::new(Some("Admin".to_string())).role, "upload");
    assert_eq!(Access::new(Some("".to_string())).role, "upload");
    assert_eq!(Access::new(None).role, "upload");
}

#[test]
fn roles_allow_what_they_name() {
    assert!(access("admin").create());
    assert!(access("admin").list());
    assert!(access("admin").delete());
    assert!(access("upload").create());
    assert!(!access("upload").list());
    assert!(!access("upload").delete());
    assert!(!access("guest").create());
    assert!(!access("guest").list());
    assert!(!access("guest").delete());
    assert!(!access("").create());
}

#[test]
fn current_user_has_the_rights_of_its_role() {
    let admin = CurrentUser { id: Some("u".to_string()), access: access("admin") };
    assert!(admin.create() && admin.list() && admin.delete());
    let uploader = CurrentUser { id: Some("u".to_string()), access: access("upload") };
    assert!(uploader.create());
    assert!(!uploader.list());
    assert!(!uploader.delete());
}

#[test]
fn nobody_may_upload_and_owns_nothing() {
    let nobody = CurrentUser::anonymous();
    assert_eq!(nobody.id, None);
    assert_eq!(nobody.access.role, "upload");
    assert!(nobody.create());
    assert!(matches!(nobody.authorize(Capability::Create), Err(Error::Unauthorized)));
    assert!(matches!(nobody.authorize(Capability::List), Err(Error::Unauthorized)));
}

#[test]
fn authorize_names_the_owner() {
    let admin = CurrentUser { id: Some("u-1".to_string()), access: access("admin") };
    assert_eq!(admin.authorize(Capability::Create).unwrap(), "u-1");
    assert_eq!(admin.authorize(Capability::List).unwrap(), "u-1");
    assert_eq!(admin.authorize(Capability::Delete).unwrap(), "u-1");
    let uploader = CurrentUser { id: Some("u-2".to_string()), access: access("upload") };
    assert_eq!(uploader.authorize(Capability::Create).unwrap(), "u-2");
    assert!(matches!(uploader.authorize(Capability::List), Err(Error::Unauthorized)));
    assert!(matches!(uploader.authorize(Capability::Delete), Err(Error::Unauthorized)));
}

#[test]
fn user_hash_is_the_common_hash() {
    assert_eq!(User::hash("abc"), hash("abc"));
    assert_eq!(
        User::hash("abc"),
        "508c5e8c327c14e2e1a72ba34eeb452f37458b209ed63a294d999b4c86675982"
    );
}

#[test]
fn new_user_stores_hashes() {
    let made = User::new("a@example.org", "pw");
    assert_eq!(made.email, hash("a@example.org"));
    assert_eq!(made.pwd, hash("pw"));
    assert_eq!(made.id.len(), 36);
    assert!(made.api_keys.is_empty());
    assert!(made.created > 1_600_000_000_000);
    assert_ne!(User::new("a@example.org", "pw").id, made.id);
}

#[test]
fn new_api_key_has_eight_characters_and_a_hex_secret() {
    let made = ApiKey::new(Some(vec!["ci".to_string()]), Some("admin".to_string()));
    assert_eq!(made.key.len(), 8);
    assert!(made.key.chars().all(|c| c.is_ascii_alphanumeric()));
    assert_eq!(made.secret.len(), 20);
    assert!(made.secret.chars().all(|c| c.is_ascii_hexdigit() && !c.is_ascii_uppercase()));
    assert_eq!(made.access.role, "admin");
    assert_eq!(made.tags, Some(vec!["ci".to_string()]));
    let other = ApiKey::new(None, None);
    assert_eq!(other.access.role, "upload");
    assert_ne!(other.key, made.key);
    assert_ne!(other.secret, made.secret);
}

#[test]
fn api_key_is_stored_with_the_hash_of_its_secret() {
    let made = ApiKey::new(Some(vec!["ci".to_string()]), None);
    let stored = made.hashed();
    assert_eq!(stored.key, made.key);
    assert_eq!(stored.secret, hash(&made.secret));
    assert_eq!(stored.created, made.created);
    assert_eq!(stored.access.role, made.access.role);
    assert_eq!(stored.tags, made.tags);
    let listed = stored.brief();
    assert_eq!(listed.key, made.key);
    assert_eq!(listed.created, made.created);
    assert_eq!(listed.tags, made.tags);
}

#[test]
fn api_key_acts_with_its_own_role() {
    let u = user(vec![stored_key("k-upload", "upload"), stored_key("k-admin", "admin")]);
    let by_key = u.identify("k-upload");
    assert_eq!(by_key.id.as_deref(), Some("user-1"));
    assert_eq!(by_key.access.role, "upload");
    assert_eq!(u.identify("k-admin").access.role, "admin");
}

#[test]
fn account_itself_acts_as_admin() {
    let u = user(vec![stored_key("k-upload", "upload")]);
    let by_id = u.identify("user-1");
    assert_eq!(by_id.id.as_deref(), Some("user-1"));
    assert_eq!(by_id.access.role, "admin");
    assert_eq!(user(Vec::new()).identify("anything").access.role, "admin");
}

#[test]
fn first_api_key_of_a_name_decides() {
    let u = user(vec![stored_key("k", "upload"), stored_key("k", "admin")]);
    assert_eq!(u.identify("k").access.role, "upload");
}

#[test]
fn api_keys_are_listed_without_secrets() {
    let u = user(vec![stored_key("k1", "upload"), stored_key("k2", "admin")]);
    let listed = u.list_api_keys();
    assert_eq!(listed.len(), 2);
    assert_eq!(listed[0].key, "k1");
    assert_eq!(listed[0].access.role, "upload");
    assert_eq!(listed[0].created, 7);
    assert_eq!(listed[1].key, "k2");
    assert_eq!(listed[1].access.role, "admin");
    assert!(user(Vec::new()).list_api_keys().is_empty());
}
