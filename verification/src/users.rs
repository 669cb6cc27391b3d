//! Accounts, API keys and what a role allows.

use crate::clock::now_millis;
use crate::crypto::{blake2b80, blake2b80_digest, hash, hashed, hex_encode, hex_text};
use crate::entropy::{all_alphanumeric, random_alphanumeric, random_id};
use crate::error::Error;
use crate::helpers::same_text;
use crate::views::{copy_opt_texts, opt_text, opt_texts};
use vstd::prelude::*;
use vstd::utf8::encode_utf8;

verus! {

/// The length of the public part of an API key.
pub const API_KEY_LENGTH: usize = 8;

/// What an identity may do, named by its role.
#[derive(Debug)]
pub struct Access {
    pub role: String,
}

impl View for Access {
    type V = Seq<char>;

    open spec fn view(&self) -> Seq<char> {
        self.role@
    }
}

impl Clone for Access {
    fn clone(&self) -> (res: Self)
        ensures
            res@ == self@,
    {
        Access { role: self.role.clone() }
    }
}

/// The role that may do everything.
pub open spec fn admin_role() -> Seq<char> {
    "admin"@
}

/// The role that may upload and nothing else.
pub open spec fn upload_role() -> Seq<char> {
    "upload"@
}

/// The role asked for where it is `admin`; every other request, and none,
/// gets `upload`.
pub open spec fn granted_role(asked: Option<Seq<char>>) -> Seq<char> {
    if asked == Some(admin_role()) {
        admin_role()
    } else {
        upload_role()
    }
}

/// The role may upload and make links, keys and tags.
pub open spec fn may_create(role: Seq<char>) -> bool {
    role == admin_role() || role == upload_role()
}

/// The role may list uploads, links and keys.
pub open spec fn may_list(role: Seq<char>) -> bool {
    role == admin_role()
}

/// The role may delete uploads, links and keys.
pub open spec fn may_delete(role: Seq<char>) -> bool {
    role == admin_role()
}

impl Access {
    pub fn new(role: Option<String>) -> (res: Access)
        ensures
            res@ == granted_role(opt_text(role)),
    {
        match role {
            Some(r) => {
                if same_text(r.as_str(), "admin") {
                    Access { role: "admin".to_owned() }
                } else {
                    Access { role: "upload".to_owned() }
                }
            },
            None => Access { role: "upload".to_owned() },
        }
    }

    pub fn create(&self) -> (res: bool)
        ensures
            res == may_create(self@),
    {
        same_text(self.role.as_str(), "admin") || same_text(self.role.as_str(), "upload")
    }

    pub fn list(&self) -> (res: bool)
        ensures
            res == may_list(self@),
    {
        same_text(self.role.as_str(), "admin")
    }

    pub fn delete(&self) -> (res: bool)
        ensures
            res == may_delete(self@),
    {
        same_text(self.role.as_str(), "admin")
    }
}

/// Who makes a request: an account, or nobody.
#[derive(Debug)]
pub struct CurrentUser {
    pub id: Option<String>,
    pub access: Access,
}

pub struct CurrentUserView {
    pub id: Option<Seq<char>>,
    pub role: Seq<char>,
}

impl View for CurrentUser {
    type V = CurrentUserView;

    open spec fn view(&self) -> CurrentUserView {
        CurrentUserView { id: opt_text(self.id), role: self.access@ }
    }
}

/// What a request wants to do with what an account owns.
#[derive(Debug, Clone, Copy, PartialEq, Eq, Structural)]
pub enum Capability {
    Create,
    List,
    Delete,
}

impl CurrentUserView {
    /// The role allows the capability.
    pub open spec fn allows(self, capability: Capability) -> bool {
        match capability {
            Capability::Create => may_create(self.role),
            Capability::List => may_list(self.role),
            Capability::Delete => may_delete(self.role),
        }
    }
}

impl CurrentUser {
    pub fn create(&self) -> (res: bool)
        ensures
            res == may_create(self@.role),
    {
        self.access.create()
    }

    pub fn list(&self) -> (res: bool)
        ensures
            res == may_list(self@.role),
    {
        self.access.list()
    }

    pub fn delete(&self) -> (res: bool)
        ensures
            res == may_delete(self@.role),
    {
        self.access.delete()
    }

    /// The identity of a request without credentials: nobody, who may upload.
    pub fn anonymous() -> (res: CurrentUser)
        ensures
            res@ == (CurrentUserView { id: None, role: upload_role() }),
    {
        CurrentUser { id: None, access: Access { role: "upload".to_owned() } }
    }

    /// The account on whose uploads, links and keys the request may act:
    /// the identity's own, where it has one and its role allows the
    /// capability. Everything else is `Unauthorized`.
    pub fn authorize(&self, capability: Capability) -> (res: Result<String, Error>)
        ensures
            match res {
                Ok(owner) => self@.id == Some(owner@) && self@.allows(capability),
                Err(e) => e is Unauthorized && (self@.id is None || !self@.allows(capability)),
            },
    {
        let allowed = match capability {
            Capability::Create => self.create(),
            Capability::List => self.list(),
            Capability::Delete => self.delete(),
        };
        match &self.id {
            Some(id) => {
                if allowed {
                    Ok(id.clone())
                } else {
                    Err(Error::Unauthorized)
                }
            },
            None => Err(Error::Unauthorized),
        }
    }
}

/// An API key as it is told to its maker, once: with its secret.
#[derive(Debug)]
pub struct ApiKey {
    pub key: String,
    pub secret: String,
    /// When the key was made, in milliseconds since the epoch.
    pub created: i64,
    pub access: Access,
    pub tags: Option<Vec<String>>,
}

/// An API key as it is listed: without its secret.
#[derive(Debug)]
pub struct ApiKeyBrief {
    pub key: String,
    pub created: i64,
    pub access: Access,
    pub tags: Option<Vec<String>>,
}

/// An API key as it is stored: with the hash of its secret.
#[derive(Debug)]
pub struct ApiKeyHashed {
    pub key: String,
    pub secret: String,
    pub created: i64,
    pub access: Access,
    pub tags: Option<Vec<String>>,
}

/// An API key in any of its three forms. `secret` is the secret, its hash,
/// or nothing.
pub struct ApiKeyView {
    pub key: Seq<char>,
    pub secret: Option<Seq<char>>,
    pub created: i64,
    pub role: Seq<char>,
    pub tags: Option<Seq<Seq<char>>>,
}

impl View for ApiKey {
    type V = ApiKeyView;

    open spec fn view(&self) -> ApiKeyView {
        ApiKeyView {
            key: self.key@,
            secret: Some(self.secret@),
            created: self.created,
            role: self.access@,
            tags: opt_texts(self.tags),
        }
    }
}

impl View for ApiKeyBrief {
    type V = ApiKeyView;

    open spec fn view(&self) -> ApiKeyView {
        ApiKeyView {
            key: self.key@,
            secret: None,
            created: self.created,
            role: self.access@,
            tags: opt_texts(self.tags),
        }
    }
}

impl View for ApiKeyHashed {
    type V = ApiKeyView;

    open spec fn view(&self) -> ApiKeyView {
        ApiKeyView {
            key: self.key@,
            secret: Some(self.secret@),
            created: self.created,
            role: self.access@,
            tags: opt_texts(self.tags),
        }
    }
}

impl ApiKeyView {
    /// The key with the hash of its secret in the secret's place.
    pub open spec fn hashed(self) -> ApiKeyView {
        ApiKeyView {
            secret: match self.secret {
                Some(s) => Some(hashed(s)),
                None => None,
            },
            ..self
        }
    }

    /// The key without any secret.
    pub open spec fn brief(self) -> ApiKeyView {
        ApiKeyView { secret: None, ..self }
    }

    /// A key as `ApiKey::new` makes it: eight random letters and digits,
    /// and for a secret the hex text of a ten-byte digest.
    pub open spec fn is_new_with(self, tags: Option<Seq<Seq<char>>>, role: Option<Seq<char>>) -> bool {
        &&& self.key.len() == API_KEY_LENGTH
        &&& all_alphanumeric(self.key)
        &&& (self.secret matches Some(s) && s.len() == 20 && exists|id: Seq<char>|
            s == hex_text(#[trigger] blake2b80(encode_utf8(id))))
        &&& self.role == granted_role(role)
        &&& self.tags == tags
    }
}

impl ApiKey {
    /// A new API key with the role asked for, or `upload`.
    ///
    /// The key and the secret are random, and the time of making is the
    /// clock's: the contract says what holds of every outcome.
    pub fn new(tags: Option<Vec<String>>, role: Option<String>) -> (res: ApiKey)
        ensures
            res@.is_new_with(opt_texts(tags), opt_text(role)),
    {
        let key = random_alphanumeric(API_KEY_LENGTH);
        let uuid = random_id();
        let digest = blake2b80_digest(uuid.as_str().as_bytes());
        let secret = hex_encode(digest.as_slice());
        ApiKey { key, secret, created: now_millis(), access: Access::new(role), tags }
    }

    /// The key as it is stored.
    pub fn hashed(&self) -> (res: ApiKeyHashed)
        ensures
            res@ == self@.hashed(),
    {
        ApiKeyHashed {
            key: self.key.clone(),
            secret: User::hash(self.secret.as_str()),
            created: self.created,
            access: self.access.clone(),
            tags: copy_opt_texts(&self.tags),
        }
    }
}

impl ApiKeyHashed {
    /// The key as it is listed.
    pub fn brief(&self) -> (res: ApiKeyBrief)
        ensures
            res@ == self@.brief(),
    {
        ApiKeyBrief {
            key: self.key.clone(),
            created: self.created,
            access: self.access.clone(),
            tags: copy_opt_texts(&self.tags),
        }
    }
}

/// An account as it is stored: nothing in it is clear text but its id.
#[derive(Debug)]
pub struct User {
    /// The hash of the address.
    pub email: String,
    pub id: String,
    /// The hash of the password.
    pub pwd: String,
    pub created: i64,
    pub api_keys: Vec<ApiKeyHashed>,
}

pub struct UserView {
    pub email: Seq<char>,
    pub id: Seq<char>,
    pub pwd: Seq<char>,
    pub created: i64,
    pub api_keys: Seq<ApiKeyView>,
}

impl View for User {
    type V = UserView;

    open spec fn view(&self) -> UserView {
        UserView {
            email: self.email@,
            id: self.id@,
            pwd: self.pwd@,
            created: self.created,
            api_keys: Seq::new(self.api_keys@.len(), |i: int| self.api_keys@[i]@),
        }
    }
}

/// Key `i` is the first whose public part is `name`.
pub open spec fn is_first_key(keys: Seq<ApiKeyView>, name: Seq<char>, i: int) -> bool {
    &&& 0 <= i < keys.len()
    &&& keys[i].key == name
    &&& forall|j: int| 0 <= j < i ==> (#[trigger] keys[j]).key != name
}

impl UserView {
    /// Who a request is that gave `name` and was found to be this account:
    /// where `name` is one of the account's API keys, the account with that
    /// key's role; else the account itself, which may do everything.
    pub open spec fn identified_by(self, name: Seq<char>) -> CurrentUserView {
        if exists|i: int| is_first_key(self.api_keys, name, i) {
            CurrentUserView {
                id: Some(self.id),
                role: self.api_keys[choose|i: int| is_first_key(self.api_keys, name, i)].role,
            }
        } else {
            CurrentUserView { id: Some(self.id), role: admin_role() }
        }
    }

    /// The account's API keys as they are listed.
    pub open spec fn listed_keys(self) -> Seq<ApiKeyView> {
        self.api_keys.map_values(|k: ApiKeyView| k.brief())
    }
}

impl User {
    /// The hash under which an address, a password or a secret is stored.
    pub fn hash(email: &str) -> (res: String)
        ensures
            res@ == hashed(email@),
    {
        hash(email)
    }

    /// A new account without API keys. The id is random, and the time of
    /// making is the clock's.
    pub fn new(email: &str, pwd: &str) -> (res: User)
        ensures
            res@.email == hashed(email@),
            res@.pwd == hashed(pwd@),
            res@.id.len() == 36,
            res@.api_keys.len() == 0,
    {
        let email = User::hash(email);
        let pwd = User::hash(pwd);
        let id = random_id();
        User { email, pwd, id, api_keys: Vec::new(), created: now_millis() }
    }

    /// Who a request is that gave `name` and was found to be this account.
    pub fn identify(&self, name: &str) -> (res: CurrentUser)
        ensures
            res@ == self@.identified_by(name@),
    {
        let mut i: usize = 0;
        while i < self.api_keys.len()
            invariant
                i <= self.api_keys.len(),
                forall|j: int| 0 <= j < i ==> (#[trigger] self@.api_keys[j]).key != name@,
            decreases self.api_keys.len() - i,
        {
            if same_text(self.api_keys[i].key.as_str(), name) {
                proof {
                    assert(is_first_key(self@.api_keys, name@, i as int));
                    let chosen = choose|k: int| is_first_key(self@.api_keys, name@, k);
                    if chosen < i {
                        assert(self@.api_keys[chosen].key != name@);
                    } else if i < chosen {
                        assert(self@.api_keys[i as int].key != name@);
                    }
                }
                return CurrentUser {
                    id: Some(self.id.clone()),
                    access: self.api_keys[i].access.clone(),
                };
            }
            i += 1;
        }
        proof {
            assert forall|k: int| !is_first_key(self@.api_keys, name@, k) by {
                if 0 <= k < self@.api_keys.len() {
                    assert(self@.api_keys[k].key != name@);
                }
            }
        }
        CurrentUser { id: Some(self.id.clone()), access: Access { role: "admin".to_owned() } }
    }

    /// The account's API keys as they are listed: all of them, in order,
    /// without their secrets.
    pub fn list_api_keys(&self) -> (res: Vec<ApiKeyBrief>)
        ensures
            Seq::new(res@.len(), |i: int| res@[i]@) == self@.listed_keys(),
    {
        let mut res: Vec<ApiKeyBrief> = Vec::new();
        let mut i: usize = 0;
        while i < self.api_keys.len()
            invariant
                i <= self.api_keys.len(),
                res@.len() == i,
                forall|j: int| 0 <= j < i ==> res@[j]@ == self@.api_keys[j].brief(),
            decreases self.api_keys.len() - i,
        {
            res.push(self.api_keys[i].brief());
            i += 1;
        }
        assert(Seq::new(res@.len(), |i: int| res@[i]@) =~= self@.listed_keys());
        res
    }
}

} // verus!
