//! Links with a key and nothing else: the form in which an upload that is
//! always sealed hands out its capability.

use crate::clock::now_millis;
use crate::crypto::{hash, hashed};
use crate::entropy::{is_generated_key, random_alphanumeric, random_id, GENERATED_KEY_LENGTH};
use crate::error::Error;
use crate::helpers::same_text;
use crate::views::{copy_opt_text, opt_text};
use vstd::prelude::*;

verus! {

#[derive(Debug)]
pub struct Link {
    pub id: String,
    /// The hash of the unlock key.
    pub key: Option<String>,
    /// When the link was made, in milliseconds since the epoch.
    pub created: i64,
}

pub struct LinkView {
    pub id: Seq<char>,
    pub key: Option<Seq<char>>,
    pub created: i64,
}

impl View for Link {
    type V = LinkView;

    open spec fn view(&self) -> LinkView {
        LinkView { id: self.id@, key: opt_text(self.key), created: self.created }
    }
}

/// The links of one upload, in the order they were added.
#[derive(Debug)]
pub struct Links(pub Vec<Link>);

impl View for Links {
    type V = Seq<LinkView>;

    open spec fn view(&self) -> Seq<LinkView> {
        Seq::new(self.0@.len(), |i: int| self.0@[i]@)
    }
}

/// A link as it is shown. `key` is the unlock key itself where the link is
/// shown to its maker, and nothing where it is listed.
#[derive(Debug)]
pub struct LinkScrubbed {
    pub id: String,
    pub key: Option<String>,
    pub created: i64,
}

impl View for LinkScrubbed {
    type V = LinkView;

    open spec fn view(&self) -> LinkView {
        LinkView { id: self.id@, key: opt_text(self.key), created: self.created }
    }
}

/// A link and the unlock key it was made with.
#[derive(Debug)]
pub struct LinkWithKey {
    pub link: Link,
    pub key: Option<String>,
}

pub struct LinkWithKeyView {
    pub link: LinkView,
    pub key: Option<Seq<char>>,
}

impl View for LinkWithKey {
    type V = LinkWithKeyView;

    open spec fn view(&self) -> LinkWithKeyView {
        LinkWithKeyView { link: self.link@, key: opt_text(self.key) }
    }
}

/// An unlock key and its hash.
#[derive(Debug)]
pub struct KeyPair {
    key_raw: String,
    key_hashed: String,
}

impl KeyPair {
    pub closed spec fn raw(self) -> Seq<char> {
        self.key_raw@
    }

    pub closed spec fn hashed(self) -> Seq<char> {
        self.key_hashed@
    }

    /// A fresh unlock key with its hash.
    fn new() -> (pair: Self)
        ensures
            is_generated_key(pair.raw()),
            pair.hashed() == hashed(pair.raw()),
    {
        let key = random_alphanumeric(GENERATED_KEY_LENGTH);
        let hashed = hash(key.as_str());
        KeyPair { key_raw: key, key_hashed: hashed }
    }
}

impl LinkView {
    /// The link as it is listed: without any key.
    pub open spec fn listed(self) -> LinkView {
        LinkView { key: None, ..self }
    }
}

impl LinkWithKeyView {
    /// The link as it is shown to its maker: with the unlock key.
    pub open spec fn shown(self) -> LinkView {
        LinkView { id: self.link.id, key: self.key, created: self.link.created }
    }

    /// A link made for an upload: without a key where the upload has no
    /// owner, else with a generated key, of which it stores the hash.
    pub open spec fn is_new_for(self, owned: bool) -> bool {
        &&& self.link.id.len() == 36
        &&& if owned {
            self.key matches Some(k) && is_generated_key(k) && self.link.key == Some(hashed(k))
        } else {
            self.key is None && self.link.key is None
        }
    }
}

impl LinkWithKey {
    pub fn to_json(&self) -> (res: LinkScrubbed)
        ensures
            res@ == self@.shown(),
    {
        LinkScrubbed {
            id: self.link.id.clone(),
            key: copy_opt_text(&self.key),
            created: self.link.created,
        }
    }
}

/// Link `i` has the id `id`, and no earlier link has.
pub open spec fn is_first_link(links: Seq<LinkView>, id: Seq<char>, i: int) -> bool {
    &&& 0 <= i < links.len()
    &&& links[i].id == id
    &&& forall|j: int| 0 <= j < i ==> (#[trigger] links[j]).id != id
}

/// The first link with the id `id`.
pub open spec fn find_link(links: Seq<LinkView>, id: Seq<char>) -> Option<LinkView> {
    if exists|i: int| is_first_link(links, id, i) {
        Some(links[choose|i: int| is_first_link(links, id, i)])
    } else {
        None
    }
}

impl Links {
    /// The first link with the id `id`.
    pub fn find(&self, id: &str) -> (res: Option<&Link>)
        ensures
            match res {
                Some(l) => find_link(self@, id@) == Some(l@),
                None => find_link(self@, id@) is None,
            },
    {
        let mut i: usize = 0;
        while i < self.0.len()
            invariant
                i <= self.0.len(),
                forall|j: int| 0 <= j < i ==> (#[trigger] self@[j]).id != id@,
            decreases self.0.len() - i,
        {
            if same_text(self.0[i].id.as_str(), id) {
                proof {
                    assert(is_first_link(self@, id@, i as int));
                    let chosen = choose|k: int| is_first_link(self@, id@, k);
                    if chosen < i {
                        assert(self@[chosen].id != id@);
                    } else if i < chosen {
                        assert(self@[i as int].id != id@);
                    }
                }
                return Some(&self.0[i]);
            }
            i += 1;
        }
        proof {
            assert forall|k: int| !is_first_link(self@, id@, k) by {
                if 0 <= k < self@.len() {
                    assert(self@[k].id != id@);
                }
            }
        }
        None
    }

    pub fn first(&self) -> (res: Option<&Link>)
        ensures
            match res {
                Some(l) => self@.len() > 0 && l@ == self@[0],
                None => self@.len() == 0,
            },
    {
        if self.0.len() > 0 {
            Some(&self.0[0])
        } else {
            None
        }
    }

    /// Every link as it is listed, in the same order.
    pub fn to_vec(&self) -> (res: Vec<LinkScrubbed>)
        ensures
            Seq::new(res@.len(), |i: int| res@[i]@) == self@.map_values(|l: LinkView| l.listed()),
    {
        let mut res: Vec<LinkScrubbed> = Vec::new();
        let mut i: usize = 0;
        while i < self.0.len()
            invariant
                i <= self.0.len(),
                res@.len() == i,
                forall|j: int| 0 <= j < i ==> res@[j]@ == self@[j].listed(),
            decreases self.0.len() - i,
        {
            res.push(
                LinkScrubbed {
                    id: self.0[i].id.clone(),
                    key: None,
                    created: self.0[i].created,
                },
            );
            i += 1;
        }
        assert(Seq::new(res@.len(), |i: int| res@[i]@) =~= self@.map_values(
            |l: LinkView| l.listed(),
        ));
        res
    }
}

impl Link {
    /// A link without a key, as an upload without an owner gets it.
    pub fn default() -> (res: LinkWithKey)
        ensures
            res@.is_new_for(false),
    {
        LinkWithKey { link: Link { id: random_id(), key: None, created: now_millis() }, key: None }
    }

    /// A new link for an upload of `current_user`.
    ///
    /// Never fails. The id and the key are random, and the time of making
    /// is the clock's: the contract says what holds of every outcome.
    pub fn new(current_user: Option<&String>) -> (res: Result<LinkWithKey, Error>)
        ensures
            res matches Ok(l) && l@.is_new_for(current_user is Some),
    {
        if current_user.is_none() {
            return Ok(Self::default());
        }
        let key_pair = KeyPair::new();
        Ok(
            LinkWithKey {
                key: Some(key_pair.key_raw),
                link: Link {
                    id: random_id(),
                    key: Some(key_pair.key_hashed),
                    created: now_millis(),
                },
            },
        )
    }
}

} // verus!
