//! Links: the capabilities under which a stored object is downloaded.
//!
//! A link is an unguessable id and, where link keys are in use, the hash of
//! an unlock key. The key itself is handed out once and never stored.

use crate::clock::now_millis;
use crate::config::Configs;
use crate::crypto::{hash, hashed};
use crate::entropy::{is_generated_key, random_alphanumeric, random_id, GENERATED_KEY_LENGTH};
use crate::error::Error;
use crate::helpers::{build_download_url, download_url, pairs_text, same_text};
use crate::views::{copy_opt_text, copy_opt_texts, opt_text, opt_texts};
use vstd::prelude::*;
use vstd::string::StringExecFns;

verus! {

#[derive(Debug)]
pub struct Link {
    pub id: String,
    /// The hash of the unlock key.
    pub key: Option<String>,
    /// When the link was made, in milliseconds since the epoch.
    pub created: i64,
    /// How often the object was read through this link.
    pub reads: i64,
    pub tags: Option<Vec<String>>,
}

pub struct LinkView {
    pub id: Seq<char>,
    pub key: Option<Seq<char>>,
    pub created: i64,
    pub reads: i64,
    pub tags: Option<Seq<Seq<char>>>,
}

impl View for Link {
    type V = LinkView;

    open spec fn view(&self) -> LinkView {
        LinkView {
            id: self.id@,
            key: opt_text(self.key),
            created: self.created,
            reads: self.reads,
            tags: opt_texts(self.tags),
        }
    }
}

impl Clone for Link {
    fn clone(&self) -> (res: Self)
        ensures
            res@ == self@,
    {
        Link {
            id: self.id.clone(),
            key: copy_opt_text(&self.key),
            created: self.created,
            reads: self.reads,
            tags: copy_opt_texts(&self.tags),
        }
    }
}

/// The links of one object, in the order they were added.
#[derive(Debug)]
pub struct Links(pub Vec<Link>);

impl View for Links {
    type V = Seq<LinkView>;

    open spec fn view(&self) -> Seq<LinkView> {
        Seq::new(self.0@.len(), |i: int| self.0@[i]@)
    }
}

impl Clone for Links {
    fn clone(&self) -> (res: Self)
        ensures
            res@ == self@,
    {
        let mut links: Vec<Link> = Vec::new();
        let mut i: usize = 0;
        while i < self.0.len()
            invariant
                i <= self.0.len(),
                links@.len() == i,
                forall|j: int| 0 <= j < i ==> links@[j]@ == self.0@[j]@,
            decreases self.0.len() - i,
        {
            links.push(self.0[i].clone());
            i += 1;
        }
        let res = Links(links);
        assert(res@ =~= self@);
        res
    }
}

#[derive(Debug)]
pub struct LinksScrubbed(pub Vec<LinkScrubbed>);

/// A link as its owner may see it: without the hash of its key.
#[derive(Debug)]
pub struct LinkScrubbed {
    pub id: String,
    pub created: i64,
    pub reads: i64,
    pub tags: Option<Vec<String>>,
}

pub struct LinkScrubbedView {
    pub id: Seq<char>,
    pub created: i64,
    pub reads: i64,
    pub tags: Option<Seq<Seq<char>>>,
}

impl View for LinkScrubbed {
    type V = LinkScrubbedView;

    open spec fn view(&self) -> LinkScrubbedView {
        LinkScrubbedView {
            id: self.id@,
            created: self.created,
            reads: self.reads,
            tags: opt_texts(self.tags),
        }
    }
}

/// The characters of each scrubbed link of a list.
pub open spec fn scrubbed_list(list: Seq<LinkScrubbed>) -> Seq<LinkScrubbedView> {
    Seq::new(list.len(), |i: int| list[i]@)
}

/// A new link as it is told to its maker: with the unlock key itself.
#[derive(Debug)]
pub struct LinkSecret {
    pub id: String,
    /// The unlock key.
    pub key: Option<String>,
    pub created: i64,
    pub tags: Option<Vec<String>>,
}

pub struct LinkSecretView {
    pub id: Seq<char>,
    pub key: Option<Seq<char>>,
    pub created: i64,
    pub tags: Option<Seq<Seq<char>>>,
}

impl View for LinkSecret {
    type V = LinkSecretView;

    open spec fn view(&self) -> LinkSecretView {
        LinkSecretView {
            id: self.id@,
            key: opt_text(self.key),
            created: self.created,
            tags: opt_texts(self.tags),
        }
    }
}

/// A link, the unlock key it was made with, and the service's address.
#[derive(Debug)]
pub struct LinkWithKey {
    pub link: Link,
    pub url: String,
    /// The unlock key. Only its hash is in `link`.
    pub key: Option<String>,
}

pub struct LinkWithKeyView {
    pub link: LinkView,
    pub url: Seq<char>,
    pub key: Option<Seq<char>>,
}

impl View for LinkWithKey {
    type V = LinkWithKeyView;

    open spec fn view(&self) -> LinkWithKeyView {
        LinkWithKeyView { link: self.link@, url: self.url@, key: opt_text(self.key) }
    }
}

#[derive(Debug)]
pub struct NewLinkResult {
    pub filename: Option<String>,
    pub link_with_key: LinkWithKey,
}

#[derive(Debug)]
pub struct NewLinkResultJson {
    pub url: String,
    pub data: LinkSecret,
}

/// An unlock key and its hash.
#[derive(Debug)]
pub struct KeyPair {
    key_raw: String,
    key_hashed: String,
}

impl KeyPair {
    pub closed spec fn raw(self) -> Seq<char> {
        self.key_raw@
    }

    pub closed spec fn hashed(self) -> Seq<char> {
        self.key_hashed@
    }

    /// A fresh unlock key with its hash.
    fn new() -> (pair: Self)
        ensures
            is_generated_key(pair.raw()),
            pair.hashed() == hashed(pair.raw()),
    {
        let key = random_alphanumeric(GENERATED_KEY_LENGTH);
        let hashed = hash(key.as_str());
        KeyPair { key_raw: key, key_hashed: hashed }
    }
}

impl LinkWithKeyView {
    /// What is told of a new link.
    pub open spec fn secret(self) -> LinkSecretView {
        LinkSecretView {
            id: self.link.id,
            key: self.key,
            created: self.link.created,
            tags: self.link.tags,
        }
    }

    /// A link made for `owner`: anonymous links and links of a deployment
    /// that ignores link keys have no key; every other link has a generated
    /// key, of which it stores the hash. An anonymous link has no tags.
    pub open spec fn is_new_for(
        self,
        owned: bool,
        ignore_link_key: bool,
        url: Seq<char>,
        tags: Option<Seq<Seq<char>>>,
    ) -> bool {
        &&& self.url == url
        &&& self.link.id.len() == 36
        &&& self.link.reads == 0
        &&& if !owned {
            self.key is None && self.link.key is None && self.link.tags is None
        } else if ignore_link_key {
            self.key is None && self.link.key is None && self.link.tags == tags
        } else {
            &&& self.link.tags == tags
            &&& (self.key matches Some(k) && is_generated_key(k) && self.link.key == Some(
                hashed(k),
            ))
        }
    }
}

impl LinkWithKey {
    pub fn to_json(&self) -> (res: LinkSecret)
        ensures
            res@ == self@.secret(),
    {
        LinkSecret {
            id: self.link.id.clone(),
            key: copy_opt_text(&self.key),
            created: self.link.created,
            tags: copy_opt_texts(&self.link.tags),
        }
    }
}

/// Link `i` has the id `id`, and no earlier link has.
pub open spec fn is_first_link(links: Seq<LinkView>, id: Seq<char>, i: int) -> bool {
    &&& 0 <= i < links.len()
    &&& links[i].id == id
    &&& forall|j: int| 0 <= j < i ==> (#[trigger] links[j]).id != id
}

/// The position of the first link with the id `id`.
pub open spec fn link_index(links: Seq<LinkView>, id: Seq<char>) -> Option<int> {
    if exists|i: int| is_first_link(links, id, i) {
        Some(choose|i: int| is_first_link(links, id, i))
    } else {
        None
    }
}

/// The first link with the id `id`.
pub open spec fn find_link(links: Seq<LinkView>, id: Seq<char>) -> Option<LinkView> {
    match link_index(links, id) {
        Some(i) => Some(links[i]),
        None => None,
    }
}

/// At most one link is the first with a given id.
pub proof fn lemma_first_link_unique(links: Seq<LinkView>, id: Seq<char>, i: int, j: int)
    requires
        is_first_link(links, id, i),
        is_first_link(links, id, j),
    ensures
        i == j,
{
    if i < j {
        assert(links[i].id != id);
    } else if j < i {
        assert(links[j].id != id);
    }
}

/// `find_link` finds nothing exactly when no link has the id.
pub proof fn lemma_find_link_none(links: Seq<LinkView>, id: Seq<char>)
    ensures
        find_link(links, id) is None <==> forall|i: int|
            0 <= i < links.len() ==> (#[trigger] links[i]).id != id,
    decreases links.len(),
{
    if find_link(links, id) is None {
        assert forall|i: int| 0 <= i < links.len() implies (#[trigger] links[i]).id != id by {
            lemma_no_first_no_match(links, id, i);
        }
    } else {
        let k = choose|i: int| is_first_link(links, id, i);
        assert(links[k].id == id);
    }
}

/// Where no link is the first with an id, none of the first `i + 1` has it.
proof fn lemma_no_first_no_match(links: Seq<LinkView>, id: Seq<char>, i: int)
    requires
        0 <= i < links.len(),
        forall|k: int| !is_first_link(links, id, k),
    ensures
        links[i].id != id,
    decreases i,
{
    if links[i].id == id {
        assert forall|j: int| 0 <= j < i implies (#[trigger] links[j]).id != id by {
            lemma_no_first_no_match(links, id, j);
        }
        assert(is_first_link(links, id, i));
    }
}

impl Links {
    /// The position of the first link with the id `id`.
    pub fn position(&self, id: &str) -> (res: Option<usize>)
        ensures
            match res {
                Some(i) => link_index(self@, id@) == Some(i as int),
                None => link_index(self@, id@) is None,
            },
    {
        let mut i: usize = 0;
        while i < self.0.len()
            invariant
                i <= self.0.len(),
                forall|j: int| 0 <= j < i ==> (#[trigger] self@[j]).id != id@,
            decreases self.0.len() - i,
        {
            if same_text(self.0[i].id.as_str(), id) {
                proof {
                    assert(is_first_link(self@, id@, i as int));
                    let chosen = choose|k: int| is_first_link(self@, id@, k);
                    lemma_first_link_unique(self@, id@, i as int, chosen);
                }
                return Some(i);
            }
            i += 1;
        }
        proof {
            assert forall|k: int| !is_first_link(self@, id@, k) by {
                if 0 <= k < self@.len() {
                    assert(self@[k].id != id@);
                }
            }
        }
        None
    }

    /// The first link with the id `id`.
    pub fn find(&self, id: &str) -> (res: Option<&Link>)
        ensures
            match res {
                Some(l) => find_link(self@, id@) == Some(l@),
                None => find_link(self@, id@) is None,
            },
    {
        match self.position(id) {
            Some(i) => Some(&self.0[i]),
            None => None,
        }
    }

    pub fn first(&self) -> (res: Option<&Link>)
        ensures
            match res {
                Some(l) => self@.len() > 0 && l@ == self@[0],
                None => self@.len() == 0,
            },
    {
        if self.0.len() > 0 {
            Some(&self.0[0])
        } else {
            None
        }
    }

    /// Every link without the hash of its key, in the same order.
    pub fn to_vec(&self) -> (res: Vec<LinkScrubbed>)
        ensures
            scrubbed_list(res@) == self@.map_values(|l: LinkView| l.scrubbed()),
    {
        let mut res: Vec<LinkScrubbed> = Vec::new();
        let mut i: usize = 0;
        while i < self.0.len()
            invariant
                i <= self.0.len(),
                res@.len() == i,
                forall|j: int| 0 <= j < i ==> res@[j]@ == self@[j].scrubbed(),
            decreases self.0.len() - i,
        {
            res.push(self.0[i].scrub());
            i += 1;
        }
        assert(scrubbed_list(res@) =~= self@.map_values(|l: LinkView| l.scrubbed()));
        res
    }
}

impl LinkView {
    /// The link without the hash of its key.
    pub open spec fn scrubbed(self) -> LinkScrubbedView {
        LinkScrubbedView { id: self.id, created: self.created, reads: self.reads, tags: self.tags }
    }
}

/// The parameters behind the address of a new link: the link's id where a
/// file name takes its place in the path, then the unlock key where there is one.
pub open spec fn link_parameters(
    filename: Option<Seq<char>>,
    id: Seq<char>,
    key: Option<Seq<char>>,
) -> Seq<(Seq<char>, Seq<char>)> {
    (if filename is Some {
        seq![("id"@, id)]
    } else {
        Seq::<(Seq<char>, Seq<char>)>::empty()
    }) + (match key {
        Some(k) => seq![("key"@, k)],
        None => Seq::<(Seq<char>, Seq<char>)>::empty(),
    })
}

/// The address of a new link: under the file name where one was asked for,
/// else under the link's id.
pub open spec fn link_url(
    base: Seq<char>,
    filename: Option<Seq<char>>,
    id: Seq<char>,
    key: Option<Seq<char>>,
) -> Seq<char> {
    download_url(
        base,
        match filename {
            Some(f) => f,
            None => id,
        },
        link_parameters(filename, id, key),
    )
}

impl NewLinkResult {
    /// The address of the new link and what is told of it.
    pub fn to_json(&self) -> (res: NewLinkResultJson)
        ensures
            res.url@ == link_url(
                self.link_with_key@.url,
                opt_text(self.filename),
                self.link_with_key@.link.id,
                self.link_with_key@.key,
            ),
            res.data@ == self.link_with_key@.secret(),
    {
        let mut pairs: Vec<(String, String)> = Vec::new();
        let file = match &self.filename {
            Some(filename) => {
                pairs.push((String::from_str("id"), self.link_with_key.link.id.clone()));
                filename.clone()
            },
            None => self.link_with_key.link.id.clone(),
        };
        let ghost first = pairs_text(pairs@);
        match &self.link_with_key.key {
            Some(key) => {
                pairs.push((String::from_str("key"), key.clone()));
            },
            None => {},
        }
        proof {
            assert(pairs_text(pairs@) =~= link_parameters(
                opt_text(self.filename),
                self.link_with_key@.link.id,
                self.link_with_key@.key,
            ));
        }
        let url = build_download_url(self.link_with_key.url.as_str(), file.as_str(), &pairs);
        NewLinkResultJson { url, data: self.link_with_key.to_json() }
    }
}

impl Link {
    /// A link without a key, as an anonymous upload gets it.
    pub fn default(configs: &Configs) -> (res: LinkWithKey)
        ensures
            res@.is_new_for(false, configs@.ignore_link_key, configs@.url, None),
    {
        LinkWithKey {
            link: Link { id: random_id(), key: None, created: now_millis(), reads: 0, tags: None },
            key: None,
            url: configs.url.clone(),
        }
    }

    pub fn scrub(&self) -> (res: LinkScrubbed)
        ensures
            res@ == self@.scrubbed(),
    {
        LinkScrubbed {
            id: self.id.clone(),
            created: self.created,
            reads: self.reads,
            tags: copy_opt_texts(&self.tags),
        }
    }

    /// A new link for an object of `current_user`.
    ///
    /// Never fails. The id and the key are random, and the time of making is
    /// the clock's: the contract says what holds of every outcome.
    pub fn new(current_user: Option<&String>, configs: &Configs, tags: Option<Vec<String>>) -> (res:
        Result<LinkWithKey, Error>)
        ensures
            res matches Ok(l) && l@.is_new_for(
                current_user is Some,
                configs@.ignore_link_key,
                configs@.url,
                opt_texts(tags),
            ),
    {
        if current_user.is_none() {
            return Ok(Self::default(configs));
        }
        let (key_raw, key_hashed) = if configs.ignore_link_key {
            (None, None)
        } else {
            let key_pair = KeyPair::new();
            (Some(key_pair.key_raw), Some(key_pair.key_hashed))
        };

        Ok(
            LinkWithKey {
                key: key_raw,
                url: configs.url.clone(),
                link: Link {
                    id: random_id(),
                    key: key_hashed,
                    created: now_millis(),
                    reads: 0,
                    tags,
                },
            },
        )
    }
}

} // verus!
