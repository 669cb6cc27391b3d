//! What an owner may do to the record of an upload, as the metadata store
//! carries it out: each change applies to an active record of that owner,
//! and any other record is left as it is, with `NotFound`.

use crate::config::Configs;
use crate::database::links::{
    find_link,
    scrubbed_list,
    Link,
    LinkScrubbed,
    LinkView,
    LinkWithKey,
    Links,
};
use crate::database::metadata::{MetaData, MetaDataPublic, MetaDataView, MetaView};
use crate::error::Error;
use crate::helpers::same_text;
use crate::views::{copy_opt_text, copy_texts, opt_text, opt_texts, texts};
use vstd::prelude::*;

verus! {

/// `set` with each of `each` behind it that it does not hold yet, in order.
pub open spec fn added_to_set(set: Seq<Seq<char>>, each: Seq<Seq<char>>) -> Seq<Seq<char>>
    decreases each.len(),
{
    if each.len() == 0 {
        set
    } else {
        let before = added_to_set(set, each.drop_last());
        if before.contains(each.last()) {
            before
        } else {
            before.push(each.last())
        }
    }
}

/// `list` without every entry that `gone` holds, the rest in order.
pub open spec fn pulled(list: Seq<Seq<char>>, gone: Seq<Seq<char>>) -> Seq<Seq<char>>
    decreases list.len(),
{
    if list.len() == 0 {
        list
    } else {
        let before = pulled(list.drop_last(), gone);
        if gone.contains(list.last()) {
            before
        } else {
            before.push(list.last())
        }
    }
}

/// `links` without every link with the id `id`, the rest in order.
pub open spec fn links_without(links: Seq<LinkView>, id: Seq<char>) -> Seq<LinkView>
    decreases links.len(),
{
    if links.len() == 0 {
        links
    } else {
        let before = links_without(links.drop_last(), id);
        if links.last().id == id {
            before
        } else {
            before.push(links.last())
        }
    }
}

/// Adding to a set leaves what was there, brings in each entry given, and
/// brings in nothing else.
pub proof fn lemma_added_to_set(set: Seq<Seq<char>>, each: Seq<Seq<char>>)
    ensures
        has_all(added_to_set(set, each), set),
        has_all(added_to_set(set, each), each),
        forall|t: Seq<char>|
            #[trigger] added_to_set(set, each).contains(t) ==> set.contains(t) || each.contains(t),
        added_to_set(set, each).len() >= set.len(),
        added_to_set(set, each).take(set.len() as int) == set,
        set.no_duplicates() ==> added_to_set(set, each).no_duplicates(),
    decreases each.len(),
{
    let res = added_to_set(set, each);
    if each.len() == 0 {
        assert(res.take(set.len() as int) =~= set);
        assert forall|i: int| 0 <= i < set.len() implies res.contains(#[trigger] set[i]) by {
            assert(res[i] == set[i]);
        }
    } else {
        let before = added_to_set(set, each.drop_last());
        lemma_added_to_set(set, each.drop_last());
        assert(before.take(set.len() as int) == set);
        assert(res.take(set.len() as int) =~= before.take(set.len() as int));
        assert forall|i: int| 0 <= i < set.len() implies res.contains(#[trigger] set[i]) by {
            assert(before.contains(set[i]));
            let k = choose|k: int| 0 <= k < before.len() && before[k] == set[i];
            assert(res[k] == set[i]);
        }
        assert forall|i: int| 0 <= i < each.len() implies res.contains(#[trigger] each[i]) by {
            if i < each.len() - 1 {
                assert(each.drop_last()[i] == each[i]);
                assert(before.contains(each.drop_last()[i]));
                let k = choose|k: int| 0 <= k < before.len() && before[k] == each[i];
                assert(res[k] == each[i]);
            } else {
                if before.contains(each.last()) {
                } else {
                    assert(res[res.len() - 1] == each.last());
                }
            }
        }
        assert forall|t: Seq<char>| #[trigger] res.contains(t) implies set.contains(t)
            || each.contains(t) by {
            let k = choose|k: int| 0 <= k < res.len() && res[k] == t;
            if k < before.len() {
                assert(before[k] == t);
                assert(before.contains(t));
                if !set.contains(t) {
                    assert(each.drop_last().contains(t));
                    let j = choose|j: int| 0 <= j < each.drop_last().len() && each.drop_last()[j] == t;
                    assert(each[j] == t);
                }
            } else {
                assert(t == each.last());
                assert(each[each.len() - 1] == t);
            }
        }
        if set.no_duplicates() {
            assert(before.no_duplicates());
            if !before.contains(each.last()) {
                assert forall|i: int, j: int|
                    0 <= i < res.len() && 0 <= j < res.len() && i != j implies res[i] != res[j] by {
                    if i < before.len() && j < before.len() {
                        assert(before[i] != before[j]);
                    } else if i < before.len() {
                        assert(before.contains(before[i]));
                    } else {
                        assert(before.contains(before[j]));
                    }
                }
            }
        }
    }
}

/// Pulling takes every entry that is one of those given and leaves every
/// other entry in its place.
pub proof fn lemma_pulled(list: Seq<Seq<char>>, gone: Seq<Seq<char>>)
    ensures
        forall|t: Seq<char>|
            #[trigger] pulled(list, gone).contains(t) <==> list.contains(t) && !gone.contains(t),
        pulled(list, gone).len() <= list.len(),
    decreases list.len(),
{
    let res = pulled(list, gone);
    if list.len() == 0 {
    } else {
        let before = pulled(list.drop_last(), gone);
        lemma_pulled(list.drop_last(), gone);
        assert forall|t: Seq<char>| #[trigger] res.contains(t) <==> list.contains(t)
            && !gone.contains(t) by {
            if res.contains(t) {
                let k = choose|k: int| 0 <= k < res.len() && res[k] == t;
                if k < before.len() {
                    assert(before[k] == t);
                    assert(before.contains(t));
                    assert(list.drop_last().contains(t));
                    let j = choose|j: int| 0 <= j < list.drop_last().len() && list.drop_last()[j] == t;
                    assert(list[j] == t);
                } else {
                    assert(t == list.last());
                    assert(list[list.len() - 1] == t);
                }
            }
            if list.contains(t) && !gone.contains(t) {
                let j = choose|j: int| 0 <= j < list.len() && list[j] == t;
                if j < list.len() - 1 {
                    assert(list.drop_last()[j] == t);
                    assert(list.drop_last().contains(t));
                    assert(before.contains(t));
                    let k = choose|k: int| 0 <= k < before.len() && before[k] == t;
                    assert(res[k] == t);
                } else {
                    assert(res[res.len() - 1] == t);
                }
            }
        }
    }
}

/// Taking a link away leaves no link with its id, and every other link.
pub proof fn lemma_links_without(links: Seq<LinkView>, id: Seq<char>)
    ensures
        find_link(links_without(links, id), id) is None,
        forall|l: LinkView|
            #[trigger] links_without(links, id).contains(l) <==> links.contains(l) && l.id != id,
    decreases links.len(),
{
    let res = links_without(links, id);
    if links.len() > 0 {
        let before = links_without(links.drop_last(), id);
        lemma_links_without(links.drop_last(), id);
        assert forall|l: LinkView| #[trigger] res.contains(l) <==> links.contains(l) && l.id
            != id by {
            if res.contains(l) {
                let k = choose|k: int| 0 <= k < res.len() && res[k] == l;
                if k < before.len() {
                    assert(before[k] == l);
                    assert(before.contains(l));
                    assert(links.drop_last().contains(l));
                    let j = choose|j: int| 0 <= j < links.drop_last().len() && links.drop_last()[j] == l;
                    assert(links[j] == l);
                } else {
                    assert(l == links.last());
                    assert(links[links.len() - 1] == l);
                }
            }
            if links.contains(l) && l.id != id {
                let j = choose|j: int| 0 <= j < links.len() && links[j] == l;
                if j < links.len() - 1 {
                    assert(links.drop_last()[j] == l);
                    assert(links.drop_last().contains(l));
                    assert(before.contains(l));
                    let k = choose|k: int| 0 <= k < before.len() && before[k] == l;
                    assert(res[k] == l);
                } else {
                    assert(res[res.len() - 1] == l);
                }
            }
        }
    }
    crate::database::links::lemma_find_link_none(res, id);
    assert forall|i: int| 0 <= i < res.len() implies (#[trigger] res[i]).id != id by {
        assert(res.contains(res[i]));
    }
}

/// `own` holds every entry of `wanted`.
pub open spec fn has_all(own: Seq<Seq<char>>, wanted: Seq<Seq<char>>) -> bool {
    forall|i: int| 0 <= i < wanted.len() ==> own.contains(#[trigger] wanted[i])
}

impl MetaDataView {
    /// The record is active and belongs to `user`.
    pub open spec fn owned_by(self, user: Seq<char>) -> bool {
        self.active && self.facts.owner == Some(user)
    }

    /// The record's tags, none counting as an empty list.
    pub open spec fn tag_list(self) -> Seq<Seq<char>> {
        match self.meta.tags {
            Some(t) => t,
            None => Seq::empty(),
        }
    }

    /// The record is listed for `user`: it is the user's, its time limit
    /// has not passed, and it has every tag asked for.
    pub open spec fn listed_for(self, user: Seq<char>, tags: Option<Seq<Seq<char>>>, now: i64) -> bool {
        &&& self.owned_by(user)
        &&& self.lifecycle.max.expires > now
        &&& match tags {
            Some(t) => has_all(self.tag_list(), t),
            None => true,
        }
    }

    /// The record with one more link, behind the others.
    pub open spec fn with_link(self, link: LinkView) -> MetaDataView {
        MetaDataView { links: self.links.push(link), ..self }
    }

    /// The record without the links with the id `id`.
    pub open spec fn without_link(self, id: Seq<char>) -> MetaDataView {
        MetaDataView { links: links_without(self.links, id), ..self }
    }

    /// The record with its tags set to `tags`.
    pub open spec fn tagged(self, tags: Option<Seq<Seq<char>>>) -> MetaDataView {
        MetaDataView { meta: MetaView { tags, ..self.meta }, ..self }
    }

    /// The record with each of `tags` added that it does not have yet.
    pub open spec fn with_tags(self, tags: Seq<Seq<char>>) -> MetaDataView {
        self.tagged(Some(added_to_set(self.tag_list(), tags)))
    }

    /// The record without any of `tags`. A record without tags stays so.
    pub open spec fn without_tags(self, tags: Seq<Seq<char>>) -> MetaDataView {
        match self.meta.tags {
            Some(t) => self.tagged(Some(pulled(t, tags))),
            None => self,
        }
    }
}

/// Whether a list holds a text.
pub fn holds(list: &Vec<String>, text: &str) -> (res: bool)
    ensures
        res == texts(list@).contains(text@),
{
    let mut i: usize = 0;
    while i < list.len()
        invariant
            i <= list.len(),
            forall|j: int| 0 <= j < i ==> texts(list@)[j] != text@,
        decreases list.len() - i,
    {
        if same_text(list[i].as_str(), text) {
            assert(texts(list@)[i as int] == text@);
            return true;
        }
        i += 1;
    }
    false
}

/// Whether a list holds every text of another.
pub fn holds_all(own: &Vec<String>, wanted: &Vec<String>) -> (res: bool)
    ensures
        res == has_all(texts(own@), texts(wanted@)),
{
    let mut i: usize = 0;
    while i < wanted.len()
        invariant
            i <= wanted.len(),
            forall|j: int| 0 <= j < i ==> texts(own@).contains(#[trigger] texts(wanted@)[j]),
        decreases wanted.len() - i,
    {
        if !holds(own, wanted[i].as_str()) {
            assert(!texts(own@).contains(texts(wanted@)[i as int]));
            return false;
        }
        assert(texts(wanted@)[i as int] == wanted@[i as int]@);
        i += 1;
    }
    true
}

impl MetaData {
    /// Whether the record is active and belongs to `user_id`.
    pub fn owned_by(&self, user_id: &str) -> (res: bool)
        ensures
            res == self@.owned_by(user_id@),
    {
        self.active && match &self.facts.owner {
            Some(o) => same_text(o.as_str(), user_id),
            None => false,
        }
    }

    /// Whether the record is listed for `user_id` at `now`, under the tags
    /// asked for.
    pub fn listed_for(&self, user_id: &str, tags: Option<&Vec<String>>, now: i64) -> (res: bool)
        ensures
            res == self@.listed_for(
                user_id@,
                match tags {
                    Some(t) => Some(texts(t@)),
                    None => None,
                },
                now,
            ),
    {
        if !self.owned_by(user_id) || self.lifecycle.max.expires <= now {
            return false;
        }
        let wanted = match tags {
            Some(t) => t,
            None => {
                return true;
            },
        };
        match &self.meta.tags {
            Some(own) => holds_all(own, wanted),
            None => {
                let empty: Vec<String> = Vec::new();
                assert(texts(empty@) =~= Seq::<Seq<char>>::empty());
                holds_all(&empty, wanted)
            },
        }
    }

    /// The record as its owner sees it.
    pub fn get_doc(&self, user_id: &str) -> (res: Result<MetaDataPublic, Error>)
        ensures
            match res {
                Ok(p) => self@.owned_by(user_id@) && p@ == self@.public(),
                Err(e) => !self@.owned_by(user_id@) && e is NotFound,
            },
    {
        if self.owned_by(user_id) {
            Ok(self.to_json())
        } else {
            Err(Error::NotFound)
        }
    }

    /// The record's links as its owner sees them.
    pub fn get_links(&self, user_id: &str) -> (res: Result<Vec<LinkScrubbed>, Error>)
        ensures
            match res {
                Ok(l) => self@.owned_by(user_id@) && scrubbed_list(l@) == self@.links.map_values(
                    |l: LinkView| l.scrubbed(),
                ),
                Err(e) => !self@.owned_by(user_id@) && e is NotFound,
            },
    {
        if self.owned_by(user_id) {
            Ok(self.links.to_vec())
        } else {
            Err(Error::NotFound)
        }
    }

    /// The record's tags, none counting as an empty list.
    pub fn get_doc_tags(&self, user_id: &str) -> (res: Result<Vec<String>, Error>)
        ensures
            match res {
                Ok(t) => self@.owned_by(user_id@) && texts(t@) == self@.tag_list(),
                Err(e) => !self@.owned_by(user_id@) && e is NotFound,
            },
    {
        if !self.owned_by(user_id) {
            return Err(Error::NotFound);
        }
        match &self.meta.tags {
            Some(t) => Ok(copy_texts(t)),
            None => {
                let empty: Vec<String> = Vec::new();
                assert(texts(empty@) =~= Seq::<Seq<char>>::empty());
                Ok(empty)
            },
        }
    }

    /// Deletes the record for its owner.
    pub fn delete_doc(&mut self, user_id: &str) -> (res: Result<(), Error>)
        ensures
            old(self)@.owned_by(user_id@) ==> res is Ok && final(self)@ == old(self)@.deactivated(),
            !old(self)@.owned_by(user_id@) ==> (res matches Err(e) && e is NotFound) && final(self)@
                == old(self)@,
    {
        if !self.owned_by(user_id) {
            return Err(Error::NotFound);
        }
        self.delete()
    }

    /// Adds a new link to the record for its owner, and returns the link
    /// with the record's file name and whether the record ignores link keys.
    pub fn add_link(&mut self, user_id: &str, configs: &Configs, tags: Option<Vec<String>>) -> (res:
        Result<(LinkWithKey, Option<String>, bool), Error>)
        ensures
            match res {
                Ok(added) => {
                    &&& old(self)@.owned_by(user_id@)
                    &&& added.0@.is_new_for(true, configs@.ignore_link_key, configs@.url, opt_texts(tags))
                    &&& final(self)@ == old(self)@.with_link(added.0@.link)
                    &&& opt_text(added.1) == old(self)@.meta.filename
                    &&& added.2 == old(self)@.facts.ignore_link_key
                },
                Err(e) => !old(self)@.owned_by(user_id@) && e is NotFound && final(self)@ == old(
                    self,
                )@,
            },
    {
        if !self.owned_by(user_id) {
            return Err(Error::NotFound);
        }
        let owner = user_id.to_owned();
        let new_link = match Link::new(Some(&owner), configs, tags) {
            Ok(l) => l,
            Err(e) => {
                assert(false);
                return Err(e);
            },
        };
        self.links.0.push(new_link.link.clone());
        proof {
            assert(final(self)@.links =~= old(self)@.links.push(new_link@.link));
        }
        Ok((new_link, copy_opt_text(&self.meta.filename), self.facts.ignore_link_key))
    }

    /// Takes a link from the record for its owner: every link with the id goes.
    pub fn delete_link(&mut self, user_id: &str, link_id: &str) -> (res: Result<(), Error>)
        ensures
            (old(self)@.owned_by(user_id@) && find_link(old(self)@.links, link_id@) is Some) ==> res
                is Ok && final(self)@ == old(self)@.without_link(link_id@),
            !(old(self)@.owned_by(user_id@) && find_link(old(self)@.links, link_id@) is Some) ==> (
            res matches Err(e) && e is NotFound) && final(self)@ == old(self)@,
    {
        if !self.owned_by(user_id) {
            return Err(Error::NotFound);
        }
        if self.links.find(link_id).is_none() {
            return Err(Error::NotFound);
        }
        let mut kept: Vec<Link> = Vec::new();
        let mut i: usize = 0;
        while i < self.links.0.len()
            invariant
                i <= self.links.0.len(),
                Seq::new(kept@.len(), |k: int| kept@[k]@) == links_without(
                    self.links@.take(i as int),
                    link_id@,
                ),
            decreases self.links.0.len() - i,
        {
            proof {
                assert(self.links@.take(i + 1).drop_last() =~= self.links@.take(i as int));
                assert(self.links@.take(i + 1).last() == self.links@[i as int]);
            }
            if !same_text(self.links.0[i].id.as_str(), link_id) {
                let ghost before = Seq::new(kept@.len(), |k: int| kept@[k]@);
                kept.push(self.links.0[i].clone());
                assert(Seq::new(kept@.len(), |k: int| kept@[k]@) =~= before.push(
                    self.links@[i as int],
                ));
            }
            i += 1;
        }
        proof {
            assert(self.links@.take(self.links@.len() as int) =~= self.links@);
            assert(Links(kept)@ =~= links_without(self.links@, link_id@));
        }
        self.links = Links(kept);
        Ok(())
    }

    /// Adds tags to the record for its owner: each that it does not have
    /// yet, once. Returns the tags given. Asked to add nothing, it neither
    /// looks at the record nor fails.
    pub fn add_doc_tags(&mut self, user_id: &str, tags: Option<Vec<String>>) -> (res: Result<
        Vec<String>,
        Error,
    >)
        ensures
            match tags {
                None => (res matches Ok(t) && t@.len() == 0) && final(self)@ == old(self)@,
                Some(given) => if old(self)@.owned_by(user_id@) {
                    (res matches Ok(t) && texts(t@) == texts(given@)) && final(self)@ == old(
                        self,
                    )@.with_tags(texts(given@))
                } else {
                    (res matches Err(e) && e is NotFound) && final(self)@ == old(self)@
                },
            },
    {
        let given = match tags {
            Some(t) => t,
            None => {
                return Ok(Vec::new());
            },
        };
        if !self.owned_by(user_id) {
            return Err(Error::NotFound);
        }
        let mut own: Vec<String> = match &self.meta.tags {
            Some(t) => copy_texts(t),
            None => {
                let empty: Vec<String> = Vec::new();
                assert(texts(empty@) =~= Seq::<Seq<char>>::empty());
                empty
            },
        };
        let mut i: usize = 0;
        proof {
            assert(texts(given@).take(0) =~= Seq::<Seq<char>>::empty());
        }
        while i < given.len()
            invariant
                i <= given.len(),
                texts(own@) == added_to_set(old(self)@.tag_list(), texts(given@).take(i as int)),
            decreases given.len() - i,
        {
            proof {
                assert(texts(given@).take(i + 1).drop_last() =~= texts(given@).take(i as int));
                assert(texts(given@).take(i + 1).last() == given@[i as int]@);
            }
            if !holds(&own, given[i].as_str()) {
                let ghost before = texts(own@);
                own.push(given[i].clone());
                assert(texts(own@) =~= before.push(given@[i as int]@));
            }
            i += 1;
        }
        proof {
            assert(texts(given@).take(given@.len() as int) =~= texts(given@));
        }
        self.meta.tags = Some(own);
        Ok(given)
    }

    /// Takes tags from the record for its owner: every entry that is one of
    /// them. Returns the tags given. Asked to take nothing, it neither
    /// looks at the record nor fails.
    pub fn delete_doc_tags(&mut self, user_id: &str, tags: Option<Vec<String>>) -> (res: Result<
        Vec<String>,
        Error,
    >)
        ensures
            match tags {
                None => (res matches Ok(t) && t@.len() == 0) && final(self)@ == old(self)@,
                Some(given) => if old(self)@.owned_by(user_id@) {
                    (res matches Ok(t) && texts(t@) == texts(given@)) && final(self)@ == old(
                        self,
                    )@.without_tags(texts(given@))
                } else {
                    (res matches Err(e) && e is NotFound) && final(self)@ == old(self)@
                },
            },
    {
        let given = match tags {
            Some(t) => t,
            None => {
                return Ok(Vec::new());
            },
        };
        if !self.owned_by(user_id) {
            return Err(Error::NotFound);
        }
        let own = match &self.meta.tags {
            Some(t) => t,
            None => {
                return Ok(given);
            },
        };
        let mut kept: Vec<String> = Vec::new();
        let mut i: usize = 0;
        proof {
            assert(texts(own@).take(0) =~= Seq::<Seq<char>>::empty());
            assert(texts(kept@) =~= Seq::<Seq<char>>::empty());
        }
        while i < own.len()
            invariant
                i <= own.len(),
                texts(kept@) == pulled(texts(own@).take(i as int), texts(given@)),
            decreases own.len() - i,
        {
            proof {
                assert(texts(own@).take(i + 1).drop_last() =~= texts(own@).take(i as int));
                assert(texts(own@).take(i + 1).last() == own@[i as int]@);
            }
            if !holds(&given, own[i].as_str()) {
                let ghost before = texts(kept@);
                kept.push(own[i].clone());
                assert(texts(kept@) =~= before.push(own@[i as int]@));
            }
            i += 1;
        }
        proof {
            assert(texts(own@).take(own@.len() as int) =~= texts(own@));
        }
        self.meta.tags = Some(kept);
        Ok(given)
    }
}

/// The records of `docs` that are listed for `user` at `now`, among the
/// last `n`: the newest first, as their owner sees them.
pub open spec fn owned_among(
    docs: Seq<MetaDataView>,
    user: Seq<char>,
    tags: Option<Seq<Seq<char>>>,
    now: i64,
    n: nat,
) -> Seq<crate::database::metadata::MetaDataPublicView>
    decreases n,
{
    if n == 0 || n > docs.len() {
        Seq::empty()
    } else {
        let newer = owned_among(docs, user, tags, now, (n - 1) as nat);
        let doc = docs[docs.len() - n];
        if doc.listed_for(user, tags, now) && newer.len() < crate::cleanup::SWEEP_BATCH {
            newer.push(doc.public())
        } else {
            newer
        }
    }
}

/// The uploads of `user_id` that have not expired at `now` and have every
/// tag asked for, from `docs`, which are in the order the records were
/// stored: the newest first, a thousand at most.
pub fn uploads_owned(docs: &Vec<MetaData>, user_id: &str, tags: Option<&Vec<String>>, now: i64) -> (res:
    Vec<MetaDataPublic>)
    ensures
        Seq::new(res@.len(), |i: int| res@[i]@) == owned_among(
            crate::cleanup::records(docs@),
            user_id@,
            match tags {
                Some(t) => Some(texts(t@)),
                None => None,
            },
            now,
            docs@.len(),
        ),
{
    let mut res: Vec<MetaDataPublic> = Vec::new();
    let mut n: usize = 0;
    let ghost wanted = match tags {
        Some(t) => Some(texts(t@)),
        None => None,
    };
    proof {
        assert(Seq::new(res@.len(), |i: int| res@[i]@) =~= Seq::<
            crate::database::metadata::MetaDataPublicView,
        >::empty());
    }
    while n < docs.len()
        invariant
            n <= docs.len(),
            wanted == (match tags {
                Some(t) => Some(texts(t@)),
                None => None,
            }),
            Seq::new(res@.len(), |i: int| res@[i]@) == owned_among(
                crate::cleanup::records(docs@),
                user_id@,
                wanted,
                now,
                n as nat,
            ),
        decreases docs.len() - n,
    {
        let doc = &docs[docs.len() - n - 1];
        assert(doc@ == crate::cleanup::records(docs@)[docs@.len() - (n + 1)]);
        if doc.listed_for(user_id, tags, now) && res.len() < crate::cleanup::SWEEP_BATCH {
            let ghost before = Seq::new(res@.len(), |i: int| res@[i]@);
            res.push(doc.to_json());
            assert(Seq::new(res@.len(), |i: int| res@[i]@) =~= before.push(doc@.public()));
        }
        n += 1;
    }
    res
}

} // verus!
