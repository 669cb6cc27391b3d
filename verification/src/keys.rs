//! The registry of versioned master keys under which data keys are wrapped.
//!
//! A data key is wrapped under the latest entry; it is unwrapped under the
//! version recorded beside it, whatever the latest entry is by then.

use vstd::prelude::*;

verus! {

/// One master key and the version it is known by.
#[derive(Debug)]
pub struct Key {
    pub ver: u8,
    pub key: String,
}

pub struct KeyView {
    pub ver: u8,
    pub key: Seq<char>,
}

impl View for Key {
    type V = KeyView;

    open spec fn view(&self) -> KeyView {
        KeyView { ver: self.ver, key: self.key@ }
    }
}

impl Clone for Key {
    fn clone(&self) -> (res: Self)
        ensures
            res@ == self@,
    {
        Key { ver: self.ver, key: self.key.clone() }
    }
}

/// The master keys supplied at startup, in the order given.
#[derive(Debug)]
pub struct Keys {
    pub keys: Vec<Key>,
}

impl View for Keys {
    type V = Seq<KeyView>;

    open spec fn view(&self) -> Seq<KeyView> {
        Seq::new(self.keys@.len(), |i: int| self.keys@[i]@)
    }
}

impl Clone for Keys {
    fn clone(&self) -> (res: Self)
        ensures
            res@ == self@,
    {
        let mut keys: Vec<Key> = Vec::new();
        let mut i: usize = 0;
        while i < self.keys.len()
            invariant
                i <= self.keys.len(),
                keys@.len() == i,
                forall|j: int| 0 <= j < i ==> keys@[j]@ == self.keys@[j]@,
            decreases self.keys.len() - i,
        {
            keys.push(self.keys[i].clone());
            i += 1;
        }
        let res = Keys { keys };
        assert(res@ =~= self@);
        res
    }
}

/// Entry `i` has the greatest version, and no later entry shares it.
pub open spec fn is_latest(keys: Seq<KeyView>, i: int) -> bool {
    &&& 0 <= i < keys.len()
    &&& forall|j: int| 0 <= j < keys.len() ==> (#[trigger] keys[j]).ver <= keys[i].ver
    &&& forall|j: int| i < j < keys.len() ==> (#[trigger] keys[j]).ver != keys[i].ver
}

/// Entry `i` has version `ver`, and no earlier entry has.
pub open spec fn is_first_with(keys: Seq<KeyView>, ver: u8, i: int) -> bool {
    &&& 0 <= i < keys.len()
    &&& keys[i].ver == ver
    &&& forall|j: int| 0 <= j < i ==> (#[trigger] keys[j]).ver != ver
}

/// The entry under which new data keys are wrapped.
pub open spec fn latest(keys: Seq<KeyView>) -> KeyView {
    keys[choose|i: int| is_latest(keys, i)]
}

/// The entry that unwraps what was wrapped under `ver`, if the registry
/// still holds one.
pub open spec fn with_version(keys: Seq<KeyView>, ver: u8) -> Option<KeyView> {
    if exists|i: int| is_first_with(keys, ver, i) {
        Some(keys[choose|i: int| is_first_with(keys, ver, i)])
    } else {
        None
    }
}

/// No version occurs twice.
pub open spec fn distinct_versions(keys: Seq<KeyView>) -> bool {
    forall|i: int, j: int|
        0 <= i < j < keys.len() ==> (#[trigger] keys[i]).ver != (#[trigger] keys[j]).ver
}

/// At most one entry is the latest.
pub proof fn lemma_latest_unique(keys: Seq<KeyView>, i: int, j: int)
    requires
        is_latest(keys, i),
        is_latest(keys, j),
    ensures
        i == j,
{
    if i < j {
        assert(keys[j].ver <= keys[i].ver);
        assert(keys[i].ver <= keys[j].ver);
    } else if j < i {
        assert(keys[j].ver <= keys[i].ver);
        assert(keys[i].ver <= keys[j].ver);
    }
}

/// At most one entry is the first with a given version.
pub proof fn lemma_first_with_unique(keys: Seq<KeyView>, ver: u8, i: int, j: int)
    requires
        is_first_with(keys, ver, i),
        is_first_with(keys, ver, j),
    ensures
        i == j,
{
    if i < j {
        assert(keys[i].ver != ver);
    } else if j < i {
        assert(keys[j].ver != ver);
    }
}

impl Keys {
    /// A registry that can wrap and unwrap: it holds a key, and no version twice.
    pub open spec fn well_formed(self) -> bool {
        self@.len() > 0 && distinct_versions(self@)
    }

    /// The entry with the greatest version; of several with that version, the last.
    pub fn latest_key(&self) -> (res: Key)
        requires
            self@.len() > 0,
        ensures
            res@ == latest(self@),
            exists|i: int| is_latest(self@, i) && res@ == self@[i],
    {
        let mut best: usize = 0;
        let mut i: usize = 1;
        while i < self.keys.len()
            invariant
                1 <= i <= self.keys.len(),
                best < i,
                forall|j: int| 0 <= j < i ==> (#[trigger] self@[j]).ver <= self@[best as int].ver,
                forall|j: int| best < j < i ==> (#[trigger] self@[j]).ver != self@[best as int].ver,
            decreases self.keys.len() - i,
        {
            if self.keys[i].ver >= self.keys[best].ver {
                best = i;
            }
            i += 1;
        }
        proof {
            assert(is_latest(self@, best as int));
            let chosen = choose|i: int| is_latest(self@, i);
            lemma_latest_unique(self@, best as int, chosen);
        }
        self.keys[best].clone()
    }

    /// The first entry with version `ver`.
    pub fn get_ver(&self, ver: u8) -> (res: Option<&Key>)
        ensures
            res.deep_view() == with_version(self@, ver),
    {
        let mut i: usize = 0;
        while i < self.keys.len()
            invariant
                i <= self.keys.len(),
                forall|j: int| 0 <= j < i ==> (#[trigger] self@[j]).ver != ver,
            decreases self.keys.len() - i,
        {
            if self.keys[i].ver == ver {
                proof {
                    assert(is_first_with(self@, ver, i as int));
                    let chosen = choose|k: int| is_first_with(self@, ver, k);
                    lemma_first_with_unique(self@, ver, i as int, chosen);
                }
                return Some(&self.keys[i]);
            }
            i += 1;
        }
        proof {
            assert forall|k: int| !is_first_with(self@, ver, k) by {
                if 0 <= k < self@.len() {
                    assert(self@[k].ver != ver);
                }
            }
        }
        None
    }
}

impl DeepView for Key {
    type V = KeyView;

    open spec fn deep_view(&self) -> KeyView {
        self@
    }
}

/// With no version twice, the latest entry is the one its own version finds.
pub proof fn lemma_latest_found_by_version(keys: Seq<KeyView>)
    requires
        keys.len() > 0,
        distinct_versions(keys),
    ensures
        with_version(keys, latest(keys).ver) == Some(latest(keys)),
{
    lemma_latest_exists(keys, keys.len() as int);
    let l = choose|i: int| is_latest(keys, i);
    assert(is_latest(keys, l));
    let ver = keys[l].ver;
    assert(is_first_with(keys, ver, l)) by {
        assert forall|j: int| 0 <= j < l implies (#[trigger] keys[j]).ver != ver by {
            assert(keys[j].ver != keys[l].ver);
        }
    }
    let f = choose|i: int| is_first_with(keys, ver, i);
    lemma_first_with_unique(keys, ver, l, f);
}

/// Every non-empty registry has a latest entry.
pub proof fn lemma_latest_exists(keys: Seq<KeyView>, n: int)
    requires
        0 < n <= keys.len(),
    ensures
        exists|i: int| is_latest(keys.take(n), i),
        n == keys.len() ==> exists|i: int| is_latest(keys, i),
    decreases n,
{
    if n == 1 {
        assert(is_latest(keys.take(1), 0));
    } else {
        lemma_latest_exists(keys, n - 1);
        let shorter = keys.take(n - 1);
        let prev = choose|i: int| is_latest(shorter, i);
        assert(is_latest(shorter, prev));
        let cur = keys.take(n);
        assert(forall|j: int| 0 <= j < n - 1 ==> cur[j] == shorter[j]);
        if cur[n - 1].ver >= cur[prev].ver {
            assert forall|j: int| 0 <= j < cur.len() implies (#[trigger] cur[j]).ver <= cur[n - 1].ver by {
                if j < n - 1 {
                    assert(shorter[j].ver <= shorter[prev].ver);
                }
            }
            assert(is_latest(cur, n - 1));
        } else {
            assert forall|j: int| 0 <= j < cur.len() implies (#[trigger] cur[j]).ver <= cur[prev].ver by {
                if j < n - 1 {
                    assert(shorter[j].ver <= shorter[prev].ver);
                }
            }
            assert forall|j: int| prev < j < cur.len() implies (#[trigger] cur[j]).ver != cur[prev].ver by {
                if j < n - 1 {
                    assert(shorter[j].ver != shorter[prev].ver);
                }
            }
            assert(is_latest(cur, prev));
        }
    }
    if n == keys.len() {
        assert(keys.take(n) =~= keys);
    }
}

} // verus!
