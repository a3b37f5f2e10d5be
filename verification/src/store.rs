//! An in-memory object store with the service's semantics: objects are
//! addressed by key, a put creates or overwrites (last writer wins), a get
//! returns the newest content, and a listing under a prefix returns
//! exactly the keys that start with it.
//!
//! It stands in for the network transport wherever the real service is not
//! wanted: the transfer contracts are stated against the same model — a
//! map from keys to byte sequences — that this store provably maintains.

use vstd::prelude::*;
use crate::paths::{str_eq, str_starts_with};

verus! {

/// A bucket's contents: one body of bytes per key.
pub struct MemStore {
    entries: Vec<(String, Vec<u8>)>,
}

/// The map an entry sequence denotes: a key is present when some entry
/// holds it, and maps to that entry's body.
spec fn map_of(entries: Seq<(String, Vec<u8>)>) -> Map<Seq<char>, Seq<u8>> {
    Map::new(
        |k: Seq<char>| exists|i: int| 0 <= i < entries.len() && entries[i].0@ == k,
        |k: Seq<char>|
            {
                let i = choose|i: int| 0 <= i < entries.len() && entries[i].0@ == k;
                entries[i].1@
            },
    )
}

/// No two entries hold the same key.
spec fn unique_keys(entries: Seq<(String, Vec<u8>)>) -> bool {
    forall|i: int, j: int|
        0 <= i < j < entries.len() ==> entries[i].0@ != entries[j].0@
}

impl MemStore {
    /// Each key names one body.
    pub closed spec fn wf(&self) -> bool {
        unique_keys(self.entries@)
    }

    /// The store's contents as a map from key to body.
    pub closed spec fn objects(&self) -> Map<Seq<char>, Seq<u8>> {
        map_of(self.entries@)
    }

    /// An empty store: no keys at all.
    pub fn new() -> (r: MemStore)
        ensures
            r.wf(),
            r.objects() == Map::<Seq<char>, Seq<u8>>::empty(),
    {
        let r = MemStore { entries: Vec::new() };
        proof {
            assert(r.objects() =~= Map::<Seq<char>, Seq<u8>>::empty());
        }
        r
    }

    /// The index of the entry holding `key`, if any.
    fn find_index(&self, key: &str) -> (r: Option<usize>)
        ensures
            match r {
                Some(i) => i < self.entries@.len() && self.entries@[i as int].0@ == key@,
                None => forall|i: int|
                    0 <= i < self.entries@.len() ==> self.entries@[i].0@ != key@,
            },
    {
        let mut i: usize = 0;
        while i < self.entries.len()
            invariant
                i <= self.entries@.len(),
                forall|j: int| 0 <= j < i ==> self.entries@[j].0@ != key@,
            decreases self.entries@.len() - i,
        {
            if str_eq(self.entries[i].0.as_str(), key) {
                return Some(i);
            }
            i = i + 1;
        }
        None
    }

    /// The body stored under `key`, or nothing when the key is absent.
    pub fn get(&self, key: &str) -> (r: Option<&Vec<u8>>)
        requires
            self.wf(),
        ensures
            match r {
                Some(b) => self.objects().contains_key(key@) && b@ == self.objects()[key@],
                None => !self.objects().contains_key(key@),
            },
    {
        match self.find_index(key) {
            Some(i) => {
                proof {
                    let w = choose|w: int|
                        0 <= w < self.entries@.len() && self.entries@[w].0@ == key@;
                    assert(self.entries@[w].0@ == self.entries@[i as int].0@);
                    assert(w == i);
                }
                Some(&self.entries[i].1)
            },
            None => {
                proof {
                    if self.objects().contains_key(key@) {
                        let w = choose|w: int|
                            0 <= w < self.entries@.len() && self.entries@[w].0@ == key@;
                        assert(self.entries@[w].0@ != key@);
                    }
                }
                None
            },
        }
    }

    /// Stores `body` under `key`, creating the key or overwriting whatever
    /// it held: last writer wins.
    pub fn put(&mut self, key: &str, body: Vec<u8>)
        requires
            old(self).wf(),
        ensures
            final(self).wf(),
            final(self).objects() == old(self).objects().insert(key@, body@),
    {
        let ghost pre = self.entries@;
        match self.find_index(key) {
            Some(i) => {
                self.entries.remove(i);
                proof {
                    lemma_remove_unique_key(pre, i as int, key@);
                }
            },
            None => {},
        }
        let ghost kept = self.entries@;
        self.entries.push((key.to_owned(), body));
        proof {
            assert(forall|j: int|
                0 <= j < kept.len() ==> self.entries@[j] == kept[j]);
            lemma_push_fresh_key(kept, self.entries@, key@, body@);
            assert(map_of(kept) =~= map_of(pre).remove(key@));
            assert(self.objects() =~= map_of(pre).insert(key@, body@));
        }
    }

    /// The keys that start with `prefix`, in storage order: every returned
    /// key is present and starts with the prefix, every present key that
    /// starts with the prefix is returned once, and a store with no
    /// matching key yields the empty listing.
    pub fn list(&self, prefix: &str) -> (r: Vec<String>)
        requires
            self.wf(),
        ensures
            forall|j: int|
                0 <= j < r@.len() ==> #[trigger] prefix@.is_prefix_of(r@[j]@)
                    && self.objects().contains_key(r@[j]@),
            forall|k: Seq<char>|
                self.objects().contains_key(k) && prefix@.is_prefix_of(k) ==> exists|j: int|
                    0 <= j < r@.len() && r@[j]@ == k,
            forall|j1: int, j2: int| 0 <= j1 < j2 < r@.len() ==> r@[j1]@ != r@[j2]@,
            (forall|k: Seq<char>|
                self.objects().contains_key(k) ==> !prefix@.is_prefix_of(k)) ==> r@.len() == 0,
    {
        let mut r: Vec<String> = Vec::new();
        let mut i: usize = 0;
        while i < self.entries.len()
            invariant
                i <= self.entries@.len(),
                self.wf(),
                forall|j: int| 0 <= j < r@.len() ==> #[trigger] prefix@.is_prefix_of(r@[j]@),
                forall|j: int|
                    0 <= j < r@.len() ==> exists|w: int|
                        0 <= w < i && self.entries@[w].0@ == #[trigger] r@[j]@,
                forall|j1: int, j2: int| 0 <= j1 < j2 < r@.len() ==> r@[j1]@ != r@[j2]@,
                forall|w: int|
                    0 <= w < i && prefix@.is_prefix_of(#[trigger] self.entries@[w].0@)
                        ==> exists|j: int| 0 <= j < r@.len() && r@[j]@ == self.entries@[w].0@,
            decreases self.entries@.len() - i,
        {
            if str_starts_with(self.entries[i].0.as_str(), prefix) {
                let ghost prev = r@;
                r.push(self.entries[i].0.clone());
                proof {
                    assert(forall|j: int| 0 <= j < prev.len() ==> r@[j] == prev[j]);
                    assert(r@[r@.len() - 1]@ == self.entries@[i as int].0@);
                    assert forall|j1: int, j2: int|
                        0 <= j1 < j2 < r@.len() implies r@[j1]@ != r@[j2]@ by {
                        if j2 == r@.len() - 1 {
                            assert(prefix@.is_prefix_of(prev[j1]@));
                            let w = choose|w: int|
                                0 <= w < i && self.entries@[w].0@ == prev[j1]@;
                            assert(self.entries@[w].0@ != self.entries@[i as int].0@);
                        }
                    }
                    assert forall|w: int|
                        0 <= w < i + 1 && prefix@.is_prefix_of(
                            #[trigger] self.entries@[w].0@,
                        ) implies exists|j: int|
                        0 <= j < r@.len() && r@[j]@ == self.entries@[w].0@ by {
                        if w < i {
                            let j = choose|j: int|
                                0 <= j < prev.len() && prev[j]@ == self.entries@[w].0@;
                            assert(r@[j]@ == self.entries@[w].0@);
                        } else {
                            assert(r@[r@.len() - 1]@ == self.entries@[w].0@);
                        }
                    }
                }
            }
            i = i + 1;
        }
        proof {
            assert forall|j: int| 0 <= j < r@.len() implies self.objects().contains_key(
                r@[j]@,
            ) by {
                assert(prefix@.is_prefix_of(r@[j]@));
                let w = choose|w: int|
                    0 <= w < self.entries@.len() && self.entries@[w].0@ == r@[j]@;
                assert(self.entries@[w].0@ == r@[j]@);
            }
            if r@.len() > 0 {
                assert(prefix@.is_prefix_of(r@[0]@));
            }
        }
        r
    }
}

/// Removing the one entry that holds `k` from a uniquely-keyed sequence
/// takes exactly `k` out of the denoted map and keeps the keys unique.
proof fn lemma_remove_unique_key(pre: Seq<(String, Vec<u8>)>, i: int, k: Seq<char>)
    requires
        unique_keys(pre),
        0 <= i < pre.len(),
        pre[i].0@ == k,
    ensures
        unique_keys(pre.remove(i)),
        map_of(pre.remove(i)) =~= map_of(pre).remove(k),
        forall|j: int| 0 <= j < pre.remove(i).len() ==> pre.remove(i)[j].0@ != k,
{
    let post = pre.remove(i);
    assert forall|j: int| 0 <= j < post.len() implies post[j].0@ != k by {
        let orig = if j < i {
            j
        } else {
            j + 1
        };
        assert(post[j] == pre[orig]);
        assert(pre[orig].0@ != pre[i].0@);
    }
    assert forall|k2: Seq<char>| map_of(post).contains_key(k2) implies map_of(pre).remove(
        k,
    ).contains_key(k2) && map_of(post)[k2] == map_of(pre).remove(k)[k2] by {
        let w = choose|w: int| 0 <= w < post.len() && post[w].0@ == k2;
        let orig = if w < i {
            w
        } else {
            w + 1
        };
        assert(pre[orig].0@ == k2);
        assert(k2 != k);
        let wp = choose|wp: int| 0 <= wp < pre.len() && pre[wp].0@ == k2;
        assert(wp == orig);
        assert(map_of(post)[k2] == post[w].1@);
        assert(map_of(pre)[k2] == pre[orig].1@);
    }
    assert forall|k2: Seq<char>|
        map_of(pre).remove(k).contains_key(k2) implies map_of(post).contains_key(k2) by {
        let w = choose|w: int| 0 <= w < pre.len() && pre[w].0@ == k2;
        assert(w != i);
        let back = if w < i {
            w
        } else {
            w - 1
        };
        assert(post[back].0@ == k2);
    }
}

/// Pushing an entry whose key no kept entry holds adds exactly that key
/// to the denoted map and keeps the keys unique.
proof fn lemma_push_fresh_key(
    kept: Seq<(String, Vec<u8>)>,
    post: Seq<(String, Vec<u8>)>,
    k: Seq<char>,
    b: Seq<u8>,
)
    requires
        unique_keys(kept),
        forall|j: int| 0 <= j < kept.len() ==> kept[j].0@ != k,
        post.len() == kept.len() + 1,
        forall|j: int| 0 <= j < kept.len() ==> post[j] == kept[j],
        post.last().0@ == k,
        post.last().1@ == b,
    ensures
        unique_keys(post),
        map_of(post) =~= map_of(kept).insert(k, b),
{
    assert forall|k2: Seq<char>| map_of(post).contains_key(k2) implies map_of(kept).insert(
        k,
        b,
    ).contains_key(k2) && map_of(post)[k2] == map_of(kept).insert(k, b)[k2] by {
        let w = choose|w: int| 0 <= w < post.len() && post[w].0@ == k2;
        if k2 == k {
            assert(w == post.len() - 1);
            assert(map_of(post)[k2] == post[w].1@);
        } else {
            assert(w < kept.len());
            assert(kept[w].0@ == k2);
            let wk = choose|wk: int| 0 <= wk < kept.len() && kept[wk].0@ == k2;
            assert(wk == w);
            assert(map_of(post)[k2] == post[w].1@);
            assert(map_of(kept)[k2] == kept[wk].1@);
        }
    }
    assert forall|k2: Seq<char>|
        map_of(kept).insert(k, b).contains_key(k2) implies map_of(post).contains_key(k2) by {
        if k2 == k {
            assert(post[post.len() - 1].0@ == k2);
        } else {
            let w = choose|w: int| 0 <= w < kept.len() && kept[w].0@ == k2;
            assert(post[w].0@ == k2);
        }
    }
}

} // verus!
