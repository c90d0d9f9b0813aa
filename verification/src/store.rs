//! The job store: every download job record, keyed by its caller-chosen
//! identifier. This is the single authoritative job table — the mathematical
//! content of the one durable document the surrounding application persists —
//! and the single arbiter of which transfer may write which working file.
//!
//! Abstraction: a store is viewed as a map from key to job record
//! ([`ItemView`]); the insertion-ordered sequence of records is exposed
//! besides, as [`JobStore::jobs`]. Keys are unique, and every stored record
//! satisfies the record invariant [`ItemView::wf`] — in particular progress
//! reads full exactly on a completed job, after every mutation.

use vstd::prelude::*;

use crate::error::Error;
use crate::models::{DownloadItem, ItemView};

verus! {

/// No two records share a key.
pub open spec fn keys_unique(s: Seq<ItemView>) -> bool {
    forall|i: int, j: int|
        0 <= i < j < s.len() ==> (#[trigger] s[i]).key != (#[trigger] s[j]).key
}

/// Every record satisfies the record invariant.
pub open spec fn all_wf(s: Seq<ItemView>) -> bool {
    forall|i: int| 0 <= i < s.len() ==> (#[trigger] s[i]).wf()
}

/// The map a sequence of records denotes: each record under its key, a later
/// record shadowing an earlier one with the same key (which uniqueness rules
/// out for a well-formed store).
pub open spec fn map_of(s: Seq<ItemView>) -> Map<Seq<char>, ItemView>
    decreases s.len(),
{
    if s.len() == 0 {
        Map::empty()
    } else {
        map_of(s.drop_last()).insert(s.last().key, s.last())
    }
}

/// The keyed table of download job records.
pub struct JobStore {
    items: Vec<DownloadItem>,
}

impl View for JobStore {
    type V = Map<Seq<char>, ItemView>;

    closed spec fn view(&self) -> Map<Seq<char>, ItemView> {
        map_of(self.jobs())
    }
}

proof fn lemma_unique_prefix(s: Seq<ItemView>)
    requires
        keys_unique(s),
        s.len() > 0,
    ensures
        keys_unique(s.drop_last()),
        all_wf(s) ==> all_wf(s.drop_last()),
{
    assert forall|i: int, j: int| 0 <= i < j < s.drop_last().len() implies (#[trigger] s.drop_last()[i]).key
        != (#[trigger] s.drop_last()[j]).key by {
        assert(s.drop_last()[i] == s[i]);
        assert(s.drop_last()[j] == s[j]);
    }
    if all_wf(s) {
        assert forall|i: int| 0 <= i < s.drop_last().len() implies (#[trigger] s.drop_last()[i]).wf() by {
            assert(s.drop_last()[i] == s[i]);
        }
    }
}

/// For a sequence with unique keys, the denoted map holds exactly the
/// records of the sequence, each under its key.
proof fn lemma_map_of_props(s: Seq<ItemView>)
    requires
        keys_unique(s),
    ensures
        forall|i: int|
            0 <= i < s.len() ==> map_of(s).dom().contains((#[trigger] s[i]).key) && map_of(s)[s[i].key]
                == s[i],
        forall|k: Seq<char>|
            #[trigger] map_of(s).dom().contains(k) ==> exists|i: int|
                0 <= i < s.len() && (#[trigger] s[i]).key == k,
        forall|k: Seq<char>| #[trigger] map_of(s).dom().contains(k) ==> map_of(s)[k].key == k,
    decreases s.len(),
{
    if s.len() > 0 {
        let pre = s.drop_last();
        lemma_unique_prefix(s);
        lemma_map_of_props(pre);
        assert forall|i: int|
            0 <= i < s.len() implies map_of(s).dom().contains((#[trigger] s[i]).key) && map_of(s)[s[i].key]
            == s[i] by {
            if i < s.len() - 1 {
                assert(pre[i] == s[i]);
                assert(s[i].key != s.last().key);
            }
        }
        assert forall|k: Seq<char>| #[trigger] map_of(s).dom().contains(k) implies exists|i: int|
            0 <= i < s.len() && (#[trigger] s[i]).key == k by {
            if k == s.last().key {
                assert(s[s.len() - 1].key == k);
            } else {
                assert(map_of(pre).dom().contains(k));
                let i = choose|i: int| 0 <= i < pre.len() && (#[trigger] pre[i]).key == k;
                assert(s[i].key == k);
            }
        }
        assert forall|k: Seq<char>| #[trigger] map_of(s).dom().contains(k) implies map_of(s)[k].key
            == k by {
            let i = choose|i: int| 0 <= i < s.len() && (#[trigger] s[i]).key == k;
            assert(map_of(s)[s[i].key] == s[i]);
        }
    }
}

proof fn lemma_map_of_push(s: Seq<ItemView>, item: ItemView)
    ensures
        map_of(s.push(item)) == map_of(s).insert(item.key, item),
{
    assert(s.push(item).drop_last() =~= s);
    assert(s.push(item).last() == item);
}

proof fn lemma_map_of_update(s: Seq<ItemView>, i: int, item: ItemView)
    requires
        keys_unique(s),
        0 <= i < s.len(),
        item.key == s[i].key,
    ensures
        map_of(s.update(i, item)) == map_of(s).insert(item.key, item),
    decreases s.len(),
{
    let t = s.update(i, item);
    if i == s.len() - 1 {
        assert(t.drop_last() =~= s.drop_last());
        assert(t.last() == item);
        assert(map_of(s).insert(item.key, item) =~= map_of(s.drop_last()).insert(item.key, item));
    } else {
        let pre = s.drop_last();
        lemma_unique_prefix(s);
        assert(t.drop_last() =~= pre.update(i, item));
        assert(pre[i] == s[i]);
        lemma_map_of_update(pre, i, item);
        assert(t.last() == s.last());
        assert(item.key != s.last().key);
        assert(map_of(pre).insert(item.key, item).insert(s.last().key, s.last()) =~= map_of(
            pre,
        ).insert(s.last().key, s.last()).insert(item.key, item));
    }
}

proof fn lemma_map_of_remove(s: Seq<ItemView>, i: int)
    requires
        keys_unique(s),
        0 <= i < s.len(),
    ensures
        map_of(s.remove(i)) == map_of(s).remove(s[i].key),
    decreases s.len(),
{
    s.remove_ensures(i);
    if i == s.len() - 1 {
        assert(s.remove(i) =~= s.drop_last());
        lemma_unique_prefix(s);
        lemma_map_of_props(s.drop_last());
        assert(!map_of(s.drop_last()).dom().contains(s[i].key)) by {
            if map_of(s.drop_last()).dom().contains(s[i].key) {
                let j = choose|j: int|
                    0 <= j < s.drop_last().len() && (#[trigger] s.drop_last()[j]).key == s[i].key;
                assert(s[j].key == s[i].key);
            }
        }
        assert(map_of(s).remove(s[i].key) =~= map_of(s.drop_last()));
    } else {
        let pre = s.drop_last();
        lemma_unique_prefix(s);
        assert(s.remove(i).drop_last() =~= pre.remove(i));
        assert(s.remove(i).last() == s.last());
        assert(pre[i] == s[i]);
        lemma_map_of_remove(pre, i);
        assert(s[i].key != s.last().key);
        assert(map_of(pre).remove(s[i].key).insert(s.last().key, s.last()) =~= map_of(pre).insert(
            s.last().key,
            s.last(),
        ).remove(s[i].key));
    }
}

impl JobStore {
    /// The records in insertion order, as mathematical values.
    pub closed spec fn jobs(self) -> Seq<ItemView> {
        self.items@.map_values(|it: DownloadItem| it@)
    }

    /// A well-formed store: unique keys, every record well-formed.
    pub closed spec fn wf(self) -> bool {
        keys_unique(self.jobs()) && all_wf(self.jobs())
    }

    /// How the sequence of records and the keyed view fit together: each
    /// record is found under its key, and every key belongs to a record.
    pub proof fn lemma_view_props(&self)
        requires
            self.wf(),
        ensures
            forall|i: int|
                0 <= i < self.jobs().len() ==> self@.dom().contains((#[trigger] self.jobs()[i]).key)
                    && self@[self.jobs()[i].key] == self.jobs()[i],
            forall|k: Seq<char>|
                #[trigger] self@.dom().contains(k) ==> exists|i: int|
                    0 <= i < self.jobs().len() && (#[trigger] self.jobs()[i]).key == k,
            forall|k: Seq<char>| #[trigger] self@.dom().contains(k) ==> self@[k].key == k,
    {
        lemma_map_of_props(self.jobs());
    }

    /// At most one persisted record per key, and every record well-formed.
    pub proof fn lemma_keys_unique(&self)
        requires
            self.wf(),
        ensures
            keys_unique(self.jobs()),
            all_wf(self.jobs()),
    {
    }

    /// The store invariant, seen through the keyed view: every persisted job
    /// keeps progress on the scale, at full exactly when completed.
    pub proof fn lemma_jobs_invariant(&self)
        requires
            self.wf(),
        ensures
            forall|k: Seq<char>| self@.dom().contains(k) ==> (#[trigger] self@[k]).wf(),
    {
        self.lemma_view_props();
        assert forall|k: Seq<char>| self@.dom().contains(k) implies (#[trigger] self@[k]).wf() by {
            let i = choose|i: int|
                0 <= i < self.jobs().len() && (#[trigger] self.jobs()[i]).key == k;
        }
    }

    /// An empty store.
    pub fn new() -> (r: JobStore)
        ensures
            r.wf(),
            r.jobs() == Seq::<ItemView>::empty(),
            r@ == Map::<Seq<char>, ItemView>::empty(),
    {
        let items: Vec<DownloadItem> = Vec::new();
        let r = JobStore { items };
        proof {
            assert(r.jobs() =~= Seq::<ItemView>::empty());
        }
        r
    }

    /// Number of records.
    pub fn len(&self) -> (r: usize)
        ensures
            r == self.jobs().len(),
    {
        self.items.len()
    }

    /// The record at a position of the insertion order.
    pub fn get_at(&self, i: usize) -> (r: &DownloadItem)
        requires
            i < self.jobs().len(),
        ensures
            r@ == self.jobs()[i as int],
    {
        &self.items[i]
    }

    /// Replaces the record at a position, keeping its key.
    pub fn set_at(&mut self, i: usize, item: DownloadItem)
        requires
            old(self).wf(),
            i < old(self).jobs().len(),
            item@.wf(),
            item@.key == old(self).jobs()[i as int].key,
        ensures
            final(self).wf(),
            final(self).jobs() == old(self).jobs().update(i as int, item@),
            final(self)@ == old(self)@.insert(item@.key, item@),
    {
        let ghost pre = self.jobs();
        let ghost v = item@;
        self.items[i] = item;
        proof {
            assert(self.jobs() =~= pre.update(i as int, v));
            assert forall|a: int, b: int| 0 <= a < b < self.jobs().len() implies (#[trigger] self.jobs()[a]).key
                != (#[trigger] self.jobs()[b]).key by {
                assert(pre[a].key != pre[b].key);
            }
            assert(all_wf(self.jobs())) by {
                assert forall|a: int| 0 <= a < self.jobs().len() implies (#[trigger] self.jobs()[a]).wf() by {
                    assert(a != i ==> self.jobs()[a] == pre[a]);
                }
            }
            lemma_map_of_update(pre, i as int, v);
        }
    }

    /// Index of the record with the given key, if one exists.
    fn find_index(&self, key: &String) -> (r: Option<usize>)
        ensures
            match r {
                Some(i) => i < self.jobs().len() && self.jobs()[i as int].key == key@,
                None => forall|i: int|
                    0 <= i < self.jobs().len() ==> (#[trigger] self.jobs()[i]).key != key@,
            },
    {
        let n = self.items.len();
        let mut i: usize = 0;
        while i < n
            invariant
                n == self.jobs().len(),
                i <= n,
                forall|j: int| 0 <= j < i ==> (#[trigger] self.jobs()[j]).key != key@,
            decreases n - i,
        {
            if self.items[i].key == *key {
                return Some(i);
            }
            i = i + 1;
        }
        None
    }

    /// All records, in insertion order.
    pub fn list(&self) -> (r: Vec<DownloadItem>)
        ensures
            r@.len() == self.jobs().len(),
            forall|i: int| 0 <= i < r@.len() ==> (#[trigger] r@[i])@ == self.jobs()[i],
    {
        let n = self.items.len();
        let mut r: Vec<DownloadItem> = Vec::new();
        let mut i: usize = 0;
        while i < n
            invariant
                n == self.jobs().len(),
                i <= n,
                r@.len() == i,
                forall|j: int| 0 <= j < i ==> (#[trigger] r@[j])@ == self.jobs()[j],
            decreases n - i,
        {
            r.push(self.items[i].clone());
            i = i + 1;
        }
        r
    }

    /// The record stored under `key`, or `None` when the key is absent.
    pub fn get(&self, key: &String) -> (r: Option<DownloadItem>)
        requires
            self.wf(),
        ensures
            match r {
                Some(item) => self@.dom().contains(key@) && item@ == self@[key@] && item@.key
                    == key@,
                None => !self@.dom().contains(key@),
            },
    {
        proof {
            self.lemma_view_props();
        }
        match self.find_index(key) {
            Some(i) => Some(self.items[i].clone()),
            None => {
                proof {
                    if self@.dom().contains(key@) {
                        let i = choose|i: int|
                            0 <= i < self.jobs().len() && (#[trigger] self.jobs()[i]).key == key@;
                    }
                }
                None
            },
        }
    }

    /// Inserts a new record; refuses a key that already has one, leaving the
    /// store unchanged. On success the given record itself is handed back.
    pub fn create(&mut self, item: DownloadItem) -> (r: Result<DownloadItem, Error>)
        requires
            old(self).wf(),
            item@.wf(),
        ensures
            final(self).wf(),
            old(self)@.dom().contains(item@.key) ==> final(self)@ == old(self)@ && final(self).jobs() == old(self).jobs() && (r matches Err(e) && e is Store),
            !old(self)@.dom().contains(item@.key) ==> final(self)@ == old(self)@.insert(
                item@.key,
                item@,
            ) && final(self).jobs() == old(self).jobs().push(item@) && (r matches Ok(it) && it@
                == item@),
    {
        proof {
            self.lemma_view_props();
        }
        match self.find_index(&item.key) {
            Some(_) => Err(Error::Store(String::from_str("Item already exists for key"))),
            None => {
                let ghost pre = self.jobs();
                let ghost v = item@;
                proof {
                    if self@.dom().contains(v.key) {
                        let i = choose|i: int|
                            0 <= i < pre.len() && (#[trigger] pre[i]).key == v.key;
                    }
                }
                let r = item.clone();
                self.items.push(item);
                proof {
                    assert(self.jobs() =~= pre.push(v));
                    assert forall|a: int, b: int|
                        0 <= a < b < self.jobs().len() implies (#[trigger] self.jobs()[a]).key != (
                    #[trigger] self.jobs()[b]).key by {
                        if b < pre.len() {
                            assert(pre[a].key != pre[b].key);
                        } else {
                            assert(self.jobs()[a] == pre[a]);
                        }
                    }
                    assert(all_wf(self.jobs())) by {
                        assert forall|a: int| 0 <= a < self.jobs().len() implies (#[trigger] self.jobs()[a]).wf() by {
                            assert(a < pre.len() ==> self.jobs()[a] == pre[a]);
                        }
                    }
                    lemma_map_of_push(pre, v);
                }
                Ok(r)
            },
        }
    }

    /// Writes a record under its key: replaces the existing record, or
    /// appends a new one.
    pub fn update(&mut self, item: DownloadItem)
        requires
            old(self).wf(),
            item@.wf(),
        ensures
            final(self).wf(),
            final(self)@ == old(self)@.insert(item@.key, item@),
            old(self)@.dom().contains(item@.key) ==> final(self).jobs().len() == old(self).jobs().len(),
            !old(self)@.dom().contains(item@.key) ==> final(self).jobs() == old(self).jobs().push(item@),
    {
        proof {
            self.lemma_view_props();
        }
        match self.find_index(&item.key) {
            Some(i) => {
                self.set_at(i, item);
            },
            None => {
                let ghost pre = self.jobs();
                let ghost v = item@;
                proof {
                    if self@.dom().contains(v.key) {
                        let i = choose|i: int|
                            0 <= i < pre.len() && (#[trigger] pre[i]).key == v.key;
                    }
                }
                self.items.push(item);
                proof {
                    assert(self.jobs() =~= pre.push(v));
                    assert forall|a: int, b: int|
                        0 <= a < b < self.jobs().len() implies (#[trigger] self.jobs()[a]).key != (
                    #[trigger] self.jobs()[b]).key by {
                        if b < pre.len() {
                            assert(pre[a].key != pre[b].key);
                        } else {
                            assert(self.jobs()[a] == pre[a]);
                        }
                    }
                    assert(all_wf(self.jobs())) by {
                        assert forall|a: int| 0 <= a < self.jobs().len() implies (#[trigger] self.jobs()[a]).wf() by {
                            assert(a < pre.len() ==> self.jobs()[a] == pre[a]);
                        }
                    }
                    lemma_map_of_push(pre, v);
                }
            },
        }
    }

    /// Removes the record under `key`; removing an absent key changes
    /// nothing.
    pub fn delete(&mut self, key: &String)
        requires
            old(self).wf(),
        ensures
            final(self).wf(),
            final(self)@ == old(self)@.remove(key@),
            old(self)@.dom().contains(key@) ==> final(self).jobs().len() == old(self).jobs().len() - 1,
            !old(self)@.dom().contains(key@) ==> final(self).jobs() == old(self).jobs(),
    {
        proof {
            self.lemma_view_props();
        }
        match self.find_index(key) {
            Some(i) => {
                let ghost pre = self.jobs();
                self.items.remove(i);
                proof {
                    pre.remove_ensures(i as int);
                    assert(self.jobs() =~= pre.remove(i as int));
                    assert forall|a: int, b: int|
                        0 <= a < b < self.jobs().len() implies (#[trigger] self.jobs()[a]).key != (
                    #[trigger] self.jobs()[b]).key by {
                        let a0 = if a < i { a } else { a + 1 };
                        let b0 = if b < i { b } else { b + 1 };
                        assert(pre[a0].key != pre[b0].key);
                    }
                    assert(all_wf(self.jobs())) by {
                        assert forall|a: int| 0 <= a < self.jobs().len() implies (#[trigger] self.jobs()[a]).wf() by {
                            let a0 = if a < i { a } else { a + 1 };
                            assert(self.jobs()[a] == pre[a0]);
                        }
                    }
                    lemma_map_of_remove(pre, i as int);
                }
            },
            None => {
                proof {
                    if self@.dom().contains(key@) {
                        let i = choose|i: int|
                            0 <= i < self.jobs().len() && (#[trigger] self.jobs()[i]).key == key@;
                    }
                    assert(self@ =~= old(self)@.remove(key@));
                }
            },
        }
    }
}

} // verus!
