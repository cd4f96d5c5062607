use vstd::prelude::*;
use dashmap::DashMap;
use crate::index::{
    index_entries, index_get, index_insert, index_items, index_len, index_new, index_remove,
    index_retain, lists, Keep, KeepView,
};
use crate::record::{Instant, Record, RecordView};

verus! {

/// The entries of one index: records by key.
pub type Entries = Map<Seq<char>, RecordView>;

/// Whether `key` names an entry of `entries` that expires no later than any other.
pub open spec fn is_oldest(entries: Entries, key: Seq<char>) -> bool {
    &&& entries.contains_key(key)
    &&& forall|other: Seq<char>| #[trigger]
        entries.contains_key(other) ==> entries[key].expires_at <= entries[other].expires_at
}

/// The mathematical value of a [`Cache`]: the entries of its two indices.
pub struct CacheView {
    /// The identifier index.
    pub by_id: Entries,
    /// The locator index.
    pub by_locator: Entries,
}

impl CacheView {
    /// The cache without entries.
    pub open spec fn empty() -> CacheView {
        CacheView { by_id: Map::empty(), by_locator: Map::empty() }
    }

    /// Both indices are finite, and each files a record under its own identifier or locator.
    pub open spec fn wf(self) -> bool {
        &&& self.by_id.dom().finite()
        &&& self.by_locator.dom().finite()
        &&& forall|id: Seq<char>| #[trigger]
            self.by_id.contains_key(id) ==> self.by_id[id].id == id
        &&& forall|locator: Seq<char>| #[trigger]
            self.by_locator.contains_key(locator) ==> self.by_locator[locator].locator == locator
    }

    /// The two indices hold the same records: each record of one has an equal twin in the other.
    pub open spec fn consistent(self) -> bool {
        &&& forall|id: Seq<char>| #[trigger]
            self.by_id.contains_key(id) ==> self.by_locator.contains_pair(
                self.by_id[id].locator,
                self.by_id[id],
            )
        &&& forall|locator: Seq<char>| #[trigger]
            self.by_locator.contains_key(locator) ==> self.by_id.contains_pair(
                self.by_locator[locator].id,
                self.by_locator[locator],
            )
    }

    /// Every record in either index is live at `now`.
    pub open spec fn all_live(self, now: int) -> bool {
        &&& forall|id: Seq<char>| #[trigger]
            self.by_id.contains_key(id) ==> self.by_id[id].is_live(now)
        &&& forall|locator: Seq<char>| #[trigger]
            self.by_locator.contains_key(locator) ==> self.by_locator[locator].is_live(now)
    }

    /// The live record filed under `id`, if there is one.
    pub open spec fn get_by_id(self, id: Seq<char>, now: int) -> Option<RecordView> {
        if self.by_id.contains_key(id) && self.by_id[id].is_live(now) {
            Some(self.by_id[id])
        } else {
            None
        }
    }

    /// The live record filed under `locator`, if there is one.
    pub open spec fn get_by_locator(self, locator: Seq<char>, now: int) -> Option<RecordView> {
        if self.by_locator.contains_key(locator) && self.by_locator[locator].is_live(now) {
            Some(self.by_locator[locator])
        } else {
            None
        }
    }

    /// The cache once `record` is filed in both indices.
    pub open spec fn upsert(self, record: RecordView) -> CacheView {
        CacheView {
            by_id: self.by_id.insert(record.id, record),
            by_locator: self.by_locator.insert(record.locator, record),
        }
    }

    /// The cache without the records that are no longer live at `now`.
    pub open spec fn remove_expired(self, now: int) -> CacheView {
        CacheView {
            by_id: KeepView::LiveAt(now).applied(self.by_id),
            by_locator: KeepView::LiveAt(now).applied(self.by_locator),
        }
    }

    /// The cache without the identifier `id`: its entry in the identifier index is gone, and so
    /// is every entry of the locator index whose record carries it.
    pub open spec fn evict(self, id: Seq<char>) -> CacheView {
        CacheView {
            by_id: self.by_id.remove(id),
            by_locator: KeepView::OtherIdThan(id).applied(self.by_locator),
        }
    }
}

/// What a rule leaves of a finite index is finite, and a part of that index.
pub proof fn lemma_applied_is_part(rule: KeepView, entries: Entries)
    requires
        entries.dom().finite(),
    ensures
        rule.applied(entries).dom().finite(),
        rule.applied(entries).submap_of(entries),
        rule.applied(entries).len() <= entries.len(),
{
    vstd::set_lib::lemma_len_subset(rule.applied(entries).dom(), entries.dom());
}

/// A cache of records with two indices, one by identifier and one by locator.
pub struct Cache {
    by_id: DashMap<String, Record>,
    by_locator: DashMap<String, Record>,
}

impl View for Cache {
    type V = CacheView;

    closed spec fn view(&self) -> CacheView {
        CacheView { by_id: index_entries(self.by_id), by_locator: index_entries(self.by_locator) }
    }
}

/// The position of an item that expires no later than any other, if there is an item at all.
fn oldest_position(items: &Vec<(String, Record)>) -> (position: Option<usize>)
    ensures
        position.is_none() == (items@.len() == 0),
        position.is_some() ==> position.unwrap() < items@.len(),
        position.is_some() ==> forall|i: int|
            0 <= i < items@.len() ==> items@[position.unwrap() as int].1.expires_at
                <= #[trigger] items@[i].1.expires_at,
{
    if items.len() == 0 {
        return None;
    }
    let mut best: usize = 0;
    let mut i: usize = 1;
    while i < items.len()
        invariant
            0 <= best < i <= items@.len(),
            forall|j: int|
                0 <= j < i ==> items@[best as int].1.expires_at <= #[trigger] items@[j].1.expires_at,
        decreases items@.len() - i,
    {
        if items[i].1.expires_at < items[best].1.expires_at {
            best = i;
        }
        i += 1;
    }
    Some(best)
}

/// A copy of a record of `index` that expires no later than any other, if `index` has a record.
fn oldest_in(index: &DashMap<String, Record>) -> (found: Option<(String, Record)>)
    ensures
        found.is_none() == (index_entries(*index).dom() =~= Set::empty()),
        found.is_some() ==> is_oldest(index_entries(*index), found.unwrap().0@),
        found.is_some() ==> index_entries(*index)[found.unwrap().0@] == found.unwrap().1@,
{
    let items = index_items(index);
    let ghost entries = index_entries(*index);
    match oldest_position(&items) {
        None => {
            assert forall|key: Seq<char>| !entries.contains_key(key) by {
                if entries.contains_key(key) {
                    let i = choose|i: int| 0 <= i < items@.len() && #[trigger] items@[i].0@ == key;
                }
            }
            None
        },
        Some(position) => {
            let key = items[position].0.clone();
            let record = items[position].1.clone();
            proof {
                assert(entries.contains_pair(items@[position as int].0@, items@[position as int].1@));
                assert forall|other: Seq<char>| #[trigger] entries.contains_key(other) implies
                    entries[key@].expires_at <= entries[other].expires_at by {
                    let i = choose|i: int| 0 <= i < items@.len() && #[trigger] items@[i].0@ == other;
                    assert(entries.contains_pair(items@[i].0@, items@[i].1@));
                }
            }
            Some((key, record))
        },
    }
}

/// The keys of the first `upto` of `items` whose record is live at `now`.
spec fn live_keys(items: Seq<(String, Record)>, upto: int, now: int) -> Set<Seq<char>> {
    Set::new(
        |key: Seq<char>|
            exists|j: int|
                0 <= j < upto && #[trigger] items[j].0@ == key && items[j].1@.is_live(now),
    )
}

/// The number of records of `index` that are live at `now`.
fn live_in(index: &DashMap<String, Record>, now: Instant) -> (count: usize)
    requires
        index_entries(*index).dom().finite(),
    ensures
        count == KeepView::LiveAt(now as int).applied(index_entries(*index)).len(),
{
    let items = index_items(index);
    let ghost entries = index_entries(*index);
    let mut count: usize = 0;
    let mut i: usize = 0;
    proof {
        assert(live_keys(items@, 0, now as int) =~= Set::empty());
    }
    while i < items.len()
        invariant
            lists(items@, entries),
            0 <= i <= items@.len(),
            count <= i,
            live_keys(items@, i as int, now as int).finite(),
            count == live_keys(items@, i as int, now as int).len(),
        decreases items@.len() - i,
    {
        let ghost seen = live_keys(items@, i as int, now as int);
        let ghost next = live_keys(items@, i + 1, now as int);
        if items[i].1.is_live(now) {
            proof {
                assert(!seen.contains(items@[i as int].0@));
                assert(next =~= seen.insert(items@[i as int].0@));
            }
            count += 1;
        } else {
            proof {
                assert(next =~= seen);
            }
        }
        i += 1;
    }
    proof {
        let live = KeepView::LiveAt(now as int).applied(entries);
        assert(live_keys(items@, items@.len() as int, now as int) =~= live.dom()) by {
            assert forall|key: Seq<char>| live.dom().contains(key) implies live_keys(
                items@,
                items@.len() as int,
                now as int,
            ).contains(key) by {
                assert(entries.contains_key(key));
                let j = choose|j: int| 0 <= j < items@.len() && #[trigger] items@[j].0@ == key;
                assert(entries.contains_pair(items@[j].0@, items@[j].1@));
            }
            assert forall|key: Seq<char>|
                live_keys(items@, items@.len() as int, now as int).contains(key) implies live.dom().contains(
                key,
            ) by {
                let j = choose|j: int|
                    0 <= j < items@.len() && #[trigger] items@[j].0@ == key
                        && items@[j].1@.is_live(now as int);
                assert(entries.contains_pair(items@[j].0@, items@[j].1@));
            }
        }
    }
    count
}

impl Cache {
    /// Every cache is well formed, at all times.
    #[verifier::type_invariant]
    pub open spec fn inv(&self) -> bool {
        self@.wf()
    }

    /// A cache without entries.
    pub fn new() -> (cache: Cache)
        ensures
            cache@ == CacheView::empty(),
    {
        let cache = Cache { by_id: index_new(), by_locator: index_new() };
        assert(cache@.by_id =~= Map::empty());
        assert(cache@.by_locator =~= Map::empty());
        cache
    }

    /// The record filed under `id`, unless it is missing or no longer live at `now`.
    ///
    /// An expired record is never handed out, whether or not a sweep has removed it yet.
    pub fn get_by_id(&self, id: &str, now: Instant) -> (found: Option<Record>)
        ensures
            found.deep_view() == self@.get_by_id(id@, now as int),
    {
        proof {
            use_type_invariant(self);
        }
        match index_get(&self.by_id, id) {
            Some(record) => if record.is_live(now) {
                Some(record)
            } else {
                None
            },
            None => None,
        }
    }

    /// The record filed under `locator`, unless it is missing or no longer live at `now`.
    ///
    /// An expired record is never handed out, whether or not a sweep has removed it yet.
    pub fn get_by_locator(&self, locator: &str, now: Instant) -> (found: Option<Record>)
        ensures
            found.deep_view() == self@.get_by_locator(locator@, now as int),
    {
        proof {
            use_type_invariant(self);
        }
        match index_get(&self.by_locator, locator) {
            Some(record) => if record.is_live(now) {
                Some(record)
            } else {
                None
            },
            None => None,
        }
    }

    /// Files `record` in both indices, under its identifier and under its locator, in place of
    /// whatever either index held there.
    pub fn upsert(&mut self, record: Record)
        ensures
            final(self)@ == old(self)@.upsert(record@),
    {
        proof {
            use_type_invariant(&*self);
        }
        let copy = record.clone();
        index_insert(&mut self.by_id, copy.id.clone(), copy);
        index_insert(&mut self.by_locator, record.locator.clone(), record);
    }

    /// The number of records that are live at `now`, counted in the identifier index.
    pub fn live_size(&self, now: Instant) -> (count: usize)
        ensures
            count == self@.remove_expired(now as int).by_id.len(),
    {
        proof {
            use_type_invariant(self);
        }
        live_in(&self.by_id, now)
    }

    /// The number of entries in the identifier index: the live records, and those that have
    /// expired since the last sweep. Right after a sweep it is the number of live records.
    pub fn size(&self) -> (count: usize)
        ensures
            count == self@.by_id.len(),
    {
        proof {
            use_type_invariant(self);
        }
        index_len(&self.by_id)
    }

    /// The number of entries in the locator index.
    pub fn size_by_locator(&self) -> (count: usize)
        ensures
            count == self@.by_locator.len(),
    {
        proof {
            use_type_invariant(self);
        }
        index_len(&self.by_locator)
    }

    /// Removes from both indices every record that is no longer live at `now`.
    pub fn remove_expired(&mut self, now: Instant)
        ensures
            final(self)@ == old(self)@.remove_expired(now as int),
    {
        proof {
            use_type_invariant(&*self);
            lemma_applied_is_part(KeepView::LiveAt(now as int), self@.by_id);
            lemma_applied_is_part(KeepView::LiveAt(now as int), self@.by_locator);
        }
        let rule = Keep::LiveAt(now);
        index_retain(&mut self.by_id, &rule);
        index_retain(&mut self.by_locator, &rule);
    }

    /// Removes the identifier `id` from both indices: its entry in the identifier index, and
    /// every entry of the locator index whose record carries it.
    pub fn evict(&mut self, id: String)
        ensures
            final(self)@ == old(self)@.evict(id@),
    {
        proof {
            use_type_invariant(&*self);
            lemma_applied_is_part(KeepView::OtherIdThan(id@), self@.by_locator);
        }
        index_remove(&mut self.by_id, id.as_str());
        let rule = Keep::OtherIdThan(id);
        index_retain(&mut self.by_locator, &rule);
    }

    /// A record of the identifier index that expires no later than any other, if that index
    /// has a record.
    pub fn oldest_by_id(&self) -> (found: Option<Record>)
        ensures
            found.is_none() == (self@.by_id.len() == 0),
            found.is_some() ==> is_oldest(self@.by_id, found.unwrap()@.id),
            found.is_some() ==> self@.by_id[found.unwrap()@.id] == found.unwrap()@,
    {
        proof {
            use_type_invariant(self);
        }
        match oldest_in(&self.by_id) {
            Some((_, record)) => Some(record),
            None => None,
        }
    }

    /// A record of the locator index that expires no later than any other, if that index has
    /// a record.
    pub fn oldest_by_locator(&self) -> (found: Option<Record>)
        ensures
            found.is_none() == (self@.by_locator.len() == 0),
            found.is_some() ==> is_oldest(self@.by_locator, found.unwrap()@.locator),
            found.is_some() ==> self@.by_locator[found.unwrap()@.locator] == found.unwrap()@,
    {
        proof {
            use_type_invariant(self);
        }
        match oldest_in(&self.by_locator) {
            Some((_, record)) => Some(record),
            None => None,
        }
    }
}

} // verus!
