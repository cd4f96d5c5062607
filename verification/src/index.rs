use vstd::prelude::*;
use dashmap::DashMap;
use crate::record::{Instant, Record, RecordView};

verus! {

/// `dashmap::DashMap`, a concurrent hash map. Nothing of its inside is visible here.
#[verifier::external_type_specification]
#[verifier::external_body]
#[verifier::reject_recursive_types(K)]
#[verifier::reject_recursive_types(V)]
#[verifier::reject_recursive_types(S)]
pub struct ExDashMap<K, V, S>(DashMap<K, V, S>);

/// The entries that an index holds, by key.
pub uninterp spec fn index_entries(index: DashMap<String, Record>) -> Map<Seq<char>, RecordView>;

/// Which records a pass over an index keeps.
pub enum Keep {
    /// Those still live at the given instant.
    LiveAt(Instant),
    /// Those whose identifier differs from the given one.
    OtherIdThan(String),
}

/// The mathematical value of a [`Keep`].
pub enum KeepView {
    LiveAt(int),
    OtherIdThan(Seq<char>),
}

impl View for Keep {
    type V = KeepView;

    open spec fn view(&self) -> KeepView {
        match self {
            Keep::LiveAt(now) => KeepView::LiveAt(*now as int),
            Keep::OtherIdThan(id) => KeepView::OtherIdThan(id@),
        }
    }
}

impl KeepView {
    /// Whether the rule keeps `record`.
    pub open spec fn keeps(self, record: RecordView) -> bool {
        match self {
            KeepView::LiveAt(now) => record.is_live(now),
            KeepView::OtherIdThan(id) => record.id != id,
        }
    }

    /// What is left of `entries` once everything that the rule does not keep is gone.
    pub open spec fn applied(self, entries: Map<Seq<char>, RecordView>) -> Map<
        Seq<char>,
        RecordView,
    > {
        entries.restrict(Set::new(|key: Seq<char>| self.keeps(entries[key])))
    }
}

impl Keep {
    /// Whether the rule keeps `record`.
    pub fn keeps(&self, record: &Record) -> (kept: bool)
        ensures
            kept == self@.keeps(record@),
    {
        match self {
            Keep::LiveAt(now) => record.is_live(*now),
            Keep::OtherIdThan(id) => !record.has_id(id),
        }
    }
}

/// Whether `items` lists the entries of an index: every item is an entry, no key comes twice,
/// and every key of the index comes.
pub open spec fn lists(items: Seq<(String, Record)>, entries: Map<Seq<char>, RecordView>) -> bool {
    &&& forall|i: int|
        0 <= i < items.len() ==> entries.contains_pair(#[trigger] items[i].0@, items[i].1@)
    &&& forall|i: int, j: int|
        0 <= i < j < items.len() ==> #[trigger] items[i].0@ != #[trigger] items[j].0@
    &&& forall|key: Seq<char>| #[trigger]
        entries.contains_key(key) ==> exists|i: int|
            0 <= i < items.len() && #[trigger] items[i].0@ == key
}

/// `DashMap::new`: a map without entries.
#[verifier::external_body]
pub(crate) fn index_new() -> (index: DashMap<String, Record>)
    ensures
        index_entries(index) =~= Map::empty(),
{
    DashMap::new()
}

/// `DashMap::len`: the number of entries.
#[verifier::external_body]
pub(crate) fn index_len(index: &DashMap<String, Record>) -> (count: usize)
    ensures
        count == index_entries(*index).len(),
{
    index.len()
}

/// `DashMap::get`: a copy of the record under `key`, if the map has that key.
#[verifier::external_body]
pub(crate) fn index_get(index: &DashMap<String, Record>, key: &str) -> (found: Option<Record>)
    ensures
        found.deep_view() == index_entries(*index).get(key@),
{
    match index.get(key) {
        Some(entry) => Some(entry.value().clone()),
        None => None,
    }
}

/// `DashMap::insert`: afterwards `key` maps to `record`, and the other keys are as before.
/// The call does not unwind.
#[verifier::external_body]
pub(crate) fn index_insert(index: &mut DashMap<String, Record>, key: String, record: Record)
    ensures
        index_entries(*final(index)) == index_entries(*old(index)).insert(key@, record@),
    no_unwind
{
    index.insert(key, record);
}

/// `DashMap::remove`: afterwards `key` is absent, and the other keys are as before.
/// The call does not unwind.
#[verifier::external_body]
pub(crate) fn index_remove(index: &mut DashMap<String, Record>, key: &str)
    ensures
        index_entries(*final(index)) == index_entries(*old(index)).remove(key@),
    no_unwind
{
    index.remove(key);
}

/// `DashMap::retain`, with [`Keep::keeps`] as the predicate: afterwards the map holds exactly
/// those of its entries that `rule` keeps. The call does not unwind.
#[verifier::external_body]
pub(crate) fn index_retain(index: &mut DashMap<String, Record>, rule: &Keep)
    ensures
        index_entries(*final(index)) == rule@.applied(index_entries(*old(index))),
    no_unwind
{
    index.retain(|_, record| rule.keeps(record));
}

/// `DashMap::iter`: copies of all entries, each key once, in no particular order.
#[verifier::external_body]
pub(crate) fn index_items(index: &DashMap<String, Record>) -> (items: Vec<(String, Record)>)
    ensures
        lists(items@, index_entries(*index)),
{
    index.iter().map(|entry| (entry.key().clone(), entry.value().clone())).collect()
}

} // verus!
