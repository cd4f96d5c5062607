use vstd::prelude::*;
use crate::cache::{is_oldest, lemma_applied_is_part, Cache, CacheView, Entries};
use crate::index::KeepView;
use crate::clock::clock_now;
use crate::record::Instant;

verus! {

/// Whether `after` is what is left of `before` when the records that expire soonest went first:
/// all that stayed is unchanged, and nothing that went expires later than anything that stayed.
pub open spec fn oldest_went_first(before: Entries, after: Entries) -> bool {
    &&& after.submap_of(before)
    &&& forall|gone: Seq<char>, kept: Seq<char>|
        before.contains_key(gone) && !after.contains_key(gone) && #[trigger] after.contains_key(kept)
            ==> #[trigger] before[gone].expires_at <= before[kept].expires_at
}

/// The entries whose record carries none of the identifiers `ids`.
pub open spec fn without_ids(entries: Entries, ids: Set<Seq<char>>) -> Entries {
    entries.restrict(Set::new(|key: Seq<char>| !ids.contains(entries[key].id)))
}

/// The identifiers of the records of `before` that `after` lacks.
pub open spec fn gone_ids(before: Entries, after: Entries) -> Set<Seq<char>> {
    Set::new(
        |id: Seq<char>|
            exists|key: Seq<char>|
                before.contains_key(key) && !after.contains_key(key) && #[trigger] before[key].id
                    == id,
    )
}

/// The smaller of a count and a bound.
pub open spec fn at_most(count: nat, max: usize) -> nat {
    if count <= max {
        count
    } else {
        max as nat
    }
}

/// No locator entry of `after` has lost its identifier: where the identifier index of `before`
/// had the identifier of such an entry, that of `after` has it too.
pub open spec fn none_left_behind(before: CacheView, after: CacheView) -> bool {
    forall|locator: Seq<char>| #[trigger]
        after.by_locator.contains_key(locator) && before.by_id.contains_key(
            after.by_locator[locator].id,
        ) ==> after.by_id.contains_key(after.by_locator[locator].id)
}

/// Whether `after` is `before` with its identifier index brought within `max` entries: the
/// identifiers that expire soonest went, as many as were over the bound, and with each of them
/// went the locator entries that carry it.
pub open spec fn trimmed_by_id(before: CacheView, after: CacheView, max: usize) -> bool {
    &&& oldest_went_first(before.by_id, after.by_id)
    &&& after.by_id.len() == at_most(before.by_id.len(), max)
    &&& after.by_locator == without_ids(
        before.by_locator,
        before.by_id.dom().difference(after.by_id.dom()),
    )
    &&& before.consistent() ==> after.consistent()
}

/// Whether `entries` has a record of the identifier `id` that expires at `instant` or before.
pub open spec fn carried_no_later(entries: Entries, id: Seq<char>, instant: int) -> bool {
    exists|key: Seq<char>|
        entries.contains_key(key) && #[trigger] entries[key].id == id && entries[key].expires_at
            <= instant
}

/// Whether `after` is `before` with its locator index brought within `max` entries: with each
/// locator entry that went, its identifier went from both indices, and nothing else went.
/// Each identifier that went had a locator entry that expires no later than any entry that
/// stayed, and the last of them went while the index was still over the bound.
/// In a consistent cache the entries that expire soonest went, as many as were over the bound.
pub open spec fn trimmed_by_locator(before: CacheView, after: CacheView, max: usize) -> bool {
    &&& after.by_locator.len() <= max
    &&& before.by_locator.len() <= max ==> after == before
    &&& after.by_locator == without_ids(
        before.by_locator,
        gone_ids(before.by_locator, after.by_locator),
    )
    &&& after.by_id == before.by_id.remove_keys(gone_ids(before.by_locator, after.by_locator))
    &&& forall|id: Seq<char>, kept: Seq<char>|
        #[trigger] gone_ids(before.by_locator, after.by_locator).contains(id)
            && #[trigger] after.by_locator.contains_key(kept) ==> carried_no_later(
            before.by_locator,
            id,
            before.by_locator[kept].expires_at,
        )
    &&& after != before ==> exists|last: Seq<char>|
        gone_ids(before.by_locator, after.by_locator).contains(last) && (#[trigger] without_ids(
            before.by_locator,
            gone_ids(before.by_locator, after.by_locator).remove(last),
        )).len() > max
    &&& before.consistent() ==> {
        &&& after.consistent()
        &&& oldest_went_first(before.by_locator, after.by_locator)
        &&& after.by_locator.len() == at_most(before.by_locator.len(), max)
    }
}

/// Whether `after` is `before` brought within `max` entries per index: first the identifier
/// index was trimmed, then the locator index.
pub open spec fn pruned(before: CacheView, after: CacheView, max: usize) -> bool {
    exists|middle: CacheView|
        middle.wf() && #[trigger] trimmed_by_id(before, middle, max) && trimmed_by_locator(
            middle,
            after,
            max,
        )
}

/// In a consistent cache an identifier has one locator entry, so evicting it removes one entry
/// from each index and leaves the cache consistent.
pub proof fn lemma_evict_consistent(cache: CacheView, id: Seq<char>)
    requires
        cache.wf(),
        cache.consistent(),
        cache.by_id.contains_key(id),
    ensures
        cache.evict(id).consistent(),
        cache.evict(id).by_locator == cache.by_locator.remove(cache.by_id[id].locator),
{
    let after = cache.evict(id);
    assert(after.by_locator =~= cache.by_locator.remove(cache.by_id[id].locator)) by {
        assert forall|key: Seq<char>| #[trigger]
            cache.by_locator.contains_key(key) && cache.by_locator[key].id == id implies key
            == cache.by_id[id].locator by {
            assert(cache.by_id.contains_pair(cache.by_locator[key].id, cache.by_locator[key]));
        }
        assert(cache.by_locator.contains_pair(cache.by_id[id].locator, cache.by_id[id]));
    }
    assert forall|other: Seq<char>| #[trigger] after.by_id.contains_key(other) implies
        after.by_locator.contains_pair(after.by_id[other].locator, after.by_id[other]) by {
        assert(cache.by_id.contains_key(other));
        assert(cache.by_locator.contains_pair(cache.by_id[other].locator, cache.by_id[other]));
    }
    assert forall|key: Seq<char>| #[trigger] after.by_locator.contains_key(key) implies
        after.by_id.contains_pair(after.by_locator[key].id, after.by_locator[key]) by {
        assert(cache.by_locator.contains_key(key));
        assert(cache.by_id.contains_pair(cache.by_locator[key].id, cache.by_locator[key]));
    }
}

/// The two indices of a consistent cache have the same number of entries.
pub proof fn lemma_consistent_same_size(cache: CacheView)
    requires
        cache.wf(),
        cache.consistent(),
    ensures
        cache.by_id.len() == cache.by_locator.len(),
{
    let locator_of = |id: Seq<char>| cache.by_id[id].locator;
    assert(vstd::relations::injective_on(locator_of, cache.by_id.dom())) by {
        assert forall|a: Seq<char>, b: Seq<char>|
            cache.by_id.dom().contains(a) && cache.by_id.dom().contains(b) && #[trigger] locator_of(
                a,
            ) == #[trigger] locator_of(b) implies a == b by {
            assert(cache.by_id.contains_key(a) && cache.by_id.contains_key(b));
            assert(cache.by_locator.contains_pair(cache.by_id[a].locator, cache.by_id[a]));
            assert(cache.by_locator.contains_pair(cache.by_id[b].locator, cache.by_id[b]));
        }
    }
    assert(cache.by_id.dom().map(locator_of) =~= cache.by_locator.dom()) by {
        assert forall|key: Seq<char>| cache.by_locator.dom().contains(key) implies
            cache.by_id.dom().map(locator_of).contains(key) by {
            assert(cache.by_locator.contains_key(key));
            let id = cache.by_locator[key].id;
            assert(cache.by_id.contains_pair(id, cache.by_locator[key]));
            assert(cache.by_id.dom().contains(id) && locator_of(id) == key);
        }
        assert forall|key: Seq<char>| cache.by_id.dom().map(locator_of).contains(key) implies
            cache.by_locator.dom().contains(key) by {
            let id = choose|id: Seq<char>| cache.by_id.dom().contains(id) && key == locator_of(id);
            assert(cache.by_id.contains_key(id));
            assert(cache.by_locator.contains_pair(cache.by_id[id].locator, cache.by_id[id]));
        }
    }
    vstd::set_lib::lemma_map_size(cache.by_id.dom(), cache.by_locator.dom(), locator_of);
}

/// Between two consistent caches, what holds of the order in which identifier entries went
/// holds of the locator entries too.
pub proof fn lemma_twin_order(before: CacheView, after: CacheView)
    requires
        before.wf(),
        after.wf(),
        before.consistent(),
        after.consistent(),
        after.by_locator.submap_of(before.by_locator),
        oldest_went_first(before.by_id, after.by_id),
    ensures
        oldest_went_first(before.by_locator, after.by_locator),
{
    assert forall|gone: Seq<char>, kept: Seq<char>|
        before.by_locator.contains_key(gone) && !after.by_locator.contains_key(gone)
            && #[trigger] after.by_locator.contains_key(kept) implies #[trigger] before.by_locator[gone].expires_at
        <= before.by_locator[kept].expires_at by {
        let gone_record = before.by_locator[gone];
        let kept_record = after.by_locator[kept];
        assert(before.by_locator.contains_key(kept));
        assert(before.by_id.contains_pair(gone_record.id, gone_record));
        assert(after.by_id.contains_pair(kept_record.id, kept_record));
        assert(before.by_id.contains_key(kept_record.id));
        if after.by_id.contains_key(gone_record.id) {
            assert(before.by_id.contains_key(gone_record.id));
            assert(after.by_locator.contains_pair(
                after.by_id[gone_record.id].locator,
                after.by_id[gone_record.id],
            ));
        }
        assert(before.by_id[gone_record.id].expires_at <= before.by_id[kept_record.id].expires_at);
    }
}

/// Leaving identifiers out of a finite index gives a part of it, which is no larger.
pub proof fn lemma_part_without_ids(entries: Entries, ids: Set<Seq<char>>)
    requires
        entries.dom().finite(),
    ensures
        without_ids(entries, ids).submap_of(entries),
        without_ids(entries, ids).dom().finite(),
        without_ids(entries, ids).len() <= entries.len(),
{
    vstd::set_lib::lemma_len_subset(without_ids(entries, ids).dom(), entries.dom());
}

/// A part of a finite index that has as many entries as the whole is the whole.
pub proof fn lemma_full_part(part: Entries, whole: Entries)
    requires
        whole.dom().finite(),
        part.submap_of(whole),
        part.len() == whole.len(),
    ensures
        part == whole,
{
    assert(part.dom().subset_of(whole.dom())) by {
        assert forall|key: Seq<char>| part.dom().contains(key) implies whole.dom().contains(key) by {
            assert(part.contains_key(key) && whole.contains_key(key));
        }
    }
    vstd::set_lib::lemma_subset_equality(part.dom(), whole.dom());
    assert(part =~= whole) by {
        assert forall|key: Seq<char>| part.dom().contains(key) implies part[key] == whole[key] by {
            assert(part.contains_key(key) && whole.contains_key(key));
        }
    }
}

/// What pruning guarantees: nothing is added or changed, both indices end within the
/// bound, no locator entry is left behind without its identifier, and a cache that was within
/// the bound is left as it was. Where the locator index was within the bound, only the trimming
/// of the identifier index took place. A consistent cache stays consistent, and loses from each
/// index exactly as many entries as were over the bound, those that expire soonest.
pub proof fn lemma_pruned(before: CacheView, after: CacheView, max: usize)
    requires
        before.wf(),
        pruned(before, after, max),
    ensures
        after.wf(),
        after.by_id.submap_of(before.by_id),
        after.by_locator.submap_of(before.by_locator),
        after.by_id.len() <= max,
        after.by_locator.len() <= max,
        none_left_behind(before, after),
        before.by_id.len() <= max && before.by_locator.len() <= max ==> after == before,
        before.by_locator.len() <= max ==> trimmed_by_id(before, after, max),
        before.consistent() ==> {
            &&& after.consistent()
            &&& oldest_went_first(before.by_id, after.by_id)
            &&& oldest_went_first(before.by_locator, after.by_locator)
            &&& after.by_id.len() == at_most(before.by_id.len(), max)
            &&& after.by_locator.len() == after.by_id.len()
        },
{
    let middle = choose|middle: CacheView|
        middle.wf() && #[trigger] trimmed_by_id(before, middle, max) && trimmed_by_locator(
            middle,
            after,
            max,
        );
    let gone = gone_ids(middle.by_locator, after.by_locator);
    lemma_part_without_ids(before.by_locator, before.by_id.dom().difference(middle.by_id.dom()));
    lemma_part_without_ids(middle.by_locator, gone);
    assert(after.by_id.dom().subset_of(middle.by_id.dom()));
    vstd::set_lib::lemma_len_subset(after.by_id.dom(), middle.by_id.dom());
    assert(after.by_id.submap_of(before.by_id)) by {
        assert forall|key: Seq<char>| after.by_id.dom().contains(key) implies
            before.by_id.dom().contains(key) && after.by_id[key] == before.by_id[key] by {
            assert(middle.by_id.contains_key(key) && before.by_id.contains_key(key));
        }
    }
    assert(after.by_locator.submap_of(before.by_locator)) by {
        assert forall|key: Seq<char>| after.by_locator.dom().contains(key) implies
            before.by_locator.dom().contains(key) && after.by_locator[key]
            == before.by_locator[key] by {
            assert(middle.by_locator.contains_key(key) && before.by_locator.contains_key(key));
        }
    }
    assert(after.wf()) by {
        assert forall|id: Seq<char>| #[trigger] after.by_id.contains_key(id) implies
            after.by_id[id].id == id by {
            assert(before.by_id.contains_key(id));
        }
        assert forall|locator: Seq<char>| #[trigger]
            after.by_locator.contains_key(locator) implies after.by_locator[locator].locator
            == locator by {
            assert(before.by_locator.contains_key(locator));
        }
    }
    if before.by_locator.len() <= max {
        assert(middle.by_locator.len() <= max);
        if before.by_id.len() <= max {
            lemma_full_part(middle.by_id, before.by_id);
            assert(middle.by_locator =~= before.by_locator);
        }
    }
    if before.consistent() {
        lemma_consistent_same_size(middle);
        lemma_twin_order(before, middle);
    }
}

/// Removing what has expired from a well-formed cache leaves a well-formed cache, and a
/// consistent one where it was consistent.
pub proof fn lemma_remove_expired(cache: CacheView, now: int)
    requires
        cache.wf(),
    ensures
        cache.remove_expired(now).wf(),
        cache.consistent() ==> cache.remove_expired(now).consistent(),
{
    let after = cache.remove_expired(now);
    lemma_applied_is_part(KeepView::LiveAt(now), cache.by_id);
    lemma_applied_is_part(KeepView::LiveAt(now), cache.by_locator);
    if cache.consistent() {
        assert forall|id: Seq<char>| #[trigger] after.by_id.contains_key(id) implies
            after.by_locator.contains_pair(after.by_id[id].locator, after.by_id[id]) by {
            assert(cache.by_id.contains_key(id));
            assert(cache.by_locator.contains_pair(cache.by_id[id].locator, cache.by_id[id]));
        }
        assert forall|locator: Seq<char>| #[trigger]
            after.by_locator.contains_key(locator) implies after.by_id.contains_pair(
            after.by_locator[locator].id,
            after.by_locator[locator],
        ) by {
            assert(cache.by_locator.contains_key(locator));
            assert(cache.by_id.contains_pair(
                cache.by_locator[locator].id,
                cache.by_locator[locator],
            ));
        }
    }
}

impl Cache {
    /// Brings the identifier index within `max` entries: while it holds more, the record that
    /// expires soonest is evicted, from both indices.
    pub fn trim_by_id(&mut self, max: usize)
        ensures
            trimmed_by_id(old(self)@, final(self)@, max),
    {
        let ghost before = self@;
        proof {
            use_type_invariant(&*self);
            assert(self@.by_locator =~= without_ids(
                before.by_locator,
                before.by_id.dom().difference(self@.by_id.dom()),
            ));
        }
        while self.size() > max
            invariant
                before.wf(),
                self@.wf(),
                oldest_went_first(before.by_id, self@.by_id),
                self@.by_id.len() <= before.by_id.len(),
                self@.by_id.len() >= at_most(before.by_id.len(), max),
                self@.by_locator == without_ids(
                    before.by_locator,
                    before.by_id.dom().difference(self@.by_id.dom()),
                ),
                before.consistent() ==> self@.consistent(),
            decreases self@.by_id.len(),
        {
            let ghost current = self@;
            match self.oldest_by_id() {
                Some(record) => {
                    let ghost oldest = record@;
                    proof {
                        current.by_id.lemma_remove_key_len(record@.id);
                        if current.consistent() {
                            lemma_evict_consistent(current, record@.id);
                        }
                    }
                    self.evict(record.id);
                    proof {
                        use_type_invariant(&*self);
                        assert(self@.by_locator =~= without_ids(
                            before.by_locator,
                            before.by_id.dom().difference(self@.by_id.dom()),
                        ));
                        assert forall|gone: Seq<char>, kept: Seq<char>|
                            before.by_id.contains_key(gone) && !self@.by_id.contains_key(gone)
                                && #[trigger] self@.by_id.contains_key(kept) implies #[trigger] before.by_id[gone].expires_at
                            <= before.by_id[kept].expires_at by {
                            assert(current.by_id.contains_key(kept) && before.by_id.contains_key(
                                kept,
                            ));
                            if current.by_id.contains_key(gone) {
                                assert(gone == oldest.id);
                            }
                        }
                    }
                },
                None => {
                    assert(false);
                },
            }
        }
    }

    /// Brings the locator index within `max` entries: while it holds more, the identifier of the
    /// record that expires soonest is evicted, from both indices.
    pub fn trim_by_locator(&mut self, max: usize)
        ensures
            trimmed_by_locator(old(self)@, final(self)@, max),
    {
        let ghost before = self@;
        let ghost mut gone: Set<Seq<char>> = Set::empty();
        let ghost mut last: Seq<char> = Seq::empty();
        proof {
            use_type_invariant(&*self);
            assert(self@.by_locator =~= without_ids(before.by_locator, gone));
            assert(self@.by_id =~= before.by_id.remove_keys(gone));
        }
        while self.size_by_locator() > max
            invariant
                before.wf(),
                self@.wf(),
                self@.by_locator == without_ids(before.by_locator, gone),
                self@.by_id == before.by_id.remove_keys(gone),
                forall|id: Seq<char>, kept: Seq<char>|
                    #[trigger] gone.contains(id) && #[trigger] self@.by_locator.contains_key(kept)
                        ==> carried_no_later(
                        before.by_locator,
                        id,
                        before.by_locator[kept].expires_at,
                    ),
                gone =~= Set::empty() || (gone.contains(last) && without_ids(
                    before.by_locator,
                    gone.remove(last),
                ).len() > max),
                forall|id: Seq<char>| #[trigger]
                    gone.contains(id) ==> exists|key: Seq<char>|
                        before.by_locator.contains_key(key) && #[trigger] before.by_locator[key].id
                            == id,
                self@.by_locator.len() <= before.by_locator.len(),
                before.by_locator.len() <= max ==> gone =~= Set::empty(),
                before.consistent() ==> {
                    &&& self@.consistent()
                    &&& oldest_went_first(before.by_locator, self@.by_locator)
                    &&& self@.by_locator.len() >= at_most(before.by_locator.len(), max)
                },
            decreases self@.by_locator.len(),
        {
            let ghost current = self@;
            match self.oldest_by_locator() {
                Some(record) => {
                    proof {
                        assert(current.by_locator.contains_key(record@.locator));
                        assert(before.by_locator.contains_key(record@.locator));
                        lemma_applied_is_part(KeepView::OtherIdThan(record@.id), current.by_locator);
                        let rest = current.evict(record@.id).by_locator;
                        assert(rest.dom().subset_of(current.by_locator.dom().remove(record@.locator)));
                        vstd::set_lib::lemma_len_subset(
                            rest.dom(),
                            current.by_locator.dom().remove(record@.locator),
                        );
                        assert(rest.len() < current.by_locator.len());
                        if current.consistent() {
                            assert(current.by_id.contains_pair(record@.id, record@));
                            lemma_evict_consistent(current, record@.id);
                            current.by_locator.lemma_remove_key_len(record@.locator);
                        }
                        assert(!gone.contains(record@.id));
                        assert(gone.insert(record@.id).remove(record@.id) =~= gone);
                        gone = gone.insert(record@.id);
                        last = record@.id;
                    }
                    let ghost oldest = record@;
                    self.evict(record.id);
                    proof {
                        use_type_invariant(&*self);
                        assert(self@.by_locator =~= without_ids(before.by_locator, gone));
                        assert(self@.by_id =~= before.by_id.remove_keys(gone));
                        assert forall|id: Seq<char>, kept: Seq<char>|
                            #[trigger] gone.contains(id) && #[trigger] self@.by_locator.contains_key(
                                kept,
                            ) implies carried_no_later(
                            before.by_locator,
                            id,
                            before.by_locator[kept].expires_at,
                        ) by {
                            assert(current.by_locator.contains_key(kept));
                            if id == oldest.id {
                                assert(before.by_locator[oldest.locator].id == id);
                            }
                        }
                    }
                },
                None => {
                    assert(false);
                },
            }
        }
        proof {
            let listed = gone_ids(before.by_locator, self@.by_locator);
            assert forall|id: Seq<char>| gone.contains(id) implies listed.contains(id) by {
                let key = choose|key: Seq<char>|
                    before.by_locator.contains_key(key) && #[trigger] before.by_locator[key].id
                        == id;
                assert(!self@.by_locator.contains_key(key));
            }
            assert(listed =~= gone);
            if gone =~= Set::empty() {
                assert(self@.by_locator =~= before.by_locator);
                assert(self@.by_id =~= before.by_id);
            }
        }
    }

    /// Brings both indices within `max` entries, first the identifier index and then the
    /// locator index, evicting in each the records that expire soonest, from both indices.
    pub fn prune_if_needed(&mut self, max: usize)
        ensures
            pruned(old(self)@, final(self)@, max),
            final(self)@.by_id.len() <= max,
            final(self)@.by_locator.len() <= max,
            none_left_behind(old(self)@, final(self)@),
            old(self)@.consistent() ==> final(self)@.consistent(),
    {
        let ghost before = self@;
        proof {
            use_type_invariant(&*self);
        }
        self.trim_by_id(max);
        let ghost middle = self@;
        proof {
            use_type_invariant(&*self);
        }
        self.trim_by_locator(max);
        proof {
            assert(trimmed_by_id(before, middle, max));
            lemma_pruned(before, self@, max);
        }
    }

    /// One sweep at `now`: every record that is no longer live at `now` leaves both indices,
    /// and what is left is brought within `max` entries per index, oldest records first.
    pub fn sweep(&mut self, now: Instant, max: usize)
        ensures
            pruned(old(self)@.remove_expired(now as int), final(self)@, max),
            final(self)@.all_live(now as int),
            final(self)@.by_id.len() <= max,
            final(self)@.by_locator.len() <= max,
            old(self)@.consistent() ==> final(self)@.consistent(),
    {
        let ghost before = self@;
        proof {
            use_type_invariant(&*self);
        }
        self.remove_expired(now);
        let ghost live = self@;
        proof {
            use_type_invariant(&*self);
            lemma_remove_expired(before, now as int);
        }
        self.prune_if_needed(max);
        proof {
            lemma_pruned(live, self@, max);
            assert forall|id: Seq<char>| #[trigger] self@.by_id.contains_key(id) implies
                self@.by_id[id].is_live(now as int) by {
                assert(live.by_id.contains_key(id));
            }
            assert forall|locator: Seq<char>| #[trigger]
                self@.by_locator.contains_key(locator) implies
                self@.by_locator[locator].is_live(now as int) by {
                assert(live.by_locator.contains_key(locator));
            }
        }
    }

    /// One sweep at the current time, which is returned.
    pub fn sweep_now(&mut self, max: usize) -> (now: Instant)
        ensures
            pruned(old(self)@.remove_expired(now as int), final(self)@, max),
            final(self)@.all_live(now as int),
            final(self)@.by_id.len() <= max,
            final(self)@.by_locator.len() <= max,
            old(self)@.consistent() ==> final(self)@.consistent(),
    {
        let now = clock_now();
        self.sweep(now, max);
        now
    }
}

} // verus!
