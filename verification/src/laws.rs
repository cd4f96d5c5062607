use vstd::prelude::*;
use crate::cache::{is_oldest, CacheView, Entries};
use crate::clock::{expiry, extension};
use crate::handler::{resumed, reuse_start, OutcomeView, PendingView, StepView};
use crate::record::RecordView;
use crate::store::{StoreError, StoreReplyView};
use crate::sweep::{lemma_pruned, lemma_remove_expired, none_left_behind, oldest_went_first, pruned, trimmed_by_id, trimmed_by_locator};

verus! {

/// No two entries expire at the same instant.
pub open spec fn distinct_expirations(entries: Entries) -> bool {
    forall|a: Seq<char>, b: Seq<char>|
        #[trigger] entries.contains_key(a) && #[trigger] entries.contains_key(b) && a != b
            ==> entries[a].expires_at != entries[b].expires_at
}

/// A record that does not clash with the cache: where the cache knows its identifier or its
/// locator, it knows them for each other.
pub open spec fn compatible(cache: CacheView, record: RecordView) -> bool {
    &&& cache.by_id.contains_key(record.id) ==> cache.by_id[record.id].locator == record.locator
    &&& cache.by_locator.contains_key(record.locator) ==> cache.by_locator[record.locator].id
        == record.id
}

/// Round trip: a record that has just been filed is found under its identifier and under its
/// locator, as it was filed, for as long as it is live.
pub proof fn law_round_trip(cache: CacheView, record: RecordView, now: int)
    requires
        record.is_live(now),
    ensures
        cache.upsert(record).get_by_id(record.id, now) == Some(record),
        cache.upsert(record).get_by_locator(record.locator, now) == Some(record),
{
}

/// Round trip, continued: filing another record, under another identifier and another locator,
/// changes nothing of what is found under the first.
pub proof fn law_round_trip_outlasts_upsert(
    cache: CacheView,
    id: Seq<char>,
    locator: Seq<char>,
    other: RecordView,
    now: int,
)
    requires
        other.id != id,
        other.locator != locator,
    ensures
        cache.upsert(other).get_by_id(id, now) == cache.get_by_id(id, now),
        cache.upsert(other).get_by_locator(locator, now) == cache.get_by_locator(locator, now),
{
}

/// Round trip, continued: a sweep changes nothing of what is found under an identifier or a
/// locator that it leaves in the cache.
pub proof fn law_round_trip_outlasts_sweep(
    cache: CacheView,
    after: CacheView,
    swept_at: int,
    max: usize,
    id: Seq<char>,
    locator: Seq<char>,
    now: int,
)
    requires
        cache.wf(),
        pruned(cache.remove_expired(swept_at), after, max),
    ensures
        after.by_id.contains_key(id) ==> after.get_by_id(id, now) == cache.get_by_id(id, now),
        after.by_locator.contains_key(locator) ==> after.get_by_locator(locator, now)
            == cache.get_by_locator(locator, now),
{
    let live = cache.remove_expired(swept_at);
    lemma_remove_expired(cache, swept_at);
    lemma_pruned(live, after, max);
    if after.by_id.contains_key(id) {
        assert(live.by_id.contains_key(id));
    }
    if after.by_locator.contains_key(locator) {
        assert(live.by_locator.contains_key(locator));
    }
}

/// Filing a record that does not clash with a consistent cache leaves the cache consistent.
pub proof fn law_upsert_keeps_consistency(cache: CacheView, record: RecordView)
    requires
        cache.wf(),
        cache.consistent(),
        compatible(cache, record),
    ensures
        cache.upsert(record).wf(),
        cache.upsert(record).consistent(),
{
    let after = cache.upsert(record);
    assert forall|id: Seq<char>| #[trigger] after.by_id.contains_key(id) implies
        after.by_locator.contains_pair(after.by_id[id].locator, after.by_id[id]) by {
        if id != record.id {
            assert(cache.by_id.contains_key(id));
            assert(cache.by_locator.contains_pair(cache.by_id[id].locator, cache.by_id[id]));
        }
    }
    assert forall|locator: Seq<char>| #[trigger] after.by_locator.contains_key(locator) implies
        after.by_id.contains_pair(after.by_locator[locator].id, after.by_locator[locator]) by {
        if locator != record.locator {
            assert(cache.by_locator.contains_key(locator));
            assert(cache.by_id.contains_pair(
                cache.by_locator[locator].id,
                cache.by_locator[locator],
            ));
        }
    }
}

/// Expiration: a record whose expiration has passed is never found, sweep or no sweep.
pub proof fn law_expired_is_no_hit(cache: CacheView, key: Seq<char>, now: int)
    ensures
        cache.by_id.contains_key(key) && cache.by_id[key].expires_at <= now ==> cache.get_by_id(
            key,
            now,
        ) is None,
        cache.by_locator.contains_key(key) && cache.by_locator[key].expires_at <= now
            ==> cache.get_by_locator(key, now) is None,
        cache.get_by_id(key, now) is Some ==> cache.get_by_id(key, now).unwrap().expires_at > now,
        cache.get_by_locator(key, now) is Some ==> cache.get_by_locator(key, now).unwrap().expires_at
            > now,
{
}

/// Expiration: after a sweep, no index holds a record whose expiration had passed when the
/// sweep ran.
pub proof fn law_sweep_removes_expired(
    cache: CacheView,
    after: CacheView,
    swept_at: int,
    max: usize,
    key: Seq<char>,
)
    requires
        cache.wf(),
        pruned(cache.remove_expired(swept_at), after, max),
    ensures
        cache.by_id.contains_key(key) && cache.by_id[key].expires_at <= swept_at
            ==> !after.by_id.contains_key(key),
        cache.by_locator.contains_key(key) && cache.by_locator[key].expires_at <= swept_at
            ==> !after.by_locator.contains_key(key),
        after.all_live(swept_at),
{
    let live = cache.remove_expired(swept_at);
    lemma_remove_expired(cache, swept_at);
    lemma_pruned(live, after, max);
    assert forall|id: Seq<char>| #[trigger] after.by_id.contains_key(id) implies after.by_id[id].is_live(
        swept_at,
    ) by {
        assert(live.by_id.contains_key(id));
    }
    assert forall|locator: Seq<char>| #[trigger]
        after.by_locator.contains_key(locator) implies after.by_locator[locator].is_live(
        swept_at,
    ) by {
        assert(live.by_locator.contains_key(locator));
    }
    if after.by_id.contains_key(key) {
        assert(live.by_id.contains_key(key));
    }
    if after.by_locator.contains_key(key) {
        assert(live.by_locator.contains_key(key));
    }
}

/// Reuse: once a creation has ended with an identifier, a creation for the same locator that
/// starts before the record expires ends at once with the same identifier, and asks the store
/// nothing.
pub proof fn law_reuse_is_idempotent(
    cache: CacheView,
    pending: PendingView,
    reply: StoreReplyView,
    now: int,
    live_time: int,
    candidate: Seq<char>,
    later: int,
)
    requires
        pending is Refresh || pending is Create,
        reply is Done,
        later < filed(pending).expires_at,
    ensures
        resumed(cache, pending, reply, now, live_time, candidate).0 == StepView::Finish(
            OutcomeView::Identifier(filed(pending).id),
        ),
        reuse_start(
            resumed(cache, pending, reply, now, live_time, candidate).1,
            filed(pending).locator,
            later,
        ) == StepView::Finish(OutcomeView::Identifier(filed(pending).id)),
{
}

/// The record that a creation files when the store has done what it was asked.
pub open spec fn filed(pending: PendingView) -> RecordView
    recommends
        pending is Refresh || pending is Create,
{
    match pending {
        PendingView::Refresh { record } => record,
        PendingView::Create { record } => record,
        _ => arbitrary(),
    }
}

/// Reuse: a creation that the cache answers leaves the cache as it is, so the next one for the
/// same locator, started while the record is live, gets the same identifier.
pub proof fn law_cached_reuse_repeats(cache: CacheView, locator: Seq<char>, now: int, later: int)
    requires
        reuse_start(cache, locator, now) is Finish,
        now <= later < cache.by_locator[locator].expires_at,
    ensures
        reuse_start(cache, locator, later) == reuse_start(cache, locator, now),
{
}

/// A lookup that the store answers with "not found" ends so, and leaves the cache as it was.
pub proof fn law_unknown_is_not_cached(
    cache: CacheView,
    id: Seq<char>,
    now: int,
    live_time: int,
    candidate: Seq<char>,
)
    ensures
        resumed(
            cache,
            PendingView::Lookup { id },
            StoreReplyView::Failed(StoreError::NotFound),
            now,
            live_time,
            candidate,
        ) == (StepView::Finish(OutcomeView::NotFound), cache),
{
}

/// A lookup of an identifier whose record the store still holds, but which has expired, ends
/// with "not found" and leaves the cache as it was.
pub proof fn law_expired_in_store_is_not_found(
    cache: CacheView,
    id: Seq<char>,
    found: RecordView,
    now: int,
    live_time: int,
    candidate: Seq<char>,
)
    requires
        found.expires_at <= now,
    ensures
        resumed(
            cache,
            PendingView::Lookup { id },
            StoreReplyView::Found(found),
            now,
            live_time,
            candidate,
        ) == (StepView::Finish(OutcomeView::NotFound), cache),
{
}

/// Round trip of a lookup: where the store has found a live record, the lookup answers with
/// its locator, and the record that it files is found under the identifier and under the
/// locator, with a fresh expiration, for as long as that record is live.
pub proof fn law_lookup_fill_round_trip(
    cache: CacheView,
    id: Seq<char>,
    found: RecordView,
    now: int,
    live_time: int,
    candidate: Seq<char>,
    later: int,
)
    requires
        found.is_live(now),
        later < expiry(now, live_time),
    ensures
        ({
            let (step, after) = resumed(
                cache,
                PendingView::Lookup { id },
                StoreReplyView::Found(found),
                now,
                live_time,
                candidate,
            );
            let filed = RecordView { id, locator: found.locator, expires_at: expiry(now, live_time) };
            &&& step == StepView::Finish(OutcomeView::Locator(found.locator))
            &&& after.get_by_id(id, later) == Some(filed)
            &&& after.get_by_locator(found.locator, later) == Some(filed)
        }),
{
}

/// Round trip of a creation: once the store has done what a creation asked, the record that
/// the creation files is found under its identifier and under its locator, as it was filed,
/// for as long as it is live.
pub proof fn law_creation_round_trip(
    cache: CacheView,
    pending: PendingView,
    now: int,
    live_time: int,
    candidate: Seq<char>,
    later: int,
)
    requires
        pending is Refresh || pending is Create,
        later < filed(pending).expires_at,
    ensures
        ({
            let (step, after) = resumed(
                cache,
                pending,
                StoreReplyView::Done,
                now,
                live_time,
                candidate,
            );
            &&& step == StepView::Finish(OutcomeView::Identifier(filed(pending).id))
            &&& after.get_by_id(filed(pending).id, later) == Some(filed(pending))
            &&& after.get_by_locator(filed(pending).locator, later) == Some(filed(pending))
        }),
{
}

/// What a creation asks the store to keep or to extend: a new record carries the candidate
/// identifier and expires `live_time` seconds after `now`; a record that the store has found
/// keeps its identifier, and expires then too, or later where the store's expiration is later.
pub proof fn law_creation_grants_live_time(
    cache: CacheView,
    locator: Seq<char>,
    found: RecordView,
    now: int,
    live_time: int,
    candidate: Seq<char>,
)
    ensures
        resumed(
            cache,
            PendingView::Find { locator },
            StoreReplyView::Failed(StoreError::NotFound),
            now,
            live_time,
            candidate,
        ).0 == StepView::Ask(
            PendingView::Create {
                record: RecordView { id: candidate, locator, expires_at: expiry(now, live_time) },
            },
        ),
        resumed(
            cache,
            PendingView::Find { locator },
            StoreReplyView::Found(found),
            now,
            live_time,
            candidate,
        ).0 == StepView::Ask(
            PendingView::Refresh {
                record: RecordView {
                    id: found.id,
                    locator,
                    expires_at: extension(found.expires_at, now, live_time),
                },
            },
        ),
        extension(found.expires_at, now, live_time) >= expiry(now, live_time),
        extension(found.expires_at, now, live_time) >= found.expires_at,
        found.expires_at <= expiry(now, live_time) ==> extension(found.expires_at, now, live_time)
            == expiry(now, live_time),
        now + live_time <= i64::MAX ==> expiry(now, live_time) == now + live_time,
{
}

/// The cache remembers only what the store holds: resuming a request changes the cache in no
/// other way than by filing the record that the store has just found live, or has just
/// accepted.
pub proof fn law_cache_follows_store(
    cache: CacheView,
    pending: PendingView,
    reply: StoreReplyView,
    now: int,
    live_time: int,
    candidate: Seq<char>,
)
    ensures
        match (pending, reply) {
            (PendingView::Lookup { id }, StoreReplyView::Found(found)) => resumed(
                cache,
                pending,
                reply,
                now,
                live_time,
                candidate,
            ).1 == if found.is_live(now) {
                cache.upsert(
                    RecordView { id, locator: found.locator, expires_at: expiry(now, live_time) },
                )
            } else {
                cache
            },
            (PendingView::Refresh { record }, StoreReplyView::Done) => resumed(
                cache,
                pending,
                reply,
                now,
                live_time,
                candidate,
            ).1 == cache.upsert(record),
            (PendingView::Create { record }, StoreReplyView::Done) => resumed(
                cache,
                pending,
                reply,
                now,
                live_time,
                candidate,
            ).1 == cache.upsert(record),
            _ => resumed(cache, pending, reply, now, live_time, candidate).1 == cache,
        },
{
}

/// Where every record is live, nothing has expired: the number of entries is the number of
/// live records.
pub proof fn law_size_counts_live(cache: CacheView, now: int)
    requires
        cache.all_live(now),
    ensures
        cache.remove_expired(now) == cache,
{
    assert(cache.remove_expired(now).by_id =~= cache.by_id);
    assert(cache.remove_expired(now).by_locator =~= cache.by_locator);
}

/// How many more times, at most, a request that stands at `pending` asks the store.
pub open spec fn questions_left(pending: PendingView) -> nat {
    match pending {
        PendingView::Lookup { .. } => 1,
        PendingView::Refresh { .. } => 1,
        PendingView::Reread { .. } => 2,
        PendingView::Create { .. } => 3,
        PendingView::Find { .. } => 4,
    }
}

/// Every request ends: each reply of the store brings it to its end, or to a place from which
/// fewer questions are left to ask.
pub proof fn law_requests_end(
    cache: CacheView,
    pending: PendingView,
    reply: StoreReplyView,
    now: int,
    live_time: int,
    candidate: Seq<char>,
)
    ensures
        match resumed(cache, pending, reply, now, live_time, candidate).0 {
            StepView::Finish(_) => true,
            StepView::Ask(next) => questions_left(next) < questions_left(pending),
        },
{
}

/// Filing a record leaves no locator entry behind without its identifier: the identifier index
/// has the identifier of the record, and loses none that a locator entry carries.
pub proof fn law_upsert_leaves_none_behind(cache: CacheView, record: RecordView)
    ensures
        cache.upsert(record).by_id.contains_key(cache.upsert(record).by_locator[record.locator].id),
        none_left_behind(cache, cache.upsert(record)),
{
}

/// Eviction order, for one index: where no two records expire at the same instant and
/// something went, the record that expires soonest went.
pub proof fn law_oldest_goes_first(before: Entries, after: Entries, oldest: Seq<char>)
    requires
        before.dom().finite(),
        oldest_went_first(before, after),
        after.len() < before.len(),
        distinct_expirations(before),
        is_oldest(before, oldest),
    ensures
        !after.contains_key(oldest),
{
    if after.contains_key(oldest) {
        if forall|key: Seq<char>| before.contains_key(key) ==> after.contains_key(key) {
            assert(after.dom() =~= before.dom()) by {
                assert forall|key: Seq<char>| after.dom().contains(key) implies before.dom().contains(
                    key,
                ) by {
                    assert(after.contains_key(key) && before.contains_key(key));
                }
            }
        }
        let gone = choose|gone: Seq<char>| before.contains_key(gone) && !after.contains_key(gone);
        assert(before.contains_key(oldest));
        assert(before[gone].expires_at <= before[oldest].expires_at);
        assert(before[oldest].expires_at <= before[gone].expires_at);
    }
}

/// Eviction order, for one index: where no two records expire at the same instant, the number
/// of entries that are left decides which are left.
pub proof fn law_eviction_is_determined(before: Entries, first: Entries, second: Entries)
    requires
        before.dom().finite(),
        oldest_went_first(before, first),
        oldest_went_first(before, second),
        first.len() == second.len(),
        distinct_expirations(before),
    ensures
        first == second,
{
    assert(first.dom().subset_of(before.dom()) && second.dom().subset_of(before.dom())) by {
        assert forall|key: Seq<char>| first.dom().contains(key) implies before.dom().contains(
            key,
        ) by {
            assert(first.contains_key(key) && before.contains_key(key));
        }
        assert forall|key: Seq<char>| second.dom().contains(key) implies before.dom().contains(
            key,
        ) by {
            assert(second.contains_key(key) && before.contains_key(key));
        }
    }
    vstd::set_lib::lemma_len_subset(first.dom(), before.dom());
    vstd::set_lib::lemma_len_subset(second.dom(), before.dom());
    if !first.dom().subset_of(second.dom()) {
        let a = choose|a: Seq<char>| first.dom().contains(a) && !second.dom().contains(a);
        if second.dom().subset_of(first.dom()) {
            vstd::set_lib::lemma_subset_equality(second.dom(), first.dom());
        }
        let b = choose|b: Seq<char>| second.dom().contains(b) && !first.dom().contains(b);
        assert(first.contains_key(a) && before.contains_key(a));
        assert(second.contains_key(b) && before.contains_key(b));
        assert(before[a].expires_at <= before[b].expires_at);
        assert(before[b].expires_at <= before[a].expires_at);
        assert(false);
    }
    vstd::set_lib::lemma_subset_equality(first.dom(), second.dom());
    assert(first =~= second) by {
        assert forall|key: Seq<char>| first.dom().contains(key) implies first[key] == second[key] by {
            assert(first.contains_key(key) && before.contains_key(key));
            assert(second.contains_key(key) && before.contains_key(key));
        }
    }
}

/// Eviction order: where no two records of the identifier index expire at the same instant and
/// that index is over its bound, pruning removes the record that expires soonest from the
/// identifier index, and leaves no entry in the locator index that carries its identifier.
pub proof fn law_oldest_is_evicted_from_both(
    before: CacheView,
    after: CacheView,
    max: usize,
    oldest: Seq<char>,
)
    requires
        before.wf(),
        pruned(before, after, max),
        before.by_id.len() > max,
        distinct_expirations(before.by_id),
        is_oldest(before.by_id, oldest),
    ensures
        !after.by_id.contains_key(oldest),
        forall|locator: Seq<char>| #[trigger]
            after.by_locator.contains_key(locator) ==> after.by_locator[locator].id != oldest,
{
    let middle = choose|middle: CacheView|
        middle.wf() && #[trigger] trimmed_by_id(before, middle, max) && trimmed_by_locator(
            middle,
            after,
            max,
        );
    law_oldest_goes_first(before.by_id, middle.by_id, oldest);
    lemma_pruned(before, after, max);
    assert forall|locator: Seq<char>| #[trigger] after.by_locator.contains_key(locator) implies
        after.by_locator[locator].id != oldest by {
        if after.by_locator[locator].id == oldest {
            assert(before.by_id.contains_key(after.by_locator[locator].id));
        }
    }
}

} // verus!
