use vstd::prelude::*;
use crate::cache::{Cache, CacheView};
use crate::clock::{clock_now, expires_after, expiry, extended, extension};
use crate::ident::{is_identifier, lemma_identifiers_exist, new_identifier};
use crate::record::{Instant, Record, RecordView};
use crate::store::{StoreError, StoreReply, StoreReplyView, StoreRequest, StoreRequestView};

verus! {

/// What the one who made a request is told in the end.
#[derive(Debug)]
pub enum Outcome {
    /// The locator that the identifier stands for.
    Locator(String),
    /// The identifier that stands for the locator.
    Identifier(String),
    /// There is no such identifier.
    NotFound,
    /// The store failed; nothing is known.
    ServiceFailure,
}

/// The mathematical value of an [`Outcome`].
pub enum OutcomeView {
    Locator(Seq<char>),
    Identifier(Seq<char>),
    NotFound,
    ServiceFailure,
}

impl View for Outcome {
    type V = OutcomeView;

    open spec fn view(&self) -> OutcomeView {
        match self {
            Outcome::Locator(locator) => OutcomeView::Locator(locator@),
            Outcome::Identifier(id) => OutcomeView::Identifier(id@),
            Outcome::NotFound => OutcomeView::NotFound,
            Outcome::ServiceFailure => OutcomeView::ServiceFailure,
        }
    }
}

/// Where a request stands while the store is being asked.
#[derive(Debug)]
pub enum Pending {
    /// A lookup asked the store for the record of `id`.
    Lookup { id: String },
    /// A creation asked the store for the record of `locator`.
    Find { locator: String },
    /// A creation found the record in the store and asked to move its expiration.
    Refresh { record: Record },
    /// A creation found no record in the store and asked to keep this new one.
    Create { record: Record },
    /// A creation lost the race to create and asked the store for the record of `locator`
    /// once more.
    Reread { locator: String },
}

/// The mathematical value of a [`Pending`].
pub enum PendingView {
    Lookup { id: Seq<char> },
    Find { locator: Seq<char> },
    Refresh { record: RecordView },
    Create { record: RecordView },
    Reread { locator: Seq<char> },
}

impl View for Pending {
    type V = PendingView;

    open spec fn view(&self) -> PendingView {
        match self {
            Pending::Lookup { id } => PendingView::Lookup { id: id@ },
            Pending::Find { locator } => PendingView::Find { locator: locator@ },
            Pending::Refresh { record } => PendingView::Refresh { record: record@ },
            Pending::Create { record } => PendingView::Create { record: record@ },
            Pending::Reread { locator } => PendingView::Reread { locator: locator@ },
        }
    }
}

impl PendingView {
    /// What the store is asked while a request stands here.
    pub open spec fn request(self) -> StoreRequestView {
        match self {
            PendingView::Lookup { id } => StoreRequestView::FindById { id },
            PendingView::Find { locator } => StoreRequestView::FindByLocator { locator },
            PendingView::Refresh { record } => StoreRequestView::RefreshExpiration {
                id: record.id,
                expires_at: record.expires_at,
            },
            PendingView::Create { record } => StoreRequestView::Create { record },
            PendingView::Reread { locator } => StoreRequestView::FindByLocator { locator },
        }
    }
}

impl Pending {
    /// What the store is asked while a request stands here.
    pub fn request(&self) -> (request: StoreRequest)
        ensures
            request@ == self@.request(),
    {
        match self {
            Pending::Lookup { id } => StoreRequest::FindById { id: id.clone() },
            Pending::Find { locator } => StoreRequest::FindByLocator { locator: locator.clone() },
            Pending::Refresh { record } => StoreRequest::RefreshExpiration {
                id: record.id.clone(),
                expires_at: record.expires_at,
            },
            Pending::Create { record } => StoreRequest::Create { record: record.clone() },
            Pending::Reread { locator } => StoreRequest::FindByLocator { locator: locator.clone() },
        }
    }
}

/// What a request does next: ask the store and wait, or end.
#[derive(Debug)]
pub enum Step {
    /// Ask the store what [`Pending::request`] says, and resume with its reply.
    Ask(Pending),
    /// The request is over.
    Finish(Outcome),
}

/// The mathematical value of a [`Step`].
pub enum StepView {
    Ask(PendingView),
    Finish(OutcomeView),
}

impl View for Step {
    type V = StepView;

    open spec fn view(&self) -> StepView {
        match self {
            Step::Ask(pending) => StepView::Ask(pending@),
            Step::Finish(outcome) => StepView::Finish(outcome@),
        }
    }
}

/// How a lookup of `id` starts at `now`: a live record in the cache answers it, and otherwise
/// the store is asked.
pub open spec fn lookup_start(cache: CacheView, id: Seq<char>, now: int) -> StepView {
    match cache.get_by_id(id, now) {
        Some(record) => StepView::Finish(OutcomeView::Locator(record.locator)),
        None => StepView::Ask(PendingView::Lookup { id }),
    }
}

/// How a creation for `locator` starts at `now`: a live record in the cache answers it with the
/// identifier it has, and otherwise the store is asked.
pub open spec fn reuse_start(cache: CacheView, locator: Seq<char>, now: int) -> StepView {
    match cache.get_by_locator(locator, now) {
        Some(record) => StepView::Finish(OutcomeView::Identifier(record.id)),
        None => StepView::Ask(PendingView::Find { locator }),
    }
}

/// What follows when the store has found `found` for `locator`: its expiration is to be moved.
pub open spec fn reuse_found(
    locator: Seq<char>,
    found: RecordView,
    now: int,
    live_time: int,
) -> StepView {
    StepView::Ask(
        PendingView::Refresh {
            record: RecordView {
                id: found.id,
                locator,
                expires_at: extension(found.expires_at, now, live_time),
            },
        },
    )
}

/// The record that a lookup of `id` files when the store has found `found`: the identifier
/// that was asked for, the locator that was found, and a fresh expiration, `live_time` seconds
/// after `now`, whatever the expiration in the store.
pub open spec fn lookup_fill(id: Seq<char>, found: RecordView, now: int, live_time: int) -> RecordView {
    RecordView { id, locator: found.locator, expires_at: expiry(now, live_time) }
}

/// How a request that stood at `pending` goes on at `now` with the store's `reply`: the next
/// step, and the cache after it. `candidate` is the identifier for a record that has to be
/// created; nothing else depends on it.
///
/// A lookup answers with what the store has found only where that record is live at `now`: a
/// record that the store still holds but that has expired is "not found", and is not filed.
/// A creation reuses whatever record the store still holds for the locator, and extends it.
pub open spec fn resumed(
    cache: CacheView,
    pending: PendingView,
    reply: StoreReplyView,
    now: int,
    live_time: int,
    candidate: Seq<char>,
) -> (StepView, CacheView) {
    match pending {
        PendingView::Lookup { id } => match reply {
            StoreReplyView::Found(found) => if found.is_live(now) {
                (StepView::Finish(OutcomeView::Locator(found.locator)), cache.upsert(
                    lookup_fill(id, found, now, live_time),
                ))
            } else {
                (StepView::Finish(OutcomeView::NotFound), cache)
            },
            StoreReplyView::Failed(StoreError::NotFound) => (
                StepView::Finish(OutcomeView::NotFound),
                cache,
            ),
            _ => (StepView::Finish(OutcomeView::ServiceFailure), cache),
        },
        PendingView::Find { locator } => match reply {
            StoreReplyView::Found(found) => (reuse_found(locator, found, now, live_time), cache),
            StoreReplyView::Failed(StoreError::NotFound) => (
                StepView::Ask(
                    PendingView::Create {
                        record: RecordView {
                            id: candidate,
                            locator,
                            expires_at: expiry(now, live_time),
                        },
                    },
                ),
                cache,
            ),
            _ => (StepView::Finish(OutcomeView::ServiceFailure), cache),
        },
        PendingView::Refresh { record } => match reply {
            StoreReplyView::Done => (
                StepView::Finish(OutcomeView::Identifier(record.id)),
                cache.upsert(record),
            ),
            _ => (StepView::Finish(OutcomeView::ServiceFailure), cache),
        },
        PendingView::Create { record } => match reply {
            StoreReplyView::Done => (
                StepView::Finish(OutcomeView::Identifier(record.id)),
                cache.upsert(record),
            ),
            StoreReplyView::Failed(StoreError::ConstraintViolation) => (
                StepView::Ask(PendingView::Reread { locator: record.locator }),
                cache,
            ),
            _ => (StepView::Finish(OutcomeView::ServiceFailure), cache),
        },
        PendingView::Reread { locator } => match reply {
            StoreReplyView::Found(found) => (reuse_found(locator, found, now, live_time), cache),
            _ => (StepView::Finish(OutcomeView::ServiceFailure), cache),
        },
    }
}

/// Starts a lookup of `id` at `now`.
pub fn lookup(cache: &Cache, id: String, now: Instant) -> (step: Step)
    ensures
        step@ == lookup_start(cache@, id@, now as int),
{
    match cache.get_by_id(id.as_str(), now) {
        Some(record) => Step::Finish(Outcome::Locator(record.locator)),
        None => Step::Ask(Pending::Lookup { id }),
    }
}

/// Starts a creation for `locator` at `now`.
pub fn create_or_reuse(cache: &Cache, locator: String, now: Instant) -> (step: Step)
    ensures
        step@ == reuse_start(cache@, locator@, now as int),
{
    match cache.get_by_locator(locator.as_str(), now) {
        Some(record) => Step::Finish(Outcome::Identifier(record.id)),
        None => Step::Ask(Pending::Find { locator }),
    }
}

/// The step after the store has found `found` for `locator`.
fn found_for_reuse(locator: String, found: Record, now: Instant, live_time: u32) -> (step: Step)
    ensures
        step@ == reuse_found(locator@, found@, now as int, live_time as int),
{
    let expires_at = extended(found.expires_at, now, live_time);
    Step::Ask(Pending::Refresh { record: Record::new(found.id, locator, expires_at) })
}

/// Resumes at `now` the request that stood at `pending`, with the store's `reply`. A record
/// that has to be created gets the identifier `candidate`.
pub fn resume(
    cache: &mut Cache,
    pending: Pending,
    reply: StoreReply,
    now: Instant,
    live_time: u32,
    candidate: String,
) -> (step: Step)
    ensures
        (step@, final(cache)@) == resumed(
            old(cache)@,
            pending@,
            reply@,
            now as int,
            live_time as int,
            candidate@,
        ),
{
    match pending {
        Pending::Lookup { id } => match reply {
            StoreReply::Found(found) => {
                if found.is_live(now) {
                    let expires_at = expires_after(now, live_time);
                    cache.upsert(Record::new(id, found.locator.clone(), expires_at));
                    Step::Finish(Outcome::Locator(found.locator))
                } else {
                    Step::Finish(Outcome::NotFound)
                }
            },
            StoreReply::Failed(StoreError::NotFound) => Step::Finish(Outcome::NotFound),
            _ => Step::Finish(Outcome::ServiceFailure),
        },
        Pending::Find { locator } => match reply {
            StoreReply::Found(found) => found_for_reuse(locator, found, now, live_time),
            StoreReply::Failed(StoreError::NotFound) => {
                let expires_at = expires_after(now, live_time);
                Step::Ask(Pending::Create { record: Record::new(candidate, locator, expires_at) })
            },
            _ => Step::Finish(Outcome::ServiceFailure),
        },
        Pending::Refresh { record } => match reply {
            StoreReply::Done => {
                let id = record.id.clone();
                cache.upsert(record);
                Step::Finish(Outcome::Identifier(id))
            },
            _ => Step::Finish(Outcome::ServiceFailure),
        },
        Pending::Create { record } => match reply {
            StoreReply::Done => {
                let id = record.id.clone();
                cache.upsert(record);
                Step::Finish(Outcome::Identifier(id))
            },
            StoreReply::Failed(StoreError::ConstraintViolation) => Step::Ask(
                Pending::Reread { locator: record.locator },
            ),
            _ => Step::Finish(Outcome::ServiceFailure),
        },
        Pending::Reread { locator } => match reply {
            StoreReply::Found(found) => found_for_reuse(locator, found, now, live_time),
            _ => Step::Finish(Outcome::ServiceFailure),
        },
    }
}

/// Whether resuming at `pending` with `reply` creates a record, and so needs an identifier
/// for it.
pub open spec fn needs_identifier(pending: PendingView, reply: StoreReplyView) -> bool {
    pending is Find && reply == StoreReplyView::Failed(StoreError::NotFound)
}

/// Where no record is created, the candidate identifier makes no difference.
pub proof fn lemma_candidate_unused(
    cache: CacheView,
    pending: PendingView,
    reply: StoreReplyView,
    now: int,
    live_time: int,
    candidate: Seq<char>,
    other: Seq<char>,
)
    requires
        !needs_identifier(pending, reply),
    ensures
        resumed(cache, pending, reply, now, live_time, candidate) == resumed(
            cache,
            pending,
            reply,
            now,
            live_time,
            other,
        ),
{
}

/// Whether resuming at `pending` with `reply` needs a new identifier.
fn wants_identifier(pending: &Pending, reply: &StoreReply) -> (wanted: bool)
    ensures
        wanted == needs_identifier(pending@, reply@),
{
    match pending {
        Pending::Find { .. } => match reply {
            StoreReply::Failed(error) => *error == StoreError::NotFound,
            _ => false,
        },
        _ => false,
    }
}

/// Starts a lookup of `id` at the current time.
pub fn lookup_now(cache: &Cache, id: String) -> (step: Step)
    ensures
        exists|now: int| step@ == #[trigger] lookup_start(cache@, id@, now),
{
    let now = clock_now();
    let step = lookup(cache, id, now);
    assert(step@ == lookup_start(cache@, id@, now as int));
    step
}

/// Starts a creation for `locator` at the current time.
pub fn create_or_reuse_now(cache: &Cache, locator: String) -> (step: Step)
    ensures
        exists|now: int| step@ == #[trigger] reuse_start(cache@, locator@, now),
{
    let now = clock_now();
    let step = create_or_reuse(cache, locator, now);
    assert(step@ == reuse_start(cache@, locator@, now as int));
    step
}

/// Resumes at the current time the request that stood at `pending`, with the store's `reply`.
/// A record that has to be created gets a new random identifier.
pub fn resume_now(cache: &mut Cache, pending: Pending, reply: StoreReply, live_time: u32) -> (step:
    Step)
    ensures
        exists|now: int, candidate: Seq<char>|
            is_identifier(candidate) && (step@, final(cache)@) == #[trigger] resumed(
                old(cache)@,
                pending@,
                reply@,
                now,
                live_time as int,
                candidate,
            ),
{
    let now = clock_now();
    let candidate = if wants_identifier(&pending, &reply) {
        new_identifier()
    } else {
        String::new()
    };
    let ghost before = cache@;
    let ghost stood = pending@;
    let ghost answer = reply@;
    let ghost witness = if needs_identifier(stood, answer) {
        candidate@
    } else {
        lemma_identifiers_exist()
    };
    let step = resume(cache, pending, reply, now, live_time, candidate);
    proof {
        if !needs_identifier(stood, answer) {
            lemma_candidate_unused(
                before,
                stood,
                answer,
                now as int,
                live_time as int,
                candidate@,
                witness,
            );
        }
        assert((step@, cache@) == resumed(
            before,
            stood,
            answer,
            now as int,
            live_time as int,
            witness,
        ));
    }
    step
}

/// The address under which the identifier `id` is served below `base`.
pub fn short_link(base: &str, id: &str) -> (link: String)
    ensures
        link@ == base@ + id@,
{
    String::from_str(base).concat(id)
}

} // verus!
