use shortrl::cache::Cache;
use shortrl::handler::{
    create_or_reuse, create_or_reuse_now, lookup, lookup_now, resume, resume_now, short_link,
    Outcome, Pending, Step,
};
use shortrl::record::Record;
use shortrl::store::{StoreError, StoreReply, StoreRequest};
use std::collections::HashMap;

const DAY: u32 = 86_400;

fn rec(id: &str, locator: &str, expires_at: i64) -> Record {
    Record::new(id.to_string(), locator.to_string(), expires_at)
}

fn asked(step: Step) -> Pending {
    match step {
        Step::Ask(pending) => pending,
        Step::Finish(outcome) => panic!("the request ended with {:?}", outcome),
    }
}

fn ended(step: Step) -> Outcome {
    match step {
        Step::Finish(outcome) => outcome,
        Step::Ask(pending) => panic!("the request asks the store at {:?}", pending),
    }
}

/// A store in memory that counts what it is asked.
struct FakeStore {
    by_id: HashMap<String, Record>,
    creates: usize,
    finds: usize,
    refreshes: usize,
}

fn fake_store() -> FakeStore {
    FakeStore { by_id: HashMap::new(), creates: 0, finds: 0, refreshes: 0 }
}

fn perform(store: &mut FakeStore, request: StoreRequest) -> StoreReply {
    match request {
        StoreRequest::FindById { id } => {
            store.finds += 1;
            match store.by_id.get(&id) {
                Some(r) => StoreReply::Found(r.clone()),
                None => StoreReply::Failed(StoreError::NotFound),
            }
        }
        StoreRequest::FindByLocator { locator } => {
            store.finds += 1;
            match store.by_id.values().find(|r| r.locator == locator) {
                Some(r) => StoreReply::Found(r.clone()),
                None => StoreReply::Failed(StoreError::NotFound),
            }
        }
        StoreRequest::Create { record } => {
            store.creates += 1;
            if store.by_id.contains_key(&record.id)
                || store.by_id.values().any(|r| r.locator == record.locator)
            {
                StoreReply::Failed(StoreError::ConstraintViolation)
            } else {
                store.by_id.insert(record.id.clone(), record);
                StoreReply::Done
            }
        }
        StoreRequest::RefreshExpiration { id, expires_at } => {
            store.refreshes += 1;
            match store.by_id.get_mut(&id) {
                Some(r) => {
                    r.expires_at = expires_at;
                    StoreReply::Done
                }
                None => StoreReply::Failed(StoreError::NotFound),
            }
        }
    }
}

fn run(cache: &mut Cache, store: &mut FakeStore, first: Step, now: i64, candidate: &str) -> Outcome {
    let mut step = first;
    loop {
        match step {
            Step::Finish(outcome) => return outcome,
            Step::Ask(pending) => {
                let reply = perform(store, pending.request());
                step = resume(cache, pending, reply, now, DAY, candidate.to_string());
            }
        }
    }
}

#[test]
fn lookup_of_unknown_id_reports_not_found_and_caches_nothing() {
    let mut cache = Cache::new();
    let pending = asked(lookup(&cache, "zz9".to_string(), 1_000));
    assert!(matches!(&pending, Pending::Lookup { id } if id == "zz9"));
    assert!(matches!(pending.request(), StoreRequest::FindById { id } if id == "zz9"));
    let step = resume(
        &mut cache,
        pending,
        StoreReply::Failed(StoreError::NotFound),
        1_000,
        DAY,
        String::new(),
    );
    assert!(matches!(ended(step), Outcome::NotFound));
    assert_eq!(cache.size(), 0);
    assert_eq!(cache.size_by_locator(), 0);
    assert!(matches!(lookup(&cache, "zz9".to_string(), 1_000), Step::Ask(_)));
}

#[test]
fn create_or_reuse_twice_returns_the_same_id_with_one_create() {
    let mut cache = Cache::new();
    let mut store = fake_store();
    let locator = "https://example.com/x";
    let first = create_or_reuse(&cache, locator.to_string(), 1_000);
    let first = run(&mut cache, &mut store, first, 1_000, "aaaaaaaaaa");
    let second = create_or_reuse(&cache, locator.to_string(), 1_000);
    let second = run(&mut cache, &mut store, second, 1_000, "bbbbbbbbbb");
    assert!(matches!(&first, Outcome::Identifier(id) if id == "aaaaaaaaaa"));
    assert!(matches!(&second, Outcome::Identifier(id) if id == "aaaaaaaaaa"));
    assert_eq!(store.creates, 1);
    assert_eq!(store.by_id.len(), 1);
    assert_eq!(store.finds, 1);
}

#[test]
fn create_or_reuse_after_the_cache_forgot_reuses_the_stored_id() {
    let mut cache = Cache::new();
    let mut store = fake_store();
    let locator = "https://example.com/x";
    let first = create_or_reuse(&cache, locator.to_string(), 1_000);
    let first = run(&mut cache, &mut store, first, 1_000, "aaaaaaaaaa");
    cache.evict("aaaaaaaaaa".to_string());
    let second = create_or_reuse(&cache, locator.to_string(), 2_000);
    let second = run(&mut cache, &mut store, second, 2_000, "bbbbbbbbbb");
    assert!(matches!(&first, Outcome::Identifier(id) if id == "aaaaaaaaaa"));
    assert!(matches!(&second, Outcome::Identifier(id) if id == "aaaaaaaaaa"));
    assert_eq!(store.creates, 1);
    assert_eq!(store.refreshes, 1);
    assert_eq!(store.by_id.len(), 1);
    assert_eq!(store.by_id["aaaaaaaaaa"].expires_at, 2_000 + DAY as i64);
    assert_eq!(cache.get_by_id("aaaaaaaaaa", 2_000).unwrap().expires_at, 2_000 + DAY as i64);
}

#[test]
fn lookup_hit_answers_from_the_cache() {
    let mut cache = Cache::new();
    cache.upsert(rec("abc", "https://example.com/a", 2_000));
    let outcome = ended(lookup(&cache, "abc".to_string(), 1_000));
    assert!(matches!(outcome, Outcome::Locator(l) if l == "https://example.com/a"));
}

#[test]
fn lookup_of_an_expired_entry_asks_the_store() {
    let mut cache = Cache::new();
    cache.upsert(rec("abc", "https://example.com/a", 2_000));
    let pending = asked(lookup(&cache, "abc".to_string(), 2_000));
    assert!(matches!(pending, Pending::Lookup { id } if id == "abc"));
}

#[test]
fn lookup_miss_fills_both_indices_with_a_fresh_expiration() {
    let mut cache = Cache::new();
    let pending = asked(lookup(&cache, "abc".to_string(), 1_000));
    let reply = StoreReply::Found(rec("abc", "https://example.com/a", 1_500));
    let step = resume(&mut cache, pending, reply, 1_000, DAY, String::new());
    assert!(matches!(ended(step), Outcome::Locator(l) if l == "https://example.com/a"));
    let by_id = cache.get_by_id("abc", 1_000).unwrap();
    assert_eq!(by_id.locator, "https://example.com/a");
    assert_eq!(by_id.expires_at, 1_000 + 86_400);
    let by_locator = cache.get_by_locator("https://example.com/a", 1_000).unwrap();
    assert_eq!(by_locator.id, "abc");
    assert_eq!(by_locator.expires_at, 87_400);
    assert_eq!(cache.size(), 1);
    assert_eq!(cache.size_by_locator(), 1);
}

#[test]
fn lookup_fill_grants_a_fresh_expiration_whatever_the_store_holds() {
    let mut cache = Cache::new();
    let pending = asked(lookup(&cache, "abc".to_string(), 1_000));
    let reply = StoreReply::Found(rec("abc", "https://example.com/a", 500_000));
    let step = resume(&mut cache, pending, reply, 1_000, DAY, String::new());
    assert!(matches!(ended(step), Outcome::Locator(l) if l == "https://example.com/a"));
    assert_eq!(cache.get_by_id("abc", 1_000).unwrap().expires_at, 87_400);
    assert_eq!(cache.get_by_locator("https://example.com/a", 1_000).unwrap().expires_at, 87_400);
}

#[test]
fn lookup_of_a_row_that_expired_in_the_store_is_not_found() {
    let mut cache = Cache::new();
    cache.upsert(rec("other", "https://example.com/other", 5_000));
    let pending = asked(lookup(&cache, "abc".to_string(), 1_000));
    let reply = StoreReply::Found(rec("abc", "https://example.com/a", 999));
    let step = resume(&mut cache, pending, reply, 1_000, DAY, String::new());
    assert!(matches!(ended(step), Outcome::NotFound));
    assert_eq!(cache.size(), 1);
    assert_eq!(cache.size_by_locator(), 1);
    assert!(cache.get_by_id("abc", 0).is_none());
    assert!(cache.get_by_locator("https://example.com/a", 0).is_none());
    assert_eq!(cache.get_by_id("other", 1_000).unwrap().expires_at, 5_000);
}

#[test]
fn lookup_of_a_row_that_expires_this_instant_is_not_found() {
    let mut cache = Cache::new();
    let pending = asked(lookup(&cache, "abc".to_string(), 1_000));
    let reply = StoreReply::Found(rec("abc", "https://example.com/a", 1_000));
    let step = resume(&mut cache, pending, reply, 1_000, DAY, String::new());
    assert!(matches!(ended(step), Outcome::NotFound));
    assert_eq!(cache.size(), 0);
    assert_eq!(cache.size_by_locator(), 0);
    let pending = asked(lookup(&cache, "abc".to_string(), 1_000));
    let reply = StoreReply::Found(rec("abc", "https://example.com/a", 1_001));
    let step = resume(&mut cache, pending, reply, 1_000, DAY, String::new());
    assert!(matches!(ended(step), Outcome::Locator(_)));
    assert_eq!(cache.size(), 1);
}

#[test]
fn lookup_through_a_store_that_has_not_purged_an_expired_row_is_not_found() {
    let mut cache = Cache::new();
    let mut store = fake_store();
    store.by_id.insert("abc".to_string(), rec("abc", "https://example.com/a", 900));
    let first = lookup(&cache, "abc".to_string(), 1_000);
    let outcome = run(&mut cache, &mut store, first, 1_000, "unused0000");
    assert!(matches!(outcome, Outcome::NotFound));
    assert_eq!(store.finds, 1);
    assert_eq!(cache.size(), 0);
    assert_eq!(cache.size_by_locator(), 0);
}

#[test]
fn creation_reuses_a_row_that_expired_in_the_store_but_is_not_purged() {
    let mut cache = Cache::new();
    let mut store = fake_store();
    store.by_id.insert("abc".to_string(), rec("abc", "https://example.com/a", 900));
    let first = create_or_reuse(&cache, "https://example.com/a".to_string(), 1_000);
    let outcome = run(&mut cache, &mut store, first, 1_000, "unused0000");
    assert!(matches!(outcome, Outcome::Identifier(id) if id == "abc"));
    assert_eq!(store.creates, 0);
    assert_eq!(store.refreshes, 1);
    assert_eq!(store.by_id["abc"].expires_at, 87_400);
    assert_eq!(cache.get_by_id("abc", 1_000).unwrap().expires_at, 87_400);
    assert_eq!(cache.get_by_locator("https://example.com/a", 1_000).unwrap().id, "abc");
}

#[test]
fn a_created_record_is_found_under_both_keys_as_it_was_filed() {
    let mut cache = Cache::new();
    let mut store = fake_store();
    let first = create_or_reuse(&cache, "https://example.com/x".to_string(), 1_000);
    let outcome = run(&mut cache, &mut store, first, 1_000, "aaaaaaaaaa");
    assert!(matches!(outcome, Outcome::Identifier(id) if id == "aaaaaaaaaa"));
    let by_id = cache.get_by_id("aaaaaaaaaa", 87_399).unwrap();
    assert_eq!(by_id.id, "aaaaaaaaaa");
    assert_eq!(by_id.locator, "https://example.com/x");
    assert_eq!(by_id.expires_at, 87_400);
    let by_locator = cache.get_by_locator("https://example.com/x", 87_399).unwrap();
    assert_eq!(by_locator.id, "aaaaaaaaaa");
    assert_eq!(by_locator.locator, "https://example.com/x");
    assert_eq!(by_locator.expires_at, 87_400);
    assert!(cache.get_by_id("aaaaaaaaaa", 87_400).is_none());
    assert!(cache.get_by_locator("https://example.com/x", 87_400).is_none());
}

#[test]
fn lookup_with_the_store_unavailable_is_a_service_failure() {
    let mut cache = Cache::new();
    let pending = asked(lookup(&cache, "abc".to_string(), 1_000));
    let reply = StoreReply::Failed(StoreError::Unavailable);
    let step = resume(&mut cache, pending, reply, 1_000, DAY, String::new());
    assert!(matches!(ended(step), Outcome::ServiceFailure));
    assert_eq!(cache.size(), 0);
}

#[test]
fn lookup_with_an_answer_that_fits_no_find_is_a_service_failure() {
    let mut cache = Cache::new();
    let pending = asked(lookup(&cache, "abc".to_string(), 1_000));
    let step = resume(&mut cache, pending, StoreReply::Done, 1_000, DAY, String::new());
    assert!(matches!(ended(step), Outcome::ServiceFailure));
    let pending = asked(lookup(&cache, "abc".to_string(), 1_000));
    let reply = StoreReply::Failed(StoreError::ConstraintViolation);
    let step = resume(&mut cache, pending, reply, 1_000, DAY, String::new());
    assert!(matches!(ended(step), Outcome::ServiceFailure));
    assert_eq!(cache.size(), 0);
}

#[test]
fn creation_hit_answers_from_the_cache() {
    let mut cache = Cache::new();
    cache.upsert(rec("abc", "https://example.com/a", 2_000));
    let outcome = ended(create_or_reuse(&cache, "https://example.com/a".to_string(), 1_999));
    assert!(matches!(outcome, Outcome::Identifier(id) if id == "abc"));
    assert_eq!(cache.get_by_id("abc", 1_999).unwrap().expires_at, 2_000);
}

#[test]
fn creation_miss_asks_the_store_for_the_locator() {
    let cache = Cache::new();
    let pending = asked(create_or_reuse(&cache, "https://example.com/a".to_string(), 1_000));
    assert!(matches!(&pending, Pending::Find { locator } if locator == "https://example.com/a"));
    assert!(matches!(
        pending.request(),
        StoreRequest::FindByLocator { locator } if locator == "https://example.com/a"
    ));
}

#[test]
fn creation_found_in_the_store_refreshes_then_caches() {
    let mut cache = Cache::new();
    let pending = Pending::Find { locator: "https://example.com/a".to_string() };
    let reply = StoreReply::Found(rec("abc", "https://example.com/a", 1_500));
    let pending = asked(resume(&mut cache, pending, reply, 1_000, DAY, "unused0000".to_string()));
    assert_eq!(cache.size(), 0);
    match &pending {
        Pending::Refresh { record } => {
            assert_eq!(record.id, "abc");
            assert_eq!(record.locator, "https://example.com/a");
            assert_eq!(record.expires_at, 87_400);
        }
        other => panic!("unexpected {:?}", other),
    }
    assert!(matches!(
        pending.request(),
        StoreRequest::RefreshExpiration { id, expires_at } if id == "abc" && expires_at == 87_400
    ));
    let step = resume(&mut cache, pending, StoreReply::Done, 1_001, DAY, String::new());
    assert!(matches!(ended(step), Outcome::Identifier(id) if id == "abc"));
    assert_eq!(cache.get_by_id("abc", 1_001).unwrap().expires_at, 87_400);
    assert_eq!(cache.get_by_locator("https://example.com/a", 1_001).unwrap().id, "abc");
}

#[test]
fn creation_refresh_never_brings_an_expiration_forward() {
    let mut cache = Cache::new();
    let pending = Pending::Find { locator: "https://example.com/a".to_string() };
    let reply = StoreReply::Found(rec("abc", "https://example.com/a", 900_000));
    let pending = asked(resume(&mut cache, pending, reply, 1_000, DAY, String::new()));
    assert!(matches!(pending, Pending::Refresh { record } if record.expires_at == 900_000));
}

#[test]
fn creation_not_found_creates_with_the_candidate() {
    let mut cache = Cache::new();
    let pending = Pending::Find { locator: "https://example.com/a".to_string() };
    let reply = StoreReply::Failed(StoreError::NotFound);
    let pending = asked(resume(&mut cache, pending, reply, 1_000, DAY, "Ab3_-xyz90".to_string()));
    match pending.request() {
        StoreRequest::Create { record } => {
            assert_eq!(record.id, "Ab3_-xyz90");
            assert_eq!(record.locator, "https://example.com/a");
            assert_eq!(record.expires_at, 87_400);
        }
        other => panic!("unexpected {:?}", other),
    }
    assert_eq!(cache.size(), 0);
    let step = resume(&mut cache, pending, StoreReply::Done, 1_000, DAY, String::new());
    assert!(matches!(ended(step), Outcome::Identifier(id) if id == "Ab3_-xyz90"));
    assert_eq!(cache.get_by_locator("https://example.com/a", 1_000).unwrap().id, "Ab3_-xyz90");
    assert_eq!(cache.get_by_id("Ab3_-xyz90", 1_000).unwrap().locator, "https://example.com/a");
}

#[test]
fn creation_that_loses_the_race_reads_again() {
    let mut cache = Cache::new();
    let pending = Pending::Create { record: rec("mine000000", "https://example.com/a", 87_400) };
    let reply = StoreReply::Failed(StoreError::ConstraintViolation);
    let pending = asked(resume(&mut cache, pending, reply, 1_000, DAY, String::new()));
    assert!(matches!(&pending, Pending::Reread { locator } if locator == "https://example.com/a"));
    assert!(matches!(
        pending.request(),
        StoreRequest::FindByLocator { locator } if locator == "https://example.com/a"
    ));
    let reply = StoreReply::Found(rec("theirs0000", "https://example.com/a", 87_000));
    let pending = asked(resume(&mut cache, pending, reply, 1_000, DAY, String::new()));
    assert!(matches!(&pending, Pending::Refresh { record } if record.id == "theirs0000"));
    let step = resume(&mut cache, pending, StoreReply::Done, 1_000, DAY, String::new());
    assert!(matches!(ended(step), Outcome::Identifier(id) if id == "theirs0000"));
    assert!(cache.get_by_id("mine000000", 1_000).is_none());
    assert_eq!(cache.get_by_locator("https://example.com/a", 1_000).unwrap().id, "theirs0000");
}

#[test]
fn reread_that_finds_nothing_is_a_service_failure() {
    let mut cache = Cache::new();
    let pending = Pending::Reread { locator: "https://example.com/a".to_string() };
    let reply = StoreReply::Failed(StoreError::NotFound);
    let step = resume(&mut cache, pending, reply, 1_000, DAY, "cand000000".to_string());
    assert!(matches!(ended(step), Outcome::ServiceFailure));
    assert_eq!(cache.size(), 0);
}

#[test]
fn creation_with_the_store_unavailable_is_a_service_failure() {
    let mut cache = Cache::new();
    let unavailable = || StoreReply::Failed(StoreError::Unavailable);
    let find = Pending::Find { locator: "https://example.com/a".to_string() };
    let step = resume(&mut cache, find, unavailable(), 1_000, DAY, String::new());
    assert!(matches!(ended(step), Outcome::ServiceFailure));
    let refresh = Pending::Refresh { record: rec("abc", "https://example.com/a", 87_400) };
    let step = resume(&mut cache, refresh, unavailable(), 1_000, DAY, String::new());
    assert!(matches!(ended(step), Outcome::ServiceFailure));
    let create = Pending::Create { record: rec("abc", "https://example.com/a", 87_400) };
    let step = resume(&mut cache, create, unavailable(), 1_000, DAY, String::new());
    assert!(matches!(ended(step), Outcome::ServiceFailure));
    let reread = Pending::Reread { locator: "https://example.com/a".to_string() };
    let step = resume(&mut cache, reread, unavailable(), 1_000, DAY, String::new());
    assert!(matches!(ended(step), Outcome::ServiceFailure));
    assert_eq!(cache.size(), 0);
    assert_eq!(cache.size_by_locator(), 0);
}

#[test]
fn refresh_of_a_record_that_vanished_is_a_service_failure() {
    let mut cache = Cache::new();
    let refresh = Pending::Refresh { record: rec("abc", "https://example.com/a", 87_400) };
    let reply = StoreReply::Failed(StoreError::NotFound);
    let step = resume(&mut cache, refresh, reply, 1_000, DAY, String::new());
    assert!(matches!(ended(step), Outcome::ServiceFailure));
    assert_eq!(cache.size(), 0);
}

#[test]
fn every_creation_ends_within_four_questions() {
    let mut cache = Cache::new();
    let mut questions = 0;
    let mut step = create_or_reuse(&cache, "https://example.com/a".to_string(), 1_000);
    let replies = vec![
        StoreReply::Failed(StoreError::NotFound),
        StoreReply::Failed(StoreError::ConstraintViolation),
        StoreReply::Found(rec("theirs0000", "https://example.com/a", 87_000)),
        StoreReply::Done,
    ];
    for reply in replies {
        let pending = asked(step);
        questions += 1;
        step = resume(&mut cache, pending, reply, 1_000, DAY, "mine000000".to_string());
    }
    assert_eq!(questions, 4);
    assert!(matches!(ended(step), Outcome::Identifier(id) if id == "theirs0000"));
}

#[test]
fn resume_now_creates_with_a_generated_identifier() {
    let mut cache = Cache::new();
    let pending = Pending::Find { locator: "https://example.com/a".to_string() };
    let reply = StoreReply::Failed(StoreError::NotFound);
    let pending = asked(resume_now(&mut cache, pending, reply, DAY));
    let (id, expires_at) = match &pending {
        Pending::Create { record } => {
            assert_eq!(record.locator, "https://example.com/a");
            (record.id.clone(), record.expires_at)
        }
        other => panic!("unexpected {:?}", other),
    };
    assert_eq!(id.chars().count(), 10);
    assert!(id.chars().all(|c| c.is_ascii_alphanumeric() || c == '_' || c == '-'));
    assert!(expires_at > 86_400);
    let step = resume_now(&mut cache, pending, StoreReply::Done, DAY);
    assert!(matches!(ended(step), Outcome::Identifier(got) if got == id));
    assert_eq!(cache.get_by_id(&id, expires_at - 1).unwrap().locator, "https://example.com/a");
}

#[test]
fn resume_now_without_a_creation_reports_what_the_store_said() {
    let mut cache = Cache::new();
    let pending = Pending::Lookup { id: "zz9".to_string() };
    let step = resume_now(&mut cache, pending, StoreReply::Failed(StoreError::NotFound), DAY);
    assert!(matches!(ended(step), Outcome::NotFound));
    assert_eq!(cache.size(), 0);
}

#[test]
fn lookup_now_reads_the_clock() {
    let mut cache = Cache::new();
    cache.upsert(rec("old", "https://example.com/old", 1));
    cache.upsert(rec("new", "https://example.com/new", i64::MAX));
    assert!(matches!(asked(lookup_now(&cache, "old".to_string())), Pending::Lookup { .. }));
    let outcome = ended(lookup_now(&cache, "new".to_string()));
    assert!(matches!(outcome, Outcome::Locator(l) if l == "https://example.com/new"));
}

#[test]
fn create_or_reuse_now_reads_the_clock() {
    let mut cache = Cache::new();
    cache.upsert(rec("old", "https://example.com/old", 1));
    cache.upsert(rec("new", "https://example.com/new", i64::MAX));
    let step = create_or_reuse_now(&cache, "https://example.com/old".to_string());
    assert!(matches!(asked(step), Pending::Find { .. }));
    let step = create_or_reuse_now(&cache, "https://example.com/new".to_string());
    assert!(matches!(ended(step), Outcome::Identifier(id) if id == "new"));
}

#[test]
fn short_link_appends_the_identifier() {
    assert_eq!(
        short_link("https://shortrl.shuttleapp.rs/", "abcd1234"),
        "https://shortrl.shuttleapp.rs/abcd1234"
    );
    assert_eq!(short_link("", "x"), "x");
    assert_eq!(short_link("base/", ""), "base/");
}
