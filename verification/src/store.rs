use vstd::prelude::*;
use crate::record::{Instant, Record, RecordView};

verus! {

/// Why the store did not do what it was asked.
#[derive(Clone, Copy, Debug, PartialEq, Eq, Structural)]
pub enum StoreError {
    /// The store holds no such record.
    NotFound,
    /// The store holds a record that forbids the write: another writer came first.
    ConstraintViolation,
    /// The store could not be reached, or failed.
    Unavailable,
}

/// `sqlx::Error`, what a database call fails with. Nothing of its inside is visible here.
#[verifier::external_type_specification]
#[verifier::external_body]
pub struct ExDatabaseError(sqlx::Error);

/// What went wrong in a failed database call, as far as the cache layer tells failures apart.
#[derive(Clone, Copy, Debug, PartialEq, Eq, Structural)]
pub enum Failure {
    /// A query that expected a row got none.
    RowNotFound,
    /// A write broke a unique or primary key constraint.
    UniqueViolation,
    /// Anything else.
    Other,
}

/// Reads off a `sqlx::Error` which of the three failures it is: the variant `RowNotFound`, a
/// `Database` error whose `is_unique_violation` holds, or another. Nothing is claimed of the
/// result.
#[verifier::external_body]
pub(crate) fn failure_of(error: &sqlx::Error) -> (failure: Failure) {
    match error {
        sqlx::Error::RowNotFound => Failure::RowNotFound,
        sqlx::Error::Database(cause) if cause.is_unique_violation() => Failure::UniqueViolation,
        _ => Failure::Other,
    }
}

impl Failure {
    /// What a failure means to the cache layer: a missing row is "not found", a broken unique
    /// constraint is a lost race, and everything else is the store being unavailable.
    pub open spec fn meaning(self) -> StoreError {
        match self {
            Failure::RowNotFound => StoreError::NotFound,
            Failure::UniqueViolation => StoreError::ConstraintViolation,
            Failure::Other => StoreError::Unavailable,
        }
    }

    /// What the failure means to the cache layer.
    pub fn classify(self) -> (error: StoreError)
        ensures
            error == self.meaning(),
    {
        match self {
            Failure::RowNotFound => StoreError::NotFound,
            Failure::UniqueViolation => StoreError::ConstraintViolation,
            Failure::Other => StoreError::Unavailable,
        }
    }
}

/// What a failed database call means to the cache layer.
pub fn store_error(error: &sqlx::Error) -> (meaning: StoreError) {
    failure_of(error).classify()
}

/// What the cache layer asks of the store.
#[derive(Debug)]
pub enum StoreRequest {
    /// The record of an identifier.
    FindById { id: String },
    /// The record of a locator.
    FindByLocator { locator: String },
    /// To keep a new record.
    Create { record: Record },
    /// To move the expiration of the record of `id` to `expires_at`.
    RefreshExpiration { id: String, expires_at: Instant },
}

/// The mathematical value of a [`StoreRequest`].
pub enum StoreRequestView {
    FindById { id: Seq<char> },
    FindByLocator { locator: Seq<char> },
    Create { record: RecordView },
    RefreshExpiration { id: Seq<char>, expires_at: int },
}

impl View for StoreRequest {
    type V = StoreRequestView;

    open spec fn view(&self) -> StoreRequestView {
        match self {
            StoreRequest::FindById { id } => StoreRequestView::FindById { id: id@ },
            StoreRequest::FindByLocator { locator } => StoreRequestView::FindByLocator {
                locator: locator@,
            },
            StoreRequest::Create { record } => StoreRequestView::Create { record: record@ },
            StoreRequest::RefreshExpiration { id, expires_at } => {
                StoreRequestView::RefreshExpiration { id: id@, expires_at: *expires_at as int }
            },
        }
    }
}

/// What the store answers.
#[derive(Debug)]
pub enum StoreReply {
    /// The record that was asked for.
    Found(Record),
    /// The write was made.
    Done,
    /// Nothing was found or done.
    Failed(StoreError),
}

/// The mathematical value of a [`StoreReply`].
pub enum StoreReplyView {
    Found(RecordView),
    Done,
    Failed(StoreError),
}

impl View for StoreReply {
    type V = StoreReplyView;

    open spec fn view(&self) -> StoreReplyView {
        match self {
            StoreReply::Found(record) => StoreReplyView::Found(record@),
            StoreReply::Done => StoreReplyView::Done,
            StoreReply::Failed(error) => StoreReplyView::Failed(*error),
        }
    }
}

} // verus!
