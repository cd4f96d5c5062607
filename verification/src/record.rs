use vstd::prelude::*;

verus! {

/// A point in time, in whole seconds since the Unix epoch.
pub type Instant = i64;

/// The mathematical value of a [`Record`].
pub struct RecordView {
    pub id: Seq<char>,
    pub locator: Seq<char>,
    pub expires_at: int,
}

impl RecordView {
    /// A record is live at `now` while its expiration lies strictly after `now`.
    pub open spec fn is_live(self, now: int) -> bool {
        self.expires_at > now
    }
}

/// One mapping from a short identifier to a locator, valid until `expires_at`.
#[derive(Debug)]
pub struct Record {
    pub id: String,
    pub locator: String,
    pub expires_at: Instant,
}

impl View for Record {
    type V = RecordView;

    open spec fn view(&self) -> RecordView {
        RecordView { id: self.id@, locator: self.locator@, expires_at: self.expires_at as int }
    }
}

impl DeepView for Record {
    type V = RecordView;

    open spec fn deep_view(&self) -> RecordView {
        self@
    }
}

impl Clone for Record {
    fn clone(&self) -> (copy: Record)
        ensures
            copy@ == self@,
    {
        Record { id: self.id.clone(), locator: self.locator.clone(), expires_at: self.expires_at }
    }
}

impl Record {
    /// A record of the given identifier, locator and expiration.
    pub fn new(id: String, locator: String, expires_at: Instant) -> (record: Record)
        ensures
            record@ == (RecordView { id: id@, locator: locator@, expires_at: expires_at as int }),
    {
        Record { id, locator, expires_at }
    }

    /// Whether the record is still live at `now`.
    pub fn is_live(&self, now: Instant) -> (live: bool)
        ensures
            live == self@.is_live(now as int),
    {
        self.expires_at > now
    }

    /// Whether the record carries the identifier `id`.
    pub fn has_id(&self, id: &String) -> (same: bool)
        ensures
            same == (self@.id == id@),
    {
        self.id == *id
    }
}

} // verus!
