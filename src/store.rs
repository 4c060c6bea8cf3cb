use vstd::prelude::*;
use crate::record::{Record, RecordView, duplicate_all, records_view};

verus! {

/// The ordered, append-only collection of records that producers fill and
/// readers copy. Callers that share it between threads hold it under one
/// lock, taken for a single `append` or `snapshot` at a time.
pub struct ObservationStore {
    entries: Vec<Record>,
}

impl View for ObservationStore {
    type V = Seq<RecordView>;

    closed spec fn view(&self) -> Seq<RecordView> {
        records_view(self.entries@)
    }
}

impl ObservationStore {
    /// An empty store.
    pub fn new() -> (r: ObservationStore)
        ensures
            r@ == Seq::<RecordView>::empty(),
    {
        let r = ObservationStore { entries: Vec::new() };
        assert(r@ =~= Seq::<RecordView>::empty());
        r
    }

    /// A store seeded with `entries`, in order.
    pub fn from_records(entries: Vec<Record>) -> (r: ObservationStore)
        ensures
            r@ == records_view(entries@),
    {
        ObservationStore { entries }
    }

    /// Adds `entry` after every record already held.
    pub fn append(&mut self, entry: Record)
        ensures
            final(self)@ == old(self)@.push(entry@),
    {
        let ghost e = entry@;
        self.entries.push(entry);
        assert(self@ =~= old(self)@.push(e));
    }

    /// An independent copy of every record held, in order.
    pub fn snapshot(&self) -> (r: Vec<Record>)
        ensures
            records_view(r@) == self@,
    {
        duplicate_all(&self.entries)
    }

    /// The number of records held.
    pub fn len(&self) -> (r: usize)
        ensures
            r == self@.len(),
    {
        self.entries.len()
    }
}

/// The contents of a store holding `s` after the records `es` were appended
/// one at a time, in that order.
pub open spec fn after_appends(s: Seq<RecordView>, es: Seq<RecordView>) -> Seq<RecordView>
    decreases es.len(),
{
    if es.len() == 0 {
        s
    } else {
        after_appends(s, es.drop_last()).push(es.last())
    }
}

/// However the appends of several producers interleave, none is lost: the
/// store then holds what it held before followed by every appended record
/// in the order of the appends, so an earlier snapshot is a prefix of any
/// later one and never longer.
pub proof fn lemma_appends_lose_nothing(s: Seq<RecordView>, es: Seq<RecordView>)
    ensures
        after_appends(s, es) == s + es,
        after_appends(s, es).len() == s.len() + es.len(),
        after_appends(s, es).subrange(0, s.len() as int) == s,
    decreases es.len(),
{
    if es.len() > 0 {
        lemma_appends_lose_nothing(s, es.drop_last());
        assert(s + es =~= (s + es.drop_last()).push(es.last()));
    } else {
        assert(s + es =~= s);
    }
    assert((s + es).subrange(0, s.len() as int) =~= s);
}

} // verus!
