use vstd::prelude::*;

verus! {

/// An instant with a fixed UTC offset: `secs` and `nanos` give the instant
/// itself (seconds since the Unix epoch, in UTC), `offset` the offset in
/// seconds east of UTC that the text it came from carried.
#[derive(Debug, Clone, Copy, PartialEq, Eq, Structural)]
pub struct Timestamp {
    pub secs: i64,
    pub nanos: u32,
    pub offset: i32,
}

/// `a` is no later than `b`. Instants are ordered by the moment they
/// denote; the offset plays no part.
pub open spec fn not_after(a: Timestamp, b: Timestamp) -> bool {
    a.secs < b.secs || (a.secs == b.secs && a.nanos <= b.nanos)
}

impl Timestamp {
    /// Whether `self` is no later than `other`.
    pub fn is_not_after(&self, other: &Timestamp) -> (r: bool)
        ensures
            r == not_after(*self, *other),
    {
        self.secs < other.secs || (self.secs == other.secs && self.nanos <= other.nanos)
    }
}

/// One parsed log line. `raw` is the line as read; each other field is
/// present only when the pattern captured it and it converted.
#[derive(Debug)]
pub struct Record {
    pub raw: String,
    pub source: Option<String>,
    pub target: Option<String>,
    pub status: Option<u16>,
    pub time: Option<Timestamp>,
}

/// The mathematical content of a `Record`.
pub struct RecordView {
    pub raw: Seq<char>,
    pub source: Option<Seq<char>>,
    pub target: Option<Seq<char>>,
    pub status: Option<u16>,
    pub time: Option<Timestamp>,
}

pub open spec fn opt_text(o: Option<String>) -> Option<Seq<char>> {
    match o {
        Some(s) => Some(s@),
        None => None,
    }
}

pub open spec fn opt_record(o: Option<Record>) -> Option<RecordView> {
    match o {
        Some(r) => Some(r@),
        None => None,
    }
}

pub open spec fn records_view(v: Seq<Record>) -> Seq<RecordView> {
    v.map_values(|r: Record| r@)
}

impl View for Record {
    type V = RecordView;

    open spec fn view(&self) -> RecordView {
        RecordView {
            raw: self.raw@,
            source: opt_text(self.source),
            target: opt_text(self.target),
            status: self.status,
            time: self.time,
        }
    }
}

/// A copy of an optional string.
pub fn copy_text(o: &Option<String>) -> (r: Option<String>)
    ensures
        opt_text(r) == opt_text(*o),
{
    match o {
        Some(s) => Some(s.clone()),
        None => None,
    }
}

impl Record {
    /// An independent copy of the record.
    pub fn duplicate(&self) -> (r: Record)
        ensures
            r@ == self@,
    {
        Record {
            raw: self.raw.clone(),
            source: copy_text(&self.source),
            target: copy_text(&self.target),
            status: self.status,
            time: self.time,
        }
    }
}

/// Copies of all records of `v`, in order.
pub fn duplicate_all(v: &Vec<Record>) -> (r: Vec<Record>)
    ensures
        records_view(r@) == records_view(v@),
{
    let mut r: Vec<Record> = Vec::new();
    let mut i: usize = 0;
    while i < v.len()
        invariant
            i <= v.len(),
            r@.len() == i,
            records_view(r@) == records_view(v@.subrange(0, i as int)),
        decreases v.len() - i,
    {
        let d = v[i].duplicate();
        let ghost prev = r@;
        r.push(d);
        proof {
            assert(v@.subrange(0, i + 1) =~= v@.subrange(0, i as int).push(v@[i as int]));
            assert forall|k: int| 0 <= k < r@.len() implies #[trigger] r@[k]@ == v@.subrange(0, i + 1)[k]@ by {
                if k < i {
                    assert(records_view(prev)[k] == records_view(v@.subrange(0, i as int))[k]);
                }
            }
            assert(records_view(r@) =~= records_view(v@.subrange(0, i + 1)));
        }
        i = i + 1;
    }
    assert(v@.subrange(0, i as int) =~= v@);
    r
}

} // verus!
