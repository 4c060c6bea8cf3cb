use vstd::prelude::*;
use std::collections::HashMap;
use crate::record::{Record, RecordView, records_view};

verus! {

broadcast use vstd::std_specs::hash::group_hash_axioms;

/// The number of records with each status code; records without a status
/// are not counted.
pub open spec fn histogram(s: Seq<RecordView>) -> Map<u16, nat>
    decreases s.len(),
{
    if s.len() == 0 {
        Map::empty()
    } else {
        let h = histogram(s.drop_last());
        match s.last().status {
            None => h,
            Some(c) => h.insert(c, if h.contains_key(c) { h[c] + 1 } else { 1 }),
        }
    }
}

/// `m` holds exactly the counts of `h`.
pub open spec fn counts_match(m: Map<u16, usize>, h: Map<u16, nat>) -> bool {
    &&& m.dom() == h.dom()
    &&& forall|k: u16| #[trigger] h.contains_key(k) ==> m[k] as nat == h[k]
}

/// The total number of records and the number of records per status code.
pub struct Summary {
    pub total: usize,
    pub by_status: HashMap<u16, usize>,
}

proof fn lemma_histogram_bounded(s: Seq<RecordView>)
    ensures
        forall|k: u16| #[trigger] histogram(s).contains_key(k) ==> 1 <= histogram(s)[k] <= s.len(),
    decreases s.len(),
{
    if s.len() > 0 {
        let p = s.drop_last();
        lemma_histogram_bounded(p);
        assert forall|k: u16| #[trigger] histogram(s).contains_key(k) implies 1 <= histogram(s)[k] <= s.len() by {
            if histogram(p).contains_key(k) {
                assert(histogram(p)[k] <= p.len());
            }
        }
    }
}

/// The aggregator: the total and the histogram of `entries`.
pub fn summarize(entries: &Vec<Record>) -> (r: Summary)
    ensures
        r.total == entries@.len(),
        counts_match(r.by_status@, histogram(records_view(entries@))),
{
    let mut by_status: HashMap<u16, usize> = HashMap::new();
    let mut i: usize = 0;
    while i < entries.len()
        invariant
            i <= entries.len(),
            counts_match(by_status@, histogram(records_view(entries@.subrange(0, i as int)))),
        decreases entries.len() - i,
    {
        let ghost sub = records_view(entries@.subrange(0, i + 1));
        proof {
            assert(sub.drop_last() =~= records_view(entries@.subrange(0, i as int)));
            assert(sub.last() == entries@[i as int]@);
            lemma_histogram_bounded(sub.drop_last());
        }
        if let Some(s) = entries[i].status {
            let count: usize = match by_status.get(&s) {
                Some(c) => *c,
                None => 0,
            };
            by_status.insert(s, count + 1);
            assert(by_status@.dom() =~= histogram(sub).dom());
        }
        i = i + 1;
    }
    assert(entries@.subrange(0, i as int) =~= entries@);
    Summary { total: entries.len(), by_status }
}

/// The last `n` records of `entries`, most recent first.
pub fn recent(entries: &Vec<Record>, n: usize) -> (r: Vec<Record>)
    ensures
        r@.len() == if n < entries@.len() { n as int } else { entries@.len() as int },
        forall|j: int| 0 <= j < r@.len() ==> #[trigger] r@[j]@ == entries@[entries@.len() - 1 - j]@,
{
    let len = entries.len();
    let mut r: Vec<Record> = Vec::new();
    let mut j: usize = 0;
    while j < n && j < len
        invariant
            j <= len,
            j <= n,
            len == entries@.len(),
            r@.len() == j,
            forall|t: int| 0 <= t < j ==> #[trigger] r@[t]@ == entries@[len - 1 - t]@,
        decreases len - j,
    {
        r.push(entries[len - 1 - j].duplicate());
        j = j + 1;
    }
    r
}

/// The summary of no records is a total of zero and an empty histogram.
pub proof fn lemma_summary_of_nothing()
    ensures
        histogram(Seq::<RecordView>::empty()) == Map::<u16, nat>::empty(),
{
}

/// The histogram of `k` records that all carry status `code` holds the
/// single count `k` for that code, and nothing where `k` is zero.
pub proof fn lemma_summary_of_one_status(s: Seq<RecordView>, code: u16)
    requires
        forall|j: int| 0 <= j < s.len() ==> (#[trigger] s[j]).status == Some(code),
    ensures
        s.len() == 0 ==> histogram(s) == Map::<u16, nat>::empty(),
        s.len() > 0 ==> histogram(s) == map![code => s.len()],
    decreases s.len(),
{
    if s.len() > 0 {
        let p = s.drop_last();
        lemma_summary_of_one_status(p, code);
        assert(s.last() == s[s.len() - 1]);
        if p.len() == 0 {
            assert(histogram(s) =~= map![code => 1nat]);
        } else {
            assert(histogram(s) =~= map![code => s.len()]);
        }
    }
}

} // verus!
