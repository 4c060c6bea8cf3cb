use vstd::prelude::*;
use crate::extract::{LogParser, RegexParser, captures_of};
use crate::record::{Record, RecordView, Timestamp, records_view};
use crate::window::{admits, within_window};

verus! {

/// The records that `p` extracts from `lines` and that lie in the window,
/// in line order.
pub open spec fn accepted_lines<P: LogParser>(
    p: &P,
    lines: Seq<Seq<char>>,
    since: Option<Timestamp>,
    until: Option<Timestamp>,
) -> Seq<RecordView>
    decreases lines.len(),
{
    if lines.len() == 0 {
        seq![]
    } else {
        let prev = accepted_lines(p, lines.drop_last(), since, until);
        match p.parse_spec(lines.last()) {
            Some(v) => if admits(v.time, since, until) {
                prev.push(v)
            } else {
                prev
            },
            None => prev,
        }
    }
}

/// The records loaded from a list of inputs, in input order and then line
/// order; an input that could not be read (`None`) contributes nothing.
pub open spec fn loaded<P: LogParser>(
    p: &P,
    files: Seq<Option<Seq<Seq<char>>>>,
    since: Option<Timestamp>,
    until: Option<Timestamp>,
) -> Seq<RecordView>
    decreases files.len(),
{
    if files.len() == 0 {
        seq![]
    } else {
        loaded(p, files.drop_last(), since, until) + match files.last() {
            Some(lines) => accepted_lines(p, lines, since, until),
            None => seq![],
        }
    }
}

pub open spec fn lines_view(v: Seq<String>) -> Seq<Seq<char>> {
    v.map_values(|s: String| s@)
}

pub open spec fn file_view(f: Option<Vec<String>>) -> Option<Seq<Seq<char>>> {
    match f {
        Some(v) => Some(lines_view(v@)),
        None => None,
    }
}

pub open spec fn files_view(files: Seq<Option<Vec<String>>>) -> Seq<Option<Seq<Seq<char>>>> {
    files.map_values(|f: Option<Vec<String>>| file_view(f))
}

/// Appends to `out` the records that `parser` extracts from `lines` and
/// that lie in the window, in line order.
pub fn accept_lines<P: LogParser>(
    out: &mut Vec<Record>,
    lines: &Vec<String>,
    parser: &P,
    since: &Option<Timestamp>,
    until: &Option<Timestamp>,
)
    ensures
        records_view(final(out)@) == records_view(old(out)@) + accepted_lines(parser, lines_view(lines@), *since, *until),
{
    let ghost start = records_view(out@);
    let mut i: usize = 0;
    while i < lines.len()
        invariant
            i <= lines.len(),
            records_view(out@) == start + accepted_lines(parser, lines_view(lines@.subrange(0, i as int)), *since, *until),
        decreases lines.len() - i,
    {
        let ghost prev = out@;
        let ghost sub = lines_view(lines@.subrange(0, i + 1));
        proof {
            assert(sub.drop_last() =~= lines_view(lines@.subrange(0, i as int)));
            assert(sub.last() == lines@[i as int]@);
        }
        if let Some(e) = parser.parse(lines[i].as_str()) {
            if within_window(&e, since, until) {
                out.push(e);
                assert(records_view(out@) =~= records_view(prev).push(e@));
            }
        }
        i = i + 1;
    }
    assert(lines@.subrange(0, i as int) =~= lines@);
}

/// The batch loader: the records extracted from each readable input in
/// turn, filtered by the window. An input that could not be read is `None`
/// and is skipped.
pub fn load_entries<P: LogParser>(
    files: &Vec<Option<Vec<String>>>,
    parser: &P,
    since: &Option<Timestamp>,
    until: &Option<Timestamp>,
) -> (r: Vec<Record>)
    ensures
        records_view(r@) == loaded(parser, files_view(files@), *since, *until),
{
    let mut out: Vec<Record> = Vec::new();
    let mut i: usize = 0;
    while i < files.len()
        invariant
            i <= files.len(),
            records_view(out@) == loaded(parser, files_view(files@.subrange(0, i as int)), *since, *until),
        decreases files.len() - i,
    {
        let ghost sub = files_view(files@.subrange(0, i + 1));
        proof {
            assert(sub.drop_last() =~= files_view(files@.subrange(0, i as int)));
            assert(sub.last() == file_view(files@[i as int]));
        }
        match &files[i] {
            Some(lines) => {
                accept_lines(&mut out, lines, parser, since, until);
            },
            None => {
                assert(records_view(out@) =~= records_view(out@) + Seq::<RecordView>::empty());
            },
        }
        i = i + 1;
    }
    assert(files@.subrange(0, i as int) =~= files@);
    out
}

/// Loading two lists of inputs one after the other gives the records of
/// the first list and then those of the second.
pub proof fn lemma_loaded_concat<P: LogParser>(
    p: &P,
    a: Seq<Option<Seq<Seq<char>>>>,
    b: Seq<Option<Seq<Seq<char>>>>,
    since: Option<Timestamp>,
    until: Option<Timestamp>,
)
    ensures
        loaded(p, a + b, since, until) == loaded(p, a, since, until) + loaded(p, b, since, until),
    decreases b.len(),
{
    if b.len() == 0 {
        assert(a + b =~= a);
        assert(loaded(p, a, since, until) + loaded(p, b, since, until) =~= loaded(p, a, since, until));
    } else {
        assert((a + b).drop_last() =~= a + b.drop_last());
        lemma_loaded_concat(p, a, b.drop_last(), since, until);
        let tail = match b.last() {
            Some(lines) => accepted_lines(p, lines, since, until),
            None => seq![],
        };
        assert(loaded(p, a + b, since, until) =~= loaded(p, a, since, until) + loaded(p, b.drop_last(), since, until) + tail);
    }
}

/// An input that cannot be read is skipped: the other inputs give the same
/// records, in the same order, as if it were not in the list.
pub proof fn lemma_missing_input_skipped<P: LogParser>(
    p: &P,
    files: Seq<Option<Seq<Seq<char>>>>,
    k: int,
    since: Option<Timestamp>,
    until: Option<Timestamp>,
)
    requires
        0 <= k < files.len(),
        files[k] is None,
    ensures
        loaded(p, files, since, until) == loaded(p, files.remove(k), since, until),
{
    let a = files.subrange(0, k);
    let b = files.subrange(k + 1, files.len() as int);
    assert(files =~= a + (seq![files[k]] + b));
    assert(files.remove(k) =~= a + b);
    lemma_loaded_concat(p, a, seq![files[k]] + b, since, until);
    lemma_loaded_concat(p, seq![files[k]], b, since, until);
    lemma_loaded_concat(p, a, b, since, until);
    let single = seq![files[k]];
    assert(single.drop_last() =~= Seq::<Option<Seq<Seq<char>>>>::empty());
    assert(loaded(p, single.drop_last(), since, until) =~= Seq::<RecordView>::empty());
    assert(single.last() is None);
    assert(loaded(p, single, since, until) =~= Seq::<RecordView>::empty());
    assert(loaded(p, single, since, until) + loaded(p, b, since, until) =~= loaded(p, b, since, until));
}

/// Every record that the regular-expression extractor accepts from `lines`
/// holds one of those lines, one that its pattern matches.
pub proof fn lemma_accepted_from_matched_lines(
    p: &RegexParser,
    lines: Seq<Seq<char>>,
    since: Option<Timestamp>,
    until: Option<Timestamp>,
)
    ensures
        forall|j: int| 0 <= j < accepted_lines(p, lines, since, until).len() ==> {
            &&& lines.contains(#[trigger] accepted_lines(p, lines, since, until)[j].raw)
            &&& captures_of(p.pattern_text(), accepted_lines(p, lines, since, until)[j].raw) is Some
        },
    decreases lines.len(),
{
    if lines.len() > 0 {
        let prev = lines.drop_last();
        lemma_accepted_from_matched_lines(p, prev, since, until);
        assert forall|j: int| 0 <= j < accepted_lines(p, lines, since, until).len() implies {
            &&& lines.contains(#[trigger] accepted_lines(p, lines, since, until)[j].raw)
            &&& captures_of(p.pattern_text(), accepted_lines(p, lines, since, until)[j].raw) is Some
        } by {
            let out = accepted_lines(p, lines, since, until);
            if j < accepted_lines(p, prev, since, until).len() {
                let x = accepted_lines(p, prev, since, until)[j].raw;
                assert(out[j] == accepted_lines(p, prev, since, until)[j]);
                let w = choose|w: int| 0 <= w < prev.len() && prev[w] == x;
                assert(lines[w] == x);
            } else {
                assert(out[j].raw == lines[lines.len() - 1]);
            }
        }
    }
}

/// A line that the pattern does not match never shows up as a record of
/// the batch loader, whatever the other inputs hold.
pub proof fn lemma_unmatched_line_absent(
    p: &RegexParser,
    files: Seq<Option<Seq<Seq<char>>>>,
    line: Seq<char>,
    since: Option<Timestamp>,
    until: Option<Timestamp>,
)
    requires
        captures_of(p.pattern_text(), line) is None,
    ensures
        forall|j: int| 0 <= j < loaded(p, files, since, until).len() ==> #[trigger] loaded(p, files, since, until)[j].raw != line,
    decreases files.len(),
{
    if files.len() > 0 {
        lemma_unmatched_line_absent(p, files.drop_last(), line, since, until);
        if let Some(lines) = files.last() {
            lemma_accepted_from_matched_lines(p, lines, since, until);
        }
        let prev = loaded(p, files.drop_last(), since, until);
        let tail = match files.last() {
            Some(lines) => accepted_lines(p, lines, since, until),
            None => seq![],
        };
        assert forall|j: int| 0 <= j < loaded(p, files, since, until).len() implies #[trigger] loaded(p, files, since, until)[j].raw != line by {
            if j < prev.len() {
                assert(loaded(p, files, since, until)[j] == prev[j]);
            } else {
                assert(loaded(p, files, since, until)[j] == tail[j - prev.len()]);
            }
        }
    }
}

} // verus!
