use vstd::prelude::*;
use crate::batch::{accept_lines, accepted_lines, lines_view};
use crate::extract::LogParser;
use crate::record::{Record, Timestamp, opt_text, records_view};

verus! {

/// The byte that ends a line.
pub const LINE_END: u8 = 10;

/// The length of the longest prefix of `chunk` that ends with a line end:
/// the part of the chunk made of complete lines.
pub open spec fn complete_len(chunk: Seq<u8>) -> int
    decreases chunk.len(),
{
    if chunk.len() == 0 {
        0
    } else if chunk.last() == LINE_END {
        chunk.len() as int
    } else {
        complete_len(chunk.drop_last())
    }
}

pub proof fn lemma_complete_len_bounds(chunk: Seq<u8>)
    ensures
        0 <= complete_len(chunk) <= chunk.len(),
    decreases chunk.len(),
{
    if chunk.len() > 0 && chunk.last() != LINE_END {
        lemma_complete_len_bounds(chunk.drop_last());
    }
}

/// The lines of `text`, a run of complete lines, each without its line end.
pub open spec fn terminated_lines(text: Seq<u8>) -> Seq<Seq<u8>>
    decreases text.len(),
{
    if text.len() == 0 {
        seq![]
    } else {
        let body = text.drop_last();
        let k = complete_len(body);
        proof {
            lemma_complete_len_bounds(body);
        }
        terminated_lines(body.subrange(0, k)).push(body.subrange(k, body.len() as int))
    }
}

/// The text of a byte string that is valid UTF-8; nothing for any other.
pub uninterp spec fn utf8_text(bytes: Seq<u8>) -> Option<Seq<char>>;

/// Relies on `String::from_utf8`: it succeeds exactly on valid UTF-8 and
/// then holds the text that the bytes encode.
#[verifier::external_body]
fn decode_line(bytes: &Vec<u8>) -> (r: Option<String>)
    ensures
        opt_text(r) == utf8_text(bytes@),
{
    String::from_utf8(bytes.clone()).ok()
}

/// The texts of the lines that are valid UTF-8, in order.
pub open spec fn decoded_lines(lines: Seq<Seq<u8>>) -> Seq<Seq<char>>
    decreases lines.len(),
{
    if lines.len() == 0 {
        seq![]
    } else {
        let prev = decoded_lines(lines.drop_last());
        match utf8_text(lines.last()) {
            Some(t) => prev.push(t),
            None => prev,
        }
    }
}

pub open spec fn byte_lines_view(v: Seq<Vec<u8>>) -> Seq<Seq<u8>> {
    v.map_values(|b: Vec<u8>| b@)
}

/// Where `u` is empty or ends with a line end and `v` holds no line end,
/// the complete part of `u + v` is `u`.
proof fn lemma_complete_len_split(u: Seq<u8>, v: Seq<u8>)
    requires
        u.len() == 0 || u.last() == LINE_END,
        forall|j: int| 0 <= j < v.len() ==> v[j] != LINE_END,
    ensures
        complete_len(u + v) == u.len(),
    decreases v.len(),
{
    if v.len() == 0 {
        assert(u + v =~= u);
        if u.len() > 0 {
            assert(complete_len(u) == u.len());
        }
    } else {
        assert((u + v).drop_last() =~= u + v.drop_last());
        lemma_complete_len_split(u, v.drop_last());
    }
}

/// The complete part of a chunk ends with a line end, and what follows it
/// holds none: the cursor never moves into an unterminated fragment.
pub proof fn lemma_complete_part_exact(chunk: Seq<u8>)
    ensures
        0 <= complete_len(chunk) <= chunk.len(),
        complete_len(chunk) > 0 ==> chunk[complete_len(chunk) - 1] == LINE_END,
        forall|j: int| complete_len(chunk) <= j < chunk.len() ==> chunk[j] != LINE_END,
    decreases chunk.len(),
{
    lemma_complete_len_bounds(chunk);
    if chunk.len() > 0 && chunk.last() != LINE_END {
        let body = chunk.drop_last();
        lemma_complete_part_exact(body);
        assert forall|j: int| complete_len(chunk) <= j < chunk.len() implies chunk[j] != LINE_END by {
            if j < body.len() {
                assert(chunk[j] == body[j]);
            }
        }
    }
}

/// A copy of `v[from..to]`.
fn copy_range(v: &Vec<u8>, from: usize, to: usize) -> (r: Vec<u8>)
    requires
        from <= to <= v.len(),
    ensures
        r@ == v@.subrange(from as int, to as int),
{
    let mut r: Vec<u8> = Vec::new();
    let mut i: usize = from;
    while i < to
        invariant
            from <= i <= to <= v.len(),
            r@ == v@.subrange(from as int, i as int),
        decreases to - i,
    {
        r.push(v[i]);
        i = i + 1;
        assert(r@ =~= v@.subrange(from as int, i as int));
    }
    r
}

/// The complete lines at the start of `chunk`, each without its line end,
/// and the length of the part they take up.
pub fn split_complete(chunk: &Vec<u8>) -> (r: (Vec<Vec<u8>>, usize))
    ensures
        r.1 == complete_len(chunk@),
        byte_lines_view(r.0@) == terminated_lines(chunk@.subrange(0, complete_len(chunk@))),
{
    let mut out: Vec<Vec<u8>> = Vec::new();
    let mut start: usize = 0;
    let mut i: usize = 0;
    while i < chunk.len()
        invariant
            start <= i <= chunk.len(),
            start == 0 || chunk@[start - 1] == LINE_END,
            forall|j: int| start <= j < i ==> chunk@[j] != LINE_END,
            byte_lines_view(out@) == terminated_lines(chunk@.subrange(0, start as int)),
        decreases chunk.len() - i,
    {
        if chunk[i] == LINE_END {
            let line = copy_range(chunk, start, i);
            let ghost prev = out@;
            out.push(line);
            proof {
                let u = chunk@.subrange(0, start as int);
                let v = chunk@.subrange(start as int, i as int);
                let t = chunk@.subrange(0, i + 1);
                assert(t.drop_last() =~= u + v);
                lemma_complete_len_split(u, v);
                assert((u + v).subrange(0, start as int) =~= u);
                assert((u + v).subrange(start as int, i as int) =~= v);
                assert(byte_lines_view(out@) =~= byte_lines_view(prev).push(v));
            }
            start = i + 1;
        }
        i = i + 1;
    }
    proof {
        let u = chunk@.subrange(0, start as int);
        let v = chunk@.subrange(start as int, chunk.len() as int);
        assert(chunk@ =~= u + v);
        lemma_complete_len_split(u, v);
    }
    (out, start)
}

/// The texts of the lines that are valid UTF-8, in order.
pub fn decode_lines(lines: &Vec<Vec<u8>>) -> (r: Vec<String>)
    ensures
        lines_view(r@) == decoded_lines(byte_lines_view(lines@)),
{
    let mut out: Vec<String> = Vec::new();
    let mut i: usize = 0;
    while i < lines.len()
        invariant
            i <= lines.len(),
            lines_view(out@) == decoded_lines(byte_lines_view(lines@.subrange(0, i as int))),
        decreases lines.len() - i,
    {
        let ghost prev = out@;
        proof {
            let sub = byte_lines_view(lines@.subrange(0, i + 1));
            assert(sub.drop_last() =~= byte_lines_view(lines@.subrange(0, i as int)));
            assert(sub.last() == lines@[i as int]@);
        }
        if let Some(text) = decode_line(&lines[i]) {
            let ghost tv = text@;
            out.push(text);
            assert(lines_view(out@) =~= lines_view(prev).push(tv));
        }
        i = i + 1;
    }
    assert(lines@.subrange(0, i as int) =~= lines@);
    out
}

/// The position in one followed file up to which complete lines have been
/// consumed.
pub struct TailCursor {
    pub offset: u64,
}

impl TailCursor {
    /// A cursor at the end of a file of `len` bytes: only lines written
    /// from now on are read.
    pub fn at_end(len: u64) -> (r: TailCursor)
        ensures
            r.offset == len,
    {
        TailCursor { offset: len }
    }

    /// One poll, given `chunk`, the bytes of the file from the cursor to
    /// its current end. Returns the complete lines of the chunk and moves
    /// the cursor past them; a trailing fragment without a line end is
    /// left to be read again once it is complete.
    pub fn take_lines(&mut self, chunk: &Vec<u8>) -> (r: Vec<Vec<u8>>)
        requires
            old(self).offset + chunk@.len() <= u64::MAX,
        ensures
            final(self).offset == old(self).offset + complete_len(chunk@),
            byte_lines_view(r@) == terminated_lines(chunk@.subrange(0, complete_len(chunk@))),
    {
        let (lines, used) = split_complete(chunk);
        proof {
            lemma_complete_len_bounds(chunk@);
        }
        self.offset = self.offset + used as u64;
        lines
    }

    /// One poll of the tail engine: the records that `parser` extracts
    /// from the complete lines of `chunk` and that lie in the window, in
    /// file order. The cursor moves as `take_lines` says.
    pub fn poll<P: LogParser>(
        &mut self,
        chunk: &Vec<u8>,
        parser: &P,
        since: &Option<Timestamp>,
        until: &Option<Timestamp>,
    ) -> (r: Vec<Record>)
        requires
            old(self).offset + chunk@.len() <= u64::MAX,
        ensures
            final(self).offset == old(self).offset + complete_len(chunk@),
            records_view(r@) == accepted_lines(
                parser,
                decoded_lines(terminated_lines(chunk@.subrange(0, complete_len(chunk@)))),
                *since,
                *until,
            ),
    {
        let lines = self.take_lines(chunk);
        let texts = decode_lines(&lines);
        let mut out: Vec<Record> = Vec::new();
        accept_lines(&mut out, &texts, parser, since, until);
        assert(records_view(out@) =~= Seq::empty() + records_view(out@).subrange(0, records_view(out@).len() as int));
        out
    }
}

} // verus!
