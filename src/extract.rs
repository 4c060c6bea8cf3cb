use vstd::prelude::*;
use vstd::string::*;
use crate::record::{Record, RecordView, Timestamp, opt_record, opt_text};

verus! {

/// The pattern used when none is given: an address, two opaque tokens, a
/// bracketed timestamp, a quoted request line and a three-digit status.
pub const DEFAULT_PATTERN: &'static str = r#"(?P<source>\S+) [^ ]+ [^ ]+ \[(?P<time>[^\]]+)\] "(?:GET|POST|PUT|DELETE|PATCH|OPTIONS|HEAD) (?P<target>[^" ]+)[^"]*" (?P<status>\d{3})"#;

/// The timestamp layout used when none is given.
pub const DEFAULT_DATE_FORMAT: &'static str = "%d/%b/%Y:%H:%M:%S %z";

#[verifier::external_type_specification]
#[verifier::external_body]
pub struct ExRegex(regex::Regex);

/// Whether `pattern` is a regular expression that the regex crate accepts.
pub uninterp spec fn pattern_valid(pattern: Seq<char>) -> bool;

/// Where `pattern` matches `line`, the texts captured by the groups named
/// `source`, `target`, `status` and `time` (each absent when the group did
/// not take part in the match); nothing where it does not match.
pub uninterp spec fn captures_of(pattern: Seq<char>, line: Seq<char>) -> Option<(Option<Seq<char>>, Option<Seq<char>>, Option<Seq<char>>, Option<Seq<char>>)>;

/// The instant that chrono reads from `text` under the strftime layout
/// `fmt`, as seconds since the epoch, sub-second nanoseconds and offset in
/// seconds east of UTC; nothing where the text does not fit the layout.
pub uninterp spec fn parsed_instant(text: Seq<char>, fmt: Seq<char>) -> Option<(i64, u32, i32)>;

/// Relies on `regex::Regex::new`: it succeeds exactly on valid patterns.
#[verifier::external_body]
fn compile_pattern(pattern: &str) -> (r: Option<regex::Regex>)
    ensures
        r is Some == pattern_valid(pattern@),
{
    regex::Regex::new(pattern).ok()
}

/// Relies on `chrono::DateTime::parse_from_str`, and on `timestamp`,
/// `timestamp_subsec_nanos` and `local_minus_utc` to read the result out.
#[verifier::external_body]
fn parse_time(text: &str, fmt: &str) -> (r: Option<Timestamp>)
    ensures
        r == instant_of(parsed_instant(text@, fmt@)),
{
    chrono::DateTime::parse_from_str(text, fmt).ok().map(|t| Timestamp {
        secs: t.timestamp(),
        nanos: t.timestamp_subsec_nanos(),
        offset: t.offset().local_minus_utc(),
    })
}

pub open spec fn instant_of(p: Option<(i64, u32, i32)>) -> Option<Timestamp> {
    match p {
        Some((secs, nanos, offset)) => Some(Timestamp { secs, nanos, offset }),
        None => None,
    }
}

/// The texts captured by the four named groups of one match.
pub struct Groups {
    pub source: Option<String>,
    pub target: Option<String>,
    pub status: Option<String>,
    pub time: Option<String>,
}

pub open spec fn groups_view(g: Groups) -> (Option<Seq<char>>, Option<Seq<char>>, Option<Seq<char>>, Option<Seq<char>>) {
    (opt_text(g.source), opt_text(g.target), opt_text(g.status), opt_text(g.time))
}

pub open spec fn is_digit(c: char) -> bool {
    '0' <= c && c <= '9'
}

pub open spec fn all_digits(d: Seq<char>) -> bool {
    forall|i: int| 0 <= i < d.len() ==> is_digit(#[trigger] d[i])
}

/// `s` without the one leading `+` that it may carry.
pub open spec fn unsigned_digits(s: Seq<char>) -> Seq<char> {
    if s.len() > 0 && s[0] == '+' {
        s.drop_first()
    } else {
        s
    }
}

/// The number that a string of decimal digits denotes.
pub open spec fn digits_value(s: Seq<char>) -> int
    decreases s.len(),
{
    if s.len() == 0 {
        0
    } else {
        digits_value(s.drop_last()) * 10 + (s.last() as int - '0' as int)
    }
}

/// The status code that `s` denotes: an optional `+` and then one or more
/// decimal digits whose value fits in 16 bits.
pub open spec fn status_value(s: Seq<char>) -> Option<u16> {
    let d = unsigned_digits(s);
    if d.len() > 0 && all_digits(d) && digits_value(d) <= 65535 {
        Some(digits_value(d) as u16)
    } else {
        None
    }
}

pub open spec fn opt_status(s: Option<Seq<char>>) -> Option<u16> {
    match s {
        Some(s) => status_value(s),
        None => None,
    }
}

/// The record built from a matched line, its captured texts and the
/// instant read from its time text.
pub open spec fn record_of(
    line: Seq<char>,
    g: (Option<Seq<char>>, Option<Seq<char>>, Option<Seq<char>>, Option<Seq<char>>),
    time: Option<Timestamp>,
) -> RecordView {
    RecordView { raw: line, source: g.0, target: g.1, status: opt_status(g.2), time }
}

/// What a regular-expression extractor with `pattern` and timestamp layout
/// `fmt` makes of `line`.
pub open spec fn extracted(pattern: Seq<char>, fmt: Seq<char>, line: Seq<char>) -> Option<RecordView> {
    match captures_of(pattern, line) {
        None => None,
        Some(g) => Some(
            record_of(
                line,
                g,
                match g.3 {
                    Some(t) => instant_of(parsed_instant(t, fmt)),
                    None => None,
                },
            ),
        ),
    }
}

proof fn lemma_digits_value_nonneg(s: Seq<char>)
    requires
        forall|i: int| 0 <= i < s.len() ==> is_digit(#[trigger] s[i]),
    ensures
        digits_value(s) >= 0,
    decreases s.len(),
{
    if s.len() > 0 {
        lemma_digits_value_nonneg(s.drop_last());
    }
}

/// A longer digit string never denotes a smaller number than its prefix.
proof fn lemma_digits_value_grows(s: Seq<char>, k: int)
    requires
        0 <= k <= s.len(),
        forall|i: int| 0 <= i < s.len() ==> is_digit(#[trigger] s[i]),
    ensures
        digits_value(s.subrange(0, k)) <= digits_value(s),
    decreases s.len() - k,
{
    if k < s.len() {
        let t = s.subrange(0, k + 1);
        assert(t.drop_last() =~= s.subrange(0, k));
        lemma_digits_value_nonneg(s.subrange(0, k));
        lemma_digits_value_grows(s, k + 1);
    } else {
        assert(s.subrange(0, k) =~= s);
    }
}

/// Reads a status code the way `u16`'s `FromStr` does.
pub fn parse_status(s: &str) -> (r: Option<u16>)
    ensures
        r == status_value(s@),
{
    let n = s.unicode_len();
    let mut i: usize = 0;
    if n > 0 && s.get_char(0) == '+' {
        i = 1;
    }
    let start = i;
    let ghost d = unsigned_digits(s@);
    assert(d =~= s@.subrange(start as int, n as int));
    if start == n {
        return None;
    }
    let mut value: u32 = 0;
    while i < n
        invariant
            start <= i <= n,
            n == s@.len(),
            d =~= s@.subrange(start as int, n as int),
            d == (unsigned_digits(s@)),
            d.len() > 0,
            forall|j: int| 0 <= j < i - start ==> is_digit(#[trigger] d[j]),
            value as int == digits_value(d.subrange(0, i - start)),
            value <= 65535,
        decreases n - i,
    {
        let c = s.get_char(i);
        let ghost k = i - start;
        assert(d[k] == c);
        if c < '0' || c > '9' {
            assert(!is_digit(d[k]));
            return None;
        }
        proof {
            let t = d.subrange(0, k + 1);
            assert(t.drop_last() =~= d.subrange(0, k));
            assert(t.last() == c);
        }
        let next: u32 = value * 10 + (c as u32 - '0' as u32);
        i = i + 1;
        if next > 65535 {
            proof {
                if forall|j: int| 0 <= j < d.len() ==> is_digit(#[trigger] d[j]) {
                    lemma_digits_value_grows(d, k + 1);
                }
            }
            return None;
        }
        value = next;
    }
    assert(d.subrange(0, i - start) =~= d);
    Some(value as u16)
}

/// An extractor of records from lines: the capability that the loader and
/// the tail engine depend on, whatever format the lines have.
pub trait LogParser {
    /// What the extractor makes of `line`: a record, or nothing where the
    /// line does not match.
    spec fn parse_spec(&self, line: Seq<char>) -> Option<RecordView>;

    fn parse(&self, line: &str) -> (r: Option<Record>)
        ensures
            opt_record(r) == self.parse_spec(line@),
    ;
}

/// An extractor driven by a regular expression with named groups `source`,
/// `target`, `status` and `time`, and a strftime layout for the time text.
pub struct RegexParser {
    re: regex::Regex,
    pattern: String,
    date_fmt: String,
}

/// The given pattern was refused by the regular-expression engine.
pub struct InvalidPattern {
    pub pattern: String,
}

/// Relies on `regex::Regex::captures` and `Captures::name`. The regex held
/// by a `RegexParser` is always the one compiled from its `pattern` field:
/// the fields are private and `RegexParser::new` alone builds the struct.
#[verifier::external_body]
fn capture_groups(p: &RegexParser, line: &str) -> (r: Option<Groups>)
    ensures
        match r {
            Some(g) => captures_of(p.pattern@, line@) == Some(groups_view(g)),
            None => captures_of(p.pattern@, line@) is None,
        },
{
    p.re.captures(line).map(|c| Groups {
        source: c.name("source").map(|m| m.as_str().to_string()),
        target: c.name("target").map(|m| m.as_str().to_string()),
        status: c.name("status").map(|m| m.as_str().to_string()),
        time: c.name("time").map(|m| m.as_str().to_string()),
    })
}

/// Builds the record of a matched line from its captured texts and the
/// instant read from its time text.
pub fn from_groups(line: &str, groups: &Groups, time: Option<Timestamp>) -> (r: Record)
    ensures
        r@ == record_of(line@, groups_view(*groups), time),
{
    let status = match &groups.status {
        Some(s) => parse_status(s.as_str()),
        None => None,
    };
    Record {
        raw: line.to_owned(),
        source: crate::record::copy_text(&groups.source),
        target: crate::record::copy_text(&groups.target),
        status,
        time,
    }
}

pub open spec fn effective_pattern(pattern: Option<String>) -> Seq<char> {
    match pattern {
        Some(p) => p@,
        None => DEFAULT_PATTERN@,
    }
}

pub open spec fn effective_format(date_format: Option<String>) -> Seq<char> {
    match date_format {
        Some(f) => f@,
        None => DEFAULT_DATE_FORMAT@,
    }
}

impl RegexParser {
    pub closed spec fn pattern_text(&self) -> Seq<char> {
        self.pattern@
    }

    pub closed spec fn format_text(&self) -> Seq<char> {
        self.date_fmt@
    }

    /// An extractor for `pattern` and timestamp layout `date_fmt`, where
    /// the pattern is valid.
    pub fn new(pattern: &str, date_fmt: &str) -> (r: Result<RegexParser, InvalidPattern>)
        ensures
            match r {
                Ok(p) => pattern_valid(pattern@) && p.pattern_text() == pattern@ && p.format_text() == date_fmt@,
                Err(e) => !pattern_valid(pattern@) && e.pattern@ == pattern@,
            },
    {
        match compile_pattern(pattern) {
            Some(re) => Ok(RegexParser { re, pattern: pattern.to_owned(), date_fmt: date_fmt.to_owned() }),
            None => Err(InvalidPattern { pattern: pattern.to_owned() }),
        }
    }
}

/// The extractor for an optional pattern and layout, falling back to the
/// defaults for what is absent.
pub fn build_parser(pattern: Option<String>, date_format: Option<String>) -> (r: Result<RegexParser, InvalidPattern>)
    ensures
        match r {
            Ok(p) => {
                &&& pattern_valid(effective_pattern(pattern))
                &&& p.pattern_text() == effective_pattern(pattern)
                &&& p.format_text() == effective_format(date_format)
            },
            Err(e) => !pattern_valid(effective_pattern(pattern)) && e.pattern@ == effective_pattern(pattern),
        },
{
    let fmt: &str = match &date_format {
        Some(f) => f.as_str(),
        None => DEFAULT_DATE_FORMAT,
    };
    match &pattern {
        Some(p) => RegexParser::new(p.as_str(), fmt),
        None => RegexParser::new(DEFAULT_PATTERN, fmt),
    }
}

impl LogParser for RegexParser {
    open spec fn parse_spec(&self, line: Seq<char>) -> Option<RecordView> {
        extracted(self.pattern_text(), self.format_text(), line)
    }

    fn parse(&self, line: &str) -> (r: Option<Record>) {
        match capture_groups(self, line) {
            None => None,
            Some(groups) => {
                let time = match &groups.time {
                    Some(t) => parse_time(t.as_str(), self.date_fmt.as_str()),
                    None => None,
                };
                Some(from_groups(line, &groups, time))
            },
        }
    }
}

/// A line that the pattern does not match yields no record.
pub proof fn lemma_unmatched_yields_nothing(p: &RegexParser, line: Seq<char>)
    requires
        captures_of(p.pattern_text(), line) is None,
    ensures
        p.parse_spec(line) is None,
{
}

} // verus!
