use loglyzer::batch::load_entries;
use loglyzer::config::{is_glob, merge_config, Cli, Config};
use loglyzer::extract::{build_parser, parse_status, LogParser, RegexParser};
use loglyzer::record::{Record, Timestamp};
use loglyzer::store::ObservationStore;
use loglyzer::summary::{recent, summarize};
use loglyzer::tail::{split_complete, TailCursor};
use loglyzer::window::{bound_from, parse_bound, within_window};

const LINE_200: &str = "1.1.1.1 - - [10/Oct/2023:10:00:00 +0000] \"GET /a HTTP/1.1\" 200";
const LINE_404: &str = "2.2.2.2 - - [10/Oct/2023:10:00:00 +0200] \"POST /b HTTP/1.1\" 404";

fn default_parser() -> RegexParser {
    match build_parser(None, None) {
        Ok(p) => p,
        Err(_) => panic!("the default pattern compiles"),
    }
}

fn lines(v: &[&str]) -> Vec<String> {
    v.iter().map(|s| s.to_string()).collect()
}

fn untimed(raw: &str) -> Record {
    Record { raw: raw.to_string(), source: None, target: None, status: None, time: None }
}

fn timed(t: Timestamp) -> Record {
    Record { raw: "x".to_string(), source: None, target: None, status: Some(200), time: Some(t) }
}

fn ts(secs: i64) -> Timestamp {
    Timestamp { secs, nanos: 0, offset: 0 }
}

#[test]
fn default_pattern_extracts_all_fields() {
    let p = default_parser();
    let r = p.parse(LINE_200).expect("line matches");
    assert_eq!(r.raw, LINE_200);
    assert_eq!(r.source.as_deref(), Some("1.1.1.1"));
    assert_eq!(r.target.as_deref(), Some("/a"));
    assert_eq!(r.status, Some(200));
    assert_eq!(r.time, Some(Timestamp { secs: 1696932000, nanos: 0, offset: 0 }));
}

#[test]
fn time_offset_is_kept_and_instant_normalised() {
    let p = default_parser();
    let r = p.parse(LINE_404).expect("line matches");
    assert_eq!(r.status, Some(404));
    assert_eq!(r.time, Some(Timestamp { secs: 1696924800, nanos: 0, offset: 7200 }));
}

#[test]
fn non_matching_line_yields_nothing() {
    let p = default_parser();
    assert!(p.parse("garbage").is_none());
    assert!(p.parse("").is_none());
}

#[test]
fn unparsable_time_keeps_record_without_time() {
    let p = default_parser();
    let line = "1.1.1.1 - - [not a date] \"GET /a HTTP/1.1\" 200";
    let r = p.parse(line).expect("line matches");
    assert_eq!(r.time, None);
    assert_eq!(r.status, Some(200));
}

#[test]
fn non_numeric_status_keeps_record_without_status() {
    let p = build_parser(Some("^(?P<source>\\S+) (?P<status>\\S+)$".to_string()), None).ok().unwrap();
    let r = p.parse("host abc").expect("line matches");
    assert_eq!(r.source.as_deref(), Some("host"));
    assert_eq!(r.status, None);
    assert_eq!(r.target, None);
    assert_eq!(r.time, None);
}

#[test]
fn custom_time_format_is_used() {
    let p = build_parser(
        Some("^(?P<time>.+) (?P<status>\\d+)$".to_string()),
        Some("%Y-%m-%dT%H:%M:%S%z".to_string()),
    )
    .ok()
    .unwrap();
    let r = p.parse("2024-01-01T00:00:00+0000 500").expect("line matches");
    assert_eq!(r.time, Some(ts(1704067200)));
    assert_eq!(r.status, Some(500));
}

#[test]
fn invalid_pattern_is_refused() {
    match build_parser(Some("(unclosed".to_string()), None) {
        Ok(_) => panic!("an invalid pattern must be refused"),
        Err(e) => assert_eq!(e.pattern, "(unclosed"),
    }
    assert!(RegexParser::new("(", "%s").is_err());
}

#[test]
fn status_reading() {
    assert_eq!(parse_status("200"), Some(200));
    assert_eq!(parse_status("+7"), Some(7));
    assert_eq!(parse_status("0404"), Some(404));
    assert_eq!(parse_status("65535"), Some(65535));
    assert_eq!(parse_status("65536"), None);
    assert_eq!(parse_status("999999"), None);
    assert_eq!(parse_status(""), None);
    assert_eq!(parse_status("+"), None);
    assert_eq!(parse_status("-1"), None);
    assert_eq!(parse_status("2a"), None);
    assert_eq!(parse_status("99999x"), None);
}

#[test]
fn untimed_record_passes_any_bounds() {
    let e = untimed("x");
    assert!(within_window(&e, &None, &None));
    assert!(within_window(&e, &Some(ts(100)), &None));
    assert!(within_window(&e, &None, &Some(ts(-100))));
    assert!(within_window(&e, &Some(ts(100)), &Some(ts(50))));
}

#[test]
fn bounds_are_inclusive() {
    let t = ts(1000);
    let e = timed(t);
    assert!(within_window(&e, &None, &None));
    assert!(within_window(&e, &Some(t), &Some(t)));
    assert!(!within_window(&e, &Some(ts(1001)), &None));
    assert!(!within_window(&e, &None, &Some(ts(999))));
    let later = Timestamp { secs: 1000, nanos: 1, offset: 0 };
    assert!(!within_window(&e, &Some(later), &None));
}

#[test]
fn bounds_compare_instants_not_offsets() {
    let e = timed(Timestamp { secs: 1000, nanos: 0, offset: 3600 });
    assert!(within_window(&e, &Some(ts(1000)), &Some(ts(1000))));
}

#[test]
fn bound_text_is_read_as_utc() {
    assert_eq!(parse_bound("2024-01-01 00:00"), Some(ts(1704067200)));
    assert_eq!(parse_bound("2024-01-31 23:59"), Some(ts(1706745540)));
    assert_eq!(parse_bound("yesterday"), None);
    assert_eq!(bound_from(&None), None);
    assert_eq!(bound_from(&Some("bad".to_string())), None);
}

#[test]
fn time_window_scenario() {
    let since = bound_from(&Some("2024-01-01 00:00".to_string()));
    let until = bound_from(&Some("2024-01-31 23:59".to_string()));
    let p = default_parser();
    let feb = p.parse("1.1.1.1 - - [01/Feb/2024:00:00:00 +0000] \"GET /a HTTP/1.1\" 200").unwrap();
    let jan = p.parse("1.1.1.1 - - [15/Jan/2024:12:00:00 +0000] \"GET /a HTTP/1.1\" 200").unwrap();
    assert!(!within_window(&feb, &since, &until));
    assert!(within_window(&jan, &since, &until));
    assert!(within_window(&untimed("no time"), &since, &until));
}

#[test]
fn batch_scenario_summary() {
    let p = default_parser();
    let file = lines(&[LINE_200, LINE_404, "garbage"]);
    let entries = load_entries(&vec![Some(file)], &p, &None, &None);
    assert_eq!(entries.len(), 2);
    assert!(entries.iter().all(|e| e.raw != "garbage"));
    let s = summarize(&entries);
    assert_eq!(s.total, 2);
    assert_eq!(s.by_status.len(), 2);
    assert_eq!(s.by_status.get(&200), Some(&1));
    assert_eq!(s.by_status.get(&404), Some(&1));
}

#[test]
fn batch_keeps_file_then_line_order_and_skips_missing() {
    let p = default_parser();
    let a = "1.1.1.1 - - [10/Oct/2023:10:00:00 +0000] \"GET /a1 HTTP/1.1\" 200";
    let b = "1.1.1.1 - - [10/Oct/2023:10:00:01 +0000] \"GET /a2 HTTP/1.1\" 200";
    let c = "1.1.1.1 - - [10/Oct/2023:10:00:02 +0000] \"GET /c HTTP/1.1\" 500";
    let files = vec![Some(lines(&[a, "junk", b])), None, Some(lines(&[c]))];
    let got: Vec<String> = load_entries(&files, &p, &None, &None).into_iter().map(|e| e.raw).collect();
    assert_eq!(got, vec![a.to_string(), b.to_string(), c.to_string()]);
    let without_missing = vec![Some(lines(&[a, "junk", b])), Some(lines(&[c]))];
    let got2: Vec<String> = load_entries(&without_missing, &p, &None, &None).into_iter().map(|e| e.raw).collect();
    assert_eq!(got, got2);
    assert!(load_entries(&vec![None, None], &p, &None, &None).is_empty());
}

#[test]
fn batch_applies_window() {
    let p = default_parser();
    let files = vec![Some(lines(&[LINE_200, "x"]))];
    let since = Some(ts(1696932001));
    assert!(load_entries(&files, &p, &since, &None).is_empty());
    assert_eq!(load_entries(&files, &p, &Some(ts(1696932000)), &None).len(), 1);
}

#[test]
fn summary_of_nothing() {
    let s = summarize(&Vec::new());
    assert_eq!(s.total, 0);
    assert!(s.by_status.is_empty());
}

#[test]
fn summary_of_one_status() {
    let k = 5;
    let entries: Vec<Record> = (0..k).map(|_| timed(ts(0))).collect();
    let s = summarize(&entries);
    assert_eq!(s.total, k);
    assert_eq!(s.by_status.len(), 1);
    assert_eq!(s.by_status.get(&200), Some(&k));
}

#[test]
fn summary_skips_records_without_status() {
    let entries = vec![untimed("a"), timed(ts(0)), untimed("b")];
    let s = summarize(&entries);
    assert_eq!(s.total, 3);
    assert_eq!(s.by_status.len(), 1);
    assert_eq!(s.by_status.get(&200), Some(&1));
}

#[test]
fn recent_is_most_recent_first() {
    let entries = vec![untimed("a"), untimed("b"), untimed("c")];
    let r: Vec<String> = recent(&entries, 2).into_iter().map(|e| e.raw).collect();
    assert_eq!(r, vec!["c".to_string(), "b".to_string()]);
    assert_eq!(recent(&entries, 50).len(), 3);
    assert!(recent(&entries, 0).is_empty());
}

#[test]
fn store_appends_and_snapshots_grow() {
    let mut store = ObservationStore::new();
    assert_eq!(store.len(), 0);
    store.append(untimed("a1"));
    let first = store.snapshot();
    store.append(untimed("b1"));
    store.append(untimed("a2"));
    let second = store.snapshot();
    assert_eq!(first.len(), 1);
    assert_eq!(second.len(), 3);
    let raws: Vec<&str> = second.iter().map(|e| e.raw.as_str()).collect();
    assert_eq!(raws, vec!["a1", "b1", "a2"]);
    assert_eq!(first[0].raw, second[0].raw);
    let seeded = ObservationStore::from_records(vec![untimed("s")]);
    assert_eq!(seeded.snapshot()[0].raw, "s");
}

#[test]
fn tail_consumes_only_complete_lines() {
    let p = default_parser();
    let mut cursor = TailCursor::at_end(100);
    let second = "3.3.3.3 - - [10/Oct/2023:10:00:05 +0000] \"GET /z HTTP/1.1\" 301";
    let mut file_tail = format!("{LINE_200}\n{second}").into_bytes();
    let got = cursor.poll(&file_tail, &p, &None, &None);
    assert_eq!(got.len(), 1);
    assert_eq!(got[0].raw, LINE_200);
    assert_eq!(cursor.offset, 100 + LINE_200.len() as u64 + 1);
    // Nothing new yet: the fragment is read again and still left alone.
    let rest: Vec<u8> = file_tail.split_off(LINE_200.len() + 1);
    assert!(cursor.poll(&rest, &p, &None, &None).is_empty());
    assert_eq!(cursor.offset, 100 + LINE_200.len() as u64 + 1);
    let mut completed = rest.clone();
    completed.push(b'\n');
    let got = cursor.poll(&completed, &p, &None, &None);
    assert_eq!(got.len(), 1);
    assert_eq!(got[0].raw, second);
    assert_eq!(got[0].status, Some(301));
    assert_eq!(cursor.offset, 100 + (LINE_200.len() + second.len()) as u64 + 2);
}

#[test]
fn tail_skips_invalid_text_and_applies_window() {
    let p = default_parser();
    let mut cursor = TailCursor::at_end(0);
    let mut chunk: Vec<u8> = vec![0xff, 0xfe, b'\n'];
    chunk.extend_from_slice(LINE_200.as_bytes());
    chunk.push(b'\n');
    chunk.extend_from_slice(b"garbage\n");
    let got = cursor.poll(&chunk, &p, &None, &None);
    assert_eq!(got.len(), 1);
    assert_eq!(got[0].raw, LINE_200);
    assert_eq!(cursor.offset, chunk.len() as u64);
    let mut c2 = TailCursor::at_end(0);
    assert!(c2.poll(&chunk, &p, &Some(ts(1696932001)), &None).is_empty());
}

#[test]
fn split_complete_lines() {
    let (ls, used) = split_complete(&b"a\n\nbc\nde".to_vec());
    assert_eq!(ls, vec![b"a".to_vec(), Vec::new(), b"bc".to_vec()]);
    assert_eq!(used, 6);
    let (ls, used) = split_complete(&b"partial".to_vec());
    assert!(ls.is_empty());
    assert_eq!(used, 0);
    let (ls, used) = split_complete(&Vec::new());
    assert!(ls.is_empty());
    assert_eq!(used, 0);
}

fn cli() -> Cli {
    Cli {
        inputs: Vec::new(),
        pattern: None,
        since: None,
        until: None,
        date_format: None,
        follow: false,
        serve: None,
        export_html: None,
        config: None,
    }
}

#[test]
fn default_config() {
    let c = Config::default();
    assert!(c.inputs.is_empty());
    assert_eq!(c.follow, Some(false));
    assert!(c.pattern.is_none() && c.since.is_none() && c.until.is_none());
    assert!(c.date_format.is_none() && c.serve.is_none() && c.export_html.is_none());
}

#[test]
fn merge_prefers_command_line() {
    let mut file = Config::default();
    file.inputs = lines(&["from_file.log"]);
    file.pattern = Some("p_file".to_string());
    file.since = Some("s_file".to_string());
    file.serve = Some(8080);
    file.follow = Some(true);
    let mut c = cli();
    c.inputs = lines(&["cli.log"]);
    c.pattern = Some("p_cli".to_string());
    c.until = Some("u_cli".to_string());
    let m = merge_config(file, &c);
    assert_eq!(m.inputs, lines(&["cli.log"]));
    assert_eq!(m.pattern.as_deref(), Some("p_cli"));
    assert_eq!(m.since.as_deref(), Some("s_file"));
    assert_eq!(m.until.as_deref(), Some("u_cli"));
    assert_eq!(m.serve, Some(8080));
    assert_eq!(m.follow, Some(true));
    assert!(m.export_html.is_none());
}

#[test]
fn merge_keeps_file_inputs_when_command_line_has_none() {
    let mut file = Config::default();
    file.inputs = lines(&["a.log", "b.log"]);
    file.follow = None;
    let mut c = cli();
    c.serve = Some(9000);
    let m = merge_config(file, &c);
    assert_eq!(m.inputs, lines(&["a.log", "b.log"]));
    assert_eq!(m.follow, Some(false));
    assert_eq!(m.serve, Some(9000));
    let mut c2 = cli();
    c2.follow = true;
    assert_eq!(merge_config(Config::default(), &c2).follow, Some(true));
}

#[test]
fn glob_detection() {
    assert!(is_glob("*.log"));
    assert!(is_glob("access?.log"));
    assert!(is_glob("log[0-9]"));
    assert!(!is_glob("/var/log/access.log"));
    assert!(!is_glob(""));
}
