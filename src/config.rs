use vstd::prelude::*;
use vstd::string::*;
use crate::batch::lines_view;
use crate::record::{copy_text, opt_text};

verus! {

/// The settings of one run, as read from a configuration file and then
/// merged with the command line.
pub struct Config {
    pub inputs: Vec<String>,
    pub pattern: Option<String>,
    pub since: Option<String>,
    pub until: Option<String>,
    pub date_format: Option<String>,
    pub follow: Option<bool>,
    pub serve: Option<u16>,
    pub export_html: Option<String>,
}

/// The settings given on the command line.
pub struct Cli {
    pub inputs: Vec<String>,
    pub pattern: Option<String>,
    pub since: Option<String>,
    pub until: Option<String>,
    pub date_format: Option<String>,
    pub follow: bool,
    pub serve: Option<u16>,
    pub export_html: Option<String>,
    pub config: Option<String>,
}

impl Default for Config {
    /// No inputs, nothing set, and follow mode off.
    fn default() -> (r: Config)
        ensures
            r.inputs@.len() == 0,
            r.pattern is None,
            r.since is None,
            r.until is None,
            r.date_format is None,
            r.follow == Some(false),
            r.serve is None,
            r.export_html is None,
    {
        Config {
            inputs: Vec::new(),
            pattern: None,
            since: None,
            until: None,
            date_format: None,
            follow: Some(false),
            serve: None,
            export_html: None,
        }
    }
}

/// `first` where it is set, else `second`.
pub open spec fn prefer(first: Option<Seq<char>>, second: Option<Seq<char>>) -> Option<Seq<char>> {
    match first {
        Some(x) => Some(x),
        None => second,
    }
}

/// Copies of the strings of `v`, in order.
pub fn copy_lines(v: &Vec<String>) -> (r: Vec<String>)
    ensures
        lines_view(r@) == lines_view(v@),
{
    let mut r: Vec<String> = Vec::new();
    let mut i: usize = 0;
    while i < v.len()
        invariant
            i <= v.len(),
            lines_view(r@) == lines_view(v@.subrange(0, i as int)),
        decreases v.len() - i,
    {
        let ghost prev = r@;
        r.push(v[i].clone());
        proof {
            assert(v@.subrange(0, i + 1) =~= v@.subrange(0, i as int).push(v@[i as int]));
            assert(lines_view(r@) =~= lines_view(prev).push(v@[i as int]@));
        }
        i = i + 1;
    }
    assert(v@.subrange(0, i as int) =~= v@);
    r
}

fn first_set(first: &Option<String>, second: Option<String>) -> (r: Option<String>)
    ensures
        opt_text(r) == prefer(opt_text(*first), opt_text(second)),
{
    match first {
        Some(_) => copy_text(first),
        None => second,
    }
}

/// The command line over the configuration file: each setting given on the
/// command line wins; the inputs of the command line replace those of the
/// file unless there are none; follow mode is on if either turns it on.
pub fn merge_config(cfg: Config, cli: &Cli) -> (r: Config)
    ensures
        lines_view(r.inputs@) == if cli.inputs@.len() > 0 { lines_view(cli.inputs@) } else { lines_view(cfg.inputs@) },
        opt_text(r.pattern) == prefer(opt_text(cli.pattern), opt_text(cfg.pattern)),
        opt_text(r.since) == prefer(opt_text(cli.since), opt_text(cfg.since)),
        opt_text(r.until) == prefer(opt_text(cli.until), opt_text(cfg.until)),
        opt_text(r.date_format) == prefer(opt_text(cli.date_format), opt_text(cfg.date_format)),
        r.follow == Some(cli.follow || cfg.follow == Some(true)),
        r.serve == (match cli.serve {
            Some(p) => Some(p),
            None => cfg.serve,
        }),
        opt_text(r.export_html) == prefer(opt_text(cli.export_html), opt_text(cfg.export_html)),
{
    let inputs = if cli.inputs.len() > 0 { copy_lines(&cli.inputs) } else { cfg.inputs };
    let follow = match cfg.follow {
        Some(f) => cli.follow || f,
        None => cli.follow,
    };
    let serve = match cli.serve {
        Some(p) => Some(p),
        None => cfg.serve,
    };
    Config {
        inputs,
        pattern: first_set(&cli.pattern, cfg.pattern),
        since: first_set(&cli.since, cfg.since),
        until: first_set(&cli.until, cfg.until),
        date_format: first_set(&cli.date_format, cfg.date_format),
        follow: Some(follow),
        serve,
        export_html: first_set(&cli.export_html, cfg.export_html),
    }
}

/// Whether an input names a file-name pattern (it holds `*`, `?` or `[`)
/// rather than one path.
pub open spec fn is_glob_spec(s: Seq<char>) -> bool {
    exists|i: int| 0 <= i < s.len() && (s[i] == '*' || s[i] == '?' || s[i] == '[')
}

/// Whether an input is to be expanded as a file-name pattern.
pub fn is_glob(s: &str) -> (r: bool)
    ensures
        r == is_glob_spec(s@),
{
    let n = s.unicode_len();
    let mut i: usize = 0;
    while i < n
        invariant
            i <= n,
            n == s@.len(),
            forall|j: int| 0 <= j < i ==> !(s@[j] == '*' || s@[j] == '?' || s@[j] == '['),
        decreases n - i,
    {
        let c = s.get_char(i);
        if c == '*' || c == '?' || c == '[' {
            return true;
        }
        i = i + 1;
    }
    false
}

} // verus!
