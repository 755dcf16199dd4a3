//! The line filter and the counters of the log-line extraction tool.
//!
//! The tool reads lines, keeps those that its filter admits, extracts an
//! entry from each with a rule, and writes the entries out; the counters
//! record how each step went.
use vstd::prelude::*;

use crate::rule::compile_regex;

verus! {

/// Relies on `regex::Regex::is_match`: whether the regex matches somewhere
/// in `text`.
#[verifier::external_body]
fn regex_is_match(re: &regex::Regex, text: &str) -> (r: bool) {
    re.is_match(text)
}

/// Successes and failures of one kind of operation.
#[derive(Debug)]
pub struct OpStats {
    pub ok: u64,
    pub failed: u64,
}

/// `n + 1`, staying at the largest count.
pub open spec fn bump(n: u64) -> u64 {
    if n < u64::MAX {
        (n + 1) as u64
    } else {
        n
    }
}

impl OpStats {
    pub fn new() -> (r: OpStats)
        ensures
            r.ok == 0 && r.failed == 0,
    {
        OpStats { ok: 0, failed: 0 }
    }

    pub fn ok(&mut self)
        ensures
            final(self).ok == bump(old(self).ok),
            final(self).failed == old(self).failed,
    {
        if self.ok < u64::MAX {
            self.ok = self.ok + 1;
        }
    }

    pub fn fail(&mut self)
        ensures
            final(self).failed == bump(old(self).failed),
            final(self).ok == old(self).ok,
    {
        if self.failed < u64::MAX {
            self.failed = self.failed + 1;
        }
    }
}

/// The counters of a run: lines read, entries parsed, entries written, and
/// lines that the filter skipped.
#[derive(Debug)]
pub struct Stats {
    pub read: OpStats,
    pub parse: OpStats,
    pub write: OpStats,
    pub skipped: u64,
}

impl Stats {
    pub fn new() -> (r: Stats)
        ensures
            r.read.ok == 0 && r.read.failed == 0,
            r.parse.ok == 0 && r.parse.failed == 0,
            r.write.ok == 0 && r.write.failed == 0,
            r.skipped == 0,
    {
        Stats { read: OpStats::new(), parse: OpStats::new(), write: OpStats::new(), skipped: 0 }
    }

    pub fn skipped(&mut self)
        ensures
            final(self).skipped == bump(old(self).skipped),
            final(self).read == old(self).read,
            final(self).parse == old(self).parse,
            final(self).write == old(self).write,
    {
        if self.skipped < u64::MAX {
            self.skipped = self.skipped + 1;
        }
    }
}

#[derive(Debug)]
pub enum Error {
    /// A filter of wanted lines and one of unwanted lines cannot both be set.
    FiltersConflict,
    /// The filter's regex does not compile; holds why.
    BadFilterRegex(String),
}

/// Which lines a run keeps: those that a wanted regex matches, or those
/// that an unwanted regex does not match, or all when neither is set.
pub struct LineFilter {
    pub wanted: Option<regex::Regex>,
    pub unwanted: Option<regex::Regex>,
}

/// Whether a line is kept, given whether the regex of wanted lines
/// (if any) matched it and whether the regex of unwanted lines (if any) did.
pub open spec fn keeps(wanted: Option<bool>, unwanted: Option<bool>) -> bool {
    &&& wanted != Some(false)
    &&& unwanted != Some(true)
}

/// Whether a line is kept, from the filters' answers on it.
pub fn verdict(wanted: Option<bool>, unwanted: Option<bool>) -> (r: bool)
    ensures
        r == keeps(wanted, unwanted),
{
    let included = match wanted {
        Some(m) => m,
        None => true,
    };
    let excluded = match unwanted {
        Some(m) => m,
        None => false,
    };
    included && !excluded
}

impl LineFilter {
    pub fn new() -> (r: LineFilter)
        ensures
            r.wanted is None,
            r.unwanted is None,
    {
        LineFilter { wanted: None, unwanted: None }
    }

    /// Keeps only the lines that `f` matches.
    pub fn set_include_filter(&mut self, f: &str) -> (r: Result<(), Error>)
        ensures
            old(self).unwanted is Some ==> (r matches Err(Error::FiltersConflict)),
            old(self).unwanted is Some ==> ((final(self).wanted is None) == (old(self).wanted is None)),
            old(self).unwanted is None ==> (r is Ok <==> crate::rule::regex_compiles(f@)),
            r is Ok ==> final(self).wanted is Some,
            (final(self).unwanted is None) == (old(self).unwanted is None),
    {
        if self.unwanted.is_some() {
            return Err(Error::FiltersConflict);
        }
        match compile_regex(f) {
            Ok((re, _)) => {
                self.wanted = Some(re);
                Ok(())
            },
            Err(why) => Err(Error::BadFilterRegex(why)),
        }
    }

    /// Drops the lines that `f` matches.
    pub fn set_exclude_filter(&mut self, f: &str) -> (r: Result<(), Error>)
        ensures
            old(self).wanted is Some ==> (r matches Err(Error::FiltersConflict)),
            old(self).wanted is Some ==> ((final(self).unwanted is None) == (old(self).unwanted is None)),
            old(self).wanted is None ==> (r is Ok <==> crate::rule::regex_compiles(f@)),
            r is Ok ==> final(self).unwanted is Some,
            (final(self).wanted is None) == (old(self).wanted is None),
    {
        if self.wanted.is_some() {
            return Err(Error::FiltersConflict);
        }
        match compile_regex(f) {
            Ok((re, _)) => {
                self.unwanted = Some(re);
                Ok(())
            },
            Err(why) => Err(Error::BadFilterRegex(why)),
        }
    }

    /// Whether `line` is kept; with no filter set, every line is.
    pub fn admits(&self, line: &str) -> (r: bool)
        ensures
            self.wanted is None && self.unwanted is None ==> r,
    {
        let wanted = match &self.wanted {
            Some(re) => Some(regex_is_match(re, line)),
            None => None,
        };
        let unwanted = match &self.unwanted {
            Some(re) => Some(regex_is_match(re, line)),
            None => None,
        };
        verdict(wanted, unwanted)
    }
}

/// What a run does after an attempt to read a line.
#[derive(Clone, Copy, Debug, PartialEq, Eq, Structural)]
pub enum LineStep {
    /// The read failed: try the next line.
    Retry,
    /// Nothing was left to read.
    End,
    /// The filter dropped the line.
    Skip,
    /// The line is to be parsed.
    Parse,
}

/// Counts a read attempt and decides what follows it: `read_ok` tells
/// whether the read succeeded, `len` how long the line is, and `kept`
/// whether the filter keeps it.
pub fn after_read(stats: &mut Stats, read_ok: bool, len: usize, kept: bool) -> (r: LineStep)
    ensures
        !read_ok ==> r == LineStep::Retry && final(stats).read.failed == bump(old(stats).read.failed)
            && final(stats).read.ok == old(stats).read.ok,
        read_ok ==> final(stats).read.ok == bump(old(stats).read.ok) && final(stats).read.failed
            == old(stats).read.failed,
        read_ok && len == 0 ==> r == LineStep::End,
        read_ok && len > 0 && !kept ==> r == LineStep::Skip && final(stats).skipped == bump(
            old(stats).skipped,
        ),
        read_ok && len > 0 && kept ==> r == LineStep::Parse,
        !(read_ok && len > 0 && !kept) ==> final(stats).skipped == old(stats).skipped,
        final(stats).parse == old(stats).parse,
        final(stats).write == old(stats).write,
{
    if !read_ok {
        stats.read.fail();
        return LineStep::Retry;
    }
    stats.read.ok();
    if len == 0 {
        LineStep::End
    } else if !kept {
        stats.skipped();
        LineStep::Skip
    } else {
        LineStep::Parse
    }
}

} // verus!
