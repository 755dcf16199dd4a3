//! Extracting an entry from a line with a rule: each field of the rule
//! takes the text of its capture group.
//!
//! Turning that text into a typed value (a number, a date) is left to the
//! caller.
use vstd::prelude::*;

use crate::rule::{fields_model, rule_at, Error as RuleError, ParseRule, RuleParser};

verus! {

/// Relies on `regex::Regex::captures`: on a match, the text of each capture
/// group in order, `None` for a group that took no part; group 0 is the
/// whole match and is always there.
#[verifier::external_body]
fn regex_captures<'t>(re: &regex::Regex, text: &'t str) -> (r: Option<Vec<Option<&'t str>>>)
    ensures
        r matches Some(groups) ==> groups@.len() >= 1 && groups@[0] is Some,
{
    re.captures(text).map(|c| c.iter().map(|m| m.map(|m| m.as_str())).collect())
}

/// Why no parser could be made from a rule.
#[derive(Debug)]
pub enum Error {
    BadParseRule(RuleError),
}

/// Why no parser could be made, without the rule's own error.
#[derive(Clone, Copy, Debug, PartialEq, Eq, Structural)]
pub enum ParserError {
    BadParseRule,
}

impl From<Error> for ParserError {
    fn from(e: Error) -> (r: ParserError) {
        ParserError::BadParseRule
    }
}

impl vstd::std_specs::convert::FromSpecImpl<Error> for ParserError {
    open spec fn obeys_from_spec() -> bool {
        true
    }

    open spec fn from_spec(e: Error) -> ParserError {
        ParserError::BadParseRule
    }
}

/// Why no entry could be read from a line.
#[derive(Debug, PartialEq, Eq, Structural)]
pub enum ParseError {
    LineNotMatch,
    /// The capture group of this number took no part in the match.
    EmptyCaptureGroup(usize),
}

/// The first field, counted from 0, among the first `n` whose group
/// (`groups[k + 1]`) is missing.
pub open spec fn first_missing<'t>(groups: Seq<Option<&'t str>>, n: int, k: int) -> Option<int>
    decreases n - k,
{
    if k >= n {
        None
    } else if k + 1 >= groups.len() || groups[k + 1] is None {
        Some(k)
    } else {
        first_missing(groups, n, k + 1)
    }
}

proof fn lemma_first_missing_none<'t>(groups: Seq<Option<&'t str>>, n: int, k: int)
    requires
        0 <= k,
        first_missing(groups, n, k) is None,
    ensures
        forall|j: int| k <= j < n ==> j + 1 < groups.len() && #[trigger] groups[j + 1] is Some,
    decreases n - k,
{
    if k < n {
        lemma_first_missing_none(groups, n, k + 1);
    }
}

/// The text of each of the first `n` fields: `groups[k + 1]` for field `k`.
pub fn field_texts<'t>(n: usize, groups: &Vec<Option<&'t str>>) -> (r: Result<Vec<&'t str>, ParseError>)
    ensures
        match first_missing(groups@, n as int, 0) {
            Some(k) => r == Err::<Vec<&'t str>, ParseError>(ParseError::EmptyCaptureGroup((k + 1) as usize)),
            None => r matches Ok(texts) && texts@.len() == n && forall|k: int|
                0 <= k < n ==> groups@[k + 1] == Some(#[trigger] texts@[k]),
        },
{
    let mut texts: Vec<&'t str> = Vec::new();
    let mut k: usize = 0;
    while k < n
        invariant
            k <= n,
            texts@.len() == k,
            first_missing(groups@, n as int, 0) == first_missing(groups@, n as int, k as int),
            forall|j: int| 0 <= j < k ==> groups@[j + 1] == Some(#[trigger] texts@[j]),
        decreases n - k,
    {
        if k + 1 >= groups.len() {
            return Err(ParseError::EmptyCaptureGroup(k + 1));
        }
        match groups[k + 1] {
            Some(t) => texts.push(t),
            None => return Err(ParseError::EmptyCaptureGroup(k + 1)),
        }
        k = k + 1;
    }
    Ok(texts)
}

/// Extracts entries from lines with a rule.
pub struct Parser<'a> {
    pub rule: ParseRule<'a>,
}

impl<'a> Parser<'a> {
    pub fn new(rule: &'a str) -> (r: Result<Parser<'a>, Error>)
        ensures
            match rule_at(rule@, 0) {
                Ok((_, fs)) => match r {
                    Ok(p) => fields_model(p.rule.fields@) == fs,
                    Err(Error::BadParseRule(err)) => err@ is CapturesFieldsMismatch,
                },
                Err(e) => r matches Err(Error::BadParseRule(err)) && err@ == e,
            },
    {
        let mut rule_parser = RuleParser::new(rule);
        match rule_parser.parse() {
            Ok(rule) => Ok(Parser { rule }),
            Err(e) => Err(Error::BadParseRule(e)),
        }
    }

    /// The names of the fields, in order.
    pub fn field_names(&self) -> (r: Vec<&'a str>)
        ensures
            r@.len() == self.rule.fields@.len(),
            forall|k: int| 0 <= k < r@.len() ==> #[trigger] r@[k] == self.rule.fields@[k].name,
    {
        let mut names: Vec<&'a str> = Vec::new();
        let mut k: usize = 0;
        while k < self.rule.fields.len()
            invariant
                k <= self.rule.fields@.len(),
                names@.len() == k,
                forall|j: int| 0 <= j < k ==> #[trigger] names@[j] == self.rule.fields@[j].name,
            decreases self.rule.fields@.len() - k,
        {
            names.push(self.rule.fields[k].name);
            k = k + 1;
        }
        names
    }

    /// The text of each field in `l`, in the order of the fields.
    pub fn field_texts<'t>(&self, l: &'t str) -> (r: Result<Vec<&'t str>, ParseError>)
        ensures
            r matches Ok(texts) ==> texts@.len() == self.rule.fields@.len(),
    {
        match regex_captures(&self.rule.re, l) {
            Some(groups) => field_texts(self.rule.fields.len(), &groups),
            None => Err(ParseError::LineNotMatch),
        }
    }
}

} // verus!
