//! Line-extraction rules: a regex between slashes, then the typed fields
//! that its capture groups fill, as in `/(\d+)\s(\w+)/ num:uint,res`.
//!
//! The scanner works on the rule's characters; positions count characters.
use vstd::prelude::*;

verus! {

#[verifier::external_type_specification]
#[verifier::external_body]
pub struct ExRegex(regex::Regex);

/// Whether `regex::Regex::new` accepts a pattern (its syntax, and its
/// default size limit).
pub uninterp spec fn regex_compiles(pattern: Seq<char>) -> bool;

/// How many capture groups the regex of a pattern has, counting the
/// implicit group of the whole match.
pub uninterp spec fn capture_slots(pattern: Seq<char>) -> nat;

/// Relies on `regex::Regex::new`: whether it succeeds depends on the
/// pattern alone; a failure comes back as the error's message. And on
/// `regex::Regex::captures_len` of the result: the number of capture
/// groups, counting the implicit whole-match group, so never zero; it too
/// depends on the pattern alone.
#[verifier::external_body]
pub(crate) fn compile_regex(pattern: &str) -> (r: Result<(regex::Regex, usize), String>)
    ensures
        r is Ok <==> regex_compiles(pattern@),
        r matches Ok((_, n)) ==> n == capture_slots(pattern@) && n >= 1,
{
    match regex::Regex::new(pattern) {
        Ok(re) => {
            let slots = re.captures_len();
            Ok((re, slots))
        },
        Err(e) => Err(e.to_string()),
    }
}

/// A compiled rule: the regex and one field per capture group.
pub struct ParseRule<'a> {
    pub re: regex::Regex,
    pub fields: Vec<Field<'a>>,
}

#[derive(Debug, PartialEq)]
pub enum FieldType<'a> {
    Int,
    UInt,
    Float,
    DateTime(&'a str),
    Str,
}

pub struct Field<'a> {
    pub typ: FieldType<'a>,
    pub name: &'a str,
}

#[derive(Eq, PartialEq, Debug)]
pub enum Token<'a> {
    Regex(&'a str),
    FieldName(&'a str),
    TypeInt,
    TypeUInt,
    TypeFloat,
    TypeDateTime(&'a str),
    Comma,
    /// spaces and tabs
    WS,
    EOF,
}

#[derive(Eq, PartialEq, Debug)]
pub enum ScanError {
    IllegalSymbol { pos: usize, symbol: char, token: &'static str },
    UnexpectedEndOfRule,
}

#[derive(Debug)]
pub enum Error {
    UnexpectedToken { token: String, pos: usize },
    ScanFailed(ScanError),
    /// The regex does not compile; holds why.
    BadRegex(String),
    CapturesFieldsMismatch { captures_count: usize, fields_count: usize },
}

// ---------------------------------------------------------------------------
// Model
// ---------------------------------------------------------------------------

pub enum SpecToken {
    Regex(Seq<char>),
    FieldName(Seq<char>),
    TypeInt,
    TypeUInt,
    TypeFloat,
    TypeDateTime(Seq<char>),
    Comma,
    WS,
    EOF,
}

pub enum SpecScanError {
    IllegalSymbol { pos: int, symbol: char, token: Seq<char> },
    UnexpectedEndOfRule,
}

pub enum SpecFieldType {
    Int,
    UInt,
    Float,
    DateTime(Seq<char>),
    Str,
}

pub struct SpecField {
    pub typ: SpecFieldType,
    pub name: Seq<char>,
}

impl<'a> View for Token<'a> {
    type V = SpecToken;

    open spec fn view(&self) -> SpecToken {
        match *self {
            Token::Regex(s) => SpecToken::Regex(s@),
            Token::FieldName(s) => SpecToken::FieldName(s@),
            Token::TypeInt => SpecToken::TypeInt,
            Token::TypeUInt => SpecToken::TypeUInt,
            Token::TypeFloat => SpecToken::TypeFloat,
            Token::TypeDateTime(s) => SpecToken::TypeDateTime(s@),
            Token::Comma => SpecToken::Comma,
            Token::WS => SpecToken::WS,
            Token::EOF => SpecToken::EOF,
        }
    }
}

impl View for ScanError {
    type V = SpecScanError;

    open spec fn view(&self) -> SpecScanError {
        match *self {
            ScanError::IllegalSymbol { pos, symbol, token } => SpecScanError::IllegalSymbol {
                pos: pos as int,
                symbol,
                token: token@,
            },
            ScanError::UnexpectedEndOfRule => SpecScanError::UnexpectedEndOfRule,
        }
    }
}

impl<'a> View for FieldType<'a> {
    type V = SpecFieldType;

    open spec fn view(&self) -> SpecFieldType {
        match *self {
            FieldType::Int => SpecFieldType::Int,
            FieldType::UInt => SpecFieldType::UInt,
            FieldType::Float => SpecFieldType::Float,
            FieldType::DateTime(p) => SpecFieldType::DateTime(p@),
            FieldType::Str => SpecFieldType::Str,
        }
    }
}

impl<'a> View for Field<'a> {
    type V = SpecField;

    open spec fn view(&self) -> SpecField {
        SpecField { typ: self.typ@, name: self.name@ }
    }
}

pub enum SpecRuleError {
    UnexpectedToken { token: Seq<char>, pos: int },
    ScanFailed(SpecScanError),
    BadRegex,
    CapturesFieldsMismatch { captures_count: int, fields_count: int },
}

impl View for Error {
    type V = SpecRuleError;

    open spec fn view(&self) -> SpecRuleError {
        match *self {
            Error::UnexpectedToken { token, pos } => SpecRuleError::UnexpectedToken {
                token: token@,
                pos: pos as int,
            },
            Error::ScanFailed(e) => SpecRuleError::ScanFailed(e@),
            Error::BadRegex(_) => SpecRuleError::BadRegex,
            Error::CapturesFieldsMismatch { captures_count, fields_count } =>
                SpecRuleError::CapturesFieldsMismatch {
                captures_count: captures_count as int,
                fields_count: fields_count as int,
            },
        }
    }
}

pub open spec fn fields_model<'a>(fs: Seq<Field<'a>>) -> Seq<SpecField> {
    fs.map_values(|f: Field<'a>| f@)
}

/// How a token is named in a report: its kind, and its text if it has one.
pub open spec fn token_text(t: SpecToken) -> Seq<char> {
    match t {
        SpecToken::Regex(s) => "Regex(\""@ + s + "\")"@,
        SpecToken::FieldName(s) => "FieldName(\""@ + s + "\")"@,
        SpecToken::TypeInt => "TypeInt"@,
        SpecToken::TypeUInt => "TypeUInt"@,
        SpecToken::TypeFloat => "TypeFloat"@,
        SpecToken::TypeDateTime(s) => "TypeDateTime(\""@ + s + "\")"@,
        SpecToken::Comma => "Comma"@,
        SpecToken::WS => "WS"@,
        SpecToken::EOF => "EOF"@,
    }
}

pub open spec fn unexpected(t: SpecToken, pos: int) -> SpecRuleError {
    SpecRuleError::UnexpectedToken { token: token_text(t), pos }
}

/// The type that a token after a field name gives the field: a `:type`,
/// or text when a `,` or the end follows the name.
pub open spec fn type_of(t: SpecToken) -> Option<SpecFieldType> {
    match t {
        SpecToken::TypeInt => Some(SpecFieldType::Int),
        SpecToken::TypeUInt => Some(SpecFieldType::UInt),
        SpecToken::TypeFloat => Some(SpecFieldType::Float),
        SpecToken::TypeDateTime(p) => Some(SpecFieldType::DateTime(p)),
        SpecToken::Comma | SpecToken::EOF => Some(SpecFieldType::Str),
        _ => None,
    }
}

/// Reads `,` at `p` when `expect_sep` (after a typed field): gives the
/// position after it, or `None` when the rule ends there instead.
pub open spec fn separator(r: Seq<char>, p: int, expect_sep: bool) -> Result<Option<int>, SpecRuleError> {
    if expect_sep {
        match scan_at(r, p) {
            Ok((SpecToken::Comma, _, e)) => Ok(Some(e)),
            Ok((SpecToken::EOF, _, _)) => Ok(None),
            Ok((t, tp, _)) => Err(unexpected(t, tp)),
            Err(e) => Err(SpecRuleError::ScanFailed(e)),
        }
    } else {
        Ok(Some(p))
    }
}

/// The fields from `p` on, after `acc`: `name(:type)?` separated by `,`,
/// up to the end of the rule.
pub open spec fn fields_from(r: Seq<char>, p: int, expect_sep: bool, acc: Seq<SpecField>) -> Result<
    Seq<SpecField>,
    SpecRuleError,
>
    decreases r.len() - p,
{
    match separator(r, p, expect_sep) {
        Err(e) => Err(e),
        Ok(None) => Ok(acc),
        Ok(Some(q)) => match scan_at(r, q) {
            Err(e) => Err(SpecRuleError::ScanFailed(e)),
            Ok((SpecToken::FieldName(n), _, q2)) => match scan_at(r, q2) {
                Err(e) => Err(SpecRuleError::ScanFailed(e)),
                Ok((t, tp, q3)) => match type_of(t) {
                    None => Err(unexpected(t, tp)),
                    Some(typ) => {
                        let fields = acc.push(SpecField { typ, name: n });
                        if t is EOF {
                            Ok(fields)
                        } else if p < q3 <= r.len() {
                            fields_from(r, q3, !(t is Comma), fields)
                        } else {
                            Ok(fields)
                        }
                    },
                },
            },
            Ok((t, tp, _)) => Err(unexpected(t, tp)),
        },
    }
}

/// The field list that starts at `p`, after the blanks that follow the regex.
pub open spec fn fields_of(r: Seq<char>, p: int) -> Result<Seq<SpecField>, SpecRuleError> {
    match scan_at(r, p) {
        Err(e) => Err(SpecRuleError::ScanFailed(e)),
        Ok((SpecToken::WS, _, q)) => fields_from(r, q, false, seq![]),
        Ok((t, tp, _)) => Err(unexpected(t, tp)),
    }
}

/// A rule read from `p`: its regex and its fields, before the regex's
/// groups are counted.
pub open spec fn rule_at(r: Seq<char>, p: int) -> Result<(Seq<char>, Seq<SpecField>), SpecRuleError> {
    match scan_at(r, p) {
        Err(e) => Err(SpecRuleError::ScanFailed(e)),
        Ok((SpecToken::Regex(re), _, q)) => if !regex_compiles(re) {
            Err(SpecRuleError::BadRegex)
        } else {
            match fields_of(r, q) {
                Ok(fs) => Ok((re, fs)),
                Err(e) => Err(e),
            }
        },
        Ok((t, tp, _)) => Err(unexpected(t, tp)),
    }
}

pub open spec fn is_ident_char(c: char, first: bool) -> bool {
    ('a' <= c <= 'z') || ('A' <= c <= 'Z') || c == '_' || (!first && '0' <= c <= '9')
}

/// The end of the spaces and tabs from `p`.
pub open spec fn blanks_end(r: Seq<char>, p: int) -> int
    decreases r.len() - p,
{
    if 0 <= p < r.len() && (r[p] == ' ' || r[p] == '\t') {
        blanks_end(r, p + 1)
    } else {
        p
    }
}

/// The end of the identifier characters from `p`.
pub open spec fn name_end(r: Seq<char>, p: int) -> int
    decreases r.len() - p,
{
    if 0 <= p < r.len() && is_ident_char(r[p], false) {
        name_end(r, p + 1)
    } else {
        p
    }
}

/// The first `m >= p` holding `sym` that is not escaped by a backslash
/// before it (the character at `start` cannot be escaped).
pub open spec fn closing(r: Seq<char>, start: int, p: int, sym: char) -> Option<int>
    decreases r.len() - p,
{
    if 0 <= p < r.len() {
        if r[p] == sym && (p == start || r[p - 1] != '\\') {
            Some(p)
        } else {
            closing(r, start, p + 1, sym)
        }
    } else {
        None
    }
}

/// The text from `start` up to the closing `sym`, and the position after it.
pub open spec fn until(r: Seq<char>, start: int, sym: char) -> Result<(Seq<char>, int), SpecScanError> {
    match closing(r, start, start, sym) {
        Some(m) => Ok((r.subrange(start, m), m + 1)),
        None => Err(SpecScanError::UnexpectedEndOfRule),
    }
}

/// Reads the character `c` at `p`, reporting a mismatch as part of `token`.
pub open spec fn read_symbol(r: Seq<char>, p: int, c: char, token: Seq<char>) -> Result<int, SpecScanError> {
    if p < 0 || p >= r.len() {
        Err(SpecScanError::UnexpectedEndOfRule)
    } else if r[p] != c {
        Err(SpecScanError::IllegalSymbol { pos: p + 1, symbol: r[p], token })
    } else {
        Ok(p + 1)
    }
}

/// Reads the characters `w[k..]` from `p + k`; gives the position after.
pub open spec fn read_word(r: Seq<char>, p: int, w: Seq<char>, k: int) -> Result<int, SpecScanError>
    decreases w.len() - k,
{
    if k >= w.len() {
        Ok(p + k)
    } else {
        match read_symbol(r, p + k, w[k], w) {
            Ok(_) => read_word(r, p, w, k + 1),
            Err(e) => Err(e),
        }
    }
}

pub open spec fn typed(t: SpecToken, res: Result<int, SpecScanError>) -> Result<(SpecToken, int), SpecScanError> {
    match res {
        Ok(e) => Ok((t, e)),
        Err(e) => Err(e),
    }
}

/// A field type after its `:`, which stands before `p`.
pub open spec fn field_type(r: Seq<char>, p: int) -> Result<(SpecToken, int), SpecScanError> {
    if p < 0 || p >= r.len() {
        Err(SpecScanError::UnexpectedEndOfRule)
    } else if r[p] == 'i' {
        typed(SpecToken::TypeInt, read_word(r, p, "int"@, 0))
    } else if r[p] == 'u' {
        typed(SpecToken::TypeUInt, read_word(r, p, "uint"@, 0))
    } else if r[p] == 'f' {
        typed(SpecToken::TypeFloat, read_word(r, p, "float"@, 0))
    } else if r[p] == 'd' {
        match read_symbol(r, p + 1, 't', "datetime"@) {
            Ok(q) => match read_symbol(r, q, '[', "datetime pattern"@) {
                Ok(q2) => match until(r, q2, ']') {
                    Ok((pat, e)) => Ok((SpecToken::TypeDateTime(pat), e)),
                    Err(e) => Err(e),
                },
                Err(e) => Err(e),
            },
            Err(e) => Err(e),
        }
    } else {
        Err(SpecScanError::IllegalSymbol { pos: p + 1, symbol: r[p], token: "FieldType"@ })
    }
}

/// The token that starts at `p`: the token, its position (counted from
/// one) and the position after it.
pub open spec fn scan_at(r: Seq<char>, p: int) -> Result<(SpecToken, int, int), SpecScanError> {
    if p < 0 || p >= r.len() {
        Ok((SpecToken::EOF, p, p))
    } else {
        let c = r[p];
        if c == '/' {
            match until(r, p + 1, '/') {
                Ok((re, e)) => Ok((SpecToken::Regex(re), p + 1, e)),
                Err(e) => Err(e),
            }
        } else if c == ' ' || c == '\t' {
            Ok((SpecToken::WS, p + 1, blanks_end(r, p + 1)))
        } else if c == ':' {
            match field_type(r, p + 1) {
                Ok((t, e)) => Ok((t, p + 1, e)),
                Err(e) => Err(e),
            }
        } else if c == ',' {
            Ok((SpecToken::Comma, p + 1, p + 1))
        } else if !is_ident_char(c, true) {
            Err(SpecScanError::IllegalSymbol { pos: p + 1, symbol: c, token: "FieldName"@ })
        } else {
            let e = name_end(r, p + 1);
            Ok((SpecToken::FieldName(r.subrange(p, e)), p + 1, e))
        }
    }
}

proof fn lemma_blanks_end_from(r: Seq<char>, p: int)
    ensures
        blanks_end(r, p) >= p,
    decreases r.len() - p,
{
    if 0 <= p < r.len() && (r[p] == ' ' || r[p] == '\t') {
        lemma_blanks_end_from(r, p + 1);
    }
}

proof fn lemma_name_end_from(r: Seq<char>, p: int)
    ensures
        name_end(r, p) >= p,
    decreases r.len() - p,
{
    if 0 <= p < r.len() && is_ident_char(r[p], false) {
        lemma_name_end_from(r, p + 1);
    }
}

proof fn lemma_closing_from(r: Seq<char>, start: int, p: int, sym: char)
    ensures
        closing(r, start, p, sym) matches Some(m) ==> p <= m,
    decreases r.len() - p,
{
    if 0 <= p < r.len() && !(r[p] == sym && (p == start || r[p - 1] != '\\')) {
        lemma_closing_from(r, start, p + 1, sym);
    }
}

proof fn lemma_read_word_from(r: Seq<char>, p: int, w: Seq<char>, k: int)
    requires
        0 <= k,
    ensures
        read_word(r, p, w, k) matches Ok(e) ==> e >= p + k,
    decreases w.len() - k,
{
    if k < w.len() {
        lemma_read_word_from(r, p, w, k + 1);
    }
}

/// Every token but the end takes up at least one character.
pub proof fn lemma_scan_progress(r: Seq<char>, p: int)
    ensures
        match scan_at(r, p) {
            Ok((t, _, e)) => !(t is EOF) ==> e > p,
            Err(_) => true,
        },
{
    lemma_blanks_end_from(r, p + 1);
    lemma_name_end_from(r, p + 1);
    lemma_closing_from(r, p + 1, p + 1, '/');
    lemma_read_word_from(r, p + 1, "int"@, 0);
    lemma_read_word_from(r, p + 1, "uint"@, 0);
    lemma_read_word_from(r, p + 1, "float"@, 0);
    lemma_closing_from(r, p + 3, p + 3, ']');
    lemma_closing_from(r, p + 4, p + 4, ']');
}

impl<'a> Token<'a> {
    /// How the token is named in a report.
    pub fn describe(&self) -> (r: String)
        ensures
            r@ == token_text(self@),
    {
        match *self {
            Token::Regex(s) => {
                let mut out = String::from_str("Regex(\"");
                out.append(s);
                out.append("\")");
                out
            },
            Token::FieldName(s) => {
                let mut out = String::from_str("FieldName(\"");
                out.append(s);
                out.append("\")");
                out
            },
            Token::TypeInt => String::from_str("TypeInt"),
            Token::TypeUInt => String::from_str("TypeUInt"),
            Token::TypeFloat => String::from_str("TypeFloat"),
            Token::TypeDateTime(s) => {
                let mut out = String::from_str("TypeDateTime(\"");
                out.append(s);
                out.append("\")");
                out
            },
            Token::Comma => String::from_str("Comma"),
            Token::WS => String::from_str("WS"),
            Token::EOF => String::from_str("EOF"),
        }
    }
}

fn unexpected_token(token: Token, pos: usize) -> (r: Error)
    ensures
        r@ == unexpected(token@, pos as int),
{
    Error::UnexpectedToken { token: token.describe(), pos }
}

/// Reads a rule string into a `ParseRule`.
pub struct RuleParser<'a> {
    pub scanner: RuleScanner<'a>,
}

impl<'a> RuleParser<'a> {
    pub fn new(rule: &'a str) -> (r: RuleParser<'a>)
        ensures
            r.scanner.wf(),
            r.scanner.rule == rule,
            r.scanner.reader.pos == 0,
    {
        RuleParser { scanner: RuleScanner::new(rule) }
    }

    /// Reads the regex and the fields, and checks that the regex has one
    /// capture group per field.
    pub fn parse(&mut self) -> (r: Result<ParseRule<'a>, Error>)
        requires
            old(self).scanner.wf(),
        ensures
            match rule_at(old(self).scanner.chars(), old(self).scanner.reader.pos as int) {
                Ok((re, fs)) => if capture_slots(re) == fs.len() + 1 {
                    r matches Ok(rule) && fields_model(rule.fields@) == fs
                } else {
                    r matches Err(e) && e@ == SpecRuleError::CapturesFieldsMismatch {
                        captures_count: capture_slots(re) as int,
                        fields_count: fs.len() as int,
                    }
                },
                Err(e) => r matches Err(err) && err@ == e,
            },
    {
        let (token, pos) = match self.scan() {
            Ok(x) => x,
            Err(e) => return Err(Error::ScanFailed(e)),
        };
        let pattern = match token {
            Token::Regex(re) => re,
            _ => return Err(unexpected_token(token, pos)),
        };
        let (re, captures) = match compile_regex(pattern) {
            Ok(compiled) => compiled,
            Err(why) => return Err(Error::BadRegex(why)),
        };
        let fields = match self.parse_fields() {
            Ok(fields) => fields,
            Err(e) => return Err(e),
        };
        if captures - 1 != fields.len() {
            Err(Error::CapturesFieldsMismatch { captures_count: captures, fields_count: fields.len() })
        } else {
            Ok(ParseRule { re, fields })
        }
    }

    /// The fields after the regex: blanks, then `name(:type)?` separated by
    /// `,` up to the end of the rule.
    pub fn parse_fields(&mut self) -> (r: Result<Vec<Field<'a>>, Error>)
        requires
            old(self).scanner.wf(),
        ensures
            final(self).scanner.wf(),
            final(self).scanner.rule == old(self).scanner.rule,
            match fields_of(old(self).scanner.chars(), old(self).scanner.reader.pos as int) {
                Ok(fs) => r matches Ok(fields) && fields_model(fields@) == fs,
                Err(e) => r matches Err(err) && err@ == e,
            },
    {
        let ghost chars = self.scanner.chars();
        let (token, pos) = match self.scan() {
            Ok(x) => x,
            Err(e) => return Err(Error::ScanFailed(e)),
        };
        match token {
            Token::WS => {},
            _ => return Err(unexpected_token(token, pos)),
        }
        let mut fields: Vec<Field<'a>> = Vec::new();
        let mut expect_sep = false;
        assert(fields_model(fields@) =~= seq![]);
        loop
            invariant_except_break
                fields_of(chars, old(self).scanner.reader.pos as int) == fields_from(
                    chars,
                    self.scanner.reader.pos as int,
                    expect_sep,
                    fields_model(fields@),
                ),
            invariant
                self.scanner.wf(),
                self.scanner.rule == old(self).scanner.rule,
                chars == self.scanner.chars(),
            ensures
                fields_of(chars, old(self).scanner.reader.pos as int) == Ok::<
                    Seq<SpecField>,
                    SpecRuleError,
                >(fields_model(fields@)),
            decreases self.scanner.reader.len - self.scanner.reader.pos,
        {
            let ghost p = self.scanner.reader.pos as int;
            let ghost acc = fields_model(fields@);
            proof {
                lemma_scan_progress(chars, p);
            }
            if expect_sep {
                let (token, pos) = match self.scan() {
                    Ok(x) => x,
                    Err(e) => return Err(Error::ScanFailed(e)),
                };
                match token {
                    Token::Comma => {},
                    Token::EOF => break,
                    _ => return Err(unexpected_token(token, pos)),
                }
            }
            proof {
                lemma_scan_progress(chars, self.scanner.reader.pos as int);
            }
            let name = match self.scan() {
                Ok((Token::FieldName(n), _)) => n,
                Ok((token, pos)) => return Err(unexpected_token(token, pos)),
                Err(e) => return Err(Error::ScanFailed(e)),
            };
            proof {
                lemma_scan_progress(chars, self.scanner.reader.pos as int);
            }
            // allowed after a name: its type, a `,`, or the end of the rule
            let (token, pos) = match self.scan() {
                Ok(x) => x,
                Err(e) => return Err(Error::ScanFailed(e)),
            };
            let typ = match token {
                Token::TypeInt => FieldType::Int,
                Token::TypeUInt => FieldType::UInt,
                Token::TypeFloat => FieldType::Float,
                Token::TypeDateTime(p) => FieldType::DateTime(p),
                Token::Comma | Token::EOF => FieldType::Str,
                _ => return Err(unexpected_token(token, pos)),
            };
            let field = Field { name, typ };
            proof {
                assert(fields_model(fields@.push(field)) =~= acc.push(field@));
            }
            fields.push(field);
            match token {
                Token::EOF => break,
                Token::Comma => {
                    expect_sep = false;
                },
                _ => {
                    expect_sep = true;
                },
            }
        }
        Ok(fields)
    }

    pub fn scan(&mut self) -> (r: Result<(Token<'a>, usize), ScanError>)
        requires
            old(self).scanner.wf(),
        ensures
            final(self).scanner.wf(),
            final(self).scanner.rule == old(self).scanner.rule,
            match scan_at(old(self).scanner.chars(), old(self).scanner.reader.pos as int) {
                Ok((t, p, e)) => r matches Ok((tok, q)) && tok@ == t && q == p
                    && final(self).scanner.reader.pos == e,
                Err(e) => r matches Err(err) && err@ == e,
            },
    {
        self.scanner.scan()
    }
}

// ---------------------------------------------------------------------------
// Reader and scanner
// ---------------------------------------------------------------------------

/// Reads the characters of a rule one by one, and can step back.
pub struct RuleReader<'a> {
    pub rule: &'a str,
    /// How many characters have been read.
    pub pos: usize,
    pub len: usize,
}

impl<'a> RuleReader<'a> {
    pub open spec fn wf(&self) -> bool {
        self.len == self.rule@.len() && self.pos <= self.len
    }

    pub fn new(rule: &'a str) -> (r: RuleReader<'a>)
        ensures
            r.wf(),
            r.rule == rule,
            r.pos == 0,
    {
        RuleReader { rule, pos: 0, len: rule.unicode_len() }
    }

    pub fn read_char(&mut self) -> (r: Option<char>)
        requires
            old(self).wf(),
        ensures
            final(self).wf(),
            final(self).rule == old(self).rule,
            old(self).pos < old(self).len ==> r == Some(old(self).rule@[old(self).pos as int])
                && final(self).pos == old(self).pos + 1,
            old(self).pos >= old(self).len ==> r is None && final(self).pos == old(self).pos,
    {
        if self.pos < self.len {
            let c = self.rule.get_char(self.pos);
            self.pos = self.pos + 1;
            Some(c)
        } else {
            None
        }
    }

    /// Steps back over the character read last.
    pub fn unread(&mut self)
        requires
            old(self).wf(),
            old(self).pos > 0,
        ensures
            final(self).wf(),
            final(self).rule == old(self).rule,
            final(self).pos == old(self).pos - 1,
    {
        self.pos = self.pos - 1;
    }
}

/// Reads the tokens of a rule one by one.
pub struct RuleScanner<'a> {
    pub rule: &'a str,
    pub reader: RuleReader<'a>,
}

impl<'a> RuleScanner<'a> {
    pub open spec fn wf(&self) -> bool {
        self.reader.wf() && self.reader.rule == self.rule
    }

    pub open spec fn chars(&self) -> Seq<char> {
        self.rule@
    }

    pub fn new(rule: &'a str) -> (r: RuleScanner<'a>)
        ensures
            r.wf(),
            r.rule == rule,
            r.reader.pos == 0,
    {
        RuleScanner { rule, reader: RuleReader::new(rule) }
    }

    /// The next token and its position, counted from one.
    pub fn scan(&mut self) -> (r: Result<(Token<'a>, usize), ScanError>)
        requires
            old(self).wf(),
        ensures
            final(self).wf(),
            final(self).rule == old(self).rule,
            match scan_at(old(self).chars(), old(self).reader.pos as int) {
                Ok((t, p, e)) => r matches Ok((tok, q)) && tok@ == t && q == p && final(self).reader.pos
                    == e,
                Err(e) => r matches Err(err) && err@ == e,
            },
    {
        let ch0 = match self.reader.read_char() {
            Some(c) => c,
            None => return Ok((Token::EOF, self.reader.pos)),
        };
        let pos = self.reader.pos;
        let token = if ch0 == '/' {
            match self.scan_regex() {
                Ok(t) => t,
                Err(e) => return Err(e),
            }
        } else if ch0 == ' ' || ch0 == '\t' {
            self.scan_whitespace()
        } else if ch0 == ':' {
            match self.scan_field_type() {
                Ok(t) => t,
                Err(e) => return Err(e),
            }
        } else if ch0 == ',' {
            Token::Comma
        } else {
            if !self.is_ident_symbol(ch0, true) {
                proof {
                    reveal_strlit("FieldName");
                }
                return Err(ScanError::IllegalSymbol { pos: self.reader.pos, symbol: ch0, token: "FieldName" });
            }
            self.scan_field_name()
        };
        Ok((token, pos))
    }

    /// An identifier whose first character has just been read.
    pub fn scan_field_name(&mut self) -> (r: Token<'a>)
        requires
            old(self).wf(),
            old(self).reader.pos > 0,
        ensures
            final(self).wf(),
            final(self).rule == old(self).rule,
            final(self).reader.pos == name_end(old(self).chars(), old(self).reader.pos as int),
            r@ == SpecToken::FieldName(
                old(self).chars().subrange(old(self).reader.pos - 1, final(self).reader.pos as int),
            ),
    {
        let start = self.reader.pos - 1;
        loop
            invariant
                self.wf(),
                self.rule == old(self).rule,
                old(self).reader.pos <= self.reader.pos,
                name_end(self.rule@, old(self).reader.pos as int) == name_end(self.rule@, self.reader.pos as int),
            ensures
                self.wf(),
                self.rule == old(self).rule,
                name_end(self.rule@, old(self).reader.pos as int) == self.reader.pos,
            decreases self.reader.len - self.reader.pos,
        {
            match self.reader.read_char() {
                Some(ch) => {
                    if !self.is_ident_symbol(ch, false) {
                        self.reader.unread();
                        break;
                    }
                },
                None => break,
            }
        }
        let end = self.reader.pos;
        Token::FieldName(self.rule.substring_char(start, end))
    }

    /// The field type after a `:` that has just been read.
    pub fn scan_field_type(&mut self) -> (r: Result<Token<'a>, ScanError>)
        requires
            old(self).wf(),
        ensures
            final(self).wf(),
            final(self).rule == old(self).rule,
            match field_type(old(self).chars(), old(self).reader.pos as int) {
                Ok((t, e)) => r matches Ok(tok) && tok@ == t && final(self).reader.pos == e,
                Err(e) => r matches Err(err) && err@ == e,
            },
    {
        proof {
            reveal_strlit("FieldType");
        }
        match self.reader.read_char() {
            Some(c) => {
                if c == 'i' {
                    self.reader.unread();
                    match self.scan_word("int") {
                        Ok(()) => Ok(Token::TypeInt),
                        Err(e) => Err(e),
                    }
                } else if c == 'u' {
                    self.reader.unread();
                    match self.scan_word("uint") {
                        Ok(()) => Ok(Token::TypeUInt),
                        Err(e) => Err(e),
                    }
                } else if c == 'f' {
                    self.reader.unread();
                    match self.scan_word("float") {
                        Ok(()) => Ok(Token::TypeFloat),
                        Err(e) => Err(e),
                    }
                } else if c == 'd' {
                    match self.scan_symbol('t', "datetime") {
                        Ok(()) => self.scan_dt_pattern(),
                        Err(e) => Err(e),
                    }
                } else {
                    Err(ScanError::IllegalSymbol { pos: self.reader.pos, symbol: c, token: "FieldType" })
                }
            },
            None => Err(ScanError::UnexpectedEndOfRule),
        }
    }

    /// `[pattern]` of a datetime field.
    pub fn scan_dt_pattern(&mut self) -> (r: Result<Token<'a>, ScanError>)
        requires
            old(self).wf(),
        ensures
            final(self).wf(),
            final(self).rule == old(self).rule,
            match read_symbol(old(self).chars(), old(self).reader.pos as int, '[', "datetime pattern"@) {
                Ok(q) => match until(old(self).chars(), q, ']') {
                    Ok((pat, e)) => r matches Ok(tok) && tok@ == SpecToken::TypeDateTime(pat)
                        && final(self).reader.pos == e,
                    Err(e) => r matches Err(err) && err@ == e,
                },
                Err(e) => r matches Err(err) && err@ == e,
            },
    {
        match self.scan_between('[', ']', "datetime pattern") {
            Ok(p) => Ok(Token::TypeDateTime(p)),
            Err(e) => Err(e),
        }
    }

    /// The spaces and tabs after one that has just been read.
    pub fn scan_whitespace(&mut self) -> (r: Token<'a>)
        requires
            old(self).wf(),
        ensures
            final(self).wf(),
            final(self).rule == old(self).rule,
            final(self).reader.pos == blanks_end(old(self).chars(), old(self).reader.pos as int),
            r == Token::<'a>::WS,
    {
        loop
            invariant
                self.wf(),
                self.rule == old(self).rule,
                blanks_end(self.rule@, old(self).reader.pos as int) == blanks_end(self.rule@, self.reader.pos as int),
            ensures
                self.wf(),
                self.rule == old(self).rule,
                blanks_end(self.rule@, old(self).reader.pos as int) == self.reader.pos,
            decreases self.reader.len - self.reader.pos,
        {
            match self.reader.read_char() {
                Some(c) => {
                    if c != ' ' && c != '\t' {
                        self.reader.unread();
                        break;
                    }
                },
                None => break,
            }
        }
        Token::WS
    }

    /// The regex after a `/` that has just been read, up to the next
    /// unescaped `/`.
    pub fn scan_regex(&mut self) -> (r: Result<Token<'a>, ScanError>)
        requires
            old(self).wf(),
        ensures
            final(self).wf(),
            final(self).rule == old(self).rule,
            match until(old(self).chars(), old(self).reader.pos as int, '/') {
                Ok((re, e)) => r matches Ok(tok) && tok@ == SpecToken::Regex(re) && final(self).reader.pos
                    == e,
                Err(e) => r matches Err(err) && err@ == e,
            },
    {
        match self.scan_until('/') {
            Ok(re) => Ok(Token::Regex(re)),
            Err(e) => Err(e),
        }
    }

    /// Reads the character `symbol`; a mismatch is reported as part of
    /// `token`.
    pub fn scan_symbol(&mut self, symbol: char, token: &'static str) -> (r: Result<(), ScanError>)
        requires
            old(self).wf(),
        ensures
            final(self).wf(),
            final(self).rule == old(self).rule,
            match read_symbol(old(self).chars(), old(self).reader.pos as int, symbol, token@) {
                Ok(e) => r is Ok && final(self).reader.pos == e,
                Err(e) => r matches Err(err) && err@ == e,
            },
    {
        match self.reader.read_char() {
            Some(ch) => {
                if ch != symbol {
                    return Err(ScanError::IllegalSymbol { pos: self.reader.pos, symbol: ch, token });
                }
            },
            None => return Err(ScanError::UnexpectedEndOfRule),
        }
        Ok(())
    }

    /// Reads the characters of `word` in order.
    pub fn scan_word(&mut self, word: &'static str) -> (r: Result<(), ScanError>)
        requires
            old(self).wf(),
        ensures
            final(self).wf(),
            final(self).rule == old(self).rule,
            match read_word(old(self).chars(), old(self).reader.pos as int, word@, 0) {
                Ok(e) => r is Ok && final(self).reader.pos == e,
                Err(e) => r matches Err(err) && err@ == e,
            },
    {
        let n = word.unicode_len();
        let mut k: usize = 0;
        while k < n
            invariant
                self.wf(),
                self.rule == old(self).rule,
                n == word@.len(),
                k <= n,
                self.reader.pos == old(self).reader.pos + k,
                read_word(self.rule@, old(self).reader.pos as int, word@, 0) == read_word(
                    self.rule@,
                    old(self).reader.pos as int,
                    word@,
                    k as int,
                ),
            decreases n - k,
        {
            match self.scan_symbol(word.get_char(k), word) {
                Ok(()) => {},
                Err(e) => return Err(e),
            }
            k = k + 1;
        }
        Ok(())
    }

    /// The text up to the next `symbol` that no backslash escapes; the
    /// reader moves past that `symbol`.
    pub fn scan_until(&mut self, symbol: char) -> (r: Result<&'a str, ScanError>)
        requires
            old(self).wf(),
        ensures
            final(self).wf(),
            final(self).rule == old(self).rule,
            match until(old(self).chars(), old(self).reader.pos as int, symbol) {
                Ok((t, e)) => r matches Ok(s) && s@ == t && final(self).reader.pos == e,
                Err(e) => r matches Err(err) && err@ == e,
            },
    {
        let ghost chars = self.rule@;
        let start = self.reader.pos;
        let mut prev = match self.reader.read_char() {
            Some(ch) => {
                if ch == symbol {
                    return Ok(self.rule.substring_char(start, start));
                }
                ch
            },
            None => return Err(ScanError::UnexpectedEndOfRule),
        };
        loop
            invariant_except_break
                prev == chars[self.reader.pos - 1],
                closing(chars, start as int, start as int, symbol) == closing(chars, start as int, self.reader.pos as int, symbol),
            invariant
                self.wf(),
                self.rule == old(self).rule,
                chars == self.rule@,
                start == old(self).reader.pos,
                start < self.reader.pos,
            ensures
                self.wf(),
                self.rule == old(self).rule,
                start < self.reader.pos,
                closing(chars, start as int, start as int, symbol) == Some(self.reader.pos - 1),
            decreases self.reader.len - self.reader.pos,
        {
            match self.reader.read_char() {
                Some(ch) => {
                    if ch == symbol && prev != '\\' {
                        break;
                    }
                    prev = ch;
                },
                None => return Err(ScanError::UnexpectedEndOfRule),
            }
        }
        let end = self.reader.pos - 1;
        Ok(self.rule.substring_char(start, end))
    }

    /// `l`, then the text up to `r` as `scan_until` reads it.
    pub fn scan_between(&mut self, l: char, r: char, token: &'static str) -> (res: Result<&'a str, ScanError>)
        requires
            old(self).wf(),
        ensures
            final(self).wf(),
            final(self).rule == old(self).rule,
            match read_symbol(old(self).chars(), old(self).reader.pos as int, l, token@) {
                Ok(q) => match until(old(self).chars(), q, r) {
                    Ok((t, e)) => res matches Ok(s) && s@ == t && final(self).reader.pos == e,
                    Err(e) => res matches Err(err) && err@ == e,
                },
                Err(e) => res matches Err(err) && err@ == e,
            },
    {
        match self.scan_symbol(l, token) {
            Ok(()) => {},
            Err(e) => return Err(e),
        }
        self.scan_until(r)
    }

    /// Whether `ch0` can stand in an identifier; digits cannot come first.
    pub fn is_ident_symbol(&self, ch0: char, is_first: bool) -> (r: bool)
        ensures
            r == is_ident_char(ch0, is_first),
    {
        let is_alpha = ('a' <= ch0 && ch0 <= 'z') || ('A' <= ch0 && ch0 <= 'Z');
        let can_be_first = is_alpha || (ch0 == '_');
        can_be_first || (!is_first && '0' <= ch0 && ch0 <= '9')
    }
}

} // verus!
