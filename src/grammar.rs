//! The configuration language, stated as spec functions over bytes.
//!
//! Each `p_*` function reads one grammar rule at position `i` of `s` and
//! gives the value read and the position just after it, or `None` when the
//! rule does not match there. Alternatives are tried in the order written.
//! Blanks (whitespace and `#` comments) may stand between any two tokens.
use vstd::prelude::*;
use vstd::utf8::{decode_utf8, valid_utf8};

use crate::ast::{
    precedence_of, spec_truth, BoolOperator, CompareOperator, PluginType, SpecBoolExpr, SpecCase,
    SpecCondition, SpecItem, SpecRvalue, SpecSection,
};

verus! {

pub const TAB: u8 = 9;
pub const NEWLINE: u8 = 10;
pub const RETURN: u8 = 13;
pub const SPACE: u8 = 32;
pub const BANG: u8 = 33;
pub const DOUBLE_QUOTE: u8 = 34;
pub const HASH: u8 = 35;
pub const QUOTE: u8 = 39;
pub const OPEN_PAREN: u8 = 40;
pub const CLOSE_PAREN: u8 = 41;
pub const COMMA: u8 = 44;
pub const MINUS: u8 = 45;
pub const DOT: u8 = 46;
pub const LESS: u8 = 60;
pub const EQUALS: u8 = 61;
pub const GREATER: u8 = 62;
pub const OPEN_BRACKET: u8 = 91;
pub const BACKSLASH: u8 = 92;
pub const CLOSE_BRACKET: u8 = 93;
pub const UNDERSCORE: u8 = 95;
pub const OPEN_BRACE: u8 = 123;
pub const CLOSE_BRACE: u8 = 125;

/// The kinds of byte runs that the grammar reads in one sweep.
#[derive(Clone, Copy, PartialEq, Eq, Structural)]
pub enum ByteClass {
    /// `0-9`
    Digit,
    /// `A-Za-z0-9_-`
    Ident,
    /// anything but `]` and `,`
    Segment,
}

pub open spec fn byte_at(s: Seq<u8>, i: int, c: u8) -> bool {
    0 <= i < s.len() && s[i] == c
}

pub open spec fn is_space(b: u8) -> bool {
    b == SPACE || b == TAB || b == NEWLINE || b == RETURN
}

pub open spec fn is_digit(b: u8) -> bool {
    48u8 <= b <= 57u8
}

pub open spec fn is_letter(b: u8) -> bool {
    (97u8 <= b <= 122u8) || (65u8 <= b <= 90u8)
}

pub open spec fn is_ident_start(b: u8) -> bool {
    is_letter(b) || b == UNDERSCORE
}

pub open spec fn in_class(c: ByteClass, b: u8) -> bool {
    match c {
        ByteClass::Digit => is_digit(b),
        ByteClass::Ident => is_letter(b) || is_digit(b) || b == UNDERSCORE || b == MINUS,
        ByteClass::Segment => b != CLOSE_BRACKET && b != COMMA,
    }
}

/// The end of the longest run of `c` bytes that starts at `i`.
pub open spec fn run_end(s: Seq<u8>, i: int, c: ByteClass) -> int
    decreases s.len() - i,
{
    if 0 <= i < s.len() && in_class(c, s[i]) {
        run_end(s, i + 1, c)
    } else {
        i
    }
}

/// The end of the blanks that start at `i`; `in_comment` holds inside a
/// `#` comment, which runs through the next newline or to the end.
pub open spec fn blank_from(s: Seq<u8>, i: int, in_comment: bool) -> int
    decreases s.len() - i,
{
    if 0 <= i < s.len() {
        if in_comment {
            blank_from(s, i + 1, s[i] != NEWLINE)
        } else if is_space(s[i]) {
            blank_from(s, i + 1, false)
        } else if s[i] == HASH {
            blank_from(s, i + 1, true)
        } else {
            i
        }
    } else {
        i
    }
}

pub open spec fn blank(s: Seq<u8>, i: int) -> int {
    blank_from(s, i, false)
}

pub proof fn lemma_run_end_bounds(s: Seq<u8>, i: int, c: ByteClass)
    requires
        0 <= i <= s.len(),
    ensures
        i <= run_end(s, i, c) <= s.len(),
    decreases s.len() - i,
{
    if i < s.len() && in_class(c, s[i]) {
        lemma_run_end_bounds(s, i + 1, c);
    }
}

pub proof fn lemma_blank_bounds(s: Seq<u8>, i: int, in_comment: bool)
    requires
        0 <= i <= s.len(),
    ensures
        i <= blank_from(s, i, in_comment) <= s.len(),
    decreases s.len() - i,
{
    if i < s.len() {
        if in_comment {
            lemma_blank_bounds(s, i + 1, s[i] != NEWLINE);
        } else if is_space(s[i]) {
            lemma_blank_bounds(s, i + 1, false);
        } else if s[i] == HASH {
            lemma_blank_bounds(s, i + 1, true);
        }
    }
}

/// The text that a byte string encodes, when it is valid UTF-8.
pub open spec fn utf8_text(b: Seq<u8>) -> Option<Seq<char>> {
    if valid_utf8(b) {
        Some(decode_utf8(b))
    } else {
        None
    }
}

/// `"-"? digit+ ("." digit*)?`, as text.
pub open spec fn p_number(s: Seq<u8>, i: int) -> Option<(Seq<char>, int)> {
    let j = if byte_at(s, i, MINUS) { i + 1 } else { i };
    let k = run_end(s, j, ByteClass::Digit);
    if k <= j {
        None
    } else {
        let e = if byte_at(s, k, DOT) { run_end(s, k + 1, ByteClass::Digit) } else { k };
        match utf8_text(s.subrange(i, e)) {
            Some(t) => Some((t, e)),
            None => None,
        }
    }
}

/// The content of a string quoted by `q`, from `i` up to the closing quote:
/// `\q` stands for `q`, every other byte for itself. Gives the content after
/// `acc` and the position of the closing quote.
pub open spec fn unescape(s: Seq<u8>, i: int, q: u8, acc: Seq<u8>) -> Option<(Seq<u8>, int)>
    decreases s.len() - i,
{
    if 0 <= i < s.len() {
        if s[i] == q {
            Some((acc, i))
        } else if s[i] == BACKSLASH && byte_at(s, i + 1, q) {
            unescape(s, i + 2, q, acc.push(q))
        } else {
            unescape(s, i + 1, q, acc.push(s[i]))
        }
    } else {
        None
    }
}

pub open spec fn p_quoted(s: Seq<u8>, i: int, q: u8) -> Option<(Seq<char>, int)> {
    if byte_at(s, i, q) {
        match unescape(s, i + 1, q, seq![]) {
            Some((content, k)) => match utf8_text(content) {
                Some(t) => Some((t, k + 1)),
                None => None,
            },
            None => None,
        }
    } else {
        None
    }
}

/// A single- or double-quoted string.
pub open spec fn p_string(s: Seq<u8>, i: int) -> Option<(Seq<char>, int)> {
    match p_quoted(s, i, QUOTE) {
        Some(r) => Some(r),
        None => p_quoted(s, i, DOUBLE_QUOTE),
    }
}

/// `[A-Za-z_][A-Za-z0-9_-]*`
pub open spec fn p_ident(s: Seq<u8>, i: int) -> Option<(Seq<char>, int)> {
    if 0 <= i < s.len() && is_ident_start(s[i]) {
        let e = run_end(s, i + 1, ByteClass::Ident);
        match utf8_text(s.subrange(i, e)) {
            Some(t) => Some((t, e)),
            None => None,
        }
    } else {
        None
    }
}

/// A bare identifier or a quoted string.
pub open spec fn p_name(s: Seq<u8>, i: int) -> Option<(Seq<char>, int)> {
    match p_ident(s, i) {
        Some(r) => Some(r),
        None => p_string(s, i),
    }
}

/// One `[segment]` of a selector.
pub open spec fn p_segment(s: Seq<u8>, i: int) -> Option<(Seq<char>, int)> {
    if byte_at(s, i, OPEN_BRACKET) {
        let k = run_end(s, i + 1, ByteClass::Segment);
        if byte_at(s, k, CLOSE_BRACKET) {
            match utf8_text(s.subrange(i + 1, k)) {
                Some(t) => Some((t, k + 1)),
                None => None,
            }
        } else {
            None
        }
    } else {
        None
    }
}

/// The segments that follow one another from `i`, after `acc`.
pub open spec fn p_segments(s: Seq<u8>, i: int, acc: Seq<Seq<char>>) -> (Seq<Seq<char>>, int)
    decreases s.len() - i,
{
    match p_segment(s, i) {
        Some((t, k)) => if i < k <= s.len() {
            p_segments(s, k, acc.push(t))
        } else {
            (acc, i)
        },
        None => (acc, i),
    }
}

/// One or more segments.
pub open spec fn p_selector(s: Seq<u8>, i: int) -> Option<(Seq<Seq<char>>, int)> {
    let (segs, e) = p_segments(s, i, seq![]);
    if segs.len() == 0 {
        None
    } else {
        Some((segs, e))
    }
}

pub open spec fn p_rvalue(s: Seq<u8>, i: int) -> Option<(SpecRvalue, int)> {
    match p_number(s, i) {
        Some((t, e)) => Some((SpecRvalue::Number(t), e)),
        None => match p_string(s, i) {
            Some((t, e)) => Some((SpecRvalue::Str(t), e)),
            None => match p_selector(s, i) {
                Some((v, e)) => Some((SpecRvalue::Selector(v), e)),
                None => None,
            },
        },
    }
}

pub open spec fn pair_at(s: Seq<u8>, i: int, a: u8, b: u8) -> bool {
    byte_at(s, i, a) && byte_at(s, i + 1, b)
}

/// `==`, `!=`, `<=`, `>=`, `<`, `>`, tried in that order.
pub open spec fn p_compare_op(s: Seq<u8>, i: int) -> Option<(CompareOperator, int)> {
    if pair_at(s, i, EQUALS, EQUALS) {
        Some((CompareOperator::Eq, i + 2))
    } else if pair_at(s, i, BANG, EQUALS) {
        Some((CompareOperator::Ne, i + 2))
    } else if pair_at(s, i, LESS, EQUALS) {
        Some((CompareOperator::Le, i + 2))
    } else if pair_at(s, i, GREATER, EQUALS) {
        Some((CompareOperator::Ge, i + 2))
    } else if byte_at(s, i, LESS) {
        Some((CompareOperator::Lt, i + 1))
    } else if byte_at(s, i, GREATER) {
        Some((CompareOperator::Gt, i + 1))
    } else {
        None
    }
}

/// `and` or `or`.
pub open spec fn p_bool_op(s: Seq<u8>, i: int) -> Option<(BoolOperator, int)> {
    if byte_at(s, i, 97u8) && pair_at(s, i + 1, 110u8, 100u8) {
        Some((BoolOperator::And, i + 3))
    } else if pair_at(s, i, 111u8, 114u8) {
        Some((BoolOperator::Or, i + 2))
    } else {
        None
    }
}

/// `rvalue cmp_op rvalue`
pub open spec fn p_compare(s: Seq<u8>, i: int) -> Option<(SpecBoolExpr, int)> {
    match p_rvalue(s, i) {
        Some((l, j)) => match p_compare_op(s, blank(s, j)) {
            Some((op, k)) => match p_rvalue(s, blank(s, k)) {
                Some((r, m)) => Some((SpecBoolExpr::Compare(op, l, r), m)),
                None => None,
            },
            None => None,
        },
        None => None,
    }
}

/// One step of the precedence-aware builder: adds `op e` to `tree`.
///
/// A leaf, or a tree whose top operator binds at least as tightly as `op`,
/// becomes the left operand of `op`; otherwise `op` takes the top
/// operator's right operand as its own left operand.
pub open spec fn push_operand(tree: SpecCondition, op: BoolOperator, e: SpecBoolExpr) -> SpecCondition {
    let leaf = SpecCondition::Leaf(Box::new(e));
    match tree {
        SpecCondition::Leaf(_) => SpecCondition::Node(op, Box::new(tree), Box::new(leaf)),
        SpecCondition::Node(prev, l, r) => if precedence_of(prev) >= precedence_of(op) {
            SpecCondition::Node(op, Box::new(tree), Box::new(leaf))
        } else {
            SpecCondition::Node(prev, l, Box::new(SpecCondition::Node(op, r, Box::new(leaf))))
        },
    }
}

/// The condition tree for `head op1 e1 op2 e2 ...`.
pub open spec fn build_condition(
    head: SpecCondition,
    tail: Seq<(BoolOperator, SpecBoolExpr)>,
) -> SpecCondition
    decreases tail.len(),
{
    if tail.len() == 0 {
        head
    } else {
        push_operand(build_condition(head, tail.drop_last()), tail.last().0, tail.last().1)
    }
}

/// `cur` joined by `or` to the groups finished before it, if any.
pub open spec fn or_of(done: Option<SpecCondition>, cur: SpecCondition) -> SpecCondition {
    match done {
        Some(d) => SpecCondition::Node(BoolOperator::Or, Box::new(d), Box::new(cur)),
        None => cur,
    }
}

/// How a two-level precedence-climbing parser reads `head op1 e1 ...`:
/// the `or` of the groups it has finished, and the group it is reading.
/// `and` extends the group; `or` finishes it and starts the next.
pub open spec fn climb(head: SpecBoolExpr, tail: Seq<(BoolOperator, SpecBoolExpr)>) -> (
    Option<SpecCondition>,
    SpecCondition,
)
    decreases tail.len(),
{
    if tail.len() == 0 {
        (None, SpecCondition::Leaf(Box::new(head)))
    } else {
        let (done, cur) = climb(head, tail.drop_last());
        let leaf = SpecCondition::Leaf(Box::new(tail.last().1));
        match tail.last().0 {
            BoolOperator::And => (done, SpecCondition::Node(BoolOperator::And, Box::new(cur), Box::new(leaf))),
            BoolOperator::Or => (Some(or_of(done, cur)), leaf),
        }
    }
}

/// The tree a precedence-climbing parser builds for `head op1 e1 ...`.
pub open spec fn grouped(head: SpecBoolExpr, tail: Seq<(BoolOperator, SpecBoolExpr)>) -> SpecCondition {
    or_of(climb(head, tail).0, climb(head, tail).1)
}

/// `and` binds tighter than `or`, and equal operators group to the left:
/// the builder gives the tree that a two-level precedence-climbing parser
/// gives.
pub proof fn lemma_precedence(head: SpecBoolExpr, tail: Seq<(BoolOperator, SpecBoolExpr)>)
    ensures
        build_condition(SpecCondition::Leaf(Box::new(head)), tail) == grouped(head, tail),
        climb(head, tail).1 is Leaf || climb(head, tail).1 matches SpecCondition::Node(
            BoolOperator::And,
            _,
            _,
        ),
    decreases tail.len(),
{
    if tail.len() > 0 {
        lemma_precedence(head, tail.drop_last());
    }
}

/// `bool_expr (("and"|"or") bool_expr)*`
pub open spec fn p_condition(s: Seq<u8>, i: int) -> Option<(SpecCondition, int)>
    decreases s.len() - i, 2nat,
{
    match p_bool_expr(s, i) {
        Some((e, j)) => if i < j <= s.len() {
            let (tail, k) = p_cond_tail(s, j, seq![]);
            Some((build_condition(SpecCondition::Leaf(Box::new(e)), tail), k))
        } else {
            None
        },
        None => None,
    }
}

/// The `(operator, operand)` continuations from `j`, after `acc`.
pub open spec fn p_cond_tail(
    s: Seq<u8>,
    j: int,
    acc: Seq<(BoolOperator, SpecBoolExpr)>,
) -> (Seq<(BoolOperator, SpecBoolExpr)>, int)
    decreases s.len() - j, 2nat,
{
    match p_bool_op(s, blank(s, j)) {
        Some((op, k)) => {
            let e0 = blank(s, k);
            if j < e0 <= s.len() {
                match p_bool_expr(s, e0) {
                    Some((e, m)) => if e0 < m <= s.len() {
                        p_cond_tail(s, m, acc.push((op, e)))
                    } else {
                        (acc, j)
                    },
                    None => (acc, j),
                }
            } else {
                (acc, j)
            }
        },
        None => (acc, j),
    }
}

/// A parenthesized condition, a negation, a comparison or a bare value,
/// tried in that order.
pub open spec fn p_bool_expr(s: Seq<u8>, i: int) -> Option<(SpecBoolExpr, int)>
    decreases s.len() - i, 1nat,
{
    match p_parens(s, i) {
        Some(r) => Some(r),
        None => match p_negative(s, i) {
            Some(r) => Some(r),
            None => match p_compare(s, i) {
                Some(r) => Some(r),
                None => match p_rvalue(s, i) {
                    Some((v, e)) => Some((SpecBoolExpr::Value(v), e)),
                    None => None,
                },
            },
        },
    }
}

/// `"(" condition ")"`
pub open spec fn p_parens(s: Seq<u8>, i: int) -> Option<(SpecBoolExpr, int)>
    decreases s.len() - i, 0nat,
{
    if byte_at(s, i, OPEN_PAREN) {
        let c0 = blank(s, i + 1);
        if i < c0 <= s.len() {
            match p_condition(s, c0) {
                Some((c, k)) => {
                    let e = blank(s, k);
                    if byte_at(s, e, CLOSE_PAREN) {
                        Some((SpecBoolExpr::Parens(Box::new(c)), e + 1))
                    } else {
                        None
                    }
                },
                None => None,
            }
        } else {
            None
        }
    } else {
        None
    }
}

/// `"!" ( parenthesized condition | selector )`
pub open spec fn p_negative(s: Seq<u8>, i: int) -> Option<(SpecBoolExpr, int)>
    decreases s.len() - i, 0nat,
{
    if byte_at(s, i, BANG) {
        let k = blank(s, i + 1);
        if i < k <= s.len() {
            match p_parens(s, k) {
                Some((e, m)) => Some((SpecBoolExpr::Negative(Box::new(e)), m)),
                None => match p_selector(s, k) {
                    Some((v, m)) => Some(
                        (
                            SpecBoolExpr::Negative(
                                Box::new(SpecBoolExpr::Value(SpecRvalue::Selector(v))),
                            ),
                            m,
                        ),
                    ),
                    None => None,
                },
            }
        } else {
            None
        }
    } else {
        None
    }
}

pub open spec fn word_input() -> Seq<u8> {
    seq![105u8, 110u8, 112u8, 117u8, 116u8]
}

pub open spec fn word_filter() -> Seq<u8> {
    seq![102u8, 105u8, 108u8, 116u8, 101u8, 114u8]
}

pub open spec fn word_output() -> Seq<u8> {
    seq![111u8, 117u8, 116u8, 112u8, 117u8, 116u8]
}

pub open spec fn word_if() -> Seq<u8> {
    seq![105u8, 102u8]
}

pub open spec fn word_else() -> Seq<u8> {
    seq![101u8, 108u8, 115u8, 101u8]
}

pub open spec fn tag_at(s: Seq<u8>, i: int, w: Seq<u8>) -> bool {
    0 <= i && i + w.len() <= s.len() && s.subrange(i, i + w.len()) == w
}

pub open spec fn p_plugin_type(s: Seq<u8>, i: int) -> Option<(PluginType, int)> {
    if tag_at(s, i, word_input()) {
        Some((PluginType::Input, i + 5))
    } else if tag_at(s, i, word_filter()) {
        Some((PluginType::Filter, i + 6))
    } else if tag_at(s, i, word_output()) {
        Some((PluginType::Output, i + 6))
    } else {
        None
    }
}

/// `name "{" "}"`: the plugin's name.
pub open spec fn p_plugin(s: Seq<u8>, i: int) -> Option<(Seq<char>, int)> {
    match p_name(s, i) {
        Some((n, j)) => {
            let b = blank(s, j);
            let c = blank(s, b + 1);
            if byte_at(s, b, OPEN_BRACE) && byte_at(s, c, CLOSE_BRACE) {
                Some((n, c + 1))
            } else {
                None
            }
        },
        None => None,
    }
}

/// `"{" (branch_or_plugin)* "}"`
pub open spec fn p_block(s: Seq<u8>, i: int) -> Option<(Seq<SpecItem>, int)>
    decreases s.len() - i, 0nat,
{
    if byte_at(s, i, OPEN_BRACE) {
        let j = blank(s, i + 1);
        if i < j <= s.len() {
            let (items, k) = p_items(s, j, seq![]);
            if byte_at(s, k, CLOSE_BRACE) {
                Some((items, k + 1))
            } else {
                None
            }
        } else {
            None
        }
    } else {
        None
    }
}

/// The statements that follow one another from `i`, after `acc`.
pub open spec fn p_items(s: Seq<u8>, i: int, acc: Seq<SpecItem>) -> (Seq<SpecItem>, int)
    decreases s.len() - i, 3nat,
{
    match p_item(s, i) {
        Some((it, k)) => {
            let j = blank(s, k);
            if i < k <= j <= s.len() {
                p_items(s, j, acc.push(it))
            } else {
                (acc, i)
            }
        },
        None => (acc, i),
    }
}

/// A branch, else a plugin.
pub open spec fn p_item(s: Seq<u8>, i: int) -> Option<(SpecItem, int)>
    decreases s.len() - i, 2nat,
{
    match p_branch(s, i) {
        Some((cs, k)) => Some((SpecItem::Branch(cs), k)),
        None => match p_plugin(s, i) {
            Some((n, k)) => Some((SpecItem::Plugin(n), k)),
            None => None,
        },
    }
}

/// `if ... { } (else if ... { })* (else { })?`, as its list of cases.
pub open spec fn p_branch(s: Seq<u8>, i: int) -> Option<(Seq<SpecCase>, int)>
    decreases s.len() - i, 1nat,
{
    match p_case_if(s, i) {
        Some((c, k)) => if i < k <= s.len() {
            let (cases, m) = p_else_ifs(s, k, seq![c]);
            if k <= m <= s.len() {
                match p_case_else(s, m) {
                    Some((last, e)) => Some((cases.push(last), e)),
                    None => Some((cases, m)),
                }
            } else {
                None
            }
        } else {
            None
        },
        None => None,
    }
}

/// `"if" condition block`
pub open spec fn p_case_if(s: Seq<u8>, i: int) -> Option<(SpecCase, int)>
    decreases s.len() - i, 0nat,
{
    if tag_at(s, i, word_if()) {
        match p_condition(s, blank(s, i + 2)) {
            Some((c, k)) => {
                let b = blank(s, k);
                if i < b <= s.len() {
                    match p_block(s, b) {
                        Some((blk, e)) => Some((SpecCase { condition: c, block: blk }, e)),
                        None => None,
                    }
                } else {
                    None
                }
            },
            None => None,
        }
    } else {
        None
    }
}

/// The `else if` cases that follow one another from `k`, after `acc`.
pub open spec fn p_else_ifs(s: Seq<u8>, k: int, acc: Seq<SpecCase>) -> (Seq<SpecCase>, int)
    decreases s.len() - k, 0nat,
{
    let b = blank(s, k);
    if tag_at(s, b, word_else()) {
        let c = blank(s, b + 4);
        if k < c <= s.len() {
            match p_case_if(s, c) {
                Some((cs, m)) => if c < m <= s.len() {
                    p_else_ifs(s, m, acc.push(cs))
                } else {
                    (acc, k)
                },
                None => (acc, k),
            }
        } else {
            (acc, k)
        }
    } else {
        (acc, k)
    }
}

/// `"else" block`, as a case under the condition that always holds.
pub open spec fn p_case_else(s: Seq<u8>, m: int) -> Option<(SpecCase, int)>
    decreases s.len() - m, 0nat,
{
    let b = blank(s, m);
    if tag_at(s, b, word_else()) {
        let c = blank(s, b + 4);
        if m < c <= s.len() {
            match p_block(s, c) {
                Some((blk, e)) => Some((SpecCase { condition: spec_truth(), block: blk }, e)),
                None => None,
            }
        } else {
            None
        }
    } else {
        None
    }
}

/// `("input"|"filter"|"output") block`
pub open spec fn p_section(s: Seq<u8>, i: int) -> Option<(SpecSection, int)> {
    match p_plugin_type(s, i) {
        Some((t, j)) => match p_block(s, blank(s, j)) {
            Some((blk, e)) => Some((SpecSection { kind: t, block: blk }, e)),
            None => None,
        },
        None => None,
    }
}

/// The sections that follow one another from `i`, after `acc`.
pub open spec fn p_sections(s: Seq<u8>, i: int, acc: Seq<SpecSection>) -> (Seq<SpecSection>, int)
    decreases s.len() - i,
{
    match p_section(s, blank(s, i)) {
        Some((sec, e)) => {
            let a = blank(s, e);
            if i < a <= s.len() {
                p_sections(s, a, acc.push(sec))
            } else {
                (acc, i)
            }
        },
        None => (acc, i),
    }
}

/// A whole configuration: one or more sections that, with the blanks
/// around them, take up all of `s`.
pub open spec fn spec_parse(s: Seq<u8>) -> Option<Seq<SpecSection>> {
    let (secs, e) = p_sections(s, 0, seq![]);
    if secs.len() > 0 && blank(s, e) == s.len() {
        Some(secs)
    } else {
        None
    }
}

/// An `else` tail is normalized: a branch read from `if C {A} else {B}` has
/// exactly two cases, `C` guarding `A`, then the condition that always
/// holds guarding `B`.
pub proof fn lemma_else_normalized(
    s: Seq<u8>,
    i: int,
    first: SpecCase,
    k: int,
    b: Seq<SpecItem>,
    e: int,
)
    requires
        0 <= i,
        p_case_if(s, i) == Some((first, k)),
        i < k <= s.len(),
        tag_at(s, blank(s, k), word_else()),
        p_block(s, blank(s, blank(s, k) + 4)) == Some((b, e)),
    ensures
        p_branch(s, i) == Some((seq![first, SpecCase { condition: spec_truth(), block: b }], e)),
{
    let at_else = blank(s, k);
    lemma_blank_bounds(s, k, false);
    let c = blank(s, at_else + 4);
    lemma_blank_bounds(s, at_else + 4, false);
    assert(byte_at(s, c, OPEN_BRACE));
    if tag_at(s, c, word_if()) {
        assert(s.subrange(c, c + 2)[0] == s[c]);
    }
    assert(p_case_if(s, c) is None);
    assert(p_else_ifs(s, k, seq![first]) == (seq![first], k));
    assert(seq![first].push(SpecCase { condition: spec_truth(), block: b }) =~= seq![
        first,
        SpecCase { condition: spec_truth(), block: b },
    ]);
}

} // verus!
