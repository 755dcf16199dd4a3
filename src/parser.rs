//! The configuration parser.
//!
//! Every reader takes the whole input and a position, and agrees with the
//! rule of the same name in `grammar`: it returns the value read and the
//! position after it exactly when the rule matches there.
use vstd::prelude::*;

use crate::ast::{
    block_model, cases_model, lemma_block_model_push, lemma_cases_model_push, precedence_of,
    strings_model, Block, BoolExpr, BoolOperator, Branch,
    BranchOrPlugin, Case, CompareOperator, Condition, Config, Number, Plugin, PluginSection,
    PluginType, Rvalue, Selector, SpecBoolExpr, SpecCondition,
};
use crate::grammar::{
    blank, blank_from, build_condition, byte_at, in_class, p_bool_expr, p_bool_op, p_compare,
    p_compare_op, p_cond_tail, p_condition, p_name, p_negative, p_number, p_parens, p_quoted,
    p_rvalue, p_segment, p_segments, p_selector, p_string, push_operand, run_end, tag_at,
    unescape, utf8_text, p_plugin, p_block, p_items, p_item, p_branch, p_case_if, p_else_ifs,
    p_case_else, p_plugin_type, p_section, p_sections, spec_parse, word_else, word_filter, word_if,
    word_input, word_output, ByteClass, BANG, BACKSLASH, CLOSE_BRACKET, CLOSE_PAREN, COMMA,
    DOUBLE_QUOTE, DOT, EQUALS, GREATER, HASH, LESS, MINUS, NEWLINE, OPEN_BRACKET, OPEN_PAREN,
    QUOTE, RETURN, SPACE, TAB, UNDERSCORE, OPEN_BRACE, CLOSE_BRACE,
};

verus! {

/// `r` agrees with the grammar's answer `m`.
pub open spec fn agrees<T: View>(r: Option<(T, usize)>, m: Option<(T::V, int)>) -> bool {
    match r {
        Some((v, e)) => m == Some((v@, e as int)),
        None => m is None,
    }
}

/// When `r` holds a value, reading it moved forward from `i` and stayed
/// within the `n` bytes of the input.
pub open spec fn advances<T>(r: Option<(T, usize)>, i: int, n: int) -> bool {
    match r {
        Some((_, e)) => i < e <= n,
        None => true,
    }
}

pub open spec fn pairs_model(v: Seq<(BoolOperator, BoolExpr)>) -> Seq<(BoolOperator, SpecBoolExpr)> {
    v.map_values(|p: (BoolOperator, BoolExpr)| (p.0, p.1@))
}

/// Relies on `String::from_utf8`: it succeeds exactly on valid UTF-8 and
/// then holds the characters that the bytes encode.
#[verifier::external_body]
fn string_from_utf8(bytes: Vec<u8>) -> (r: Option<String>)
    ensures
        match r {
            Some(t) => utf8_text(bytes@) == Some(t@),
            None => utf8_text(bytes@) is None,
        },
{
    String::from_utf8(bytes).ok()
}

fn copy_range(s: &[u8], from: usize, to: usize) -> (r: Vec<u8>)
    requires
        from <= to <= s@.len(),
    ensures
        r@ == s@.subrange(from as int, to as int),
{
    let mut v: Vec<u8> = Vec::new();
    let mut k: usize = from;
    while k < to
        invariant
            from <= k <= to <= s@.len(),
            v@ == s@.subrange(from as int, k as int),
        decreases to - k,
    {
        v.push(s[k]);
        k = k + 1;
        assert(v@ =~= s@.subrange(from as int, k as int));
    }
    v
}

/// The text encoded by `s[from..to]`, if it is valid UTF-8.
fn text_of(s: &[u8], from: usize, to: usize) -> (r: Option<String>)
    requires
        from <= to <= s@.len(),
    ensures
        match r {
            Some(t) => utf8_text(s@.subrange(from as int, to as int)) == Some(t@),
            None => utf8_text(s@.subrange(from as int, to as int)) is None,
        },
{
    string_from_utf8(copy_range(s, from, to))
}

fn has_byte(s: &[u8], i: usize, c: u8) -> (r: bool)
    ensures
        r == byte_at(s@, i as int, c),
{
    i < s.len() && s[i] == c
}

/// Whether the bytes of `w` stand at position `i`.
fn tag(s: &[u8], i: usize, w: &[u8]) -> (r: bool)
    ensures
        r == tag_at(s@, i as int, w@),
{
    let n = s.len();
    if i > n || w.len() > n - i {
        return false;
    }
    let mut k: usize = 0;
    while k < w.len()
        invariant
            n == s@.len(),
            i + w@.len() <= n,
            k <= w@.len(),
            s@.subrange(i as int, i + k) == w@.subrange(0, k as int),
        decreases w@.len() - k,
    {
        if s[i + k] != w[k] {
            assert(s@.subrange(i as int, i + w@.len())[k as int] != w@[k as int]);
            return false;
        }
        k = k + 1;
        assert(s@.subrange(i as int, i + k) =~= w@.subrange(0, k as int));
    }
    assert(w@.subrange(0, w@.len() as int) =~= w@);
    true
}

fn in_class_exec(c: ByteClass, b: u8) -> (r: bool)
    ensures
        r == in_class(c, b),
{
    match c {
        ByteClass::Digit => 48 <= b && b <= 57,
        ByteClass::Ident => (97 <= b && b <= 122) || (65 <= b && b <= 90) || (48 <= b && b <= 57)
            || b == UNDERSCORE || b == MINUS,
        ByteClass::Segment => b != CLOSE_BRACKET && b != COMMA,
    }
}

/// The end of the run of `c` bytes that starts at `i`.
pub fn scan_run(s: &[u8], i: usize, c: ByteClass) -> (r: usize)
    requires
        i <= s@.len(),
    ensures
        r == run_end(s@, i as int, c),
        i <= r <= s@.len(),
{
    let mut k = i;
    while k < s.len() && in_class_exec(c, s[k])
        invariant
            i <= k <= s@.len(),
            run_end(s@, i as int, c) == run_end(s@, k as int, c),
        decreases s@.len() - k,
    {
        k = k + 1;
    }
    k
}

/// Skips whitespace and `#` comments from `i`.
pub fn blank0(s: &[u8], i: usize) -> (r: usize)
    requires
        i <= s@.len(),
    ensures
        r == blank(s@, i as int),
        i <= r <= s@.len(),
{
    let mut k = i;
    let mut in_comment = false;
    while k < s.len()
        invariant
            i <= k <= s@.len(),
            blank_from(s@, i as int, false) == blank_from(s@, k as int, in_comment),
        decreases s@.len() - k,
    {
        let b = s[k];
        if in_comment {
            in_comment = b != NEWLINE;
        } else if b == SPACE || b == TAB || b == NEWLINE || b == RETURN {
        } else if b == HASH {
            in_comment = true;
        } else {
            return k;
        }
        k = k + 1;
    }
    k
}

/// A number: `-`? digits, then `.` and digits optionally.
pub fn number(s: &[u8], i: usize) -> (r: Option<(Number, usize)>)
    requires
        i <= s@.len(),
    ensures
        agrees(r, p_number(s@, i as int)),
        advances(r, i as int, s@.len() as int),
{
    let n = s.len();
    let j = if i < n && s[i] == MINUS { i + 1 } else { i };
    let k = scan_run(s, j, ByteClass::Digit);
    if k <= j {
        return None;
    }
    let e = if k < n && s[k] == DOT { scan_run(s, k + 1, ByteClass::Digit) } else { k };
    match text_of(s, i, e) {
        Some(text) => Some((Number { text }, e)),
        None => None,
    }
}

/// A string quoted by `q`, with `\q` standing for `q`.
pub fn quoted(s: &[u8], i: usize, q: u8) -> (r: Option<(String, usize)>)
    requires
        i <= s@.len(),
    ensures
        agrees(r, p_quoted(s@, i as int, q)),
        advances(r, i as int, s@.len() as int),
{
    let n = s.len();
    if i >= n || s[i] != q {
        return None;
    }
    let mut content: Vec<u8> = Vec::new();
    let mut k = i + 1;
    while k < s.len() && s[k] != q
        invariant
            i < k <= s@.len(),
            unescape(s@, i + 1, q, seq![]) == unescape(s@, k as int, q, content@),
        decreases s@.len() - k,
    {
        if s[k] == BACKSLASH && has_byte(s, k + 1, q) {
            content.push(q);
            k = k + 2;
        } else {
            content.push(s[k]);
            k = k + 1;
        }
    }
    if k >= s.len() {
        return None;
    }
    match string_from_utf8(content) {
        Some(t) => Some((t, k + 1)),
        None => None,
    }
}

/// A string in single quotes.
pub fn single_quoted(s: &[u8], i: usize) -> (r: Option<(String, usize)>)
    requires
        i <= s@.len(),
    ensures
        agrees(r, p_quoted(s@, i as int, QUOTE)),
        advances(r, i as int, s@.len() as int),
{
    quoted(s, i, QUOTE)
}

/// A string in double quotes.
pub fn double_quoted(s: &[u8], i: usize) -> (r: Option<(String, usize)>)
    requires
        i <= s@.len(),
    ensures
        agrees(r, p_quoted(s@, i as int, DOUBLE_QUOTE)),
        advances(r, i as int, s@.len() as int),
{
    quoted(s, i, DOUBLE_QUOTE)
}

/// A string in single or double quotes.
pub fn string(s: &[u8], i: usize) -> (r: Option<(String, usize)>)
    requires
        i <= s@.len(),
    ensures
        agrees(r, p_string(s@, i as int)),
        advances(r, i as int, s@.len() as int),
{
    match quoted(s, i, QUOTE) {
        Some(r) => Some(r),
        None => quoted(s, i, DOUBLE_QUOTE),
    }
}

/// A bare identifier or a quoted string.
pub fn name(s: &[u8], i: usize) -> (r: Option<(String, usize)>)
    requires
        i <= s@.len(),
    ensures
        agrees(r, p_name(s@, i as int)),
        advances(r, i as int, s@.len() as int),
{
    if i < s.len() && ((97 <= s[i] && s[i] <= 122) || (65 <= s[i] && s[i] <= 90) || s[i]
        == UNDERSCORE) {
        let e = scan_run(s, i + 1, ByteClass::Ident);
        match text_of(s, i, e) {
            Some(t) => Some((t, e)),
            None => None,
        }
    } else {
        string(s, i)
    }
}

/// One `[segment]` of a selector.
fn segment(s: &[u8], i: usize) -> (r: Option<(String, usize)>)
    requires
        i <= s@.len(),
    ensures
        agrees(r, p_segment(s@, i as int)),
        advances(r, i as int, s@.len() as int),
{
    let n = s.len();
    if i >= n || s[i] != OPEN_BRACKET {
        return None;
    }
    let k = scan_run(s, i + 1, ByteClass::Segment);
    if !has_byte(s, k, CLOSE_BRACKET) {
        return None;
    }
    match text_of(s, i + 1, k) {
        Some(t) => Some((t, k + 1)),
        None => None,
    }
}

/// A field path: one or more `[segment]`s.
pub fn selector(s: &[u8], i: usize) -> (r: Option<(Selector, usize)>)
    requires
        i <= s@.len(),
    ensures
        agrees(r, p_selector(s@, i as int)),
        advances(r, i as int, s@.len() as int),
{
    let mut elements: Vec<String> = Vec::new();
    let mut k = i;
    assert(strings_model(elements@) =~= seq![]);
    loop
        invariant
            i <= k <= s@.len(),
            elements@.len() == 0 ==> k == i,
            elements@.len() > 0 ==> k > i,
            p_segments(s@, i as int, seq![]) == p_segments(s@, k as int, strings_model(elements@)),
        ensures
            p_segments(s@, k as int, strings_model(elements@)) == (strings_model(elements@), k as int),
        decreases s@.len() - k,
    {
        match segment(s, k) {
            Some((t, e)) => {
                proof {
                    assert(strings_model(elements@.push(t)) =~= strings_model(elements@).push(t@));
                }
                elements.push(t);
                k = e;
            },
            None => {
                break;
            },
        }
    }
    if elements.len() == 0 {
        None
    } else {
        Some((Selector { elements }, k))
    }
}

/// A number, a string or a selector, tried in that order.
pub fn rvalue(s: &[u8], i: usize) -> (r: Option<(Rvalue, usize)>)
    requires
        i <= s@.len(),
    ensures
        agrees(r, p_rvalue(s@, i as int)),
        advances(r, i as int, s@.len() as int),
{
    if let Some((n, e)) = number(s, i) {
        return Some((Rvalue::Number(n), e));
    }
    if let Some((t, e)) = string(s, i) {
        return Some((Rvalue::String(t), e));
    }
    match selector(s, i) {
        Some((sel, e)) => Some((Rvalue::Selector(sel), e)),
        None => None,
    }
}

/// A comparison operator.
pub fn compare_operator(s: &[u8], i: usize) -> (r: Option<(CompareOperator, usize)>)
    requires
        i <= s@.len(),
    ensures
        agrees(r, p_compare_op(s@, i as int)),
        advances(r, i as int, s@.len() as int),
{
    let n = s.len();
    let second_is_eq = i < n && has_byte(s, i + 1, EQUALS);
    if has_byte(s, i, EQUALS) && second_is_eq {
        Some((CompareOperator::Eq, i + 2))
    } else if has_byte(s, i, BANG) && second_is_eq {
        Some((CompareOperator::Ne, i + 2))
    } else if has_byte(s, i, LESS) && second_is_eq {
        Some((CompareOperator::Le, i + 2))
    } else if has_byte(s, i, GREATER) && second_is_eq {
        Some((CompareOperator::Ge, i + 2))
    } else if has_byte(s, i, LESS) {
        Some((CompareOperator::Lt, i + 1))
    } else if has_byte(s, i, GREATER) {
        Some((CompareOperator::Gt, i + 1))
    } else {
        None
    }
}

/// `and` or `or`.
pub fn bool_operator(s: &[u8], i: usize) -> (r: Option<(BoolOperator, usize)>)
    requires
        i <= s@.len(),
    ensures
        agrees(r, p_bool_op(s@, i as int)),
        advances(r, i as int, s@.len() as int),
{
    let n = s.len();
    if i < n && s[i] == 97 && has_byte(s, i + 1, 110) && has_byte(s, i + 2, 100) {
        Some((BoolOperator::And, i + 3))
    } else if i < n && s[i] == 111 && has_byte(s, i + 1, 114) {
        Some((BoolOperator::Or, i + 2))
    } else {
        None
    }
}

/// Arranges `head op1 e1 op2 e2 ...` into a tree in which `and` binds
/// tighter than `or` and equal operators group to the left.
pub fn parse_condition(head: Condition, tail: Vec<(BoolOperator, BoolExpr)>) -> (r: Condition)
    ensures
        r@ == build_condition(head@, pairs_model(tail@)),
{
    let ghost all = tail@;
    let ghost h = head@;
    let mut tail = tail;
    let mut cond = head;
    let mut done: usize = 0;
    let total = tail.len();
    while tail.len() > 0
        invariant
            total == all.len(),
            done + tail@.len() == all.len(),
            tail@ == all.subrange(done as int, all.len() as int),
            cond@ == build_condition(h, pairs_model(all.subrange(0, done as int))),
        decreases tail@.len(),
    {
        let (next_op, next_expr) = tail.remove(0);
        let ghost before = cond@;
        let ghost operand = next_expr@;
        let leaf = Condition::Leaf(Box::new(next_expr));
        assert(leaf@ == SpecCondition::Leaf(Box::new(operand)));
        let wraps = match &cond {
            Condition::Leaf(_) => true,
            Condition::Branch(op, _, _) => op.precedence() >= next_op.precedence(),
        };
        if wraps {
            // the new operator takes the whole tree as its left operand
            cond = Condition::Branch(next_op, Box::new(cond), Box::new(leaf));
        } else {
            // it binds tighter: it takes the right operand of the top node
            cond = match cond {
                Condition::Branch(op, lhs, rhs) => {
                    assert(before == SpecCondition::Node(op, Box::new(lhs@), Box::new(rhs@)));
                    assert(precedence_of(op) < precedence_of(next_op));
                    let ghost rhs_model = rhs@;
                    let inner = Condition::Branch(next_op, rhs, Box::new(leaf));
                    assert(inner@ == SpecCondition::Node(
                        next_op,
                        Box::new(rhs_model),
                        Box::new(SpecCondition::Leaf(Box::new(operand))),
                    ));
                    let c = Condition::Branch(op, lhs, Box::new(inner));
                    assert(c@ == push_operand(before, next_op, operand));
                    c
                },
                Condition::Leaf(e) => Condition::Leaf(e),
            };
        }
        assert(cond@ == push_operand(before, next_op, operand));
        proof {
            let prefix = pairs_model(all.subrange(0, done as int));
            let next = pairs_model(all.subrange(0, done + 1));
            assert(all[done as int] == (next_op, next_expr));
            assert(next =~= prefix.push((next_op, operand)));
            assert(next.drop_last() =~= prefix);
        }
        done = done + 1;
        assert(tail@ =~= all.subrange(done as int, all.len() as int));
    }
    assert(all.subrange(0, done as int) =~= all);
    cond
}

/// `bool_expr (("and"|"or") bool_expr)*`, arranged by precedence.
pub fn condition(s: &[u8], i: usize) -> (r: Option<(Condition, usize)>)
    requires
        i <= s@.len(),
    ensures
        agrees(r, p_condition(s@, i as int)),
        advances(r, i as int, s@.len() as int),
    decreases s@.len() - i, 2nat,
{
    let (head, j) = match bool_expr(s, i) {
        Some(x) => x,
        None => return None,
    };
    let mut tail: Vec<(BoolOperator, BoolExpr)> = Vec::new();
    let mut k = j;
    assert(pairs_model(tail@) =~= seq![]);
    loop
        invariant
            i < j <= k <= s@.len(),
            p_cond_tail(s@, j as int, seq![]) == p_cond_tail(s@, k as int, pairs_model(tail@)),
        ensures
            p_cond_tail(s@, k as int, pairs_model(tail@)) == (pairs_model(tail@), k as int),
        decreases s@.len() - k,
    {
        let b = blank0(s, k);
        let (op, m) = match bool_operator(s, b) {
            Some(x) => x,
            None => break,
        };
        let e0 = blank0(s, m);
        match bool_expr(s, e0) {
            Some((x, n)) => {
                proof {
                    assert(pairs_model(tail@.push((op, x))) =~= pairs_model(tail@).push((op, x@)));
                }
                tail.push((op, x));
                k = n;
            },
            None => break,
        }
    }
    let ghost head_model = head@;
    let c = parse_condition(Condition::Leaf(Box::new(head)), tail);
    assert(Condition::Leaf(Box::new(head))@ == SpecCondition::Leaf(Box::new(head_model)));
    Some((c, k))
}

/// A parenthesized condition, a negation, a comparison or a bare value.
pub fn bool_expr(s: &[u8], i: usize) -> (r: Option<(BoolExpr, usize)>)
    requires
        i <= s@.len(),
    ensures
        agrees(r, p_bool_expr(s@, i as int)),
        advances(r, i as int, s@.len() as int),
    decreases s@.len() - i, 1nat,
{
    if let Some(r) = parens(s, i) {
        return Some(r);
    }
    if let Some(r) = negative(s, i) {
        return Some(r);
    }
    if let Some(r) = compare_expr(s, i) {
        return Some(r);
    }
    match rvalue(s, i) {
        Some((v, e)) => Some((BoolExpr::Rvalue(v), e)),
        None => None,
    }
}

/// `"(" condition ")"`
pub fn parens(s: &[u8], i: usize) -> (r: Option<(BoolExpr, usize)>)
    requires
        i <= s@.len(),
    ensures
        agrees(r, p_parens(s@, i as int)),
        advances(r, i as int, s@.len() as int),
    decreases s@.len() - i, 0nat,
{
    let n = s.len();
    if i >= n || s[i] != OPEN_PAREN {
        return None;
    }
    let c0 = blank0(s, i + 1);
    match condition(s, c0) {
        Some((c, k)) => {
            let e = blank0(s, k);
            if has_byte(s, e, CLOSE_PAREN) {
                Some((BoolExpr::Parens(Box::new(c)), e + 1))
            } else {
                None
            }
        },
        None => None,
    }
}

/// `"!"` followed by a parenthesized condition or a selector.
pub fn negative(s: &[u8], i: usize) -> (r: Option<(BoolExpr, usize)>)
    requires
        i <= s@.len(),
    ensures
        agrees(r, p_negative(s@, i as int)),
        advances(r, i as int, s@.len() as int),
    decreases s@.len() - i, 0nat,
{
    let n = s.len();
    if i >= n || s[i] != BANG {
        return None;
    }
    let k = blank0(s, i + 1);
    if let Some((e, m)) = parens(s, k) {
        return Some((e.not(), m));
    }
    match selector(s, k) {
        Some((sel, m)) => Some((BoolExpr::Rvalue(Rvalue::Selector(sel)).not(), m)),
        None => None,
    }
}

/// `rvalue cmp_op rvalue`
pub fn compare_expr(s: &[u8], i: usize) -> (r: Option<(BoolExpr, usize)>)
    requires
        i <= s@.len(),
    ensures
        agrees(r, p_compare(s@, i as int)),
        advances(r, i as int, s@.len() as int),
{
    let (lhs, j) = match rvalue(s, i) {
        Some(x) => x,
        None => return None,
    };
    let (op, k) = match compare_operator(s, blank0(s, j)) {
        Some(x) => x,
        None => return None,
    };
    match rvalue(s, blank0(s, k)) {
        Some((rhs, m)) => Some((BoolExpr::Compare(op, lhs, rhs), m)),
        None => None,
    }
}

/// `name "{" "}"`
pub fn plugin(s: &[u8], i: usize) -> (r: Option<(Plugin, usize)>)
    requires
        i <= s@.len(),
    ensures
        agrees(r, p_plugin(s@, i as int)),
        advances(r, i as int, s@.len() as int),
{
    let n = s.len();
    let (name, j) = match name(s, i) {
        Some(x) => x,
        None => return None,
    };
    let b = blank0(s, j);
    if b >= n || s[b] != OPEN_BRACE {
        return None;
    }
    let c = blank0(s, b + 1);
    if !has_byte(s, c, CLOSE_BRACE) {
        return None;
    }
    Some((Plugin { name }, c + 1))
}

/// `"{" (branch_or_plugin)* "}"`
pub fn block(s: &[u8], i: usize) -> (r: Option<(Block, usize)>)
    requires
        i <= s@.len(),
    ensures
        match r {
            Some((b, e)) => p_block(s@, i as int) == Some((block_model(b@), e as int)) && i < e
                <= s@.len(),
            None => p_block(s@, i as int) is None,
        },
    decreases s@.len() - i, 0nat,
{
    let n = s.len();
    if i >= n || s[i] != OPEN_BRACE {
        return None;
    }
    let j = blank0(s, i + 1);
    let mut items: Block = Vec::new();
    let mut k = j;
    assert(block_model(items@) =~= seq![]);
    loop
        invariant
            i < j <= k <= s@.len(),
            p_items(s@, j as int, seq![]) == p_items(s@, k as int, block_model(items@)),
        ensures
            p_items(s@, k as int, block_model(items@)) == (block_model(items@), k as int),
        decreases s@.len() - k,
    {
        match branch_or_plugin(s, k) {
            Some((it, m)) => {
                let next = blank0(s, m);
                proof {
                    lemma_block_model_push(items@, it);
                }
                items.push(it);
                k = next;
            },
            None => break,
        }
    }
    if has_byte(s, k, CLOSE_BRACE) {
        Some((items, k + 1))
    } else {
        None
    }
}

/// A branch, else a plugin.
pub fn branch_or_plugin(s: &[u8], i: usize) -> (r: Option<(BranchOrPlugin, usize)>)
    requires
        i <= s@.len(),
    ensures
        agrees(r, p_item(s@, i as int)),
        advances(r, i as int, s@.len() as int),
    decreases s@.len() - i, 2nat,
{
    if let Some((b, e)) = branch(s, i) {
        return Some((BranchOrPlugin::Branch(b), e));
    }
    match plugin(s, i) {
        Some((p, e)) => Some((BranchOrPlugin::Plugin(p), e)),
        None => None,
    }
}

/// `if ... { } (else if ... { })* (else { })?`
pub fn branch(s: &[u8], i: usize) -> (r: Option<(Branch, usize)>)
    requires
        i <= s@.len(),
    ensures
        agrees(r, p_branch(s@, i as int)),
        advances(r, i as int, s@.len() as int),
    decreases s@.len() - i, 1nat,
{
    let n = s.len();
    let (first, k) = match case_if(s, i) {
        Some(x) => x,
        None => return None,
    };
    let ghost first_model = first@;
    let mut else_ifs: Vec<Case> = Vec::new();
    let mut m = k;
    assert(seq![first_model] + cases_model(else_ifs@) =~= seq![first_model]);
    loop
        invariant
            n == s@.len(),
            i < k <= m <= s@.len(),
            p_else_ifs(s@, k as int, seq![first_model]) == p_else_ifs(
                s@,
                m as int,
                seq![first_model] + cases_model(else_ifs@),
            ),
        ensures
            p_else_ifs(s@, m as int, seq![first_model] + cases_model(else_ifs@)) == (
                seq![first_model] + cases_model(else_ifs@),
                m as int,
            ),
        decreases s@.len() - m,
    {
        let b = blank0(s, m);
        if b >= n || !tag(s, b, &[101u8, 108, 115, 101]) {
            break;
        }
        assert(s@.subrange(b as int, b + 4) == word_else());
        let c = blank0(s, b + 4);
        match case_if(s, c) {
            Some((next, e)) => {
                proof {
                    lemma_cases_model_push(else_ifs@, next);
                    assert(seq![first_model] + cases_model(else_ifs@.push(next)) =~= (seq![first_model]
                        + cases_model(else_ifs@)).push(next@));
                }
                else_ifs.push(next);
                m = e;
            },
            None => break,
        }
    }
    let ghost cases = seq![first_model] + cases_model(else_ifs@);
    match case_else(s, m) {
        Some((last, e)) => {
            let r = Branch::new(first, else_ifs, Some(last));
            assert(r@ =~= cases.push(last@));
            Some((r, e))
        },
        None => {
            let r = Branch::new(first, else_ifs, None);
            assert(r@ =~= cases);
            Some((r, m))
        },
    }
}

/// `"if" condition block`
pub fn case_if(s: &[u8], i: usize) -> (r: Option<(Case, usize)>)
    requires
        i <= s@.len(),
    ensures
        agrees(r, p_case_if(s@, i as int)),
        advances(r, i as int, s@.len() as int),
    decreases s@.len() - i, 0nat,
{
    let n = s.len();
    if i >= n || !tag(s, i, &[105u8, 102]) {
        return None;
    }
    assert(s@.subrange(i as int, i + 2) == word_if());
    let (condition, k) = match condition(s, blank0(s, i + 2)) {
        Some(x) => x,
        None => return None,
    };
    match block(s, blank0(s, k)) {
        Some((block, e)) => Some((Case { condition, block }, e)),
        None => None,
    }
}

/// `"else" block`, under the condition that always holds.
pub fn case_else(s: &[u8], m: usize) -> (r: Option<(Case, usize)>)
    requires
        m <= s@.len(),
    ensures
        agrees(r, p_case_else(s@, m as int)),
        advances(r, m as int, s@.len() as int),
    decreases s@.len() - m, 0nat,
{
    let n = s.len();
    let b = blank0(s, m);
    if b >= n || !tag(s, b, &[101u8, 108, 115, 101]) {
        return None;
    }
    assert(s@.subrange(b as int, b + 4) == word_else());
    match block(s, blank0(s, b + 4)) {
        Some((block, e)) => Some((Case { condition: Condition::truth(), block }, e)),
        None => None,
    }
}

/// `input`, `filter` or `output`.
pub fn plugin_type(s: &[u8], i: usize) -> (r: Option<(PluginType, usize)>)
    requires
        i <= s@.len(),
    ensures
        agrees(r, p_plugin_type(s@, i as int)),
        advances(r, i as int, s@.len() as int),
{
    let n = s.len();
    if i >= n {
        return None;
    }
    if tag(s, i, &[105u8, 110, 112, 117, 116]) {
        assert(s@.subrange(i as int, i + 5) == word_input());
        Some((PluginType::Input, i + 5))
    } else if tag(s, i, &[102u8, 105, 108, 116, 101, 114]) {
        assert(s@.subrange(i as int, i + 6) == word_filter());
        Some((PluginType::Filter, i + 6))
    } else if tag(s, i, &[111u8, 117, 116, 112, 117, 116]) {
        assert(s@.subrange(i as int, i + 6) == word_output());
        Some((PluginType::Output, i + 6))
    } else {
        None
    }
}

/// `("input"|"filter"|"output") block`
pub fn plugin_section(s: &[u8], i: usize) -> (r: Option<(PluginSection, usize)>)
    requires
        i <= s@.len(),
    ensures
        agrees(r, p_section(s@, i as int)),
        advances(r, i as int, s@.len() as int),
{
    let (plugin_type, j) = match plugin_type(s, i) {
        Some(x) => x,
        None => return None,
    };
    match block(s, blank0(s, j)) {
        Some((block, e)) => Some((PluginSection { plugin_type, block }, e)),
        None => None,
    }
}

/// One or more sections with the blanks around them; gives the position
/// where they end.
pub fn config(s: &[u8]) -> (r: Option<(Config, usize)>)
    ensures
        match r {
            Some((c, e)) => p_sections(s@, 0, seq![]) == (c@, e as int) && c@.len() > 0,
            None => p_sections(s@, 0, seq![]).0.len() == 0,
        },
        r matches Some((_, e)) ==> e <= s@.len(),
{
    let mut sections: Vec<PluginSection> = Vec::new();
    let mut k: usize = 0;
    assert(sections@.map_values(|p: PluginSection| p@) =~= seq![]);
    loop
        invariant
            k <= s@.len(),
            p_sections(s@, 0, seq![]) == p_sections(
                s@,
                k as int,
                sections@.map_values(|p: PluginSection| p@),
            ),
        ensures
            p_sections(s@, k as int, sections@.map_values(|p: PluginSection| p@)) == (
                sections@.map_values(|p: PluginSection| p@),
                k as int,
            ),
        decreases s@.len() - k,
    {
        match plugin_section(s, blank0(s, k)) {
            Some((sec, e)) => {
                let next = blank0(s, e);
                proof {
                    assert(sections@.push(sec).map_values(|p: PluginSection| p@) =~= sections@.map_values(
                        |p: PluginSection| p@,
                    ).push(sec@));
                }
                sections.push(sec);
                k = next;
            },
            None => break,
        }
    }
    if sections.len() == 0 {
        None
    } else {
        Some((Config { sections }, k))
    }
}

/// Parses a whole configuration text; fails unless all of it is read.
pub fn parse(conf: &[u8]) -> (r: Result<Config, String>)
    ensures
        match r {
            Ok(c) => spec_parse(conf@) == Some(c@),
            Err(_) => spec_parse(conf@) is None,
        },
{
    match config(conf) {
        Some((c, e)) => {
            if blank0(conf, e) == conf.len() {
                Ok(c)
            } else {
                Err(String::from_str("Config parsing failed"))
            }
        },
        None => Err(String::from_str("Config parsing failed")),
    }
}

/// Parsing is a function of the input: two parses of the same bytes give
/// equal syntax trees.
pub proof fn lemma_parse_deterministic(conf: Seq<u8>, first: Config, second: Config)
    requires
        spec_parse(conf) == Some(first@),
        spec_parse(conf) == Some(second@),
    ensures
        first@ == second@,
{
}

} // verus!
