use echelon0::ast::{
    BoolExpr, BoolOperator, Branch, BranchOrPlugin, Case, CompareOperator, Condition, Config,
    Number, Plugin, PluginSection, PluginType, Rvalue, Selector,
};
use echelon0::parser::{
    blank0, bool_expr, bool_operator, branch, condition, config, double_quoted, name, number,
    parse, plugin, rvalue, single_quoted,
};

fn num(text: &str) -> Rvalue {
    Rvalue::Number(Number { text: text.to_string() })
}

fn sel(elements: &[&str]) -> Selector {
    Selector { elements: elements.iter().map(|e| e.to_string()).collect() }
}

fn leaf(e: BoolExpr) -> Condition {
    Condition::from(e)
}

fn cmp(op: CompareOperator, l: Rvalue, r: Rvalue) -> BoolExpr {
    BoolExpr::Compare(op, l, r)
}

fn and_or(op: BoolOperator, l: Condition, r: Condition) -> Condition {
    Condition::Branch(op, Box::new(l), Box::new(r))
}

fn plugin_item(name: &str) -> BranchOrPlugin {
    BranchOrPlugin::Plugin(Plugin { name: name.to_string() })
}

fn section(t: PluginType, block: Vec<BranchOrPlugin>) -> PluginSection {
    PluginSection { plugin_type: t, block }
}

fn simplest_conf() -> &'static [u8] {
    b"# The simplest configuration.\n\
      input {\n    stdin {}\n    file {}\n}\n\
      filter {}\n# a comment between sections\nfilter {}\nfilter {}\n\
      filter {\n}\n filter {  }\n\
      output {\n    stdout {} # trailing comment\n}\n"
}

fn comments_conf() -> &'static [u8] {
    b"# first comment\n   # second comment\n\t# third comment\ninput {}"
}

#[test]
fn test_config() {
    let conf = simplest_conf();
    let expected = Config {
        sections: vec![
            section(PluginType::Input, vec![plugin_item("stdin"), plugin_item("file")]),
            section(PluginType::Filter, vec![]),
            section(PluginType::Filter, vec![]),
            section(PluginType::Filter, vec![]),
            section(PluginType::Filter, vec![]),
            section(PluginType::Filter, vec![]),
            section(PluginType::Output, vec![plugin_item("stdout")]),
        ],
    };
    assert_eq!(Some((expected, conf.len())), config(conf));
}

#[test]
fn test_plugin() {
    let conf = b"stdin {}";
    assert_eq!(Some((Plugin { name: "stdin".to_string() }, conf.len())), plugin(conf, 0));
    let conf = b"file {\n\n    \n}";
    assert_eq!(Some((Plugin { name: "file".to_string() }, conf.len())), plugin(conf, 0));
}

#[test]
fn test_rvalue() {
    assert_eq!(Some((num("123"), 3)), rvalue(b"123", 0));
    assert_eq!(Some((Rvalue::from("foobar".to_string()), 8)), rvalue(b"'foobar'", 0));
    assert_eq!(Some((Rvalue::from(sel(&["foo"])), 5)), rvalue(b"[foo]", 0));
    assert_eq!(Some((Rvalue::from(sel(&["foo", "bar"])), 10)), rvalue(b"[foo][bar]", 0));
}

#[test]
fn test_condition_leaf() {
    let expr = bool_expr(b"1 > 2", 0).unwrap().0;
    assert_eq!(Some((leaf(expr), 5)), condition(b"1 > 2", 0));
}

#[test]
fn test_condition_branch() {
    let expr1 = bool_expr(b"1 > 2", 0).unwrap().0;
    let expr2 = bool_expr(b"'foo' != 'bar'", 0).unwrap().0;
    let op = bool_operator(b"and", 0).unwrap().0;
    let cond = and_or(op, leaf(expr1), leaf(expr2));
    let text = b"1 > 2 and 'foo' != 'bar'";
    assert_eq!(Some((cond, text.len())), condition(text, 0));
}

#[test]
fn test_condition_compound_1() {
    let expr1 = bool_expr(b"1 > 2", 0).unwrap().0;
    let expr2 = bool_expr(b"'foo' != 'bar'", 0).unwrap().0;
    let expr3 = bool_expr(b"42 == [sel]", 0).unwrap().0;
    let op_and = bool_operator(b"and", 0).unwrap().0;
    let op_or = bool_operator(b"or", 0).unwrap().0;
    let cond = and_or(op_or, and_or(op_and, leaf(expr1), leaf(expr2)), leaf(expr3));
    let text = b"1 > 2 and 'foo' != 'bar' or 42 == [sel]";
    assert_eq!(Some((cond, text.len())), condition(text, 0));
}

#[test]
fn test_condition_compound_2() {
    let expr1 = bool_expr(b"1 > 2", 0).unwrap().0;
    let expr2 = bool_expr(b"'foo' != 'bar'", 0).unwrap().0;
    let expr3 = bool_expr(b"42 == [sel]", 0).unwrap().0;
    let op_and = bool_operator(b"and", 0).unwrap().0;
    let op_or = bool_operator(b"or", 0).unwrap().0;
    let cond = and_or(op_or, leaf(expr1), and_or(op_and, leaf(expr2), leaf(expr3)));
    let text = b"1 > 2 or 'foo' != 'bar' and 42 == [sel]";
    assert_eq!(Some((cond, text.len())), condition(text, 0));
}

#[test]
fn test_bool_expr_rvalue() {
    assert_eq!(Some((BoolExpr::from(num("1")), 1)), bool_expr(b"1", 0));
}

#[test]
fn test_bool_expr_compare() {
    for sides in &[("1", "0"), ("'foo'", "'bar'"), ("\"foo\"", "\"bar\""), ("[foo][bar]", "[baz]")] {
        for pattern in &[
            "{lhs} {op} {rhs}",
            "{lhs}{op}{rhs}",
            "{lhs} {op}{rhs}",
            "{lhs}{op} {rhs}",
            "{lhs}   {op}   {rhs}",
            "{lhs}\n{op}\n  \n  {rhs}",
        ] {
            for op in &[
                CompareOperator::Eq,
                CompareOperator::Ne,
                CompareOperator::Gt,
                CompareOperator::Lt,
                CompareOperator::Ge,
                CompareOperator::Le,
            ] {
                let lhs = rvalue(sides.0.as_bytes(), 0).unwrap().0;
                let rhs = rvalue(sides.1.as_bytes(), 0).unwrap().0;
                let expr = BoolExpr::Compare(*op, lhs, rhs);
                let text = pattern
                    .replace("{lhs}", sides.0)
                    .replace("{op}", op.to_string())
                    .replace("{rhs}", sides.1);
                assert_eq!(Some((expr, text.len())), bool_expr(text.as_bytes(), 0));
            }
        }
    }
}

#[test]
fn test_bool_expr_parens() {
    let expr = BoolExpr::Parens(Box::new(leaf(cmp(CompareOperator::Gt, num("1"), num("2")))));
    assert_eq!(Some((expr, 7)), bool_expr(b"(1 > 2)", 0));
}

#[test]
fn test_bool_expr_negative() {
    let expr = BoolExpr::Parens(Box::new(leaf(cmp(CompareOperator::Gt, num("1"), num("2"))))).not();
    assert_eq!(Some((expr, 8)), bool_expr(b"!(1 > 2)", 0));

    let expr = bool_expr(b"[foo][bar]", 0).unwrap().0.not();
    assert_eq!(Some((expr, 11)), bool_expr(b"![foo][bar]", 0));
}

#[test]
fn test_parse_number() {
    let valid = vec!["0", "123", "-1", "0.", "1.5", "1.123", "-0.42"];
    for x in &valid {
        let (n, end) = number(x.as_bytes(), 0).unwrap();
        assert_eq!(x.len(), end);
        assert_eq!(x.parse::<f64>().unwrap(), n.text.parse::<f64>().unwrap());
    }

    let (n, end) = number(b"-0.123abc", 0).unwrap();
    assert_eq!(&b"-0.123abc"[end..], b"abc");
    assert_eq!(-0.123, n.text.parse::<f64>().unwrap());
    assert_eq!(None, number(b"+1", 0));
}

#[test]
fn parser_test_parse_single_quoted_string() {
    let quoted = "     'foo bar baz'     ".trim().as_bytes();
    assert_eq!(Some(("foo bar baz".to_string(), quoted.len())), single_quoted(quoted, 0));

    let quoted_escaped = r"     'foo \'bar\' baz'     ".trim().as_bytes();
    assert_eq!(
        Some((r"foo 'bar' baz".to_string(), quoted_escaped.len())),
        single_quoted(quoted_escaped, 0)
    );
}

#[test]
fn parser_test_parse_double_quoted_string() {
    let quoted = r#"     "foo bar baz"     "#.trim().as_bytes();
    assert_eq!(Some(("foo bar baz".to_string(), quoted.len())), double_quoted(quoted, 0));

    let quoted_escaped = r#"     "foo \"bar\" baz"     "#.trim().as_bytes();
    assert_eq!(
        Some((r#"foo "bar" baz"#.to_string(), quoted_escaped.len())),
        double_quoted(quoted_escaped, 0)
    );
}

#[test]
fn parser_test_name() {
    let simple_name = "     example123     ".trim().as_bytes();
    assert_eq!(Some(("example123".to_string(), simple_name.len())), name(simple_name, 0));

    let dashed_name = "     ex_amp_le-123     ".trim().as_bytes();
    assert_eq!(Some(("ex_amp_le-123".to_string(), dashed_name.len())), name(dashed_name, 0));

    let not_a_name = "     foo&bar     ".trim().as_bytes();
    let (n, end) = name(not_a_name, 0).unwrap();
    assert_eq!("foo", n);
    assert_eq!(b"&bar", &not_a_name[end..]);

    let double_quoted_name = r#"     "foo&bar"     "#.trim().as_bytes();
    assert_eq!(Some(("foo&bar".to_string(), double_quoted_name.len())), name(double_quoted_name, 0));

    let single_quoted_name = "     'foo&bar'     ".trim().as_bytes();
    assert_eq!(Some(("foo&bar".to_string(), single_quoted_name.len())), name(single_quoted_name, 0));
}

#[test]
fn test_parse_blank0() {
    let conf = comments_conf();
    let end = blank0(conf, 0);
    assert_eq!(b"input {}", &conf[end..]);
}

#[test]
fn parser_test_parse_comments() {
    let conf = comments_conf();
    let end = blank0(conf, 0);
    assert!(end > 0);
    assert_eq!(b"input {}", &conf[end..]);
}

#[test]
fn parse_twice_gives_equal_trees() {
    let conf = b"input { stdin {} if [a] == 'b' and 1 < 2 { file {} } else { stdin {} } } output { stdout {} }";
    let first = parse(conf).unwrap();
    let second = parse(conf).unwrap();
    assert_eq!(first, second);
}

#[test]
fn and_binds_tighter_than_or() {
    let text = b"1>2 and 3!=4 or 5==5";
    let expected = and_or(
        BoolOperator::Or,
        and_or(
            BoolOperator::And,
            leaf(cmp(CompareOperator::Gt, num("1"), num("2"))),
            leaf(cmp(CompareOperator::Ne, num("3"), num("4"))),
        ),
        leaf(cmp(CompareOperator::Eq, num("5"), num("5"))),
    );
    assert_eq!(Some((expected, text.len())), condition(text, 0));
}

#[test]
fn and_binds_tighter_than_or_on_the_right() {
    let text = b"1>2 or 3!=4 and 5==5";
    let expected = and_or(
        BoolOperator::Or,
        leaf(cmp(CompareOperator::Gt, num("1"), num("2"))),
        and_or(
            BoolOperator::And,
            leaf(cmp(CompareOperator::Ne, num("3"), num("4"))),
            leaf(cmp(CompareOperator::Eq, num("5"), num("5"))),
        ),
    );
    assert_eq!(Some((expected, text.len())), condition(text, 0));
}

#[test]
fn equal_operators_group_to_the_left() {
    let text = b"1 or 2 or 3";
    let expected = and_or(
        BoolOperator::Or,
        and_or(BoolOperator::Or, leaf(BoolExpr::from(num("1"))), leaf(BoolExpr::from(num("2")))),
        leaf(BoolExpr::from(num("3"))),
    );
    assert_eq!(Some((expected, text.len())), condition(text, 0));
}

#[test]
fn else_becomes_a_case_under_truth() {
    let text = b"if [x] == 'y' { stdin {} } else { file {} }";
    let (b, end) = branch(text, 0).unwrap();
    assert_eq!(text.len(), end);
    assert_eq!(2, b.cases.len());
    assert_eq!(Condition::truth(), b.cases[1].condition);
    assert_eq!(vec![plugin_item("file")], b.cases[1].block);
    assert_eq!(vec![plugin_item("stdin")], b.cases[0].block);
}

#[test]
fn else_if_cases_keep_their_order() {
    let text = b"if 1 { a {} } else if 2 { b {} } else if 3 { c {} }";
    let (b, _) = branch(text, 0).unwrap();
    assert_eq!(3, b.cases.len());
    assert_eq!(leaf(BoolExpr::from(num("3"))), b.cases[2].condition);
    assert_eq!(vec![plugin_item("c")], b.cases[2].block);
}

#[test]
fn branch_new_orders_cases() {
    let case = |n: &str| Case { condition: leaf(BoolExpr::from(num(n))), block: vec![] };
    let b = Branch::new(case("1"), vec![case("2"), case("3")], Some(case("4")));
    let texts: Vec<Condition> = b.cases.into_iter().map(|c| c.condition).collect();
    assert_eq!(
        vec![
            leaf(BoolExpr::from(num("1"))),
            leaf(BoolExpr::from(num("2"))),
            leaf(BoolExpr::from(num("3"))),
            leaf(BoolExpr::from(num("4")))
        ],
        texts
    );
}

#[test]
fn strings_keep_other_backslashes() {
    assert_eq!(Some((r"a\b".to_string(), 5)), single_quoted(br"'a\b'", 0));
    assert_eq!(Some((r#"it's"#.to_string(), 6)), double_quoted(br#""it's""#, 0));
    assert_eq!(None, single_quoted(b"'unterminated", 0));
}

#[test]
fn strings_decode_utf8() {
    let text = "'h\u{e9}llo'".as_bytes();
    assert_eq!(Some(("h\u{e9}llo".to_string(), text.len())), single_quoted(text, 0));
    assert_eq!(None, single_quoted(b"'\xff'", 0));
}

#[test]
fn selector_segments() {
    assert_eq!(Some((sel(&["a", "b c"]), 8)), echelon0::parser::selector(b"[a][b c]x", 0));
    assert_eq!(None, echelon0::parser::selector(b"[a,b]", 0));
}

#[test]
fn operators_and_their_text() {
    for (text, op) in &[
        ("==", CompareOperator::Eq),
        ("!=", CompareOperator::Ne),
        ("<", CompareOperator::Lt),
        (">", CompareOperator::Gt),
        ("<=", CompareOperator::Le),
        (">=", CompareOperator::Ge),
    ] {
        assert_eq!(*text, op.to_string());
        assert_eq!(
            Some((*op, text.len())),
            echelon0::parser::compare_operator(text.as_bytes(), 0)
        );
    }
    assert_eq!(200, BoolOperator::And.precedence());
    assert_eq!(100, BoolOperator::Or.precedence());
}

#[test]
fn parse_rejects_what_is_left_over() {
    assert!(parse(b"input {} garbage").is_err());
    assert!(parse(b"").is_err());
    assert!(parse(b"input { stdin {").is_err());
    assert!(parse(b"   # only a comment\n").is_err());
    assert_eq!(
        Err("Config parsing failed".to_string()),
        parse(b"output { if 1 }")
    );
    // `if` alone is a plugin name
    assert!(parse(b"output { if { } }").is_ok());
}

#[test]
fn parse_accepts_comment_at_end() {
    let conf = parse(b"input { stdin {} }\n# done").unwrap();
    assert_eq!(1, conf.sections.len());
}

#[test]
fn test_parse_blank() {
    let conf = comments_conf();
    let end = blank0(conf, 0);
    assert_eq!(b"input {}", &conf[end..]);
}

#[test]
fn parse_test_parse_comments() {
    let conf = comments_conf();
    let end = blank0(conf, 0);
    assert!(end > 0);
    assert_eq!(b"input {}", &conf[end..]);
}

#[test]
fn parse_test_parse_single_quoted_string() {
    let quoted = "     'foo bar baz'     ".trim().as_bytes();
    assert_eq!(Some(("foo bar baz".to_string(), quoted.len())), single_quoted(quoted, 0));

    let quoted_escaped = r"     'foo \'bar\' baz'     ".trim().as_bytes();
    assert_eq!(
        Some((r"foo 'bar' baz".to_string(), quoted_escaped.len())),
        single_quoted(quoted_escaped, 0)
    );
}

#[test]
fn parse_test_parse_double_quoted_string() {
    let quoted = r#"     "foo bar baz"     "#.trim().as_bytes();
    assert_eq!(Some(("foo bar baz".to_string(), quoted.len())), double_quoted(quoted, 0));

    let quoted_escaped = r#"     "foo \"bar\" baz"     "#.trim().as_bytes();
    assert_eq!(
        Some((r#"foo "bar" baz"#.to_string(), quoted_escaped.len())),
        double_quoted(quoted_escaped, 0)
    );
}

#[test]
fn parse_test_name() {
    let simple_name = "     example123     ".trim().as_bytes();
    assert_eq!(Some(("example123".to_string(), simple_name.len())), name(simple_name, 0));

    let dashed_name = "     ex_amp_le-123     ".trim().as_bytes();
    assert_eq!(Some(("ex_amp_le-123".to_string(), dashed_name.len())), name(dashed_name, 0));

    let not_a_name = "     foo&bar     ".trim().as_bytes();
    let (n, end) = name(not_a_name, 0).unwrap();
    assert_eq!("foo", n);
    assert_eq!(b"&bar", &not_a_name[end..]);

    let double_quoted_name = r#"     "foo&bar"     "#.trim().as_bytes();
    assert_eq!(Some(("foo&bar".to_string(), double_quoted_name.len())), name(double_quoted_name, 0));

    let single_quoted_name = "     'foo&bar'     ".trim().as_bytes();
    assert_eq!(Some(("foo&bar".to_string(), single_quoted_name.len())), name(single_quoted_name, 0));
}
