use echelon0::rule::{Error, FieldType, RuleParser, RuleScanner, ScanError, Token};

#[test]
fn parse() {
    let mut parser = RuleParser::new(r"/(\d+)\s(\w)/ time:uint,url");
    let rule = match parser.parse() {
        Ok(r) => r,
        Err(e) => panic!("{:?}", e),
    };
    assert_eq!(r"(\d+)\s(\w)", rule.re.as_str());
    assert_eq!(2, rule.fields.len());
    assert_eq!("time", rule.fields[0].name);
    assert_eq!(FieldType::UInt, rule.fields[0].typ);
    assert_eq!("url", rule.fields[1].name);
    assert_eq!(FieldType::Str, rule.fields[1].typ);
}

#[test]
fn parse_no_fields() {
    let mut parser = RuleParser::new(r"/some_re/ ");
    match parser.parse() {
        Err(Error::UnexpectedToken { token, pos }) => {
            assert_eq!("EOF", token);
            assert_eq!(10, pos);
        }
        _ => unreachable!(),
    }
}

#[test]
fn scan_regex() {
    let mut s = RuleScanner::new("/");
    let scanned = s.scan();
    assert_eq!(Err(ScanError::UnexpectedEndOfRule), scanned);

    let mut s = RuleScanner::new("//");
    let scanned = s.scan();
    assert_eq!(Ok((Token::Regex(""), 1)), scanned);

    let mut s = RuleScanner::new("/hello/");
    let scanned = s.scan();
    assert_eq!(Ok((Token::Regex("hello"), 1)), scanned);

    let mut s = RuleScanner::new(r"/\d+ \/foo /");
    let scanned = s.scan();
    assert_eq!(Ok((Token::Regex(r"\d+ \/foo "), 1)), scanned);
}

#[test]
fn scan_whitespaces() {
    for rule in &[" ", "\t", "   ", "\t\t\t", " \t ", "\t \t"] {
        let mut s = RuleScanner::new(rule);
        let scanned = s.scan();
        assert_eq!(Ok((Token::WS, 1)), scanned);

        let scanned = s.scan();
        assert_eq!(Ok((Token::EOF, rule.len())), scanned);
    }

    let mut s = RuleScanner::new(" field_name");
    let scanned = s.scan();
    assert_eq!(Ok((Token::WS, 1)), scanned);

    let scanned = s.scan();
    assert_eq!(Ok((Token::FieldName("field_name"), 2)), scanned);
}

#[test]
fn scan_field_name() {
    for rule in &["field1", "field2,", "field_three ", "field4:", "_f5", "_6", "___"] {
        let mut s = RuleScanner::new(rule);
        let scanned = s.scan();
        let expected = rule.trim_matches(&[' ', ',', ':'] as &[_]);
        assert_eq!(Ok((Token::FieldName(expected), 1)), scanned);
    }
}

#[test]
fn scan_dt() {
    let mut s = RuleScanner::new("time:dt[%H:%m:%s]");
    assert_eq!(Ok((Token::FieldName("time"), 1)), s.scan());
    assert_eq!(Ok((Token::TypeDateTime("%H:%m:%s"), 5)), s.scan());
}

#[test]
fn scan_field_types() {
    let mut s = RuleScanner::new(":int:uint:float,");
    assert_eq!(Ok((Token::TypeInt, 1)), s.scan());
    assert_eq!(Ok((Token::TypeUInt, 5)), s.scan());
    assert_eq!(Ok((Token::TypeFloat, 10)), s.scan());
    assert_eq!(Ok((Token::Comma, 16)), s.scan());
    assert_eq!(Ok((Token::EOF, 16)), s.scan());
}

#[test]
fn scan_errors() {
    let mut s = RuleScanner::new(":inx");
    assert_eq!(
        Err(ScanError::IllegalSymbol { pos: 4, symbol: 'x', token: "int" }),
        s.scan()
    );
    let mut s = RuleScanner::new(":q");
    assert_eq!(
        Err(ScanError::IllegalSymbol { pos: 2, symbol: 'q', token: "FieldType" }),
        s.scan()
    );
    let mut s = RuleScanner::new("9");
    assert_eq!(
        Err(ScanError::IllegalSymbol { pos: 1, symbol: '9', token: "FieldName" }),
        s.scan()
    );
    let mut s = RuleScanner::new(":");
    assert_eq!(Err(ScanError::UnexpectedEndOfRule), s.scan());
    let mut s = RuleScanner::new(":dx");
    assert_eq!(
        Err(ScanError::IllegalSymbol { pos: 3, symbol: 'x', token: "datetime" }),
        s.scan()
    );
}

#[test]
fn parse_reports_bad_regex() {
    let mut parser = RuleParser::new(r"/(unclosed/ a");
    match parser.parse() {
        Err(Error::BadRegex(why)) => assert!(!why.is_empty()),
        _ => unreachable!(),
    }
}

#[test]
fn parse_reports_group_count_mismatch() {
    let mut parser = RuleParser::new(r"/(a)(b)(c)/ x,y");
    match parser.parse() {
        Err(Error::CapturesFieldsMismatch { captures_count, fields_count }) => {
            assert_eq!(4, captures_count);
            assert_eq!(2, fields_count);
        }
        _ => unreachable!(),
    }
}

#[test]
fn parse_reports_scan_failure_and_bad_start() {
    let mut parser = RuleParser::new("/abc");
    match parser.parse() {
        Err(Error::ScanFailed(ScanError::UnexpectedEndOfRule)) => {}
        _ => unreachable!(),
    }
    let mut parser = RuleParser::new("name");
    match parser.parse() {
        Err(Error::UnexpectedToken { token, pos }) => {
            assert_eq!("FieldName(\"name\")", token);
            assert_eq!(1, pos);
        }
        _ => unreachable!(),
    }
}

#[test]
fn parse_all_field_types() {
    let mut parser = RuleParser::new(r"/(\d+) (\d+) (\S+) (.+) (\w+)/ a:int,b:uint,c:float,d:dt[%Y],e");
    let rule = match parser.parse() {
        Ok(r) => r,
        Err(e) => panic!("{:?}", e),
    };
    let types: Vec<&FieldType> = rule.fields.iter().map(|f| &f.typ).collect();
    assert_eq!(
        vec![&FieldType::Int, &FieldType::UInt, &FieldType::Float, &FieldType::DateTime("%Y"), &FieldType::Str],
        types
    );
}

#[test]
fn typed_last_field() {
    let mut parser = RuleParser::new(r"/(\w+) (\d+)/ word,digit:int");
    let rule = match parser.parse() {
        Ok(r) => r,
        Err(e) => panic!("{:?}", e),
    };
    assert_eq!(2, rule.fields.len());
    assert_eq!(("word", &FieldType::Str), (rule.fields[0].name, &rule.fields[0].typ));
    assert_eq!(("digit", &FieldType::Int), (rule.fields[1].name, &rule.fields[1].typ));

    let mut parser = RuleParser::new(r"/(\d+)/ n:uint x");
    match parser.parse() {
        Err(Error::UnexpectedToken { token, pos }) => {
            assert_eq!("WS", token);
            assert_eq!(15, pos);
        }
        _ => unreachable!(),
    }
}
