use chrono::{DateTime, TimeZone, Utc};

use echelon0::echelon0::{after_read, verdict, Error, LineFilter, LineStep, OpStats, Stats};
use echelon0::entry::{field_texts, ParseError, Parser, ParserError};
use echelon0::rule::FieldType;

fn field<'a, 't>(parser: &'a Parser<'a>, texts: &[&'t str], name: &str) -> (&'a FieldType<'a>, &'t str) {
    let k = parser.field_names().iter().position(|n| *n == name).unwrap();
    (&parser.rule.fields[k].typ, texts[k])
}

#[test]
fn parse_entry() {
    let rule = r"/(\d+)\s(\w+)/ num:uint,res";
    let line = String::from("123 some_word");
    let parser = Parser::new(&rule).unwrap();
    let texts = parser.field_texts(&line).unwrap();

    let (typ, text) = field(&parser, &texts, "num");
    assert_eq!(&FieldType::UInt, typ);
    assert_eq!(123u64, text.parse::<u64>().unwrap());
}

#[test]
fn parse_nginx_combined() {
    let rule = [
        r#"/([\d\.]+) - (.+) \[(.+)\] "(.+) ([^?]+)\??(.*) HTTP.+" (\d{3}) (\d+) "(.+)" "(.+)"/"#,
        " remote_addr,remote_user,time_local:dt[%d/%b/%Y:%H:%M:%S %z]",
        ",method,path,query,status:uint,body_bytes_sent:uint,referrer,user_agent",
    ]
    .join("");
    let line = [
        r#"82.208.100.105 - - [01/Aug/2016:22:59:50 +0000] "#,
        r#""GET /platforms/sa/apps/115?consumer=portal-ru&user_id=11124493 "#,
        r#"HTTP/1.1" 200 9127 "https://espritgames.ru/fairytail/go/" "#,
        r#""Mozilla/5.0 (Windows NT 6.3; WOW64) AppleWebKit/537.36 "#,
        r#"(KHTML, like Gecko) Chrome/52.0.2743.82 Safari/537.36""#,
    ]
    .join("");
    let parser = Parser::new(&rule).unwrap();
    let texts = parser.field_texts(&line).unwrap();

    assert_eq!("82.208.100.105", field(&parser, &texts, "remote_addr").1);
    assert_eq!("-", field(&parser, &texts, "remote_user").1);
    let (typ, text) = field(&parser, &texts, "time_local");
    let format = match typ {
        FieldType::DateTime(f) => *f,
        _ => unreachable!(),
    };
    let when = DateTime::parse_from_str(text, format).unwrap().with_timezone(&Utc);
    assert_eq!(Utc.with_ymd_and_hms(2016, 8, 1, 22, 59, 50).unwrap(), when);
    assert_eq!("GET", field(&parser, &texts, "method").1);
    assert_eq!("/platforms/sa/apps/115", field(&parser, &texts, "path").1);
    assert_eq!("consumer=portal-ru&user_id=11124493", field(&parser, &texts, "query").1);
    assert_eq!(200u64, field(&parser, &texts, "status").1.parse::<u64>().unwrap());
    assert_eq!(9127u64, field(&parser, &texts, "body_bytes_sent").1.parse::<u64>().unwrap());
    assert_eq!("https://espritgames.ru/fairytail/go/", field(&parser, &texts, "referrer").1);
    assert_eq!(
        "Mozilla/5.0 (Windows NT 6.3; WOW64) AppleWebKit/537.36 \
         (KHTML, like Gecko) Chrome/52.0.2743.82 Safari/537.36",
        field(&parser, &texts, "user_agent").1
    );
}

#[test]
fn entry_errors() {
    let parser = Parser::new(r"/(\d+) (x)?/ num:uint,opt").unwrap();
    assert_eq!(Err(ParseError::LineNotMatch), parser.field_texts("no digits"));
    assert_eq!(Err(ParseError::EmptyCaptureGroup(2)), parser.field_texts("12 "));
    assert_eq!(Ok(vec!["12", "x"]), parser.field_texts("12 x"));
    assert!(Parser::new("/(a)/ x,y").is_err());
}

#[test]
fn field_texts_pairs_groups_with_fields() {
    let groups = vec![Some("all"), Some("a"), None, Some("c")];
    assert_eq!(Ok(vec!["a"]), field_texts(1, &groups));
    assert_eq!(Err(ParseError::EmptyCaptureGroup(2)), field_texts(3, &groups));
    assert_eq!(Err(ParseError::EmptyCaptureGroup(1)), field_texts(1, &vec![Some("all")]));
    assert_eq!(Ok(vec![]), field_texts(0, &groups));
}

#[test]
fn filters_conflict() {
    let mut filter = LineFilter::new();
    assert!(filter.set_exclude_filter("baz").is_ok());
    match filter.set_include_filter("foo") {
        Err(Error::FiltersConflict) => {}
        _ => unreachable!(),
    }
    let mut filter = LineFilter::new();
    assert!(filter.set_include_filter("foo").is_ok());
    match filter.set_exclude_filter("foo") {
        Err(Error::FiltersConflict) => {}
        _ => unreachable!(),
    }
    let mut filter = LineFilter::new();
    match filter.set_include_filter("(") {
        Err(Error::BadFilterRegex(why)) => assert!(!why.is_empty()),
        _ => unreachable!(),
    }
}

#[test]
fn filters_keep_lines() {
    let mut filter = LineFilter::new();
    assert!(filter.admits("anything"));
    filter.set_exclude_filter("baz").unwrap();
    assert!(filter.admits("foo 123"));
    assert!(!filter.admits("baz 678"));
    let mut filter = LineFilter::new();
    filter.set_include_filter("^foo").unwrap();
    assert!(filter.admits("foo 123"));
    assert!(!filter.admits("bar foo"));
    assert!(verdict(None, None));
    assert!(!verdict(Some(false), None));
    assert!(!verdict(None, Some(true)));
    assert!(verdict(Some(true), Some(false)));
}

#[test]
fn reads_are_counted() {
    let mut stats = Stats::new();
    assert_eq!(LineStep::Retry, after_read(&mut stats, false, 0, false));
    assert_eq!(LineStep::Skip, after_read(&mut stats, true, 8, false));
    assert_eq!(LineStep::Parse, after_read(&mut stats, true, 8, true));
    assert_eq!(LineStep::End, after_read(&mut stats, true, 0, true));
    assert_eq!(3, stats.read.ok);
    assert_eq!(1, stats.read.failed);
    assert_eq!(1, stats.skipped);
    assert_eq!(0, stats.parse.ok + stats.parse.failed + stats.write.ok + stats.write.failed);
}

#[test]
fn counters_stop_at_the_largest_value() {
    let mut op = OpStats::new();
    op.ok();
    op.fail();
    op.fail();
    assert_eq!((1, 2), (op.ok, op.failed));
    let mut op = OpStats { ok: u64::MAX, failed: 0 };
    op.ok();
    assert_eq!(u64::MAX, op.ok);
}

#[test]
fn parser_error_of_a_bad_rule() {
    match Parser::new("not a rule") {
        Err(e) => assert_eq!(ParserError::BadParseRule, ParserError::from(e)),
        Ok(_) => unreachable!(),
    }
}
