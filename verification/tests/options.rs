use codie::options_parser::{parse_options, quoted_string, Options, ParseError};

#[test]
fn test_simple() {
    let m = parse_options("KEY=VAL").unwrap();
    assert_eq!(m.len(), 1);
    assert_eq!(m.get("KEY").unwrap(), "VAL");
}

#[test]
fn test_multiple() {
    let m = parse_options("K0=V0 K1=V1").unwrap();
    assert_eq!(m.len(), 2);
    assert_eq!(m.get("K0").unwrap(), "V0");
    assert_eq!(m.get("K1").unwrap(), "V1");
}

#[test]
fn test_dup_keys() {
    match parse_options("K0=V0 K0=V1") {
        Ok(_) => panic!("duplicate keys were accepted"),
        Err(_) => (),
    }
}

#[test]
fn test_quoted_string() {
    assert_eq!(
        quoted_string(r#""Hello, World!""#).unwrap(),
        ("", "Hello, World!".into()),
    );
}

#[test]
fn test_quoted_string_escape() {
    assert_eq!(
        quoted_string(r#""He said \"Hi!\"""#).unwrap(),
        ("", r#"He said "Hi!""#.into()),
    );
}

#[test]
fn test_python_opts() {
    let m = parse_options("version=3.8").unwrap();
    assert_eq!(m.len(), 1);
    assert_eq!(m.get("version").unwrap(), "3.8");
}

#[test]
fn test_c_opts() {
    let m = parse_options(r#"CFLAGS="-O2 -march=native""#).unwrap();
    assert_eq!(m.len(), 1);
    assert_eq!(m.get("CFLAGS").unwrap(), "-O2 -march=native");
}

#[test]
fn empty_input_empty_map() {
    let m = parse_options("").unwrap();
    assert_eq!(m.len(), 0);
    assert!(m.is_empty());
}

#[test]
fn trailing_whitespace_ok() {
    let m = parse_options("K=V  \t").unwrap();
    assert_eq!(m.get("K").unwrap(), "V");
}

#[test]
fn trailing_garbage_rejected() {
    assert_eq!(
        parse_options("K0=V0 !!"),
        Err(ParseError::TrailingInput("!!".into())),
    );
}

#[test]
fn leading_whitespace_rejected() {
    assert_eq!(
        parse_options(" K=V"),
        Err(ParseError::TrailingInput("K=V".into())),
    );
}

#[test]
fn unterminated_quote_rejected() {
    assert_eq!(parse_options("K=\"abc"), Err(ParseError::UnterminatedQuote));
}

#[test]
fn invalid_escape_rejected() {
    assert_eq!(parse_options(r#"K="a\x""#), Err(ParseError::InvalidEscape));
}

#[test]
fn duplicate_key_named() {
    assert_eq!(
        parse_options("a=1 b=2 a=3"),
        Err(ParseError::DuplicateKey("a".into())),
    );
}

#[test]
fn quoted_string_needs_quote() {
    assert_eq!(quoted_string("x"), Err(ParseError::MissingQuote));
}

#[test]
fn quoted_string_leaves_rest() {
    assert_eq!(quoted_string(r#""ab" tail"#).unwrap(), (" tail", "ab".into()));
}

#[test]
fn empty_quoted_value() {
    let m = parse_options(r#"K="""#).unwrap();
    assert_eq!(m.get("K").unwrap(), "");
}

#[test]
fn render_round_trips() {
    let mut o = Options::new();
    o.insert("version".into(), "3.8".into());
    o.insert("CFLAGS".into(), r#"-O2 "fast" \path"#.into());
    o.insert("empty".into(), "".into());
    let s = o.render();
    let p = parse_options(&s).unwrap();
    assert_eq!(p.len(), 3);
    assert_eq!(p.get("version").unwrap(), "3.8");
    assert_eq!(p.get("CFLAGS").unwrap(), r#"-O2 "fast" \path"#);
    assert_eq!(p.get("empty").unwrap(), "");
}

#[test]
fn remove_consumes_entry() {
    let mut m = parse_options("a=1 b=2").unwrap();
    assert_eq!(m.remove("a"), Some("1".into()));
    assert_eq!(m.remove("a"), None);
    assert_eq!(m.len(), 1);
    assert_eq!(m.get("b").unwrap(), "2");
}
