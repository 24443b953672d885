use httpie::command::Command;
use httpie::kv::{parse_kv_pair, KvPair, ParseError};
use httpie::target::parse_url;

#[test]
fn parse_url_works() {
    assert!(parse_url("abc").is_err());
    assert!(parse_url("http://abc.xyz").is_ok());
    assert!(parse_url("http://httpbin.org/post").is_ok())
}

#[test]
fn parse_kv_pair_works() {
    assert!(parse_kv_pair("a").is_err());
    assert_eq!(
        parse_kv_pair("a=1").unwrap(),
        KvPair {
            k: "a".into(),
            v: "1".into(),
        }
    );

    assert_eq!(
        parse_kv_pair("b=").unwrap(),
        KvPair {
            k: "b".into(),
            v: "".into(),
        }
    )
}

#[test]
fn parse_url_keeps_text_and_reports_it() {
    assert_eq!(parse_url("http://abc.xyz/a?b=c").unwrap(), "http://abc.xyz/a?b=c");
    assert_eq!(parse_url("abc"), Err(ParseError::InvalidUrl("abc".into())));
    assert_eq!(parse_url(""), Err(ParseError::InvalidUrl("".into())));
}

#[test]
fn later_separators_stay_in_value() {
    assert_eq!(
        parse_kv_pair("a=b=c").unwrap(),
        KvPair {
            k: "a".into(),
            v: "b=c".into(),
        }
    );
    assert_eq!(
        parse_kv_pair("==").unwrap(),
        KvPair {
            k: "".into(),
            v: "=".into(),
        }
    );
}

#[test]
fn missing_separator_names_token() {
    assert_eq!(
        parse_kv_pair("abc"),
        Err(ParseError::MissingSeparator("abc".into()))
    );
    assert_eq!(parse_kv_pair(""), Err(ParseError::MissingSeparator("".into())));
}

#[test]
fn kv_pair_from_str_agrees() {
    let p: KvPair = "k=é=ü".parse().unwrap();
    assert_eq!(p.k, "k");
    assert_eq!(p.v, "é=ü");
    assert!("novalue".parse::<KvPair>().is_err());
}

#[test]
fn get_command_checks_url() {
    assert_eq!(
        Command::get("http://abc.xyz").unwrap(),
        Command::Get {
            url: "http://abc.xyz".into()
        }
    );
    assert_eq!(
        Command::get("abc"),
        Err(ParseError::InvalidUrl("abc".into()))
    );
}

#[test]
fn post_command_parses_fields_in_order() {
    let body = vec!["a=1".to_string(), "b=2".to_string()];
    assert_eq!(
        Command::post("http://httpbin.org/post", &body).unwrap(),
        Command::Post {
            url: "http://httpbin.org/post".into(),
            body: vec![
                KvPair { k: "a".into(), v: "1".into() },
                KvPair { k: "b".into(), v: "2".into() },
            ],
        }
    );
    assert_eq!(
        Command::post("http://httpbin.org/post", &Vec::new()).unwrap(),
        Command::Post {
            url: "http://httpbin.org/post".into(),
            body: Vec::new(),
        }
    );
}

#[test]
fn post_command_reports_first_failure() {
    let body = vec!["a=1".to_string(), "x".to_string(), "y".to_string()];
    assert_eq!(
        Command::post("http://httpbin.org/post", &body),
        Err(ParseError::MissingSeparator("x".into()))
    );
    assert_eq!(
        Command::post("abc", &body),
        Err(ParseError::InvalidUrl("abc".into()))
    );
}

#[test]
fn url_without_host_is_rejected() {
    assert_eq!(
        parse_url("mailto:someone@example.com"),
        Err(ParseError::InvalidUrl("mailto:someone@example.com".into()))
    );
    assert!(parse_url("data:text/plain,hi").is_err());
    assert!(parse_url("https://example.com:8080/x").is_ok());
}

#[test]
fn from_str_splits_at_first_separator() {
    let p: KvPair = "=1".parse().unwrap();
    assert_eq!(p, KvPair { k: "".into(), v: "1".into() });
    let p: KvPair = "a==".parse().unwrap();
    assert_eq!(p, KvPair { k: "a".into(), v: "=".into() });
    assert_eq!(
        "abc".parse::<KvPair>(),
        Err(ParseError::MissingSeparator("abc".into()))
    );
}
