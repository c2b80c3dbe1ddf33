use crawler::kv::{parse_kv_pair, parse_url, ArgError, KvPair};

#[test]
fn parse_url_works() {
    assert!(parse_url("https://www.rust-lang.org").is_ok());
    assert!(parse_url("not url").is_err());
}

#[test]
fn parse_kv_pair_works() {
    assert!(parse_kv_pair("not kv pair").is_err());
    assert_eq!(
        parse_kv_pair("a=1").unwrap(),
        KvPair {
            k: "a".into(),
            v: "1".into()
        }
    );

    assert_eq!(
        parse_kv_pair("b=").unwrap(),
        KvPair {
            k: "b".into(),
            v: "".into()
        }
    );
}

#[test]
fn kv_value_stops_at_second_separator() {
    let pair = parse_kv_pair("a=1=2").unwrap();
    assert_eq!(pair.k, "a");
    assert_eq!(pair.v, "1");
}

#[test]
fn kv_empty_key_and_error_kind() {
    let pair = parse_kv_pair("=x").unwrap();
    assert_eq!(pair.k, "");
    assert_eq!(pair.v, "x");
    assert_eq!(parse_kv_pair(""), Err(ArgError::MissingSeparator));
}

#[test]
fn kv_from_str_matches_parse() {
    let pair: KvPair = "name=value".parse().unwrap();
    assert_eq!(pair, KvPair { k: "name".into(), v: "value".into() });
}

#[test]
fn url_keeps_text_and_names_error() {
    assert_eq!(parse_url("http://example.com/a?b=c").unwrap(), "http://example.com/a?b=c");
    assert_eq!(parse_url("example.com"), Err(ArgError::InvalidUrl));
}
