//! Documents and their text.

use pi_whim::json::{put_member, Json};

#[test]
fn a_document_is_read_as_it_is_written() {
    let document = Json::parse(r#"{"b": [1, -2.5, "x"], "a": {"t": true, "n": null}}"#).unwrap();
    assert_eq!(document.array_at("b").map(|items| items.len()), Some(3));
    assert_eq!(document.get("b").and_then(|b| b.as_array()).unwrap()[0].as_u64(), Some(1));
    assert_eq!(document.get("b").and_then(|b| b.as_array()).unwrap()[1], Json::number("-2.5"));
    assert_eq!(document.get("a").and_then(|a| a.bool_at("t")), Some(true));
    assert_eq!(document.get("a").and_then(|a| a.get("n")), Some(&Json::Null));
    assert_eq!(document.str_at("b"), None);
}

#[test]
fn text_that_is_no_document_is_refused() {
    assert!(Json::parse("{").is_none());
    assert!(Json::parse("").is_none());
    assert!(Json::parse("{} {}").is_none());
}

#[test]
fn a_document_that_is_written_is_read_back() {
    let document = Json::parse(r#"{"items":[1,"two",{"three":[]}],"ok":false}"#).unwrap();
    assert_eq!(document.to_compact(), r#"{"items":[1,"two",{"three":[]}],"ok":false}"#);
    assert_eq!(Json::parse(&document.to_pretty()), Some(document.copy()));
    assert_eq!(document.to_pretty().lines().count(), 10);
}

#[test]
fn numbers_keep_their_range() {
    assert_eq!(Json::number("18446744073709551615").as_u64(), Some(u64::MAX));
    assert_eq!(Json::number("18446744073709551616").as_u64(), None);
    assert_eq!(Json::number("-9223372036854775808").as_i64(), Some(i64::MIN));
    assert_eq!(Json::number("1.5").as_u64(), None);
}

#[test]
fn putting_a_member_replaces_the_one_under_its_key() {
    let mut members = vec![("a".to_owned(), Json::Bool(true)), ("b".to_owned(), Json::Null)];
    put_member(&mut members, "a".to_owned(), Json::string("new"));
    put_member(&mut members, "c".to_owned(), Json::Bool(false));
    let document = Json::object(members);
    assert_eq!(document.to_compact(), r#"{"a":"new","b":null,"c":false}"#);
}
