use http::header::{HeaderMap, HeaderName, HeaderValue, ACCEPT, AUTHORIZATION};
use proxy::rename_header::RenameHeader;

fn renaming() -> RenameHeader {
    RenameHeader::new(HeaderName::from_static("x-balena-authorization"), AUTHORIZATION)
}

#[test]
fn rename_moves_the_value() {
    let mut headers = HeaderMap::new();
    headers.insert("x-balena-authorization", HeaderValue::from_static("Bearer k"));
    headers.insert(ACCEPT, HeaderValue::from_static("*/*"));
    assert!(renaming().apply(&mut headers));
    assert!(headers.get("x-balena-authorization").is_none());
    assert_eq!(headers.get(AUTHORIZATION).unwrap(), "Bearer k");
    assert_eq!(headers.get(ACCEPT).unwrap(), "*/*");
    assert_eq!(headers.len(), 2);
}

#[test]
fn rename_without_the_header_changes_nothing() {
    let mut headers = HeaderMap::new();
    headers.insert(AUTHORIZATION, HeaderValue::from_static("Bearer old"));
    assert!(renaming().apply(&mut headers));
    assert_eq!(headers.get(AUTHORIZATION).unwrap(), "Bearer old");
    assert_eq!(headers.len(), 1);
    let mut empty = HeaderMap::new();
    assert!(renaming().apply(&mut empty));
    assert!(empty.is_empty());
}

#[test]
fn rename_replaces_what_the_new_name_held() {
    let mut headers = HeaderMap::new();
    headers.append(AUTHORIZATION, HeaderValue::from_static("Bearer old"));
    headers.append(AUTHORIZATION, HeaderValue::from_static("Bearer older"));
    headers.insert("x-balena-authorization", HeaderValue::from_static("Bearer new"));
    assert!(renaming().apply(&mut headers));
    let values: Vec<_> = headers.get_all(AUTHORIZATION).iter().collect();
    assert_eq!(values, vec!["Bearer new"]);
    assert_eq!(headers.len(), 1);
}

#[test]
fn rename_keeps_only_the_first_of_several_values() {
    let mut headers = HeaderMap::new();
    headers.append("x-balena-authorization", HeaderValue::from_static("one"));
    headers.append("x-balena-authorization", HeaderValue::from_static("two"));
    assert!(renaming().apply(&mut headers));
    let values: Vec<_> = headers.get_all(AUTHORIZATION).iter().collect();
    assert_eq!(values, vec!["one"]);
    assert!(headers.get("x-balena-authorization").is_none());
}

#[test]
fn rename_to_the_same_name_keeps_the_first_value() {
    let rename = RenameHeader::new(ACCEPT, ACCEPT);
    let mut headers = HeaderMap::new();
    headers.append(ACCEPT, HeaderValue::from_static("a"));
    headers.append(ACCEPT, HeaderValue::from_static("b"));
    assert!(rename.apply(&mut headers));
    let values: Vec<_> = headers.get_all(ACCEPT).iter().collect();
    assert_eq!(values, vec!["a"]);
}

#[test]
fn rename_keeps_bytes_that_are_not_text() {
    let mut headers = HeaderMap::new();
    headers.insert("x-balena-authorization", HeaderValue::from_bytes(b"Bearer \xff\xfe").unwrap());
    assert!(renaming().apply(&mut headers));
    assert_eq!(headers.get(AUTHORIZATION).unwrap().as_bytes(), b"Bearer \xff\xfe");
}
