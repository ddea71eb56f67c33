use mini_http::headers::Headers;

#[test]
fn new_map_holds_nothing() {
    let headers = Headers::new();
    assert!(!headers.contains_key(b"Host"));
    assert_eq!(headers.get(b"Host"), None);
}

#[test]
fn insert_then_get() {
    let mut headers = Headers::new();
    headers.insert(b"Host".to_vec(), b"localhost".to_vec());
    headers.insert(b"User-Agent".to_vec(), b"foo/1.0".to_vec());
    assert_eq!(headers.get(b"Host"), Some(&b"localhost".to_vec()));
    assert_eq!(headers.get(b"User-Agent"), Some(&b"foo/1.0".to_vec()));
    assert!(headers.contains_key(b"Host"));
    assert!(!headers.contains_key(b"host"));
    assert_eq!(headers.get(b"Accept"), None);
}

#[test]
fn later_insert_replaces_earlier() {
    let mut headers = Headers::new();
    headers.insert(b"A".to_vec(), b"1".to_vec());
    headers.insert(b"B".to_vec(), b"2".to_vec());
    headers.insert(b"A".to_vec(), b"3".to_vec());
    assert_eq!(headers.get(b"A"), Some(&b"3".to_vec()));
    assert_eq!(headers.get(b"B"), Some(&b"2".to_vec()));
}
