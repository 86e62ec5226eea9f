//! Behaviour of `ResponseTemplate`, observed through its getters and through
//! the concrete `http_types::Response` it materializes into.

use mock_response::ResponseTemplate;

fn values_of(resp: &http_types::Response, name: &str) -> Vec<String> {
    match resp.header(name) {
        None => Vec::new(),
        Some(values) => values.iter().map(|v| v.as_str().to_string()).collect(),
    }
}

fn body_of(resp: &mut http_types::Response) -> Vec<u8> {
    futures_lite::future::block_on(resp.body_bytes()).expect("body should be readable")
}

#[test]
fn construct_keeps_status() {
    for code in [100u16, 103, 200, 204, 226, 304, 308, 404, 418, 451, 500, 511] {
        let t = ResponseTemplate::try_new(code).expect("a defined status code");
        assert_eq!(t.status_code(), code);
    }
}

#[test]
fn invalid_status_rejected() {
    for code in [0u16, 99, 102, 305, 306, 419, 420, 427, 430, 509, 512, 600, 999] {
        assert!(ResponseTemplate::try_new(code).is_none());
    }
}

#[test]
fn append_header_starts_single_element_list() {
    let t = ResponseTemplate::new(200).append_header("X-Test", "a");
    assert_eq!(t.header_values("X-Test"), vec!["a".to_string()]);
}

#[test]
fn append_header_accumulates_in_order() {
    let t = ResponseTemplate::new(200)
        .append_header("X-Other", "kept")
        .append_header("X-Test", "a")
        .append_header("X-Test", "b");
    assert_eq!(t.header_values("X-Test"), vec!["a".to_string(), "b".to_string()]);
    assert_eq!(t.header_values("X-Other"), vec!["kept".to_string()]);
}

#[test]
fn insert_after_append_replaces() {
    let t = ResponseTemplate::new(200)
        .append_header("X-Test", "a")
        .insert_header("X-Test", "b");
    assert_eq!(t.header_values("X-Test"), vec!["b".to_string()]);
}

#[test]
fn header_names_fold_to_one_case_insensitive_name() {
    let t = ResponseTemplate::new(200)
        .append_header("X-TEST", "a")
        .append_header("x-test", "b");
    assert_eq!(t.header_values("X-Test"), vec!["a".to_string(), "b".to_string()]);
    let resp = t.generate_response();
    assert_eq!(values_of(&resp, "x-test"), vec!["a".to_string(), "b".to_string()]);
}

#[test]
fn unknown_header_has_no_values() {
    let t = ResponseTemplate::new(200).append_header("X-Test", "a");
    assert!(t.header_values("X-Missing").is_empty());
}

#[test]
fn non_ascii_header_rejected() {
    let t = ResponseTemplate::new(200);
    assert!(t.clone().try_append_header("h\u{e9}ader", "a").is_none());
    assert!(t.clone().try_append_header("x-test", "caf\u{e9}").is_none());
    assert!(t.clone().try_insert_header("h\u{e9}ader", "a").is_none());
    assert!(t.clone().try_insert_header("x-test", "caf\u{e9}").is_none());
    assert!(t.try_append_header("x-test", "plain").is_some());
}

#[test]
fn set_body_last_write_wins() {
    let t = ResponseTemplate::new(200)
        .set_body(b"first".to_vec())
        .set_body(b"second".to_vec());
    assert_eq!(t.body(), Some(&b"second".to_vec()));
    let mut resp = t.generate_response();
    assert_eq!(body_of(&mut resp), b"second".to_vec());
}

#[test]
fn no_body_materializes_empty() {
    let t = ResponseTemplate::new(200);
    assert!(t.body().is_none());
    let mut resp = t.generate_response();
    assert_eq!(body_of(&mut resp), Vec::<u8>::new());
}

#[test]
fn materialize_twice_yields_equivalent_responses() {
    let t = ResponseTemplate::new(201)
        .append_header("X-Test", "a")
        .append_header("X-Test", "b")
        .set_body(b"payload".to_vec());
    let mut r1 = t.generate_response();
    let mut r2 = t.generate_response();
    assert_eq!(u16::from(r1.status()), u16::from(r2.status()));
    assert_eq!(values_of(&r1, "x-test"), values_of(&r2, "x-test"));
    assert_eq!(values_of(&r1, "content-type"), values_of(&r2, "content-type"));
    assert_eq!(body_of(&mut r1), body_of(&mut r2));
}

#[test]
fn scenario_append_two_values() {
    let mut resp = ResponseTemplate::new(200)
        .append_header("X-Test", "a")
        .append_header("X-Test", "b")
        .generate_response();
    assert_eq!(u16::from(resp.status()), 200);
    assert_eq!(values_of(&resp, "X-Test"), vec!["a".to_string(), "b".to_string()]);
    assert_eq!(body_of(&mut resp), Vec::<u8>::new());
}

#[test]
fn scenario_insert_content_type_and_body() {
    let mut resp = ResponseTemplate::new(404)
        .insert_header("Content-Type", "text/plain")
        .set_body(b"not found".to_vec())
        .generate_response();
    assert_eq!(u16::from(resp.status()), 404);
    assert_eq!(values_of(&resp, "Content-Type"), vec!["text/plain".to_string()]);
    assert_eq!(body_of(&mut resp), b"not found".to_vec());
}

#[test]
fn scenario_insert_no_cross_contamination() {
    let resp = ResponseTemplate::new(500)
        .insert_header("A", "1")
        .insert_header("B", "2")
        .insert_header("A", "3")
        .generate_response();
    assert_eq!(u16::from(resp.status()), 500);
    assert_eq!(values_of(&resp, "A"), vec!["3".to_string()]);
    assert_eq!(values_of(&resp, "B"), vec!["2".to_string()]);
}

#[test]
fn body_without_content_type_records_byte_stream() {
    let resp = ResponseTemplate::new(200).set_body(b"raw".to_vec()).generate_response();
    assert_eq!(values_of(&resp, "content-type"), vec!["application/octet-stream".to_string()]);
}
