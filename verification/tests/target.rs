use grasshopper::request::{assemble_request, build_request, TargetUrl};
use grasshopper::target::{deserialize_method, Method, RequestPayload, TargetError};

fn get(url: &str) -> RequestPayload {
    RequestPayload::new(url.to_string(), "GET", None, None, None, false).unwrap()
}

#[test]
fn method_names_are_read_in_any_case() {
    assert_eq!(deserialize_method("GET"), Ok(Method::Get));
    assert_eq!(deserialize_method("get"), Ok(Method::Get));
    assert_eq!(deserialize_method("pOsT"), Ok(Method::Post));
    assert_eq!(deserialize_method("Put"), Ok(Method::Put));
    assert_eq!(deserialize_method("DELETE"), Ok(Method::Delete));
    assert_eq!(deserialize_method("patch"), Ok(Method::Patch));
}

#[test]
fn unknown_method_names_are_refused() {
    assert_eq!(deserialize_method("HEAD"), Err(TargetError::InvalidMethod));
    assert_eq!(deserialize_method(""), Err(TargetError::InvalidMethod));
    assert_eq!(deserialize_method("gets"), Err(TargetError::InvalidMethod));
    assert_eq!(deserialize_method("ge"), Err(TargetError::InvalidMethod));
    assert_eq!(deserialize_method("g\u{e9}t"), Err(TargetError::InvalidMethod));
    assert_eq!(deserialize_method("[et"), Err(TargetError::InvalidMethod));
}

#[test]
fn construction_fails_on_an_invalid_method() {
    let made = RequestPayload::new("http://a.test/".to_string(), "FETCH", None, None, None, false);
    assert_eq!(made.err(), Some(TargetError::InvalidMethod));
}

#[test]
fn construction_keeps_every_field() {
    let made = RequestPayload::new(
        "http://a.test/x".to_string(),
        "Post",
        Some("body".to_string()),
        Some(vec![("A".to_string(), "1".to_string())]),
        Some("signer".to_string()),
        true,
    )
    .unwrap();
    assert_eq!(made.url, "http://a.test/x");
    assert_eq!(made.method, Method::Post);
    assert_eq!(made.body.as_deref(), Some("body"));
    assert_eq!(made.headers, Some(vec![("A".to_string(), "1".to_string())]));
    assert_eq!(made.sign.as_deref(), Some("signer"));
    assert!(made.primary_only);
}

#[test]
fn headers_and_hints_do_not_count_for_equality() {
    let plain = get("http://a.test/x");
    let mut dressed = get("http://a.test/x");
    dressed.headers = Some(vec![("X-Key".to_string(), "1".to_string())]);
    dressed.sign = Some("s".to_string());
    dressed.primary_only = true;
    assert!(plain.same_target(&dressed));
    assert!(plain == dressed);
}

#[test]
fn url_method_and_body_count_for_equality() {
    let base = get("http://a.test/x");
    assert!(!base.same_target(&get("http://a.test/y")));
    let post = RequestPayload::new("http://a.test/x".to_string(), "POST", None, None, None, false).unwrap();
    assert!(!base.same_target(&post));
    let mut with_body = get("http://a.test/x");
    with_body.body = Some(String::new());
    assert!(!base.same_target(&with_body));
    assert!(base != with_body);
    let mut other_body = get("http://a.test/x");
    other_body.body = Some("b".to_string());
    assert!(!with_body.same_target(&other_body));
}

#[test]
fn duplicate_is_equal_in_every_field() {
    let mut t = get("http://a.test/x");
    t.headers = Some(vec![("A".to_string(), "1".to_string()), ("B".to_string(), "2".to_string())]);
    t.body = Some("b".to_string());
    let copy = t.duplicate();
    assert_eq!(copy.url, t.url);
    assert_eq!(copy.method, t.method);
    assert_eq!(copy.body, t.body);
    assert_eq!(copy.headers, t.headers);
    assert_eq!(copy.sign, t.sign);
    assert_eq!(copy.primary_only, t.primary_only);
}

#[test]
fn a_get_without_body_gets_no_extra_header() {
    let built = build_request(&get("http://a.test/x")).unwrap();
    assert_eq!(built.method, Method::Get);
    assert_eq!(built.url, "http://a.test/x");
    assert_eq!(built.host.as_deref(), Some("a.test"));
    assert_eq!(built.body, None);
    assert!(built.headers.is_empty());
}

#[test]
fn a_post_without_body_states_its_empty_body() {
    let mut t = RequestPayload::new("http://a.test/x".to_string(), "POST", None, None, None, false).unwrap();
    t.headers = Some(vec![("X-A".to_string(), "1".to_string()), ("X-B".to_string(), "2".to_string())]);
    let built = build_request(&t).unwrap();
    assert_eq!(
        built.headers,
        vec![
            ("Content-Length".to_string(), "0".to_string()),
            ("X-A".to_string(), "1".to_string()),
            ("X-B".to_string(), "2".to_string()),
        ]
    );
}

#[test]
fn a_post_with_body_keeps_the_body_and_the_headers() {
    let t = RequestPayload::new(
        "http://a.test/x".to_string(),
        "POST",
        Some("{}".to_string()),
        Some(vec![("Content-Type".to_string(), "application/json".to_string())]),
        None,
        false,
    )
    .unwrap();
    let built = build_request(&t).unwrap();
    assert_eq!(built.body.as_deref(), Some("{}"));
    assert_eq!(built.headers, vec![("Content-Type".to_string(), "application/json".to_string())]);
}

#[test]
fn the_url_is_sent_as_the_parser_writes_it() {
    let built = build_request(&get("HTTP://EXAMPLE.test:80/a b")).unwrap();
    assert_eq!(built.url, "http://example.test/a%20b");
    assert_eq!(built.host.as_deref(), Some("example.test"));
}

#[test]
fn a_url_without_host_has_none() {
    let built = build_request(&get("data:text/plain,hello")).unwrap();
    assert_eq!(built.host, None);
}

#[test]
fn a_malformed_url_is_refused() {
    assert_eq!(build_request(&get("not a url")).err(), Some(TargetError::MalformedUrl));
    assert_eq!(build_request(&get("")).err(), Some(TargetError::MalformedUrl));
    assert_eq!(build_request(&get("http://")).err(), Some(TargetError::MalformedUrl));
}

#[test]
fn the_first_faulty_header_is_reported() {
    let mut t = get("http://a.test/");
    t.headers = Some(vec![
        ("Good".to_string(), "fine".to_string()),
        ("Bad Name".to_string(), "fine".to_string()),
        ("Also-Good".to_string(), "bad\nvalue".to_string()),
    ]);
    assert_eq!(build_request(&t).err(), Some(TargetError::InvalidHeaderName(1)));
    t.headers = Some(vec![
        ("Good".to_string(), "fine".to_string()),
        ("Also-Good".to_string(), "bad\nvalue".to_string()),
        ("Bad Name".to_string(), "fine".to_string()),
    ]);
    assert_eq!(build_request(&t).err(), Some(TargetError::InvalidHeaderValue(1)));
}

#[test]
fn header_names_are_tokens() {
    let mut t = get("http://a.test/");
    for bad in ["", "a:b", "a b", "caf\u{e9}", "a(b", "a,b", "a/b", "a@b", "a[b", "a{b", "a\u{7f}"] {
        t.headers = Some(vec![(bad.to_string(), "v".to_string())]);
        assert_eq!(build_request(&t).err(), Some(TargetError::InvalidHeaderName(0)), "{:?}", bad);
    }
    for good in ["a", "A-b_c.d", "x!#$%&'*+^`|~9", "quo\"te"] {
        t.headers = Some(vec![(good.to_string(), "v".to_string())]);
        assert!(build_request(&t).is_ok(), "{:?}", good);
    }
}

#[test]
fn header_names_have_a_length_limit() {
    let mut t = get("http://a.test/");
    t.headers = Some(vec![("a".repeat(65535), "v".to_string())]);
    assert!(build_request(&t).is_ok());
    t.headers = Some(vec![("a".repeat(65536), "v".to_string())]);
    assert_eq!(build_request(&t).err(), Some(TargetError::InvalidHeaderName(0)));
    t.headers = Some(vec![("a".repeat(64), "v".to_string())]);
    assert!(build_request(&t).is_ok());
    t.headers = Some(vec![("a".repeat(65), "v".to_string())]);
    assert!(build_request(&t).is_ok());
    t.headers = Some(vec![(format!("{}{}", "a".repeat(70), " "), "v".to_string())]);
    assert_eq!(build_request(&t).err(), Some(TargetError::InvalidHeaderName(0)));
}

#[test]
fn header_values_hold_no_control_characters() {
    let mut t = get("http://a.test/");
    for bad in ["a\nb", "a\rb", "\u{0}", "a\u{7f}", "\u{1f}"] {
        t.headers = Some(vec![("n".to_string(), bad.to_string())]);
        assert_eq!(build_request(&t).err(), Some(TargetError::InvalidHeaderValue(0)), "{:?}", bad);
    }
    for good in ["", "a b", "a\tb", "caf\u{e9}", "~"] {
        t.headers = Some(vec![("n".to_string(), good.to_string())]);
        assert!(build_request(&t).is_ok(), "{:?}", good);
    }
}

#[test]
fn a_target_that_asks_for_a_signature_is_not_built() {
    let mut t = get("not a url");
    t.sign = Some("exchange".to_string());
    assert_eq!(build_request(&t).err(), Some(TargetError::Unsigned));
}

#[test]
fn assembling_goes_by_the_outcome_of_parsing() {
    let t = get("anything");
    assert_eq!(assemble_request(&t, None).err(), Some(TargetError::MalformedUrl));
    let parsed = TargetUrl { href: "http://h.test/".to_string(), host: Some("h.test".to_string()) };
    let built = assemble_request(&t, Some(parsed)).unwrap();
    assert_eq!(built.url, "http://h.test/");
    assert_eq!(built.host.as_deref(), Some("h.test"));
    assert_eq!(built.method, Method::Get);
}
