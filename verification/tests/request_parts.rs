use leptos_spin::request_parts::{find_first, RequestMethod, RequestParts, Scheme, Verb};

#[test]
fn if_url_header_is_string_then_url_returns_it() {
    let parts = RequestParts::new(
        RequestMethod::Get,
        Some(Scheme::Https),
        vec![(
            "spin-full-url".to_string(),
            "https://example.com/test?query".as_bytes().to_vec(),
        )],
    );
    assert_eq!(
        "https://example.com/test?query",
        parts.url().expect("should have had a URL")
    );
}

#[test]
fn if_url_header_is_missing_then_url_returns_none() {
    let parts = RequestParts::new(RequestMethod::Get, Some(Scheme::Https), vec![]);
    assert_eq!(None, parts.url(), "should have NOT had a URL");
}

#[test]
fn if_url_header_is_not_utf8_then_url_returns_none() {
    let parts = RequestParts::new(
        RequestMethod::Get,
        Some(Scheme::Https),
        vec![("spin-full-url".to_string(), vec![0xe2, 0x82, 0x28])],
    );
    assert_eq!(None, parts.url(), "should have NOT had a URL");
}

#[test]
fn url_is_taken_from_the_first_header_of_that_name() {
    let parts = RequestParts::new(
        RequestMethod::Post,
        None,
        vec![
            ("accept".to_string(), b"text/html".to_vec()),
            ("Spin-Full-Url".to_string(), b"http://a.test/one".to_vec()),
            ("spin-full-url".to_string(), b"http://a.test/two".to_vec()),
        ],
    );
    assert_eq!(Some("http://a.test/one"), parts.url());
}

#[test]
fn url_with_multibyte_text_is_returned_whole() {
    let text = "https://example.com/caf\u{e9}/\u{4e2d}";
    let parts = RequestParts::new(
        RequestMethod::Get,
        None,
        vec![("spin-full-url".to_string(), text.as_bytes().to_vec())],
    );
    assert_eq!(Some(text), parts.url());
}

#[test]
fn parts_give_back_what_they_were_made_of() {
    let headers = vec![("a".to_string(), vec![1u8, 2]), ("b".to_string(), vec![])];
    let parts = RequestParts::new(
        RequestMethod::Other("PURGE".to_string()),
        Some(Scheme::Other("ws".to_string())),
        headers.clone(),
    );
    assert_eq!(&headers, parts.headers());
    assert!(matches!(parts.method(), RequestMethod::Other(m) if m == "PURGE"));
    assert!(matches!(parts.scheme(), Some(Scheme::Other(s)) if s == "ws"));
}

#[test]
fn standard_methods_have_verbs_and_others_have_none() {
    assert_eq!(Some(Verb::Get), RequestMethod::Get.verb());
    assert_eq!(Some(Verb::Head), RequestMethod::Head.verb());
    assert_eq!(Some(Verb::Post), RequestMethod::Post.verb());
    assert_eq!(Some(Verb::Put), RequestMethod::Put.verb());
    assert_eq!(Some(Verb::Delete), RequestMethod::Delete.verb());
    assert_eq!(Some(Verb::Connect), RequestMethod::Connect.verb());
    assert_eq!(Some(Verb::Options), RequestMethod::Options.verb());
    assert_eq!(Some(Verb::Trace), RequestMethod::Trace.verb());
    assert_eq!(Some(Verb::Patch), RequestMethod::Patch.verb());
    assert_eq!(None, RequestMethod::Other("GET".to_string()).verb());
}

#[test]
fn find_first_gives_the_first_place_of_a_name() {
    let list = vec![
        ("x".to_string(), vec![1u8]),
        ("Y".to_string(), vec![2u8]),
        ("y".to_string(), vec![3u8]),
    ];
    assert_eq!(Some(1), find_first(&list, "y"));
    assert_eq!(Some(0), find_first(&list, "X"));
    assert_eq!(None, find_first(&list, "z"));
    assert_eq!(None, find_first(&Vec::new(), "x"));
}
