use bytes::Bytes;
use http::HeaderMap;
use tonic_mock::client_mock::decimal::{format_u64, parse_u64};
use tonic_mock::client_mock::handler::{respond, respond_if, Outcome};
use tonic_mock::client_mock::headers::MAX_HEADER_NAMES;
use tonic_mock::client_mock::response::create_headers_from_def;
use tonic_mock::client_mock::{response_delay, Code, MockResponseDefinition, MockStatus};

fn ok() -> MockResponseDefinition<u8> {
    MockResponseDefinition::ok(7)
}

fn delay_with(definition: MockResponseDefinition<u8>) -> Option<u64> {
    response_delay(&Ok((Bytes::new(), create_headers_from_def(&definition))))
}

#[test]
fn constructors_set_what_they_say() {
    let definition = ok();
    assert_eq!(definition.response, Some(7));
    assert!(definition.status.is_none());
    assert!(definition.metadata_pairs.is_empty());
    assert_eq!(definition.delay_ms, None);

    let definition: MockResponseDefinition<u8> =
        MockResponseDefinition::err(MockStatus::internal("broken".to_string()));
    assert_eq!(definition.response, None);
    assert_eq!(definition.status.unwrap().message, "broken");
    assert!(definition.metadata_pairs.is_empty());
    assert_eq!(definition.delay_ms, None);

    let definition: MockResponseDefinition<u8> = MockResponseDefinition::default();
    assert_eq!(definition.response, None);
    assert!(definition.status.is_none());
    assert!(definition.metadata_pairs.is_empty());
    assert_eq!(definition.delay_ms, None);
}

#[test]
fn metadata_keeps_its_order() {
    let definition = ok().with_metadata("b", "1").with_delay(5).with_metadata("a", "2");
    assert_eq!(
        definition.metadata_pairs,
        [
            ("b".to_string(), "1".to_string()),
            ("a".to_string(), "2".to_string())
        ]
    );
    assert_eq!(definition.delay_ms, Some(5));
    assert_eq!(definition.with_delay(6).delay_ms, Some(6));
}

#[test]
fn clone_keeps_the_definition() {
    let mut definition = ok().with_metadata("b", "1").with_delay(5);
    definition.status = Some(MockStatus::internal("broken".to_string()));
    let copy = definition.clone();
    assert_eq!(copy.response, Some(7));
    assert_eq!(copy.status.unwrap().message, "broken");
    assert_eq!(copy.metadata_pairs, definition.metadata_pairs);
    assert_eq!(copy.delay_ms, Some(5));
}

#[test]
fn header_names_are_in_lower_case() {
    let headers = create_headers_from_def(&ok().with_metadata("X-Request-ID", "12345"));
    let names: Vec<&str> = headers.keys().map(|name| name.as_str()).collect();
    assert_eq!(names, ["x-request-id"]);
    assert_eq!(headers["x-request-id"], "12345");
}

#[test]
fn last_value_under_a_name_stays() {
    let headers = create_headers_from_def(
        &ok()
            .with_metadata("Key", "first")
            .with_metadata("other", "kept")
            .with_metadata("KEY", "second"),
    );
    assert_eq!(headers.len(), 2);
    assert_eq!(headers["key"], "second");
    assert_eq!(headers["other"], "kept");
}

#[test]
fn values_that_no_header_can_hold_are_left_out() {
    let headers = create_headers_from_def(
        &ok()
            .with_metadata("a", "line\nbreak")
            .with_metadata("b", "\u{7f}")
            .with_metadata("c", "tab\tis fine")
            .with_metadata("d", "")
            .with_metadata("e", "\u{e9}")
            .with_metadata("not a name", "\n"),
    );
    assert_eq!(headers.len(), 3);
    assert_eq!(headers["c"], "tab\tis fine");
    assert_eq!(headers["d"], "");
    assert_eq!(headers["e"].as_bytes(), [0xc3, 0xa9]);
}

#[test]
fn later_value_that_is_left_out_does_not_replace() {
    let headers = create_headers_from_def(
        &ok().with_metadata("a", "kept").with_metadata("a", "\n"),
    );
    assert_eq!(headers.len(), 1);
    assert_eq!(headers["a"], "kept");
}

#[test]
fn keys_have_to_be_header_names() {
    assert!(ok().is_renderable());
    assert!(ok().with_metadata("!#$%&'*+-.^_`|~09azAZ", "v").is_renderable());
    assert!(!ok().with_metadata("", "v").is_renderable());
    assert!(!ok().with_metadata("a b", "v").is_renderable());
    assert!(!ok().with_metadata("a:b", "v").is_renderable());
    assert!(!ok().with_metadata("\"", "v").is_renderable());
    assert!(!ok().with_metadata("\u{e9}", "v").is_renderable());
    assert!(ok().with_metadata(&"a".repeat(65535), "v").is_renderable());
    assert!(!ok().with_metadata(&"a".repeat(65536), "v").is_renderable());
    assert!(ok().with_metadata("a b", "\n").is_renderable());
}

#[test]
fn number_of_header_names_is_bounded() {
    let mut definition = ok();
    for i in 0..MAX_HEADER_NAMES {
        definition = definition.with_metadata(&format!("key-{}", i), "v");
    }
    definition = definition.with_metadata("key-0", "w");
    assert!(definition.is_renderable());
    let headers = create_headers_from_def(&definition);
    assert_eq!(headers.len(), MAX_HEADER_NAMES);
    assert_eq!(headers["key-0"], "w");
    let definition = definition.with_delay(1);
    assert!(!definition.is_renderable());
    let mut definition = definition.with_metadata("one-more", "v");
    definition.delay_ms = None;
    assert!(!definition.is_renderable());
}

#[test]
fn delay_is_kept_in_a_header() {
    for delay in [1, 9, 10, 200, 18446744073709551615] {
        assert_eq!(delay_with(ok().with_delay(delay)), Some(delay));
    }
    let headers = create_headers_from_def(&ok().with_delay(18446744073709551615));
    assert_eq!(headers["mock-delay-ms"], "18446744073709551615");
}

#[test]
fn zero_delay_is_none() {
    let headers = create_headers_from_def(&ok().with_delay(0));
    assert_eq!(headers["mock-delay-ms"], "0");
    assert_eq!(delay_with(ok().with_delay(0)), None);
}

#[test]
fn no_delay_without_definition() {
    assert_eq!(delay_with(ok().with_metadata("mock-delay", "5")), None);
}

#[test]
fn delay_goes_before_metadata_of_its_name() {
    assert_eq!(
        delay_with(ok().with_delay(20).with_metadata("mock-delay-ms", "30")),
        Some(20)
    );
    assert_eq!(delay_with(ok().with_metadata("Mock-Delay-MS", "30")), Some(30));
    assert_eq!(delay_with(ok().with_metadata("mock-delay-ms", "+30")), Some(30));
    assert_eq!(delay_with(ok().with_metadata("mock-delay-ms", "30ms")), None);
    assert_eq!(delay_with(ok().with_metadata("mock-delay-ms", "\u{e9}")), None);
}

#[test]
fn first_value_of_the_delay_header_counts() {
    let mut headers = HeaderMap::new();
    headers.append("mock-delay-ms", "4".parse().unwrap());
    headers.append("mock-delay-ms", "5".parse().unwrap());
    assert_eq!(response_delay(&Ok((Bytes::new(), headers))), Some(4));
    assert_eq!(response_delay(&Err(MockStatus::internal("4".to_string()))), None);
}

#[test]
fn numbers_are_written_in_decimal() {
    assert_eq!(format_u64(0), "0");
    assert_eq!(format_u64(10), "10");
    assert_eq!(format_u64(1234567890), "1234567890");
    assert_eq!(format_u64(u64::MAX), u64::MAX.to_string());
}

#[test]
fn numbers_are_read_as_they_were_written() {
    for n in [0, 7, 10, 99, 100, 18446744073709551615] {
        assert_eq!(parse_u64(&format_u64(n)), Some(n));
    }
}

#[test]
fn numbers_are_read_like_in_the_standard_library() {
    for text in [
        "", "0", "7", "00012", "+5", "+", "-1", "++1", "1+", " 1", "1 ", "1_0", "a", "\u{663}",
        "1\u{e9}", "18446744073709551615", "18446744073709551616", "99999999999999999999999x",
        "+18446744073709551615",
    ] {
        assert_eq!(parse_u64(text), text.parse::<u64>().ok(), "{:?}", text);
    }
}

#[test]
fn respond_encodes_the_response() {
    let (reply, delay_ms) = respond(&ok().with_metadata("k", "v").with_delay(4), &|n: &u8| {
        Bytes::from(vec![*n, 1])
    });
    let (bytes, headers) = reply.unwrap();
    assert_eq!(delay_ms, Some(4));
    assert_eq!(bytes, vec![7, 1]);
    assert_eq!(headers["k"], "v");
}

#[test]
fn respond_if_tests_the_condition() {
    let encode = |n: &u8| Bytes::from(vec![*n]);
    let even = |n: &u8| n % 2 == 0;
    match respond_if(Ok(4), &even, &ok().with_delay(2), &encode) {
        Outcome::Answered((reply, delay_ms)) => {
            assert_eq!(reply.unwrap().0, vec![7]);
            assert_eq!(delay_ms, Some(2));
        }
        _ => panic!("not answered"),
    }

    let outcome = respond_if(Ok(5), &even, &ok(), &encode);
    assert!(matches!(outcome, Outcome::PassedOn));

    let error = MockStatus::unimplemented("what".to_string());
    match respond_if(Err(error), &even, &ok(), &encode) {
        Outcome::Undecodable(status) => {
            assert_eq!(status.code, Code::Unimplemented);
            assert_eq!(status.message, "what");
        }
        _ => panic!("decoded"),
    }
}
