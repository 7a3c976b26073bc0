use bytes::Bytes;
use std::error::Error;
use std::sync::Arc;
use tonic_mock::client_mock::handler::Answer;
use tonic_mock::client_mock::{
    response_delay, Code, GrpcClientExt, MockResponseDefinition, MockableGrpcClient, MockStatus,
};

#[derive(Debug)]
struct GetUserRequest {
    user_id: String,
}

#[derive(Clone, Debug)]
struct User {
    name: String,
}

fn user(name: &str) -> User {
    User {
        name: name.to_string(),
    }
}

fn encode_user(user: &User) -> Bytes {
    Bytes::from(format!("user:{}", user.name))
}

fn decode_request(bytes: &[u8]) -> Result<GetUserRequest, MockStatus> {
    match std::str::from_utf8(bytes) {
        Ok(text) => Ok(GetUserRequest {
            user_id: text.to_string(),
        }),
        Err(_) => Err(MockStatus::new(Code::InvalidArgument, "not text".to_string())),
    }
}

fn not_found() -> MockStatus {
    MockStatus::new(Code::NotFound, "User not found".to_string())
}

fn expect_user(answer: Answer, name: &str) {
    let (bytes, _) = answer.0.unwrap();
    assert_eq!(bytes, format!("user:{}", name).as_bytes());
}

fn expect_error(answer: Answer, code: Code, message: &str) {
    let status = answer.0.unwrap_err();
    assert_eq!(status.code, code);
    assert_eq!(status.message, message);
}

const SERVICE: &str = "user.UserService";

#[test]
fn new_client_answers_nothing() {
    let client = MockableGrpcClient::new();
    expect_error(
        client.handle_request(SERVICE, "GetUser", b"1"),
        Code::Unimplemented,
        "No mock handler configured for user.UserService::GetUser",
    );
}

#[test]
fn static_response_answers_any_request() {
    let mut client = MockableGrpcClient::new();
    client
        .mock::<GetUserRequest, User>(SERVICE, "GetUser")
        .respond_with(MockResponseDefinition::ok(user("Test User")), encode_user);
    expect_user(
        client.handle_request(SERVICE, "GetUser", b"user-123"),
        "Test User",
    );
    expect_user(client.handle_request(SERVICE, "GetUser", &[0xff]), "Test User");
    let (reply, delay_ms) = client.handle_request(SERVICE, "GetUser", b"");
    assert!(reply.unwrap().1.is_empty());
    assert_eq!(delay_ms, None);
}

#[test]
fn static_response_answers_its_method_only() {
    let mut client = MockableGrpcClient::new();
    client
        .mock::<GetUserRequest, User>(SERVICE, "GetUser")
        .respond_with(MockResponseDefinition::ok(user("Test User")), encode_user);
    expect_error(
        client.handle_request(SERVICE, "ListUsers", b"1"),
        Code::Unimplemented,
        "No mock handler configured for user.UserService::ListUsers",
    );
    expect_error(
        client.handle_request("other.Service", "GetUser", b"1"),
        Code::Unimplemented,
        "No mock handler configured for other.Service::GetUser",
    );
}

#[test]
fn latest_static_response_wins() {
    let mut client = MockableGrpcClient::new();
    client
        .mock::<GetUserRequest, User>(SERVICE, "GetUser")
        .respond_with(MockResponseDefinition::ok(user("first")), encode_user)
        .respond_with(MockResponseDefinition::ok(user("second")), encode_user);
    client
        .mock::<GetUserRequest, User>(SERVICE, "Other")
        .respond_with(MockResponseDefinition::ok(user("third")), encode_user);
    expect_user(client.handle_request(SERVICE, "GetUser", b"1"), "second");
    expect_user(client.handle_request(SERVICE, "Other", b"1"), "third");
}

#[test]
fn conditional_responses_go_before_the_default() {
    let mut client = MockableGrpcClient::new();
    client
        .mock::<GetUserRequest, User>(SERVICE, "GetUser")
        .respond_when(
            decode_request,
            |req: &GetUserRequest| req.user_id == "admin",
            MockResponseDefinition::ok(user("Administrator")),
            encode_user,
        )
        .respond_when(
            decode_request,
            |req: &GetUserRequest| req.user_id == "guest",
            MockResponseDefinition::ok(user("Guest User")),
            encode_user,
        )
        .respond_with(MockResponseDefinition::err(not_found()), encode_user);
    expect_user(
        client.handle_request(SERVICE, "GetUser", b"admin"),
        "Administrator",
    );
    expect_user(
        client.handle_request(SERVICE, "GetUser", b"guest"),
        "Guest User",
    );
    expect_error(
        client.handle_request(SERVICE, "GetUser", b"user-7"),
        Code::NotFound,
        "User not found",
    );
}

#[test]
fn default_may_come_first() {
    let mut client = MockableGrpcClient::new();
    client
        .mock::<GetUserRequest, User>(SERVICE, "GetUser")
        .respond_with(MockResponseDefinition::err(not_found()), encode_user)
        .respond_when(
            decode_request,
            |req: &GetUserRequest| req.user_id == "user123",
            MockResponseDefinition::ok(user("User 123")),
            encode_user,
        );
    expect_user(
        client.handle_request(SERVICE, "GetUser", b"user123"),
        "User 123",
    );
    expect_error(
        client.handle_request(SERVICE, "GetUser", b"user124"),
        Code::NotFound,
        "User not found",
    );
}

#[test]
fn latest_conditional_response_wins() {
    let mut client = MockableGrpcClient::new();
    client
        .mock::<GetUserRequest, User>(SERVICE, "GetUser")
        .respond_when(
            decode_request,
            |_: &GetUserRequest| true,
            MockResponseDefinition::ok(user("first")),
            encode_user,
        )
        .respond_when(
            decode_request,
            |req: &GetUserRequest| req.user_id.len() > 3,
            MockResponseDefinition::ok(user("second")),
            encode_user,
        );
    expect_user(client.handle_request(SERVICE, "GetUser", b"long"), "second");
    expect_user(client.handle_request(SERVICE, "GetUser", b"abc"), "first");
}

#[test]
fn request_that_meets_no_condition_is_unimplemented() {
    let mut client = MockableGrpcClient::new();
    client
        .mock::<GetUserRequest, User>(SERVICE, "GetUser")
        .respond_when(
            decode_request,
            |_: &GetUserRequest| false,
            MockResponseDefinition::ok(user("nobody")),
            encode_user,
        );
    expect_error(
        client.handle_request(SERVICE, "GetUser", b"1"),
        Code::Unimplemented,
        "No mock handler configured for user.UserService::GetUser",
    );
}

#[test]
fn undecodable_request_is_refused() {
    let mut client = MockableGrpcClient::new();
    client
        .mock::<GetUserRequest, User>(SERVICE, "GetUser")
        .respond_with(MockResponseDefinition::ok(user("default")), encode_user)
        .respond_when(
            decode_request,
            |_: &GetUserRequest| true,
            MockResponseDefinition::ok(user("conditional")),
            encode_user,
        );
    expect_error(
        client.handle_request(SERVICE, "GetUser", &[0xff, 0xfe]),
        Code::InvalidArgument,
        "not text",
    );
}

#[test]
fn conditional_error_is_answered() {
    let mut client = MockableGrpcClient::new();
    client
        .mock::<GetUserRequest, User>(SERVICE, "GetUser")
        .respond_when(
            decode_request,
            |_: &GetUserRequest| true,
            MockResponseDefinition::err(MockStatus::new(
                Code::PermissionDenied,
                "no".to_string(),
            )),
            encode_user,
        );
    expect_error(
        client.handle_request(SERVICE, "GetUser", b"1"),
        Code::PermissionDenied,
        "no",
    );
}

#[test]
fn definition_without_response_and_status_is_internal_error() {
    let mut client = MockableGrpcClient::new();
    client
        .mock::<GetUserRequest, User>(SERVICE, "GetUser")
        .respond_with(MockResponseDefinition::default(), encode_user);
    expect_error(
        client.handle_request(SERVICE, "GetUser", b"1"),
        Code::Internal,
        "Invalid MockResponseDefinition: both response and status are None",
    );
}

#[test]
fn status_goes_before_response() {
    let mut definition = MockResponseDefinition::ok(user("hidden"));
    definition.status = Some(not_found());
    let mut client = MockableGrpcClient::new();
    client
        .mock::<GetUserRequest, User>(SERVICE, "GetUser")
        .respond_with(definition, encode_user);
    expect_error(
        client.handle_request(SERVICE, "GetUser", b"1"),
        Code::NotFound,
        "User not found",
    );
}

#[test]
fn every_defined_message_is_answered() {
    let status = MockStatus::new(
        Code::NotFound,
        "__TONIC_MOCK_PREDICATE_SKIP__".to_string(),
    );
    let mut client = MockableGrpcClient::new();
    client
        .mock::<GetUserRequest, User>(SERVICE, "Static")
        .respond_with(MockResponseDefinition::ok(user("older")), encode_user)
        .respond_with(MockResponseDefinition::err(status.clone()), encode_user);
    client
        .mock::<GetUserRequest, User>(SERVICE, "Conditional")
        .respond_with(MockResponseDefinition::ok(user("older")), encode_user)
        .respond_when(
            decode_request,
            |_: &GetUserRequest| true,
            MockResponseDefinition::err(status),
            encode_user,
        );
    for method in ["Static", "Conditional"] {
        expect_error(
            client.handle_request(SERVICE, method, b""),
            Code::NotFound,
            "__TONIC_MOCK_PREDICATE_SKIP__",
        );
    }
}

#[test]
fn undecodable_request_gets_a_newer_static_response() {
    let mut client = MockableGrpcClient::new();
    client
        .mock::<GetUserRequest, User>(SERVICE, "GetUser")
        .respond_with(MockResponseDefinition::ok(user("oldest")), encode_user)
        .respond_when(
            decode_request,
            |_: &GetUserRequest| true,
            MockResponseDefinition::ok(user("conditional")),
            encode_user,
        )
        .respond_with(MockResponseDefinition::ok(user("older")), encode_user)
        .respond_with(MockResponseDefinition::ok(user("newest")), encode_user);
    expect_user(client.handle_request(SERVICE, "GetUser", &[0xff]), "newest");
    expect_user(
        client.handle_request(SERVICE, "GetUser", b"text"),
        "conditional",
    );
}

#[test]
fn undecodable_request_passes_an_unmet_condition() {
    let mut client = MockableGrpcClient::new();
    client
        .mock::<GetUserRequest, User>(SERVICE, "GetUser")
        .respond_when(
            decode_request,
            |_: &GetUserRequest| true,
            MockResponseDefinition::ok(user("conditional")),
            encode_user,
        )
        .respond_with(MockResponseDefinition::ok(user("default")), encode_user)
        .respond_when(
            |_: &[u8]| Ok(GetUserRequest { user_id: String::new() }),
            |_: &GetUserRequest| false,
            MockResponseDefinition::ok(user("never")),
            encode_user,
        );
    expect_user(client.handle_request(SERVICE, "GetUser", &[0xff]), "default");
}

#[test]
fn reset_removes_all_responses() {
    let mut client = MockableGrpcClient::default();
    client
        .mock::<GetUserRequest, User>(SERVICE, "GetUser")
        .respond_with(MockResponseDefinition::ok(user("a")), encode_user)
        .respond_when(
            decode_request,
            |_: &GetUserRequest| true,
            MockResponseDefinition::ok(user("b")),
            encode_user,
        );
    client.reset();
    expect_error(
        client.handle_request(SERVICE, "GetUser", b"1"),
        Code::Unimplemented,
        "No mock handler configured for user.UserService::GetUser",
    );
    client
        .mock::<GetUserRequest, User>(SERVICE, "GetUser")
        .respond_with(MockResponseDefinition::ok(user("c")), encode_user);
    expect_user(client.handle_request(SERVICE, "GetUser", b"1"), "c");
}

#[test]
fn one_request_has_one_answer() {
    let mut client = MockableGrpcClient::new();
    client
        .mock::<GetUserRequest, User>(SERVICE, "GetUser")
        .respond_with(
            MockResponseDefinition::ok(user("same")).with_metadata("a", "b"),
            encode_user,
        );
    let first = client.handle_request(SERVICE, "GetUser", b"1");
    let second = client.handle_request(SERVICE, "GetUser", b"1");
    assert_eq!(first.0.unwrap(), second.0.unwrap());
    assert_eq!(first.1, second.1);
}

#[test]
fn error_keeps_details_and_metadata() {
    let mut status = not_found();
    status.details = vec![1, 2, 3];
    status.metadata.insert("x-reason", "gone".parse().unwrap());
    let mut client = MockableGrpcClient::new();
    client
        .mock::<GetUserRequest, User>(SERVICE, "GetUser")
        .respond_with(MockResponseDefinition::err(status), encode_user);
    for _ in 0..2 {
        let (reply, _) = client.handle_request(SERVICE, "GetUser", b"1");
        let status = reply.unwrap_err();
        assert_eq!(status.details, [1, 2, 3]);
        assert_eq!(status.metadata.len(), 1);
        assert_eq!(status.metadata.get("x-reason").unwrap(), "gone");
    }
}

#[test]
fn error_keeps_its_source() {
    let mut origin = tonic::Status::not_found("User not found");
    origin.set_source(Arc::new(std::fmt::Error));
    let mut status = not_found();
    status.source = Some(origin);
    let mut client = MockableGrpcClient::new();
    client
        .mock::<GetUserRequest, User>(SERVICE, "GetUser")
        .respond_with(MockResponseDefinition::err(status), encode_user);
    for _ in 0..2 {
        let (reply, _) = client.handle_request(SERVICE, "GetUser", b"1");
        let origin = reply.unwrap_err().source.unwrap();
        assert_eq!(origin.message(), "User not found");
        assert!(origin.source().unwrap().is::<std::fmt::Error>());
    }
    let (reply, _) = client.handle_request(SERVICE, "Other", b"1");
    assert!(reply.unwrap_err().source.is_none());
}

#[test]
fn headers_tell_the_delay_of_the_answering_handler() {
    let mut client = MockableGrpcClient::new();
    client
        .mock::<GetUserRequest, User>(SERVICE, "GetUser")
        .respond_with(
            MockResponseDefinition::ok(user("default")).with_delay(5),
            encode_user,
        )
        .respond_when(
            decode_request,
            |req: &GetUserRequest| req.user_id == "slow",
            MockResponseDefinition::ok(user("slow")).with_delay(70),
            encode_user,
        )
        .respond_when(
            decode_request,
            |_: &GetUserRequest| false,
            MockResponseDefinition::ok(user("never")).with_delay(900),
            encode_user,
        );
    for (request, delay) in [("slow", 70), ("fast", 5)] {
        let (reply, delay_ms) = client.handle_request(SERVICE, "GetUser", request.as_bytes());
        assert_eq!(delay_ms, Some(delay));
        assert_eq!(response_delay(&reply), Some(delay));
    }
}

#[test]
fn metadata_and_delay_reach_the_answer() {
    let mut client = MockableGrpcClient::new();
    client
        .mock::<GetUserRequest, User>(SERVICE, "GetUser")
        .respond_with(
            MockResponseDefinition::ok(user("Test User"))
                .with_metadata("x-request-id", "12345")
                .with_metadata("server", "test-server")
                .with_delay(200),
            encode_user,
        );
    let (reply, delay_ms) = client.handle_request(SERVICE, "GetUser", b"1");
    assert_eq!(delay_ms, Some(200));
    assert_eq!(response_delay(&reply), Some(200));
    let (_, headers) = reply.unwrap();
    assert_eq!(headers.len(), 3);
    assert_eq!(headers["x-request-id"], "12345");
    assert_eq!(headers["server"], "test-server");
    assert_eq!(headers["mock-delay-ms"], "200");
}

#[test]
fn errors_are_delayed() {
    let mut client = MockableGrpcClient::new();
    client
        .mock::<GetUserRequest, User>(SERVICE, "GetUser")
        .respond_with(
            MockResponseDefinition::err(not_found()).with_delay(200),
            encode_user,
        );
    let answer = client.handle_request(SERVICE, "GetUser", b"1");
    assert_eq!(answer.1, Some(200));
    expect_error(answer, Code::NotFound, "User not found");
}

#[test]
fn incomplete_definitions_are_delayed() {
    let mut client = MockableGrpcClient::new();
    client
        .mock::<GetUserRequest, User>(SERVICE, "GetUser")
        .respond_with(MockResponseDefinition::default().with_delay(3), encode_user);
    let answer = client.handle_request(SERVICE, "GetUser", b"1");
    assert_eq!(answer.1, Some(3));
    assert_eq!(answer.0.unwrap_err().code, Code::Internal);
}

#[test]
fn errors_without_a_delay_are_not_delayed() {
    let mut client = MockableGrpcClient::new();
    client
        .mock::<GetUserRequest, User>(SERVICE, "Plain")
        .respond_with(
            MockResponseDefinition::err(not_found()).with_metadata("mock-delay-ms", "7"),
            encode_user,
        );
    client
        .mock::<GetUserRequest, User>(SERVICE, "Zero")
        .respond_with(
            MockResponseDefinition::err(not_found()).with_delay(0),
            encode_user,
        );
    assert_eq!(client.handle_request(SERVICE, "Plain", b"1").1, None);
    assert_eq!(client.handle_request(SERVICE, "Zero", b"1").1, None);
    assert_eq!(client.handle_request(SERVICE, "Other", b"1").1, None);
}

#[test]
fn delay_header_in_the_metadata_delays() {
    let mut client = MockableGrpcClient::new();
    client
        .mock::<GetUserRequest, User>(SERVICE, "GetUser")
        .respond_with(
            MockResponseDefinition::ok(user("slow")).with_metadata("mock-delay-ms", "7"),
            encode_user,
        );
    assert_eq!(client.handle_request(SERVICE, "GetUser", b"1").1, Some(7));
}

#[test]
fn conditional_responses_are_delayed() {
    let mut client = MockableGrpcClient::new();
    client
        .mock::<GetUserRequest, User>(SERVICE, "GetUser")
        .respond_when(
            decode_request,
            |req: &GetUserRequest| req.user_id == "slow",
            MockResponseDefinition::err(not_found()).with_delay(50),
            encode_user,
        )
        .respond_with(
            MockResponseDefinition::ok(user("default")).with_delay(1),
            encode_user,
        );
    assert_eq!(client.handle_request(SERVICE, "GetUser", b"slow").1, Some(50));
    assert_eq!(client.handle_request(SERVICE, "GetUser", b"fast").1, Some(1));
}

struct UserServiceClient {
    inner: MockableGrpcClient,
}

impl GrpcClientExt<UserServiceClient> for UserServiceClient {
    fn with_mock(mock: MockableGrpcClient) -> UserServiceClient {
        UserServiceClient { inner: mock }
    }
}

#[test]
fn client_is_made_from_a_mock() {
    let mut mock = MockableGrpcClient::new();
    mock.mock::<GetUserRequest, User>(SERVICE, "GetUser")
        .respond_with(MockResponseDefinition::ok(user("Test User")), encode_user);
    let client = UserServiceClient::with_mock(mock);
    expect_user(
        client.inner.handle_request(SERVICE, "GetUser", b"1"),
        "Test User",
    );
}
