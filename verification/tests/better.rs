use std::marker::PhantomData;
use std::sync::Arc;
use tokio::sync::{RwLock, TryLockError};
use tonic::metadata::MetadataMap;
use tonic_mock::client_mock::better::{locked_status, respond_with_body, BetterMockHandler};
use tonic_mock::client_mock::{
    BetterMockBuilder, BetterMockResponseDefinition, BetterMockableGrpcClient, Code,
    MockResponseDefinition, MockStatus,
};

type Client = BetterMockableGrpcClient<String>;

fn respond(
    client: &mut Client,
    method: &str,
    response_def: BetterMockResponseDefinition<u32>,
) -> BetterMockBuilder<u8, u32> {
    builder(method)
        .respond_with(Ok(client), response_def, encode)
        .unwrap()
}

fn builder(method: &str) -> BetterMockBuilder<u8, u32> {
    BetterMockBuilder {
        service_name: "s".to_string(),
        method_name: method.to_string(),
        marker: PhantomData,
    }
}

fn lock_error() -> TryLockError {
    let lock = RwLock::new(());
    let _guard = lock.try_write().unwrap();
    let error = lock.try_read().unwrap_err();
    error
}

fn handlers_for(client: &Client, service: &str, method: &str) -> usize {
    Client::get_handlers(Ok(client), service, method).unwrap().len()
}

fn definition(
    response: Result<u32, MockStatus>,
    delay_ms: Option<u64>,
) -> BetterMockResponseDefinition<u32> {
    BetterMockResponseDefinition {
        response,
        metadata_pairs: MetadataMap::new(),
        delay_ms,
    }
}

fn encode(n: &u32, metadata: &MetadataMap) -> String {
    match metadata.get("note") {
        Some(note) => format!("body {} {}", n, note.to_str().unwrap()),
        None => format!("body {}", n),
    }
}

fn call(client: &Client, service: &str, method: &str) -> (Result<String, MockStatus>, Option<u64>) {
    Client::call(
        service,
        method,
        Client::get_handlers(Ok(client), service, method),
    )
}

#[test]
fn default_definition_is_unimplemented() {
    let definition: BetterMockResponseDefinition<u32> = BetterMockResponseDefinition::default();
    let status = definition.response.unwrap_err();
    assert_eq!(status.code, Code::Unimplemented);
    assert_eq!(status.message, "Default Mock response definition was given");
    assert!(definition.metadata_pairs.is_empty());
    assert_eq!(definition.delay_ms, None);
}

#[test]
fn clone_keeps_a_better_definition() {
    let mut original = definition(Err(MockStatus::internal("x".to_string())), Some(3));
    original.metadata_pairs.insert("k", "v".parse().unwrap());
    let copy = original.clone();
    assert_eq!(copy.response.unwrap_err().message, "x");
    assert_eq!(copy.metadata_pairs.get("k").unwrap(), "v");
    assert_eq!(copy.delay_ms, Some(3));
    assert_eq!(definition(Ok(4), None).clone().response.unwrap(), 4);
}

#[test]
fn empty_client_is_unimplemented() {
    let client = Client::new();
    let (reply, delay) = call(&client, "s", "m");
    let status = reply.unwrap_err();
    assert_eq!(status.code, Code::Unimplemented);
    assert_eq!(status.message, "No mock handler configured for s::m");
    assert_eq!(delay, None);
}

#[test]
fn body_is_answered_after_its_delay() {
    let mut client = Client::default();
    respond(&mut client, "m", definition(Ok(5), Some(0)));
    let (reply, delay) = call(&client, "s", "m");
    assert_eq!(reply.unwrap(), "body 5");
    assert_eq!(delay, Some(0));
    let (reply, _) = call(&client, "s", "n");
    assert_eq!(
        reply.unwrap_err().message,
        "No mock handler configured for s::n"
    );
}

#[test]
fn body_errors_are_delayed() {
    let mut client = Client::new();
    respond(
        &mut client,
        "m",
        definition(
            Err(MockStatus::new(Code::NotFound, "gone".to_string())),
            Some(9),
        ),
    );
    let (reply, delay) = call(&client, "s", "m");
    let status = reply.unwrap_err();
    assert_eq!(status.code, Code::NotFound);
    assert_eq!(status.message, "gone");
    assert_eq!(delay, Some(9));
}

#[test]
fn newest_body_handler_is_asked_first() {
    let mut client = Client::new();
    respond(&mut client, "m", definition(Ok(1), Some(1)))
        .respond_with(Ok(&mut client), definition(Ok(2), Some(2)), encode)
        .unwrap();
    respond(&mut client, "n", definition(Ok(3), Some(3)));
    assert_eq!(handlers_for(&client, "s", "m"), 2);
    assert_eq!(handlers_for(&client, "s", "n"), 1);
    assert_eq!(handlers_for(&client, "t", "m"), 0);
    let (reply, delay) = call(&client, "s", "m");
    assert_eq!(reply.unwrap(), "body 2");
    assert_eq!(delay, Some(2));
}

#[test]
fn every_defined_body_message_is_answered() {
    let status = MockStatus::new(
        Code::NotFound,
        "__TONIC_MOCK_PREDICATE_SKIP__".to_string(),
    );
    let mut client = Client::new();
    respond(&mut client, "m", definition(Ok(1), Some(1)));
    respond(&mut client, "m", definition(Err(status), Some(2)));
    let (reply, delay) = call(&client, "s", "m");
    let status = reply.unwrap_err();
    assert_eq!(status.code, Code::NotFound);
    assert_eq!(status.message, "__TONIC_MOCK_PREDICATE_SKIP__");
    assert_eq!(delay, Some(2));
}

#[test]
fn metadata_reaches_the_body() {
    let mut response_def = definition(Ok(6), None);
    response_def
        .metadata_pairs
        .insert("note", "by hand".parse().unwrap());
    let mut client = Client::new();
    respond(&mut client, "m", response_def);
    assert_eq!(call(&client, "s", "m").0.unwrap(), "body 6 by hand");
}

#[test]
fn one_body_is_answered_every_time() {
    let mut client = Client::new();
    respond(&mut client, "m", definition(Ok(1), Some(4)));
    for _ in 0..2 {
        let (reply, delay) = call(&client, "s", "m");
        assert_eq!(reply.unwrap(), "body 1");
        assert_eq!(delay, Some(4));
    }
}

#[test]
fn better_reset_removes_all_handlers() {
    let mut client = Client::new();
    respond(&mut client, "m", definition(Ok(1), None));
    assert!(Client::reset(Ok(&mut client)).is_ok());
    assert_eq!(handlers_for(&client, "s", "m"), 0);
}

#[test]
fn locked_client_stays_as_it_is() {
    let mut client = Client::new();
    respond(&mut client, "m", definition(Ok(1), None));
    assert!(Client::reset(Err(lock_error())).is_err());
    let result = builder("m").respond_with(
        Err::<&mut Client, TryLockError>(lock_error()),
        definition(Ok(2), None),
        encode,
    );
    assert!(result.is_err());
    assert!(Client::get_handlers(Err(lock_error()), "s", "m").is_err());
    assert_eq!(handlers_for(&client, "s", "m"), 1);
    assert_eq!(call(&client, "s", "m").0.unwrap(), "body 1");
}

#[test]
fn registered_handler_is_found_first() {
    let mut client = Client::new();
    respond(&mut client, "m", definition(Ok(1), None));
    let handler = BetterMockHandler::new(
        "s".to_string(),
        "m".to_string(),
        definition(Ok(2), None),
        encode,
    );
    let kept = Client::register_handler(Ok(&mut client), handler).unwrap();
    let found = Client::get_handlers(Ok(&client), "s", "m").unwrap();
    assert_eq!(found.len(), 2);
    assert!(Arc::ptr_eq(&found[0], &kept));
    assert_eq!(handlers_for(&client, "s", "n"), 0);

    let handler = BetterMockHandler::new(
        "s".to_string(),
        "m".to_string(),
        definition(Ok(3), None),
        encode,
    );
    assert!(Client::register_handler(Err(lock_error()), handler).is_err());
    assert_eq!(handlers_for(&client, "s", "m"), 2);
}

#[test]
fn handlers_outlive_a_reset() {
    let mut client = Client::new();
    respond(&mut client, "m", definition(Ok(1), None));
    let matching = Client::get_handlers(Ok(&client), "s", "m");
    Client::reset(Ok(&mut client)).unwrap();
    let (reply, _) = Client::call("s", "m", matching);
    assert_eq!(reply.unwrap(), "body 1");
}

#[test]
fn conditional_body_changes_nothing() {
    let mut client = Client::new();
    let builder = respond(&mut client, "m", definition(Ok(1), None))
        .respond_when(|_: &u8| true, MockResponseDefinition::ok(2));
    assert_eq!(builder.service_name, "s");
    assert_eq!(builder.method_name, "m");
    assert_eq!(handlers_for(&client, "s", "m"), 1);
    assert_eq!(call(&client, "s", "m").0.unwrap(), "body 1");
}

#[test]
fn locked_handlers_are_an_internal_error() {
    let error = lock_error();
    let expected = format!("Could not acquire read lock: {:#?}", error);
    let (reply, delay) = Client::call("s", "m", Err(error));
    let status = reply.unwrap_err();
    assert_eq!(status.code, Code::Internal);
    assert_eq!(status.message, expected);
    assert!(status.message.contains("TryLockError"));
    assert_eq!(delay, None);
}

#[test]
fn locked_status_names_the_error() {
    let status = locked_status("held");
    assert_eq!(status.code, Code::Internal);
    assert_eq!(status.message, "Could not acquire read lock: held");
}

#[test]
fn respond_with_body_encodes_responses_only() {
    let metadata = MetadataMap::new();
    assert_eq!(
        respond_with_body(&Ok(3), &metadata, &encode).unwrap(),
        "body 3"
    );
    let error: Result<u32, MockStatus> = Err(MockStatus::internal("x".to_string()));
    let status = respond_with_body(&error, &metadata, &encode).unwrap_err();
    assert_eq!(status.message, "x");
}
