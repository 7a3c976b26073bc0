//! A mock client that works below the encoding of messages: its handlers answer with whole
//! response bodies.

use super::dispatch::no_handler_status;
use super::response::MockResponseDefinition;
use super::status::{copy_metadata, empty_metadata, MockStatus};
use core::marker::PhantomData;
use std::sync::Arc;
use tokio::sync::TryLockError;
use tonic::metadata::MetadataMap;
use vstd::prelude::*;
use vstd::string::StringExecFns;

verus! {

use super::dispatch::no_handler_message;
use super::status::{metadata_contents, no_metadata, plain_status, Code, StatusView};

/// `tokio::sync::TryLockError`, the error of a lock that is held by somebody else.
#[verifier::external_type_specification]
#[verifier::external_body]
pub struct ExTryLockError(tokio::sync::TryLockError);

/// A lock error as text: what `{:#?}` makes of it.
pub uninterp spec fn shown_lock_error(error: TryLockError) -> Seq<char>;

/// Formats a `TryLockError` with its `Debug` impl, as `{:#?}`. The impl is derived and reads
/// nothing but the error, so the text is a function of the error. What the text is, the
/// standard library does not promise.
#[verifier::external_body]
pub(crate) fn show_lock_error(error: &TryLockError) -> (text: String)
    ensures
        text@ == shown_lock_error(*error),
{
    format!("{error:#?}")
}

/// The status for a client whose handlers are locked, given the lock error as text.
pub open spec fn locked_status_view(error_text: Seq<char>) -> StatusView {
    plain_status(Code::Internal, "Could not acquire read lock: "@ + error_text)
}

/// The status for a client whose handlers are locked, given the lock error as text.
pub fn locked_status(error_text: &str) -> (status: MockStatus)
    ensures
        status@ == locked_status_view(error_text@),
        status.code == Code::Internal,
        status.message@ == "Could not acquire read lock: "@ + error_text@,
        status.details@.len() == 0,
        status.source is None,
{
    let mut message = "Could not acquire read lock: ".to_string();
    message.append(error_text);
    MockStatus::internal(message)
}

/// What a handler answers: a response body, or an error status.
pub type BodyReplyView<B> = Result<B, StatusView>;

/// What an answer says.
pub open spec fn body_reply_view<B>(reply: Result<B, MockStatus>) -> BodyReplyView<B> {
    match reply {
        Ok(body) => Ok(body),
        Err(status) => Err(status@),
    }
}

/// What comes of handing a request to a handler: an answer, or nothing if the handler passes
/// the request on.
pub open spec fn body_outcome_view<B>(outcome: Option<Result<B, MockStatus>>) -> Option<
    BodyReplyView<B>,
> {
    match outcome {
        Some(reply) => Some(body_reply_view(reply)),
        None => None,
    }
}

/// Predefined response for a mock gRPC service
#[derive(Debug)]
pub struct BetterMockResponseDefinition<Resp> {
    /// Response or Status to return
    pub response: Result<Resp, MockStatus>,
    /// Additional metadata as key-value pairs
    pub metadata_pairs: MetadataMap,
    /// Delay before responding (simulates network latency)
    pub delay_ms: Option<u64>,
}

impl<Resp: Clone> Clone for BetterMockResponseDefinition<Resp> {
    fn clone(&self) -> (copy: Self)
        ensures
            match self.response {
                Ok(response) => copy.response is Ok && cloned(response, copy.response->Ok_0),
                Err(status) => copy.response is Err && copy.response->Err_0@ == status@,
            },
            metadata_contents(copy.metadata_pairs) == metadata_contents(self.metadata_pairs),
            copy.delay_ms == self.delay_ms,
    {
        BetterMockResponseDefinition {
            response: match &self.response {
                Ok(response) => Ok(response.clone()),
                Err(status) => Err(status.clone()),
            },
            metadata_pairs: copy_metadata(&self.metadata_pairs),
            delay_ms: self.delay_ms,
        }
    }
}

impl<Resp> Default for BetterMockResponseDefinition<Resp> {
    fn default() -> (definition: Self)
        ensures
            definition.response is Err,
            definition.response->Err_0.code == Code::Unimplemented,
            definition.response->Err_0.message@ == "Default Mock response definition was given"@,
            definition.response->Err_0@ == plain_status(
                Code::Unimplemented,
                "Default Mock response definition was given"@,
            ),
            metadata_contents(definition.metadata_pairs) == no_metadata(),
            definition.delay_ms is None,
    {
        BetterMockResponseDefinition {
            response: Err(
                MockStatus::unimplemented("Default Mock response definition was given".to_string()),
            ),
            metadata_pairs: empty_metadata(),
            delay_ms: None,
        }
    }
}

/// When a response can be made from its definition: where it is a success, it can be encoded
/// with its metadata.
pub open spec fn body_ready<Resp, B, E: Fn(&Resp, &MetadataMap) -> B>(
    response: Result<Resp, MockStatus>,
    metadata: MetadataMap,
    encode: E,
) -> bool {
    response matches Ok(message) ==> call_requires(encode, (&message, &metadata))
}

/// The answers that a defined response stands for: the message, encoded with the metadata, or
/// the status.
pub open spec fn body_admits<Resp, B, E: Fn(&Resp, &MetadataMap) -> B>(
    response: Result<Resp, MockStatus>,
    metadata: MetadataMap,
    encode: E,
    reply: BodyReplyView<B>,
) -> bool {
    match response {
        Ok(message) => reply is Ok && call_ensures(encode, (&message, &metadata), reply->Ok_0),
        Err(status) => reply == BodyReplyView::<B>::Err(status@),
    }
}

/// Answers with a defined response. `encode` turns the response and its metadata into a body.
pub fn respond_with_body<Resp, B, E: Fn(&Resp, &MetadataMap) -> B>(
    response: &Result<Resp, MockStatus>,
    metadata: &MetadataMap,
    encode: &E,
) -> (reply: Result<B, MockStatus>)
    requires
        body_ready(*response, *metadata, *encode),
    ensures
        body_admits(*response, *metadata, *encode, body_reply_view(reply)),
{
    match response {
        Err(status) => Err(status.clone()),
        Ok(message) => Ok(encode(message, metadata)),
    }
}

/// Something that answers requests with a body.
trait BodyResponder<B>: Send + Sync {
    /// Whether requests can be handled.
    spec fn ready(&self, metadata: MetadataMap) -> bool;

    /// Whether the given outcome may come of a request.
    spec fn admits(&self, metadata: MetadataMap, outcome: Option<BodyReplyView<B>>) -> bool;

    /// Answers a request, or passes it on. A response carries the metadata.
    fn call(&self, metadata: &MetadataMap) -> (outcome: Option<Result<B, MockStatus>>)
        requires
            self.ready(*metadata),
        ensures
            self.admits(*metadata, body_outcome_view(outcome)),
    ;
}

/// Answers every request in the same way.
struct StaticBodyResponder<Resp, E> {
    response: Result<Resp, MockStatus>,
    encode: E,
}

impl<Resp: Send + Sync, B, E: Fn(&Resp, &MetadataMap) -> B + Send + Sync> BodyResponder<
    B,
> for StaticBodyResponder<Resp, E> {
    closed spec fn ready(&self, metadata: MetadataMap) -> bool {
        body_ready(self.response, metadata, self.encode)
    }

    closed spec fn admits(
        &self,
        metadata: MetadataMap,
        outcome: Option<BodyReplyView<B>>,
    ) -> bool {
        outcome is Some && body_admits(self.response, metadata, self.encode, outcome->0)
    }

    fn call(&self, metadata: &MetadataMap) -> (outcome: Option<Result<B, MockStatus>>) {
        Some(respond_with_body(&self.response, metadata, &self.encode))
    }
}

/// A handler for one method of a service.
#[verifier::reject_recursive_types(B)]
pub struct BetterMockHandler<B> {
    service_name: String,
    method_name: String,
    /// Additional metadata as key-value pairs
    metadata: MetadataMap,
    /// Delay in ms before responding (simulates network latency)
    delay: Option<u64>,
    inner: Box<dyn BodyResponder<B>>,
}

impl<B> BetterMockHandler<B> {
    /// Whether the handler is one for the given method.
    pub closed spec fn handles(&self, service: Seq<char>, method: Seq<char>) -> bool {
        self.service_name@ == service && self.method_name@ == method
    }

    /// The delay before an answer of the handler.
    pub closed spec fn delay(&self) -> Option<u64> {
        self.delay
    }

    /// Whether the handler can handle requests.
    pub closed spec fn ready(&self) -> bool {
        self.inner.ready(self.metadata)
    }

    /// Whether the given outcome may come of handing a request to the handler: an answer, or
    /// nothing if the handler passes the request on.
    pub closed spec fn admits(&self, outcome: Option<BodyReplyView<B>>) -> bool {
        self.inner.admits(self.metadata, outcome)
    }

    /// A handler that answers every request for a method as a definition says
    pub fn new<
        Resp: Send + Sync + 'static,
        E: Fn(&Resp, &MetadataMap) -> B + Send + Sync + 'static,
    >(
        service_name: String,
        method_name: String,
        definition: BetterMockResponseDefinition<Resp>,
        encode: E,
    ) -> (handler: Self)
        ensures
            answers_with_body(handler, service_name@, method_name@, definition, encode),
    {
        let inner = StaticBodyResponder { response: definition.response, encode };
        BetterMockHandler {
            service_name,
            method_name,
            metadata: definition.metadata_pairs,
            delay: definition.delay_ms,
            inner: Box::new(inner),
        }
    }
}

/// Whether a handler answers every request for a method, and no other, as a definition says:
/// a response is encoded with the metadata of the definition. Such a handler passes nothing on.
pub open spec fn answers_with_body<Resp, B, E: Fn(&Resp, &MetadataMap) -> B>(
    handler: BetterMockHandler<B>,
    service: Seq<char>,
    method: Seq<char>,
    definition: BetterMockResponseDefinition<Resp>,
    encode: E,
) -> bool {
    &&& forall|s: Seq<char>, m: Seq<char>| #[trigger]
        handler.handles(s, m) <==> (s == service && m == method)
    &&& handler.delay() == definition.delay_ms
    &&& handler.ready() <==> body_ready(definition.response, definition.metadata_pairs, encode)
    &&& forall|outcome: Option<BodyReplyView<B>>| #[trigger]
        handler.admits(outcome) <==> (outcome is Some && body_admits(
            definition.response,
            definition.metadata_pairs,
            encode,
            outcome->0,
        ))
}

/// Those of some handlers, the newest of them last, that are for a method, the newest first.
pub open spec fn matching_handlers<B>(
    handlers: Seq<Arc<BetterMockHandler<B>>>,
    service: Seq<char>,
    method: Seq<char>,
) -> Seq<Arc<BetterMockHandler<B>>> {
    handlers.filter(|handler: Arc<BetterMockHandler<B>>| handler.handles(service, method)).reverse()
}

/// Of some handlers, the newest is found first if it is for the method.
proof fn lemma_newest_is_found_first<B>(
    handlers: Seq<Arc<BetterMockHandler<B>>>,
    service: Seq<char>,
    method: Seq<char>,
)
    ensures
        matching_handlers(handlers, service, method) == if handlers.len() == 0 {
            Seq::empty()
        } else if handlers.last().handles(service, method) {
            seq![handlers.last()] + matching_handlers(handlers.drop_last(), service, method)
        } else {
            matching_handlers(handlers.drop_last(), service, method)
        },
{
    reveal(Seq::filter);
    if handlers.len() > 0 && handlers.last().handles(service, method) {
        assert(matching_handlers(handlers, service, method) =~= seq![handlers.last()]
            + matching_handlers(handlers.drop_last(), service, method));
    }
}

/// Whether the handlers for a method, the newest first, can answer a request. The first has to
/// be able to; another has to only if all before it may pass the request on.
pub open spec fn call_ready<B>(matching: Seq<Arc<BetterMockHandler<B>>>) -> bool
    decreases matching.len(),
{
    if matching.len() == 0 {
        true
    } else {
        &&& matching[0].ready()
        &&& matching[0].admits(None) ==> call_ready(matching.drop_first())
    }
}

/// The answers that the handlers for a method, the newest first, may give, each with the time
/// to wait before it. The first that does not pass the request on gives the answer and the
/// delay, be it a response or an error.
pub open spec fn call_admits<B>(
    matching: Seq<Arc<BetterMockHandler<B>>>,
    service: Seq<char>,
    method: Seq<char>,
    reply: BodyReplyView<B>,
    delay_ms: Option<u64>,
) -> bool
    decreases matching.len(),
{
    if matching.len() == 0 {
        &&& reply == no_handler_body::<B>(service, method)
        &&& delay_ms is None
    } else {
        ||| matching[0].admits(Some(reply)) && delay_ms == matching[0].delay()
        ||| matching[0].admits(None) && call_admits(
            matching.drop_first(),
            service,
            method,
            reply,
            delay_ms,
        )
    }
}

/// The answer to a request that nothing answers for.
pub open spec fn no_handler_body<B>(service: Seq<char>, method: Seq<char>) -> BodyReplyView<B> {
    Err(plain_status(Code::Unimplemented, no_handler_message(service, method)))
}

/// A mockable gRPC client whose handlers answer with bodies of the type `B`
#[verifier::reject_recursive_types(B)]
pub struct BetterMockableGrpcClient<B> {
    handlers: Vec<Arc<BetterMockHandler<B>>>,
}

impl<B> View for BetterMockableGrpcClient<B> {
    type V = Seq<Arc<BetterMockHandler<B>>>;

    /// The handlers of the client, in the order in which they were added.
    closed spec fn view(&self) -> Seq<Arc<BetterMockHandler<B>>> {
        self.handlers@
    }
}

impl<B> Default for BetterMockableGrpcClient<B> {
    fn default() -> (client: Self)
        ensures
            client@ == Seq::<Arc<BetterMockHandler<B>>>::empty(),
    {
        BetterMockableGrpcClient { handlers: Vec::new() }
    }
}

impl<B> BetterMockableGrpcClient<B> {
    /// Create a new client without handlers
    pub fn new() -> (client: Self)
        ensures
            client@ == Seq::<Arc<BetterMockHandler<B>>>::empty(),
    {
        Self::default()
    }

    /// Remove all handlers
    ///
    /// # Arguments
    /// * `lock` - The client, or the error if somebody else held the lock on it. Nothing of the
    ///   client is reached without the lock, so its handlers stay as they are then
    pub fn reset(lock: Result<&mut Self, TryLockError>) -> (result: Result<(), TryLockError>)
        ensures
            match lock {
                Ok(client) => result is Ok && final(client)@ == Seq::<
                    Arc<BetterMockHandler<B>>,
                >::empty(),
                Err(error) => result == Err::<(), TryLockError>(error),
            },
    {
        match lock {
            Ok(client) => {
                client.handlers.clear();
                Ok(())
            },
            Err(error) => Err(error),
        }
    }

    /// Find the handlers for a method, the newest first
    ///
    /// # Arguments
    /// * `lock` - The client, or the error if somebody else held the lock on it
    /// * `service_name` - The name of the gRPC service
    /// * `method_name` - The name of the method being called
    pub fn get_handlers(
        lock: Result<&Self, TryLockError>,
        service_name: &str,
        method_name: &str,
    ) -> (result: Result<Vec<Arc<BetterMockHandler<B>>>, TryLockError>)
        ensures
            match lock {
                Ok(client) => result is Ok && result->Ok_0@ == matching_handlers(
                    client@,
                    service_name@,
                    method_name@,
                ),
                Err(error) => result == Err::<Vec<Arc<BetterMockHandler<B>>>, TryLockError>(error),
            },
    {
        let client = match lock {
            Ok(client) => client,
            Err(error) => return Err(error),
        };
        let service = service_name.to_string();
        let method = method_name.to_string();
        let ghost all = client@;
        let mut matching: Vec<Arc<BetterMockHandler<B>>> = Vec::new();
        let mut i: usize = client.handlers.len();
        assert(all.take(i as int) =~= all);
        assert(matching@ + matching_handlers(all, service_name@, method_name@)
            =~= matching_handlers(all, service_name@, method_name@));
        while i > 0
            invariant
                i <= client.handlers@.len(),
                all == client.handlers@,
                service@ == service_name@,
                method@ == method_name@,
                matching@ + matching_handlers(all.take(i as int), service_name@, method_name@)
                    == matching_handlers(all, service_name@, method_name@),
            decreases i,
        {
            let ghost seen = all.take(i as int);
            let ghost found = matching@;
            i = i - 1;
            let handler = &client.handlers[i];
            assert(seen.last() == handler);
            assert(seen.drop_last() =~= all.take(i as int));
            proof {
                lemma_newest_is_found_first(seen, service_name@, method_name@);
            }
            if handler.service_name == service && handler.method_name == method {
                matching.push(handler.clone());
                assert(matching@ + matching_handlers(
                    seen.drop_last(),
                    service_name@,
                    method_name@,
                ) =~= found + matching_handlers(seen, service_name@, method_name@));
            }
        }
        proof {
            lemma_newest_is_found_first(all.take(0), service_name@, method_name@);
            assert(matching@ + matching_handlers(all.take(0), service_name@, method_name@)
                =~= matching@);
        }
        Ok(matching)
    }

    /// Register a handler for a specific service and method
    ///
    /// # Arguments
    /// * `lock` - The client, or the error if somebody else held the lock on it. Nothing of the
    ///   client is reached without the lock, so its handlers stay as they are then
    /// * `handler` - The handler, which becomes the newest one
    ///
    /// # Returns
    /// The handler as the client keeps it
    pub fn register_handler(
        lock: Result<&mut Self, TryLockError>,
        handler: BetterMockHandler<B>,
    ) -> (result: Result<Arc<BetterMockHandler<B>>, TryLockError>)
        ensures
            match lock {
                Ok(client) => {
                    &&& result is Ok
                    &&& *result->Ok_0 == handler
                    &&& final(client)@ == client@.push(result->Ok_0)
                },
                Err(error) => result == Err::<Arc<BetterMockHandler<B>>, TryLockError>(error),
            },
    {
        match lock {
            Ok(client) => {
                let handler_ref = Arc::new(handler);
                client.handlers.push(handler_ref.clone());
                Ok(handler_ref)
            },
            Err(error) => Err(error),
        }
    }

    /// Answer a request with the handlers that were found for its method
    ///
    /// # Arguments
    /// * `service_name` - The name of the gRPC service
    /// * `method_name` - The name of the method being called
    /// * `matching_handlers` - The handlers for the method, the newest first, or the error if
    ///   they could not be looked up because somebody else held the lock
    ///
    /// # Returns
    /// The response body or an error status, and the time to wait before it is handed over
    pub fn call(
        service_name: &str,
        method_name: &str,
        matching_handlers: Result<Vec<Arc<BetterMockHandler<B>>>, TryLockError>,
    ) -> (outcome: (Result<B, MockStatus>, Option<u64>))
        requires
            matching_handlers matches Ok(matching) ==> call_ready(matching@),
        ensures
            match matching_handlers {
                Ok(matching) => call_admits(
                    matching@,
                    service_name@,
                    method_name@,
                    body_reply_view(outcome.0),
                    outcome.1,
                ),
                Err(error) => {
                    &&& body_reply_view(outcome.0) == BodyReplyView::<B>::Err(
                        locked_status_view(shown_lock_error(error)),
                    )
                    &&& outcome.1 is None
                },
            },
    {
        let matching = match matching_handlers {
            Ok(matching) => matching,
            Err(error) => {
                let error_text = show_lock_error(&error);
                return (Err(locked_status(error_text.as_str())), None);
            },
        };
        let ghost all = matching@;
        let mut i: usize = 0;
        assert(all.skip(0) =~= all);
        while i < matching.len()
            invariant
                i <= matching@.len(),
                all == matching@,
                matching_handlers is Ok && matching_handlers->Ok_0@ == all,
                call_ready(all.skip(i as int)),
                forall|reply: BodyReplyView<B>, delay_ms: Option<u64>| #[trigger]
                    call_admits(
                        all.skip(i as int),
                        service_name@,
                        method_name@,
                        reply,
                        delay_ms,
                    ) ==> call_admits(all, service_name@, method_name@, reply, delay_ms),
            decreases matching.len() - i,
        {
            let ghost rest = all.skip(i as int);
            let handler = &matching[i];
            i = i + 1;
            assert(rest[0] == handler);
            assert(rest.drop_first() =~= all.skip(i as int));
            if let Some(reply) = handler.inner.call(&handler.metadata) {
                assert(call_admits(
                    rest,
                    service_name@,
                    method_name@,
                    body_reply_view(reply),
                    handler.delay(),
                ));
                return (reply, handler.delay);
            }
            // The handler has passed the request on
            assert(handler.admits(None));
            assert forall|reply: BodyReplyView<B>, delay_ms: Option<u64>| #[trigger]
                call_admits(
                    all.skip(i as int),
                    service_name@,
                    method_name@,
                    reply,
                    delay_ms,
                ) implies call_admits(all, service_name@, method_name@, reply, delay_ms) by {
                assert(call_admits(rest, service_name@, method_name@, reply, delay_ms));
            }
        }
        let status = no_handler_status(service_name, method_name);
        assert(call_admits(
            all.skip(i as int),
            service_name@,
            method_name@,
            BodyReplyView::<B>::Err(status@),
            None,
        ));
        (Err(status), None)
    }
}

/// Builder for configuring mock responses
pub struct BetterMockBuilder<Req, Resp> {
    /// The service whose method is mocked
    pub service_name: String,
    /// The method that is mocked
    pub method_name: String,
    /// The types of the messages
    pub marker: PhantomData<(Req, Resp)>,
}

impl<Req, Resp> BetterMockBuilder<Req, Resp> {
    /// Configure a static response for any request
    ///
    /// # Arguments
    /// * `lock` - The client that is configured, or the error if somebody else held the lock on
    ///   it. Nothing of the client is reached without the lock
    /// * `response_def` - The mock response definition
    /// * `encode` - Turns a response and its metadata into a body
    pub fn respond_with<B, E>(
        self,
        lock: Result<&mut BetterMockableGrpcClient<B>, TryLockError>,
        response_def: BetterMockResponseDefinition<Resp>,
        encode: E,
    ) -> (result: Result<Self, TryLockError>) where
        Resp: Send + Sync + 'static,
        E: Fn(&Resp, &MetadataMap) -> B + Send + Sync + 'static,

        ensures
            match lock {
                Ok(client) => {
                    &&& result is Ok
                    &&& result->Ok_0.service_name@ == self.service_name@
                    &&& result->Ok_0.method_name@ == self.method_name@
                    &&& final(client)@ == client@.push(final(client)@.last())
                    &&& answers_with_body(
                        *final(client)@.last(),
                        self.service_name@,
                        self.method_name@,
                        response_def,
                        encode,
                    )
                },
                Err(error) => result == Err::<Self, TryLockError>(error),
            },
    {
        let handler = BetterMockHandler::new(
            self.service_name.clone(),
            self.method_name.clone(),
            response_def,
            encode,
        );
        match BetterMockableGrpcClient::register_handler(lock, handler) {
            Ok(_) => Ok(self),
            Err(error) => Err(error),
        }
    }

    /// Takes a conditional response, which is not configured yet: no client is changed
    pub fn respond_when<F>(
        self,
        _predicate: F,
        _response_def: MockResponseDefinition<Resp>,
    ) -> (builder: Self) where F: Fn(&Req) -> bool
        ensures
            builder == self,
    {
        self
    }
}

/// A method that no handler is for is answered with the status "unimplemented", which names
/// the service and the method, and without a delay. So is every method of a client that was
/// reset.
pub proof fn law_body_unmocked_method<B>(
    handlers: Seq<Arc<BetterMockHandler<B>>>,
    service: Seq<char>,
    method: Seq<char>,
    reply: BodyReplyView<B>,
    delay_ms: Option<u64>,
)
    requires
        forall|i: int|
            0 <= i < handlers.len() ==> !(#[trigger] handlers[i]).handles(service, method),
    ensures
        call_ready(matching_handlers(handlers, service, method)),
        call_admits(
            matching_handlers(handlers, service, method),
            service,
            method,
            reply,
            delay_ms,
        ) <==> reply == no_handler_body::<B>(service, method) && delay_ms is None,
        call_admits(
            matching_handlers(handlers, service, method),
            service,
            method,
            reply,
            delay_ms,
        ) ==> reply is Err && reply->Err_0.code == Code::Unimplemented && reply->Err_0.message
            == "No mock handler configured for "@ + service + "::"@ + method
            && reply->Err_0.details.len() == 0 && reply->Err_0.metadata == Map::<
            Seq<char>,
            Seq<Seq<u8>>,
        >::empty() && reply->Err_0.source is None && delay_ms is None,
    decreases handlers.len(),
{
    lemma_newest_is_found_first(handlers, service, method);
    if handlers.len() > 0 {
        let older = handlers.drop_last();
        assert forall|i: int| 0 <= i < older.len() implies !(#[trigger] older[i]).handles(
            service,
            method,
        ) by {
            assert(older[i] == handlers[i]);
        }
        assert(handlers.last() == handlers[handlers.len() - 1]);
        law_body_unmocked_method(older, service, method, reply, delay_ms);
    }
}

/// A new handler is the first to be asked for its method, and is not asked for any other.
pub proof fn law_new_handler_is_asked_first<B>(
    handlers: Seq<Arc<BetterMockHandler<B>>>,
    handler: Arc<BetterMockHandler<B>>,
    service: Seq<char>,
    method: Seq<char>,
)
    ensures
        matching_handlers(handlers.push(handler), service, method) == if handler.handles(
            service,
            method,
        ) {
            seq![handler] + matching_handlers(handlers, service, method)
        } else {
            matching_handlers(handlers, service, method)
        },
{
    lemma_newest_is_found_first(handlers.push(handler), service, method);
    assert(handlers.push(handler).drop_last() =~= handlers);
}

/// A defined response is the answer to every request for its method, after the defined delay,
/// until another handler for the method is added. A message is encoded with the defined
/// metadata. An error is delayed like a response.
pub proof fn law_body_response_answers<Resp, B, E: Fn(&Resp, &MetadataMap) -> B>(
    handlers: Seq<Arc<BetterMockHandler<B>>>,
    handler: Arc<BetterMockHandler<B>>,
    service: Seq<char>,
    method: Seq<char>,
    definition: BetterMockResponseDefinition<Resp>,
    encode: E,
    reply: BodyReplyView<B>,
    delay_ms: Option<u64>,
)
    requires
        answers_with_body(*handler, service, method, definition, encode),
    ensures
        call_ready(matching_handlers(handlers.push(handler), service, method)) <==> body_ready(
            definition.response,
            definition.metadata_pairs,
            encode,
        ),
        call_admits(
            matching_handlers(handlers.push(handler), service, method),
            service,
            method,
            reply,
            delay_ms,
        ) <==> body_admits(definition.response, definition.metadata_pairs, encode, reply)
            && delay_ms == definition.delay_ms,
{
    law_new_handler_is_asked_first(handlers, handler, service, method);
    let matching = matching_handlers(handlers.push(handler), service, method);
    assert(handler.handles(service, method));
    assert(matching[0] == handler);
    assert(!handler.admits(None));
    assert(handler.admits(Some(reply)) <==> body_admits(
        definition.response,
        definition.metadata_pairs,
        encode,
        reply,
    ));
}

/// The view of an answer keeps the body, or the status.
pub proof fn law_body_reply_view_keeps_all<B>(reply: Result<B, MockStatus>)
    ensures
        reply is Ok <==> body_reply_view(reply) is Ok,
        reply matches Ok(body) ==> body_reply_view(reply)->Ok_0 == body,
        reply matches Err(status) ==> body_reply_view(reply)->Err_0 == status@,
{
}

/// A handler that was made from a definition is one for its own method only.
pub proof fn law_body_handler_is_for_its_method<Resp, B, E: Fn(&Resp, &MetadataMap) -> B>(
    handler: BetterMockHandler<B>,
    service: Seq<char>,
    method: Seq<char>,
    definition: BetterMockResponseDefinition<Resp>,
    encode: E,
    other_service: Seq<char>,
    other_method: Seq<char>,
)
    requires
        answers_with_body(handler, service, method, definition, encode),
    ensures
        handler.handles(other_service, other_method) <==> other_service == service
            && other_method == method,
{
}

/// Among no handlers, none is found.
pub proof fn law_no_handlers_to_find<B>(service: Seq<char>, method: Seq<char>)
    ensures
        matching_handlers(Seq::<Arc<BetterMockHandler<B>>>::empty(), service, method).len() == 0,
{
    lemma_newest_is_found_first(Seq::<Arc<BetterMockHandler<B>>>::empty(), service, method);
}

/// A defined status is the answer as it is: its code, message, details, metadata and source,
/// whatever the code is.
pub proof fn law_defined_body_status_is_answered<Resp, B, E: Fn(&Resp, &MetadataMap) -> B>(
    response: Result<Resp, MockStatus>,
    metadata: MetadataMap,
    encode: E,
    reply: BodyReplyView<B>,
    status: MockStatus,
)
    requires
        body_admits(response, metadata, encode, reply),
        response == Err::<Resp, MockStatus>(status),
    ensures
        reply == BodyReplyView::<B>::Err(status@),
        reply->Err_0.code == status.code,
        reply->Err_0.message == status.message@,
        reply->Err_0.details == status.details@,
        reply->Err_0.metadata == metadata_contents(status.metadata),
        reply->Err_0.source == status.source,
{
}

/// A defined message is answered with success, with a result of encoding it with its metadata.
pub proof fn law_defined_body_message_is_answered<Resp, B, E: Fn(&Resp, &MetadataMap) -> B>(
    response: Result<Resp, MockStatus>,
    metadata: MetadataMap,
    encode: E,
    reply: BodyReplyView<B>,
    message: Resp,
)
    requires
        body_admits(response, metadata, encode, reply),
        response == Ok::<Resp, MockStatus>(message),
    ensures
        reply is Ok,
        call_ensures(encode, (&message, &metadata), reply->Ok_0),
{
}

/// Where no handler was found for a method, every reply is the status "unimplemented", which
/// names the service and the method, and comes without a delay.
pub proof fn law_nothing_found_is_unimplemented<B>(
    matching: Seq<Arc<BetterMockHandler<B>>>,
    service: Seq<char>,
    method: Seq<char>,
    reply: BodyReplyView<B>,
    delay_ms: Option<u64>,
)
    requires
        matching.len() == 0,
        call_admits(matching, service, method, reply, delay_ms),
    ensures
        reply is Err,
        reply->Err_0.code == Code::Unimplemented,
        reply->Err_0.message == "No mock handler configured for "@ + service + "::"@ + method,
        reply->Err_0.details.len() == 0,
        reply->Err_0.metadata == Map::<Seq<char>, Seq<Seq<u8>>>::empty(),
        reply->Err_0.source is None,
        delay_ms is None,
{
}

/// Where handlers were found for a method, and the first of them was made from a definition, it
/// gives the answer. If the definition holds a status, every reply is an error with exactly the
/// code, message, details, metadata and source of that status. If it holds a message, every
/// reply is a success with a result of encoding the message with the metadata. Either comes
/// after the defined delay.
pub proof fn law_first_found_handler_answers<Resp, B, E: Fn(&Resp, &MetadataMap) -> B>(
    matching: Seq<Arc<BetterMockHandler<B>>>,
    service: Seq<char>,
    method: Seq<char>,
    handler_service: Seq<char>,
    handler_method: Seq<char>,
    definition: BetterMockResponseDefinition<Resp>,
    encode: E,
    reply: BodyReplyView<B>,
    delay_ms: Option<u64>,
)
    requires
        matching.len() > 0,
        answers_with_body(*matching[0], handler_service, handler_method, definition, encode),
        call_admits(matching, service, method, reply, delay_ms),
    ensures
        delay_ms == definition.delay_ms,
        definition.response matches Err(status) ==> reply == BodyReplyView::<B>::Err(status@)
            && reply->Err_0.code == status.code && reply->Err_0.message == status.message@
            && reply->Err_0.details == status.details@ && reply->Err_0.metadata
            == metadata_contents(status.metadata) && reply->Err_0.source == status.source,
        definition.response matches Ok(message) ==> reply is Ok && call_ensures(
            encode,
            (&message, &definition.metadata_pairs),
            reply->Ok_0,
        ),
{
    assert(!matching[0].admits(None));
    assert(matching[0].admits(Some(reply)));
}

/// Where the newest handler for a method was made from a definition that holds a status, every
/// reply is an error with exactly the code, message, details, metadata and source of that
/// status, after the defined delay.
pub proof fn law_newest_status_is_answered<Resp, B, E: Fn(&Resp, &MetadataMap) -> B>(
    handlers: Seq<Arc<BetterMockHandler<B>>>,
    handler: Arc<BetterMockHandler<B>>,
    service: Seq<char>,
    method: Seq<char>,
    definition: BetterMockResponseDefinition<Resp>,
    encode: E,
    status: MockStatus,
    reply: BodyReplyView<B>,
    delay_ms: Option<u64>,
)
    requires
        answers_with_body(*handler, service, method, definition, encode),
        definition.response == Err::<Resp, MockStatus>(status),
        call_admits(
            matching_handlers(handlers.push(handler), service, method),
            service,
            method,
            reply,
            delay_ms,
        ),
    ensures
        reply == BodyReplyView::<B>::Err(status@),
        reply->Err_0.code == status.code,
        reply->Err_0.message == status.message@,
        reply->Err_0.details == status.details@,
        reply->Err_0.metadata == metadata_contents(status.metadata),
        reply->Err_0.source == status.source,
        delay_ms == definition.delay_ms,
{
    law_body_response_answers(
        handlers,
        handler,
        service,
        method,
        definition,
        encode,
        reply,
        delay_ms,
    );
    law_defined_body_status_is_answered(
        definition.response,
        definition.metadata_pairs,
        encode,
        reply,
        status,
    );
}

/// Where the newest handler for a method was made from a definition that holds a message, every
/// reply is a success with a result of encoding the message with the defined metadata, after
/// the defined delay.
pub proof fn law_newest_message_is_answered<Resp, B, E: Fn(&Resp, &MetadataMap) -> B>(
    handlers: Seq<Arc<BetterMockHandler<B>>>,
    handler: Arc<BetterMockHandler<B>>,
    service: Seq<char>,
    method: Seq<char>,
    definition: BetterMockResponseDefinition<Resp>,
    encode: E,
    message: Resp,
    reply: BodyReplyView<B>,
    delay_ms: Option<u64>,
)
    requires
        answers_with_body(*handler, service, method, definition, encode),
        definition.response == Ok::<Resp, MockStatus>(message),
        call_admits(
            matching_handlers(handlers.push(handler), service, method),
            service,
            method,
            reply,
            delay_ms,
        ),
    ensures
        reply is Ok,
        call_ensures(encode, (&message, &definition.metadata_pairs), reply->Ok_0),
        delay_ms == definition.delay_ms,
{
    law_body_response_answers(
        handlers,
        handler,
        service,
        method,
        definition,
        encode,
        reply,
        delay_ms,
    );
    law_defined_body_message_is_answered(
        definition.response,
        definition.metadata_pairs,
        encode,
        reply,
        message,
    );
}

/// The status for locked handlers is an internal error that ends with the text of the lock
/// error.
pub proof fn law_locked_status_tells_error(error_text: Seq<char>)
    ensures
        locked_status_view(error_text).code == Code::Internal,
        locked_status_view(error_text).message == "Could not acquire read lock: "@ + error_text,
        locked_status_view(error_text).details.len() == 0,
        locked_status_view(error_text).metadata == Map::<Seq<char>, Seq<Seq<u8>>>::empty(),
        locked_status_view(error_text).source is None,
{
}

/// A handler that passes a request on leaves it to the next handler for the method. This is
/// about the order in which handlers are asked: those that are made from a definition answer
/// every request, and pass none on.
pub proof fn law_body_passed_on_request_falls_through<B>(
    handler: Arc<BetterMockHandler<B>>,
    older: Seq<Arc<BetterMockHandler<B>>>,
    service: Seq<char>,
    method: Seq<char>,
    reply: BodyReplyView<B>,
    delay_ms: Option<u64>,
)
    requires
        forall|outcome: Option<BodyReplyView<B>>| #[trigger]
            handler.admits(outcome) <==> outcome is None,
    ensures
        call_admits(seq![handler] + older, service, method, reply, delay_ms) <==> call_admits(
            older,
            service,
            method,
            reply,
            delay_ms,
        ),
{
    let matching = seq![handler] + older;
    assert(matching[0] == handler);
    assert(matching.drop_first() =~= older);
    assert(handler.admits(None));
}

/// Where every handler has one outcome at most, the client has one answer at most, with one
/// delay.
pub proof fn law_body_one_answer<B>(
    matching: Seq<Arc<BetterMockHandler<B>>>,
    service: Seq<char>,
    method: Seq<char>,
    reply: BodyReplyView<B>,
    delay_ms: Option<u64>,
    other: BodyReplyView<B>,
    other_delay_ms: Option<u64>,
)
    requires
        forall|i: int, a: Option<BodyReplyView<B>>, b: Option<BodyReplyView<B>>|
            0 <= i < matching.len() && #[trigger] matching[i].admits(a)
                && #[trigger] matching[i].admits(b) ==> a == b,
        call_admits(matching, service, method, reply, delay_ms),
        call_admits(matching, service, method, other, other_delay_ms),
    ensures
        reply == other,
        delay_ms == other_delay_ms,
    decreases matching.len(),
{
    if matching.len() > 0 {
        let rest = matching.drop_first();
        assert forall|i: int, a: Option<BodyReplyView<B>>, b: Option<BodyReplyView<B>>|
            0 <= i < rest.len() && #[trigger] rest[i].admits(a)
                && #[trigger] rest[i].admits(b) implies a == b by {
            assert(matching[i + 1].admits(a) && matching[i + 1].admits(b));
        }
        if matching[0].admits(None) {
            assert(!matching[0].admits(Some(reply)));
            assert(!matching[0].admits(Some(other)));
            law_body_one_answer(
                rest,
                service,
                method,
                reply,
                delay_ms,
                other,
                other_delay_ms,
            );
        }
    }
}

} // verus!
