//! The mock client: its handlers, and how it finds the one that answers.

use super::dispatch::no_handler_status;
use super::handler::{Answer, MockHandler, Outcome};
use super::response::MockResponseDefinition;
use super::status::MockStatus;
use bytes::Bytes;
use core::marker::PhantomData;
use vstd::prelude::*;

verus! {

use super::dispatch::{default_admits, default_or, default_ready, dispatch_ready, dispatches,
    law_response_headers_tell_delay, plain_error, search_admits, search_ready};
use super::handler::{answer_view, answers_always, answers_when, law_static_handler_answers,
    AnswerView, OutcomeView};
use super::response::reply_delay;

/// A mockable gRPC client for testing
///
/// This struct provides a way to mock gRPC services for testing. It allows
/// configuring mock responses for specific service methods with various
/// options, such as:
///
/// - Returning static responses for any request
/// - Conditionally returning responses based on request content
/// - Simulating network delays
/// - Including custom metadata in responses
/// - Returning error statuses instead of responses
///
/// A request gets the most recent conditional response for its method whose condition it
/// meets. If it meets no condition, it gets the most recent static response, so that a static
/// response is the default for the method. A request that cannot be decoded for a condition
/// gets the most recent static response too, if that is more recent than the condition;
/// otherwise it gets the error.
pub struct MockableGrpcClient {
    handlers: Vec<MockHandler>,
}

impl View for MockableGrpcClient {
    type V = Seq<MockHandler>;

    /// The handlers of the client, in the order in which they were added.
    closed spec fn view(&self) -> Seq<MockHandler> {
        self.handlers@
    }
}

impl Default for MockableGrpcClient {
    fn default() -> (client: Self)
        ensures
            client@ == Seq::<MockHandler>::empty(),
    {
        MockableGrpcClient { handlers: Vec::new() }
    }
}

/// The handler at an index.
spec fn handler_at(handlers: Seq<MockHandler>, index: Option<usize>) -> Option<MockHandler> {
    match index {
        Some(i) => Some(handlers[i as int]),
        None => None,
    }
}

impl MockableGrpcClient {
    /// Create a new mockable gRPC client
    pub fn new() -> (client: Self)
        ensures
            client@ == Seq::<MockHandler>::empty(),
    {
        Self::default()
    }

    /// Add a mock response for a specific service method and request type
    ///
    /// This method returns a builder that can be used to configure mock responses
    /// for the specified service method.
    ///
    /// # Arguments
    /// * `service_name` - The name of the gRPC service (e.g., "package.Service")
    /// * `method_name` - The name of the method to mock
    ///
    /// # Returns
    /// A builder for configuring mock responses
    pub fn mock<Req, Resp>(&mut self, service_name: &str, method_name: &str) -> (builder:
        MockBuilder<'_, Req, Resp>)
        ensures
            builder.service_name@ == service_name@,
            builder.method_name@ == method_name@,
            *builder.client == *old(self),
            *final(builder.client) == *final(self),
    {
        MockBuilder {
            client: self,
            service_name: service_name.to_string(),
            method_name: method_name.to_string(),
            marker: PhantomData,
        }
    }

    /// Reset all mock definitions
    ///
    /// This method clears all previously configured mock responses.
    pub fn reset(&mut self)
        ensures
            final(self)@ == Seq::<MockHandler>::empty(),
    {
        self.handlers.clear();
    }

    /// Handle a gRPC request
    ///
    /// This method is used internally by client implementations to handle
    /// mock requests. It looks up the appropriate handler for the service
    /// and method and delegates to it.
    ///
    /// # Arguments
    /// * `service_name` - The name of the gRPC service
    /// * `method_name` - The name of the method being called
    /// * `request_bytes` - The encoded request message
    ///
    /// # Returns
    /// The encoded response and any metadata, or an error status, and the time to wait before
    /// it is handed over
    pub fn handle_request(
        &self,
        service_name: &str,
        method_name: &str,
        request_bytes: &[u8],
    ) -> (answer: Answer)
        requires
            dispatch_ready(self@, service_name@, method_name@, request_bytes),
        ensures
            dispatches(self@, service_name@, method_name@, request_bytes, answer_view(answer)),
            answer.0 is Ok ==> answer.1 == reply_delay(answer_view(answer).0),
    {
        let answer = self.search(service_name, method_name, request_bytes);
        proof {
            law_response_headers_tell_delay(
                self@,
                service_name@,
                method_name@,
                request_bytes,
                answer_view(answer),
            );
        }
        answer
    }

    /// Searches the handlers for the one that answers, and lets it answer.
    fn search(&self, service_name: &str, method_name: &str, request_bytes: &[u8]) -> (answer:
        Answer)
        requires
            dispatch_ready(self@, service_name@, method_name@, request_bytes),
        ensures
            dispatches(self@, service_name@, method_name@, request_bytes, answer_view(answer)),
    {
        let service = service_name.to_string();
        let method = method_name.to_string();
        let ghost all = self@;
        // The newest static handler for the method that the search has passed
        let mut default: Option<usize> = None;
        // Reverse iteration to check most recent first
        let mut i: usize = self.handlers.len();
        assert(all.take(i as int) =~= all);
        while i > 0
            invariant
                i <= self.handlers@.len(),
                all == self.handlers@,
                service@ == service_name@,
                method@ == method_name@,
                default matches Some(d) ==> d < self.handlers@.len() && all[d as int].is_static(),
                search_ready(
                    all.take(i as int),
                    handler_at(all, default),
                    service_name@,
                    method_name@,
                    request_bytes,
                ),
                forall|answer: AnswerView| #[trigger]
                    search_admits(
                        all.take(i as int),
                        handler_at(all, default),
                        service_name@,
                        method_name@,
                        request_bytes,
                        answer,
                    ) ==> dispatches(all, service_name@, method_name@, request_bytes, answer),
            decreases i,
        {
            let ghost seen = all.take(i as int);
            let ghost passed = handler_at(all, default);
            i = i - 1;
            let handler = &self.handlers[i];
            assert(seen.last() == handler);
            assert(seen.drop_last() =~= all.take(i as int));
            if handler.is_for(&service, &method) {
                if handler.answers_any() {
                    if default.is_none() {
                        default = Some(i);
                    }
                    assert(handler_at(all, default) == default_or(passed, *handler));
                } else {
                    match handler.handle(request_bytes) {
                        Outcome::Answered(answer) => {
                            assert(search_admits(
                                seen,
                                passed,
                                service_name@,
                                method_name@,
                                request_bytes,
                                answer_view(answer),
                            ));
                            return answer;
                        },
                        Outcome::Undecodable(error) => {
                            assert(handler.admits(
                                request_bytes,
                                OutcomeView::Undecodable(error@),
                            ));
                            assert(handler.may_refuse(request_bytes));
                            let answer = self.answer_by_default(default, error, request_bytes);
                            assert(search_admits(
                                seen,
                                passed,
                                service_name@,
                                method_name@,
                                request_bytes,
                                answer_view(answer),
                            ));
                            return answer;
                        },
                        Outcome::PassedOn => {},
                    }
                }
            }
            assert forall|answer: AnswerView| #[trigger]
                search_admits(
                    all.take(i as int),
                    handler_at(all, default),
                    service_name@,
                    method_name@,
                    request_bytes,
                    answer,
                ) implies dispatches(
                all,
                service_name@,
                method_name@,
                request_bytes,
                answer,
            ) by {
                assert(search_admits(
                    seen,
                    passed,
                    service_name@,
                    method_name@,
                    request_bytes,
                    answer,
                ));
            }
        }
        // If no handler was found, return an error
        let error = no_handler_status(service_name, method_name);
        let answer = self.answer_by_default(default, error, request_bytes);
        assert(search_admits(
            all.take(0),
            handler_at(all, default),
            service_name@,
            method_name@,
            request_bytes,
            answer_view(answer),
        ));
        answer
    }

    /// Answers a request that no condition answers: with the static handler at an index, or
    /// else with an error.
    fn answer_by_default(
        &self,
        default: Option<usize>,
        error: MockStatus,
        request_bytes: &[u8],
    ) -> (answer: Answer)
        requires
            default matches Some(d) ==> d < self@.len() && self@[d as int].is_static(),
            default_ready(handler_at(self@, default), request_bytes),
        ensures
            default_admits(
                handler_at(self@, default),
                request_bytes,
                plain_error(error@),
                answer_view(answer),
            ),
    {
        match default {
            Some(d) => {
                let outcome = self.handlers[d].handle(request_bytes);
                proof {
                    law_static_handler_answers(self@[d as int], request_bytes, outcome@);
                }
                match outcome {
                    Outcome::Answered(answer) => answer,
                    _ => vstd::pervasive::unreached(),
                }
            },
            None => (Err(error), None),
        }
    }

    fn register_handler(&mut self, handler: MockHandler)
        ensures
            final(self)@ == old(self)@.push(handler),
    {
        self.handlers.push(handler);
    }
}

/// Builder for configuring mock responses
pub struct MockBuilder<'a, Req, Resp> {
    /// The client that is configured
    pub client: &'a mut MockableGrpcClient,
    /// The service whose method is mocked
    pub service_name: String,
    /// The method that is mocked
    pub method_name: String,
    /// The types of the messages
    pub marker: PhantomData<(Req, Resp)>,
}

impl<'a, Req, Resp> MockBuilder<'a, Req, Resp> {
    /// Configure a static response for any request
    ///
    /// This method adds a handler that returns the specified response
    /// for any request to the service method, regardless of the request content.
    ///
    /// # Arguments
    /// * `response_def` - The mock response definition
    /// * `encode` - Turns a response into its bytes
    ///
    /// # Returns
    /// Self for method chaining
    pub fn respond_with<E>(self, response_def: MockResponseDefinition<Resp>, encode: E) -> (builder:
        Self) where Resp: Send + Sync + 'static, E: Fn(&Resp) -> Bytes + Send + Sync + 'static
        ensures
            builder.service_name@ == self.service_name@,
            builder.method_name@ == self.method_name@,
            builder.client@ == old(self.client)@.push(builder.client@.last()),
            answers_always(
                builder.client@.last(),
                self.service_name@,
                self.method_name@,
                response_def,
                encode,
            ),
            *final(builder.client) == *final(self.client),
    {
        let service_name = self.service_name.clone();
        let method_name = self.method_name.clone();
        let handler = MockHandler::always(service_name, method_name, response_def, encode);
        let builder = self;
        builder.client.register_handler(handler);
        builder
    }

    /// Configure a conditional response based on a request predicate
    ///
    /// This method adds a handler that returns the specified response
    /// only if the request matches the predicate function. If the predicate
    /// returns false, the request falls through to the next matching handler.
    ///
    /// # Arguments
    /// * `decode` - Reads a request from its bytes
    /// * `predicate` - A function that evaluates the request and returns true if it should be
    ///   handled
    /// * `response_def` - The mock response definition to use if the predicate matches
    /// * `encode` - Turns a response into its bytes
    ///
    /// # Returns
    /// Self for method chaining
    pub fn respond_when<D, P, E>(
        self,
        decode: D,
        predicate: P,
        response_def: MockResponseDefinition<Resp>,
        encode: E,
    ) -> (builder: Self) where
        Req: Send + Sync + 'static,
        Resp: Send + Sync + 'static,
        D: Fn(&[u8]) -> Result<Req, MockStatus> + Send + Sync + 'static,
        P: Fn(&Req) -> bool + Send + Sync + 'static,
        E: Fn(&Resp) -> Bytes + Send + Sync + 'static,

        ensures
            builder.service_name@ == self.service_name@,
            builder.method_name@ == self.method_name@,
            builder.client@ == old(self.client)@.push(builder.client@.last()),
            answers_when(
                builder.client@.last(),
                self.service_name@,
                self.method_name@,
                decode,
                predicate,
                response_def,
                encode,
            ),
            *final(builder.client) == *final(self.client),
    {
        let service_name = self.service_name.clone();
        let method_name = self.method_name.clone();
        let handler = MockHandler::when(
            service_name,
            method_name,
            decode,
            predicate,
            response_def,
            encode,
        );
        let builder = self;
        builder.client.register_handler(handler);
        builder
    }
}

/// Extension trait for gRPC clients to support mocking
///
/// This trait should be implemented for your gRPC client types to
/// enable creating mock instances with the `with_mock` method.
pub trait GrpcClientExt<S> {
    /// Create a new client instance that uses the provided mock service
    fn with_mock(mock: MockableGrpcClient) -> S;
}

} // verus!
