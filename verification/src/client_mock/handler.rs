//! Handlers: what a mock client keeps for one method of a service.

use super::response::{create_headers_from_def, response_delay, MockResponseDefinition};
use super::status::MockStatus;
use bytes::Bytes;
use core::marker::PhantomData;
use http::HeaderMap;
use vstd::prelude::*;

verus! {

use super::decimal::{decimal, parsed_u64};
use super::headers::{law_header_value_has_no_control_bytes, lower_name, valid_header_value};
use super::response::{defined_delay, law_delay_header_is_read, law_delay_is_in_headers,
    law_delay_is_kept, law_metadata_is_in_headers, law_no_other_headers, reply_delay, reply_view,
    ReplyView};
use super::status::{metadata_contents, plain_status, Code, StatusView};
use vstd::utf8::encode_utf8;

/// An answer to a request: the encoded response with its headers, or an error status, and the
/// time to wait before it is handed over, in milliseconds.
pub type Answer = (Result<(Bytes, HeaderMap), MockStatus>, Option<u64>);

/// What an [`Answer`] says.
pub type AnswerView = (ReplyView, Option<u64>);

pub open spec fn answer_view(answer: Answer) -> AnswerView {
    (reply_view(answer.0), answer.1)
}

/// Whether the headers of an answer, if it is a response, ask for the very delay that the
/// answer comes with.
pub open spec fn tells_delay(answer: AnswerView) -> bool {
    answer.0 is Ok ==> answer.1 == reply_delay(answer.0)
}

/// What comes of handing a request to a handler.
pub enum Outcome {
    /// The handler answers.
    Answered(Answer),
    /// The handler cannot tell whether the request meets its condition: decoding the request
    /// gave this error.
    Undecodable(MockStatus),
    /// The request does not meet the condition of the handler.
    PassedOn,
}

/// What an [`Outcome`] says.
pub enum OutcomeView {
    Answered(AnswerView),
    Undecodable(StatusView),
    PassedOn,
}

impl View for Outcome {
    type V = OutcomeView;

    open spec fn view(&self) -> OutcomeView {
        match self {
            Outcome::Answered(answer) => OutcomeView::Answered(answer_view(*answer)),
            Outcome::Undecodable(status) => OutcomeView::Undecodable(status@),
            Outcome::PassedOn => OutcomeView::PassedOn,
        }
    }
}

/// When a response can be made from its definition: where it is a success, the response can
/// be encoded and the metadata and the delay can be made into headers.
pub open spec fn definition_ready<Resp, E: Fn(&Resp) -> Bytes>(
    definition: MockResponseDefinition<Resp>,
    encode: E,
) -> bool {
    definition.status is None && definition.response is Some ==> {
        &&& call_requires(encode, (&definition.response->0,))
        &&& definition.renderable()
    }
}

/// The responses and errors that a definition stands for. The status goes before the
/// response; a definition with neither is an internal error.
pub open spec fn definition_replies<Resp, E: Fn(&Resp) -> Bytes>(
    definition: MockResponseDefinition<Resp>,
    encode: E,
    reply: ReplyView,
) -> bool {
    match (definition.status, definition.response) {
        (Some(status), _) => reply == ReplyView::Err(status@),
        (None, Some(response)) => {
            &&& reply is Ok
            &&& call_ensures(encode, (&response,), reply->Ok_0.0)
            &&& reply->Ok_0.1 == definition.rendered()
        },
        (None, None) => reply == ReplyView::Err(
            plain_status(
                Code::Internal,
                "Invalid MockResponseDefinition: both response and status are None"@,
            ),
        ),
    }
}

/// The answers that a definition stands for: its response or error, after its delay.
pub open spec fn definition_admits<Resp, E: Fn(&Resp) -> Bytes>(
    definition: MockResponseDefinition<Resp>,
    encode: E,
    answer: AnswerView,
) -> bool {
    &&& definition_replies(definition, encode, answer.0)
    &&& answer.1 == defined_delay(definition.delay_ms, answer.0)
}

/// Answers a request as a definition says. `encode` turns the response into bytes.
pub fn respond<Resp, E: Fn(&Resp) -> Bytes>(
    definition: &MockResponseDefinition<Resp>,
    encode: &E,
) -> (answer: Answer)
    requires
        definition_ready(*definition, *encode),
    ensures
        definition_admits(*definition, *encode, answer_view(answer)),
{
    // Create the response based on the definition
    let reply: Result<(Bytes, HeaderMap), MockStatus> = match (
        &definition.status,
        &definition.response,
    ) {
        // Error response
        (Some(status), _) => Err(status.clone()),
        // Success response
        (None, Some(response)) => {
            let response_bytes = encode(response);
            let headers = create_headers_from_def(definition);
            Ok((response_bytes, headers))
        },
        (None, None) => Err(
            MockStatus::internal(
                "Invalid MockResponseDefinition: both response and status are None".to_string(),
            ),
        ),
    };
    let delay_ms: Option<u64> = match definition.delay_ms {
        Some(0) => None,
        Some(delay) => Some(delay),
        None => response_delay(&reply),
    };
    (reply, delay_ms)
}

/// The delay of a definition is the time to wait before its answer, be it a response or an
/// error. A delay of zero is none.
pub proof fn law_defined_delay_reaches_answer<Resp, E: Fn(&Resp) -> Bytes>(
    definition: MockResponseDefinition<Resp>,
    encode: E,
    answer: AnswerView,
    delay: u64,
)
    requires
        definition_admits(definition, encode, answer),
        definition.delay_ms == Some(delay),
    ensures
        answer.1 == if delay > 0 {
            Some(delay)
        } else {
            None
        },
{
}

/// The headers of a successful response ask for the very delay that the answer comes with.
pub proof fn law_headers_tell_delay<Resp, E: Fn(&Resp) -> Bytes>(
    definition: MockResponseDefinition<Resp>,
    encode: E,
    answer: AnswerView,
)
    requires
        definition_admits(definition, encode, answer),
    ensures
        answer.0 is Ok ==> answer.1 == reply_delay(answer.0),
{
    if let Some(delay) = definition.delay_ms {
        law_delay_is_kept(definition.metadata(), delay);
    }
}

/// An error that is defined without a delay is not delayed.
pub proof fn law_no_delay_for_plain_error<Resp, E: Fn(&Resp) -> Bytes>(
    definition: MockResponseDefinition<Resp>,
    encode: E,
    answer: AnswerView,
)
    requires
        definition_admits(definition, encode, answer),
        definition.delay_ms is None,
        answer.0 is Err,
    ensures
        answer.1 is None,
{
}

/// A definition with a status is answered with exactly that status: its code, message, details,
/// metadata and source, whatever the code is.
pub proof fn law_defined_status_is_answered<Resp, E: Fn(&Resp) -> Bytes>(
    definition: MockResponseDefinition<Resp>,
    encode: E,
    answer: AnswerView,
    status: MockStatus,
)
    requires
        definition_admits(definition, encode, answer),
        definition.status == Some(status),
    ensures
        answer.0 == ReplyView::Err(status@),
        answer.0->Err_0.code == status.code,
        answer.0->Err_0.message == status.message@,
        answer.0->Err_0.details == status.details@,
        answer.0->Err_0.metadata == metadata_contents(status.metadata),
        answer.0->Err_0.source == status.source,
{
}

/// A definition with a response and without a status is answered with success, whatever its
/// delay and its metadata, and the bytes are a result of encoding the response.
pub proof fn law_defined_response_is_answered<Resp, E: Fn(&Resp) -> Bytes>(
    definition: MockResponseDefinition<Resp>,
    encode: E,
    answer: AnswerView,
    response: Resp,
)
    requires
        definition_admits(definition, encode, answer),
        definition.status is None,
        definition.response == Some(response),
    ensures
        answer.0 is Ok,
        call_ensures(encode, (&response,), answer.0->Ok_0.0),
{
}

/// A definition with neither a response nor a status is answered with an internal error.
pub proof fn law_incomplete_definition_is_internal_error<Resp, E: Fn(&Resp) -> Bytes>(
    definition: MockResponseDefinition<Resp>,
    encode: E,
    answer: AnswerView,
)
    requires
        definition_admits(definition, encode, answer),
        definition.status is None,
        definition.response is None,
    ensures
        answer.0 is Err,
        answer.0->Err_0.code == Code::Internal,
        answer.0->Err_0.message
            == "Invalid MockResponseDefinition: both response and status are None"@,
        answer.0->Err_0.details.len() == 0,
        answer.0->Err_0.metadata == Map::<Seq<char>, Seq<Seq<u8>>>::empty(),
        answer.0->Err_0.source is None,
{
}

/// Every metadata pair of a definition that has a valid value, and is the last such pair under
/// its name, stands in the headers of every response that comes from the definition, with or
/// without a delay: under the name in lower case, with exactly that value. Only a defined delay
/// takes the place of a pair under the name of the delay header.
pub proof fn law_defined_metadata_reaches_answer<Resp, E: Fn(&Resp) -> Bytes>(
    definition: MockResponseDefinition<Resp>,
    encode: E,
    answer: AnswerView,
    last: int,
)
    requires
        definition_admits(definition, encode, answer),
        definition.status is None,
        definition.response is Some,
        0 <= last < definition.metadata_pairs@.len(),
        valid_header_value(encode_utf8(definition.metadata_pairs@[last].1@)),
        forall|i: int|
            last < i < definition.metadata_pairs@.len() && valid_header_value(
                encode_utf8((#[trigger] definition.metadata_pairs@[i]).1@),
            ) ==> lower_name(definition.metadata_pairs@[i].0@) != lower_name(
                definition.metadata_pairs@[last].0@,
            ),
        definition.delay_ms is None || lower_name(definition.metadata_pairs@[last].0@)
            != "mock-delay-ms"@,
    ensures
        answer.0 is Ok,
        answer.0->Ok_0.1.contains_key(lower_name(definition.metadata_pairs@[last].0@)),
        answer.0->Ok_0.1[lower_name(definition.metadata_pairs@[last].0@)] == seq![
            encode_utf8(definition.metadata_pairs@[last].1@),
        ],
{
    law_metadata_is_in_headers(definition, last);
}

/// The delay of a definition stands in the headers of every response that comes from the
/// definition, in decimal notation.
pub proof fn law_defined_delay_is_in_headers<Resp, E: Fn(&Resp) -> Bytes>(
    definition: MockResponseDefinition<Resp>,
    encode: E,
    answer: AnswerView,
    delay: u64,
)
    requires
        definition_admits(definition, encode, answer),
        definition.status is None,
        definition.response is Some,
        definition.delay_ms == Some(delay),
    ensures
        answer.0 is Ok,
        answer.0->Ok_0.1.contains_key("mock-delay-ms"@),
        answer.0->Ok_0.1["mock-delay-ms"@] == seq![encode_utf8(decimal(delay as nat))],
{
    law_delay_is_in_headers(definition, delay);
}

/// The headers of a response hold nothing but the metadata and the delay of the definition that
/// it comes from.
pub proof fn law_answer_has_no_other_headers<Resp, E: Fn(&Resp) -> Bytes>(
    definition: MockResponseDefinition<Resp>,
    encode: E,
    answer: AnswerView,
    name: Seq<char>,
)
    requires
        definition_admits(definition, encode, answer),
        answer.0 is Ok,
        answer.0->Ok_0.1.contains_key(name),
    ensures
        (definition.delay_ms is Some && name == "mock-delay-ms"@) || exists|i: int|
            0 <= i < definition.metadata_pairs@.len() && lower_name(
                (#[trigger] definition.metadata_pairs@[i]).0@,
            ) == name && valid_header_value(encode_utf8(definition.metadata_pairs@[i].1@))
                && answer.0->Ok_0.1[name] == seq![
                encode_utf8(definition.metadata_pairs@[i].1@),
            ],
{
    law_no_other_headers(definition, name);
}

/// A response that is defined without a delay, and without a valid value under the name of the
/// delay header, is not delayed.
pub proof fn law_no_delay_unless_defined<Resp, E: Fn(&Resp) -> Bytes>(
    definition: MockResponseDefinition<Resp>,
    encode: E,
    answer: AnswerView,
)
    requires
        definition_admits(definition, encode, answer),
        definition.delay_ms is None,
        forall|i: int|
            0 <= i < definition.metadata_pairs@.len() && valid_header_value(
                encode_utf8((#[trigger] definition.metadata_pairs@[i]).1@),
            ) ==> lower_name(definition.metadata_pairs@[i].0@) != "mock-delay-ms"@,
    ensures
        answer.1 is None,
{
    if answer.0 is Ok && answer.0->Ok_0.1.contains_key("mock-delay-ms"@) {
        law_answer_has_no_other_headers(definition, encode, answer, "mock-delay-ms"@);
    }
}

/// A response that is defined without a delay is delayed by the number that the last valid
/// value under the name of the delay header reads as, if that is not zero.
pub proof fn law_metadata_can_define_delay<Resp, E: Fn(&Resp) -> Bytes>(
    definition: MockResponseDefinition<Resp>,
    encode: E,
    answer: AnswerView,
    last: int,
)
    requires
        definition_admits(definition, encode, answer),
        definition.status is None,
        definition.response is Some,
        definition.delay_ms is None,
        0 <= last < definition.metadata_pairs@.len(),
        lower_name(definition.metadata_pairs@[last].0@) == "mock-delay-ms"@,
        valid_header_value(encode_utf8(definition.metadata_pairs@[last].1@)),
        forall|i: int|
            last < i < definition.metadata_pairs@.len() && valid_header_value(
                encode_utf8((#[trigger] definition.metadata_pairs@[i]).1@),
            ) ==> lower_name(definition.metadata_pairs@[i].0@) != "mock-delay-ms"@,
    ensures
        answer.1 == match parsed_u64(definition.metadata_pairs@[last].1@) {
            Some(delay) => if delay > 0 {
                Some(delay)
            } else {
                None
            },
            None => None,
        },
{
    let text = definition.metadata_pairs@[last].1@;
    law_defined_metadata_reaches_answer(definition, encode, answer, last);
    law_header_value_has_no_control_bytes(encode_utf8(text));
    law_delay_header_is_read(answer.0->Ok_0.0, answer.0->Ok_0.1, text);
}

/// The view of an answer keeps the reply and the delay.
pub proof fn law_answer_view_keeps_all(answer: Answer)
    ensures
        answer_view(answer).0 == reply_view(answer.0),
        answer_view(answer).1 == answer.1,
{
}

/// The view of an outcome keeps what came of the request, and the answer or the error.
pub proof fn law_outcome_view_keeps_all(outcome: Outcome)
    ensures
        outcome matches Outcome::Answered(answer) ==> outcome@ == OutcomeView::Answered(
            answer_view(answer),
        ),
        outcome matches Outcome::Undecodable(error) ==> outcome@ == OutcomeView::Undecodable(
            error@,
        ),
        outcome is PassedOn ==> outcome@ is PassedOn,
{
}

/// An error can always be answered. A response can if it can be encoded and the metadata and
/// the delay can be made into headers.
pub proof fn law_definition_can_be_answered<Resp, E: Fn(&Resp) -> Bytes>(
    definition: MockResponseDefinition<Resp>,
    encode: E,
)
    ensures
        definition.status is Some || definition.response is None ==> definition_ready(
            definition,
            encode,
        ),
        definition.response is Some && call_requires(encode, (&definition.response->0,))
            && definition.renderable() ==> definition_ready(definition, encode),
{
}

/// When a decoded request can be answered under a condition: the condition can be tested, and
/// where it can hold, the definition can be answered from.
pub open spec fn condition_ready<
    Req,
    Resp,
    P: Fn(&Req) -> bool,
    E: Fn(&Resp) -> Bytes,
>(
    decoded: Result<Req, MockStatus>,
    predicate: P,
    definition: MockResponseDefinition<Resp>,
    encode: E,
) -> bool {
    decoded matches Ok(request) ==> {
        &&& call_requires(predicate, (&request,))
        &&& call_ensures(predicate, (&request,), true) ==> definition_ready(definition, encode)
    }
}

/// What may come of a decoded request under a condition. A request that meets the condition is
/// answered as the definition says; one that does not is passed on.
pub open spec fn condition_admits<
    Req,
    Resp,
    P: Fn(&Req) -> bool,
    E: Fn(&Resp) -> Bytes,
>(
    decoded: Result<Req, MockStatus>,
    predicate: P,
    definition: MockResponseDefinition<Resp>,
    encode: E,
    outcome: OutcomeView,
) -> bool {
    match decoded {
        Err(status) => outcome == OutcomeView::Undecodable(status@),
        Ok(request) => match outcome {
            OutcomeView::Answered(answer) => {
                &&& call_ensures(predicate, (&request,), true)
                &&& definition_admits(definition, encode, answer)
            },
            OutcomeView::Undecodable(_) => false,
            OutcomeView::PassedOn => call_ensures(predicate, (&request,), false),
        },
    }
}

/// Answers a decoded request as a definition says, if it meets a condition.
pub fn respond_if<Req, Resp, P: Fn(&Req) -> bool, E: Fn(&Resp) -> Bytes>(
    decoded: Result<Req, MockStatus>,
    predicate: &P,
    definition: &MockResponseDefinition<Resp>,
    encode: &E,
) -> (outcome: Outcome)
    requires
        condition_ready(decoded, *predicate, *definition, *encode),
    ensures
        condition_admits(decoded, *predicate, *definition, *encode, outcome@),
{
    let request: Req = match decoded {
        Ok(request) => request,
        Err(status) => return Outcome::Undecodable(status),
    };
    // Check if the predicate matches
    if !predicate(&request) {
        return Outcome::PassedOn;
    }
    Outcome::Answered(respond(definition, encode))
}

/// A decoded request that meets the condition is answered as the definition says.
pub proof fn law_met_condition_is_answered<
    Req,
    Resp,
    P: Fn(&Req) -> bool,
    E: Fn(&Resp) -> Bytes,
>(
    request: Req,
    predicate: P,
    definition: MockResponseDefinition<Resp>,
    encode: E,
    outcome: OutcomeView,
)
    requires
        condition_admits(Ok::<Req, MockStatus>(request), predicate, definition, encode, outcome),
        !call_ensures(predicate, (&request,), false),
    ensures
        outcome is Answered,
        definition_admits(definition, encode, outcome->Answered_0),
{
}

/// A decoded request that does not meet the condition is passed on.
pub proof fn law_unmet_condition_is_passed_on<
    Req,
    Resp,
    P: Fn(&Req) -> bool,
    E: Fn(&Resp) -> Bytes,
>(
    request: Req,
    predicate: P,
    definition: MockResponseDefinition<Resp>,
    encode: E,
    outcome: OutcomeView,
)
    requires
        condition_admits(Ok::<Req, MockStatus>(request), predicate, definition, encode, outcome),
        !call_ensures(predicate, (&request,), true),
    ensures
        outcome is PassedOn,
{
}

/// A request that was not decoded is neither answered nor passed on: the error is told as it is.
pub proof fn law_decoding_error_is_told<
    Req,
    Resp,
    P: Fn(&Req) -> bool,
    E: Fn(&Resp) -> Bytes,
>(
    error: MockStatus,
    predicate: P,
    definition: MockResponseDefinition<Resp>,
    encode: E,
    outcome: OutcomeView,
)
    requires
        condition_admits(Err::<Req, MockStatus>(error), predicate, definition, encode, outcome),
    ensures
        outcome is Undecodable,
        outcome->Undecodable_0 == error@,
{
}

/// When the bytes of a request can be answered under a condition.
pub open spec fn conditional_ready<
    Req,
    Resp,
    D: Fn(&[u8]) -> Result<Req, MockStatus>,
    P: Fn(&Req) -> bool,
    E: Fn(&Resp) -> Bytes,
>(
    decode: D,
    predicate: P,
    definition: MockResponseDefinition<Resp>,
    encode: E,
    request: &[u8],
) -> bool {
    &&& call_requires(decode, (request,))
    &&& forall|decoded: Result<Req, MockStatus>| #[trigger]
        call_ensures(decode, (request,), decoded) ==> condition_ready(
            decoded,
            predicate,
            definition,
            encode,
        )
}

/// What may come of the bytes of a request under a condition.
pub open spec fn conditional_admits<
    Req,
    Resp,
    D: Fn(&[u8]) -> Result<Req, MockStatus>,
    P: Fn(&Req) -> bool,
    E: Fn(&Resp) -> Bytes,
>(
    decode: D,
    predicate: P,
    definition: MockResponseDefinition<Resp>,
    encode: E,
    request: &[u8],
    outcome: OutcomeView,
) -> bool {
    exists|decoded: Result<Req, MockStatus>| #[trigger]
        call_ensures(decode, (request,), decoded) && condition_admits(
            decoded,
            predicate,
            definition,
            encode,
            outcome,
        )
}

/// Something that answers whatever the request is.
trait StaticResponder: Send + Sync {
    /// Whether it can answer.
    spec fn ready(&self) -> bool;

    /// Whether it may answer in the given way.
    spec fn admits(&self, answer: AnswerView) -> bool;

    /// Answers a request.
    fn respond(&self) -> (answer: Answer)
        requires
            self.ready(),
        ensures
            self.admits(answer_view(answer)),
            tells_delay(answer_view(answer)),
    ;
}

/// Answers as a definition says.
struct DefinedResponse<Resp, E> {
    definition: MockResponseDefinition<Resp>,
    encode: E,
}

impl<Resp: Send + Sync, E: Fn(&Resp) -> Bytes + Send + Sync> StaticResponder for DefinedResponse<
    Resp,
    E,
> {
    closed spec fn ready(&self) -> bool {
        definition_ready(self.definition, self.encode)
    }

    closed spec fn admits(&self, answer: AnswerView) -> bool {
        definition_admits(self.definition, self.encode, answer)
    }

    fn respond(&self) -> (answer: Answer) {
        let answer = respond(&self.definition, &self.encode);
        proof {
            law_headers_tell_delay(self.definition, self.encode, answer_view(answer));
        }
        answer
    }
}

/// Something that answers the requests that meet a condition.
trait ConditionalResponder: Send + Sync {
    /// Whether the request can be handled.
    spec fn ready(&self, request: &[u8]) -> bool;

    /// Whether the given outcome may come of the request.
    spec fn admits(&self, request: &[u8], outcome: OutcomeView) -> bool;

    /// Answers a request that meets the condition.
    fn respond(&self, request_bytes: &[u8]) -> (outcome: Outcome)
        requires
            self.ready(request_bytes),
        ensures
            self.admits(request_bytes, outcome@),
            outcome matches Outcome::Answered(answer) ==> tells_delay(answer_view(answer)),
    ;
}

/// Answers the requests that meet a predicate as a definition says.
struct PredicateResponse<Req, Resp, D, P, E> {
    decode: D,
    predicate: P,
    definition: MockResponseDefinition<Resp>,
    encode: E,
    marker: PhantomData<Req>,
}

impl<
    Req: Send + Sync,
    Resp: Send + Sync,
    D: Fn(&[u8]) -> Result<Req, MockStatus> + Send + Sync,
    P: Fn(&Req) -> bool + Send + Sync,
    E: Fn(&Resp) -> Bytes + Send + Sync,
> ConditionalResponder for PredicateResponse<Req, Resp, D, P, E> {
    closed spec fn ready(&self, request: &[u8]) -> bool {
        conditional_ready(self.decode, self.predicate, self.definition, self.encode, request)
    }

    closed spec fn admits(&self, request: &[u8], outcome: OutcomeView) -> bool {
        conditional_admits(
            self.decode,
            self.predicate,
            self.definition,
            self.encode,
            request,
            outcome,
        )
    }

    fn respond(&self, request_bytes: &[u8]) -> (outcome: Outcome) {
        // First decode the request
        let decoded = (self.decode)(request_bytes);
        let outcome = respond_if(decoded, &self.predicate, &self.definition, &self.encode);
        proof {
            if let OutcomeView::Answered(answer) = outcome@ {
                law_headers_tell_delay(self.definition, self.encode, answer);
            }
        }
        outcome
    }
}

/// What a handler does with a request.
enum Responder {
    Always(Box<dyn StaticResponder>),
    When(Box<dyn ConditionalResponder>),
}

/// A handler for one method of a service. It does not expose the types of the messages.
pub struct MockHandler {
    service: String,
    method: String,
    responder: Responder,
}

impl MockHandler {
    /// Whether the handler is one for the given method.
    pub closed spec fn handles(self, service: Seq<char>, method: Seq<char>) -> bool {
        self.service@ == service && self.method@ == method
    }

    /// Whether the handler is one for any request, and not only for those that meet a
    /// condition.
    pub closed spec fn is_static(self) -> bool {
        self.responder is Always
    }

    /// Whether the handler can handle the request.
    pub closed spec fn ready(self, request: &[u8]) -> bool {
        match self.responder {
            Responder::Always(responder) => responder.ready(),
            Responder::When(responder) => responder.ready(request),
        }
    }

    /// Whether the given outcome may come of handing the request to the handler.
    pub closed spec fn admits(self, request: &[u8], outcome: OutcomeView) -> bool {
        match self.responder {
            Responder::Always(responder) => {
                &&& outcome is Answered
                &&& responder.admits(outcome->Answered_0)
                &&& tells_delay(outcome->Answered_0)
            },
            Responder::When(responder) => {
                &&& responder.admits(request, outcome)
                &&& outcome matches OutcomeView::Answered(answer) ==> tells_delay(answer)
            },
        }
    }

    /// Whether the handler may fail to decode the request.
    pub open spec fn may_refuse(self, request: &[u8]) -> bool {
        exists|error: StatusView| #[trigger]
            self.admits(request, OutcomeView::Undecodable(error))
    }

    /// A handler that answers every request as a definition says.
    pub(crate) fn always<
        Resp: Send + Sync + 'static,
        E: Fn(&Resp) -> Bytes + Send + Sync + 'static,
    >(
        service: String,
        method: String,
        definition: MockResponseDefinition<Resp>,
        encode: E,
    ) -> (handler: MockHandler)
        ensures
            answers_always(handler, service@, method@, definition, encode),
    {
        proof {
            assert forall|answer: AnswerView|
                definition_admits(definition, encode, answer) implies #[trigger] tells_delay(
                answer,
            ) by {
                law_headers_tell_delay(definition, encode, answer);
            }
        }
        let responder = DefinedResponse { definition, encode };
        MockHandler { service, method, responder: Responder::Always(Box::new(responder)) }
    }

    /// A handler that answers the requests that meet a condition.
    pub(crate) fn when<
        Req: Send + Sync + 'static,
        Resp: Send + Sync + 'static,
        D: Fn(&[u8]) -> Result<Req, MockStatus> + Send + Sync + 'static,
        P: Fn(&Req) -> bool + Send + Sync + 'static,
        E: Fn(&Resp) -> Bytes + Send + Sync + 'static,
    >(
        service: String,
        method: String,
        decode: D,
        predicate: P,
        definition: MockResponseDefinition<Resp>,
        encode: E,
    ) -> (handler: MockHandler)
        ensures
            answers_when(handler, service@, method@, decode, predicate, definition, encode),
    {
        proof {
            assert forall|answer: AnswerView|
                definition_admits(definition, encode, answer) implies #[trigger] tells_delay(
                answer,
            ) by {
                law_headers_tell_delay(definition, encode, answer);
            }
        }
        let responder = PredicateResponse {
            decode,
            predicate,
            definition,
            encode,
            marker: PhantomData::<Req>,
        };
        MockHandler { service, method, responder: Responder::When(Box::new(responder)) }
    }

    /// Tells whether the handler is one for the given method.
    pub(crate) fn is_for(&self, service: &String, method: &String) -> (matching: bool)
        ensures
            matching == self.handles(service@, method@),
    {
        self.service == *service && self.method == *method
    }

    /// Tells whether the handler is one for any request.
    pub(crate) fn answers_any(&self) -> (any: bool)
        ensures
            any == self.is_static(),
    {
        match &self.responder {
            Responder::Always(_) => true,
            Responder::When(_) => false,
        }
    }

    /// Handles a request.
    pub(crate) fn handle(&self, request_bytes: &[u8]) -> (outcome: Outcome)
        requires
            self.ready(request_bytes),
        ensures
            self.admits(request_bytes, outcome@),
    {
        match &self.responder {
            Responder::Always(responder) => Outcome::Answered(responder.respond()),
            Responder::When(responder) => responder.respond(request_bytes),
        }
    }
}

/// A static handler answers every request: it passes none on and decodes none.
pub proof fn law_static_handler_answers(
    handler: MockHandler,
    request: &[u8],
    outcome: OutcomeView,
)
    requires
        handler.is_static(),
        handler.admits(request, outcome),
    ensures
        outcome is Answered,
{
}

/// The headers of every response that a handler gives ask for the very delay that the response
/// comes with.
pub proof fn law_handler_headers_tell_delay(
    handler: MockHandler,
    request: &[u8],
    answer: AnswerView,
)
    requires
        handler.admits(request, OutcomeView::Answered(answer)),
    ensures
        answer.0 is Ok ==> answer.1 == reply_delay(answer.0),
{
}

/// Whether a handler is one for the given method alone.
pub open spec fn handles_only(
    handler: MockHandler,
    service: Seq<char>,
    method: Seq<char>,
) -> bool {
    forall|s: Seq<char>, m: Seq<char>| #[trigger]
        handler.handles(s, m) <==> (s == service && m == method)
}

/// Whether a handler answers every request for a method as a definition says.
pub open spec fn answers_always<Resp, E: Fn(&Resp) -> Bytes>(
    handler: MockHandler,
    service: Seq<char>,
    method: Seq<char>,
    definition: MockResponseDefinition<Resp>,
    encode: E,
) -> bool {
    &&& handles_only(handler, service, method)
    &&& handler.is_static()
    &&& forall|request: &[u8]| #[trigger]
        handler.ready(request) <==> definition_ready(definition, encode)
    &&& forall|request: &[u8], outcome: OutcomeView| #[trigger]
        handler.admits(request, outcome) <==> (outcome is Answered && definition_admits(
            definition,
            encode,
            outcome->Answered_0,
        ))
}

/// A handler that answers every request as a definition says is asked for its own method only,
/// and its answers are those of the definition.
pub proof fn law_static_handler_follows_definition<Resp, E: Fn(&Resp) -> Bytes>(
    handler: MockHandler,
    service: Seq<char>,
    method: Seq<char>,
    definition: MockResponseDefinition<Resp>,
    encode: E,
    other_service: Seq<char>,
    other_method: Seq<char>,
    request: &[u8],
    outcome: OutcomeView,
)
    requires
        answers_always(handler, service, method, definition, encode),
    ensures
        handler.handles(other_service, other_method) <==> other_service == service
            && other_method == method,
        handler.is_static(),
        handler.admits(request, outcome) ==> outcome is Answered && definition_admits(
            definition,
            encode,
            outcome->Answered_0,
        ),
{
}

/// Whether a handler answers those requests for a method that meet a condition as a
/// definition says, and passes the others on.
pub open spec fn answers_when<
    Req,
    Resp,
    D: Fn(&[u8]) -> Result<Req, MockStatus>,
    P: Fn(&Req) -> bool,
    E: Fn(&Resp) -> Bytes,
>(
    handler: MockHandler,
    service: Seq<char>,
    method: Seq<char>,
    decode: D,
    predicate: P,
    definition: MockResponseDefinition<Resp>,
    encode: E,
) -> bool {
    &&& handles_only(handler, service, method)
    &&& !handler.is_static()
    &&& forall|request: &[u8]| #[trigger]
        handler.ready(request) <==> conditional_ready(
            decode,
            predicate,
            definition,
            encode,
            request,
        )
    &&& forall|request: &[u8], outcome: OutcomeView| #[trigger]
        handler.admits(request, outcome) <==> conditional_admits(
            decode,
            predicate,
            definition,
            encode,
            request,
            outcome,
        )
}

/// A handler for the requests that meet a condition is asked for its own method only. It handles
/// what decoding the request gave.
pub proof fn law_conditional_handler_follows_condition<
    Req,
    Resp,
    D: Fn(&[u8]) -> Result<Req, MockStatus>,
    P: Fn(&Req) -> bool,
    E: Fn(&Resp) -> Bytes,
>(
    handler: MockHandler,
    service: Seq<char>,
    method: Seq<char>,
    decode: D,
    predicate: P,
    definition: MockResponseDefinition<Resp>,
    encode: E,
    other_service: Seq<char>,
    other_method: Seq<char>,
    request: &[u8],
    outcome: OutcomeView,
)
    requires
        answers_when(handler, service, method, decode, predicate, definition, encode),
    ensures
        handler.handles(other_service, other_method) <==> other_service == service
            && other_method == method,
        !handler.is_static(),
        handler.admits(request, outcome) ==> exists|decoded: Result<Req, MockStatus>| #[trigger]
            call_ensures(decode, (request,), decoded) && condition_admits(
                decoded,
                predicate,
                definition,
                encode,
                outcome,
            ),
{
}

} // verus!
