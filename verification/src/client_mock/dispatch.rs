//! How the handlers of a client answer a request.

use super::handler::MockHandler;
use super::response::MockResponseDefinition;
use super::status::MockStatus;
use bytes::Bytes;
use vstd::prelude::*;
use vstd::string::StringExecFns;

verus! {

use super::handler::{answers_always, answers_when, condition_admits, definition_admits,
    law_answer_has_no_other_headers, law_defined_metadata_reaches_answer,
    law_handler_headers_tell_delay, tells_delay, AnswerView, OutcomeView};
use super::headers::{lower_name, valid_header_value};
use super::response::{reply_delay, ReplyView};
use super::status::{plain_status, Code, StatusView};
use vstd::utf8::encode_utf8;

/// The message of the status for a method that nothing answers for.
pub open spec fn no_handler_message(service: Seq<char>, method: Seq<char>) -> Seq<char> {
    "No mock handler configured for "@ + service + "::"@ + method
}

/// The status for a method that nothing answers for.
pub(crate) fn no_handler_status(service_name: &str, method_name: &str) -> (status: MockStatus)
    ensures
        status@ == plain_status(
            Code::Unimplemented,
            no_handler_message(service_name@, method_name@),
        ),
{
    let mut message = "No mock handler configured for ".to_string();
    message.append(service_name);
    message.append("::");
    message.append(method_name);
    MockStatus::unimplemented(message)
}

/// An error that comes without a delay.
pub open spec fn plain_error(error: StatusView) -> AnswerView {
    (ReplyView::Err(error), None)
}

/// The answer to a request that nothing answers for.
pub open spec fn no_handler_answer(service: Seq<char>, method: Seq<char>) -> AnswerView {
    plain_error(plain_status(Code::Unimplemented, no_handler_message(service, method)))
}

/// Whether the default for a request, if there is one, can answer it.
pub open spec fn default_ready(default: Option<MockHandler>, request: &[u8]) -> bool {
    default matches Some(handler) ==> handler.ready(request)
}

/// The answers of the default for a request. Without one, the error is the answer.
pub open spec fn default_admits(
    default: Option<MockHandler>,
    request: &[u8],
    error: AnswerView,
    answer: AnswerView,
) -> bool {
    match default {
        Some(handler) => handler.admits(request, OutcomeView::Answered(answer)),
        None => answer == error,
    }
}

/// The default once a static handler was found: the one that was found first, which is the
/// newest, stays.
pub open spec fn default_or(default: Option<MockHandler>, handler: MockHandler) -> Option<
    MockHandler,
> {
    if default is Some {
        default
    } else {
        Some(handler)
    }
}

/// Whether handlers can answer a request. They are searched as `search_admits` says; those
/// that can be reached have to be able to handle the request.
pub open spec fn search_ready(
    handlers: Seq<MockHandler>,
    default: Option<MockHandler>,
    service: Seq<char>,
    method: Seq<char>,
    request: &[u8],
) -> bool
    decreases handlers.len(),
{
    if handlers.len() == 0 {
        default_ready(default, request)
    } else {
        let newest = handlers.last();
        let older = handlers.drop_last();
        if !newest.handles(service, method) {
            search_ready(older, default, service, method, request)
        } else if newest.is_static() {
            search_ready(older, default_or(default, newest), service, method, request)
        } else {
            &&& newest.ready(request)
            &&& newest.may_refuse(request) ==> default_ready(default, request)
            &&& newest.admits(request, OutcomeView::PassedOn) ==> search_ready(
                older,
                default,
                service,
                method,
                request,
            )
        }
    }
}

/// The answers that handlers may give to a request. They are searched from the newest, which
/// is the last, to the oldest. `default` is the newest static handler for the method that was
/// passed on the way.
///
/// The first condition that the request meets gives the answer. Where the request meets none,
/// or comes to a condition that it cannot be decoded for, the default answers. If there is no
/// default then, the error is the answer.
pub open spec fn search_admits(
    handlers: Seq<MockHandler>,
    default: Option<MockHandler>,
    service: Seq<char>,
    method: Seq<char>,
    request: &[u8],
    answer: AnswerView,
) -> bool
    decreases handlers.len(),
{
    if handlers.len() == 0 {
        default_admits(default, request, no_handler_answer(service, method), answer)
    } else {
        let newest = handlers.last();
        let older = handlers.drop_last();
        if !newest.handles(service, method) {
            search_admits(older, default, service, method, request, answer)
        } else if newest.is_static() {
            search_admits(older, default_or(default, newest), service, method, request, answer)
        } else {
            ||| newest.admits(request, OutcomeView::Answered(answer))
            ||| exists|error: StatusView| #[trigger]
                newest.admits(request, OutcomeView::Undecodable(error)) && default_admits(
                    default,
                    request,
                    plain_error(error),
                    answer,
                )
            ||| newest.admits(request, OutcomeView::PassedOn) && search_admits(
                older,
                default,
                service,
                method,
                request,
                answer,
            )
        }
    }
}

/// Whether the handlers of a client, in the order in which they were added, can answer a
/// request.
pub open spec fn dispatch_ready(
    handlers: Seq<MockHandler>,
    service: Seq<char>,
    method: Seq<char>,
    request: &[u8],
) -> bool {
    search_ready(handlers, None, service, method, request)
}

/// The answers that the handlers of a client, in the order in which they were added, may give
/// to a request.
pub open spec fn dispatches(
    handlers: Seq<MockHandler>,
    service: Seq<char>,
    method: Seq<char>,
    request: &[u8],
    answer: AnswerView,
) -> bool {
    search_admits(handlers, None, service, method, request, answer)
}

/// Whether no handler is a static one for the method.
pub open spec fn no_static_handlers(
    handlers: Seq<MockHandler>,
    service: Seq<char>,
    method: Seq<char>,
) -> bool {
    forall|i: int|
        0 <= i < handlers.len() && (#[trigger] handlers[i]).handles(service, method)
            ==> !handlers[i].is_static()
}

/// Whether the request is known to meet none of the conditions for the method.
pub open spec fn conditions_unmet(
    handlers: Seq<MockHandler>,
    service: Seq<char>,
    method: Seq<char>,
    request: &[u8],
) -> bool {
    forall|i: int, outcome: OutcomeView|
        0 <= i < handlers.len() && handlers[i].handles(service, method) && !handlers[i].is_static()
            && #[trigger] handlers[i].admits(request, outcome) ==> outcome is PassedOn
}

/// Whether the request is not known to meet any of the conditions for the method: it meets
/// none, as far as it can be decoded.
pub open spec fn conditions_silent(
    handlers: Seq<MockHandler>,
    service: Seq<char>,
    method: Seq<char>,
    request: &[u8],
) -> bool {
    forall|i: int, outcome: OutcomeView|
        0 <= i < handlers.len() && handlers[i].handles(service, method) && !handlers[i].is_static()
            && #[trigger] handlers[i].admits(request, outcome) ==> !(outcome is Answered)
}

/// A method that no handler is for is answered with the status "unimplemented", which names
/// the service and the method. So is every method of a client that was reset.
pub proof fn law_unmocked_method(
    handlers: Seq<MockHandler>,
    service: Seq<char>,
    method: Seq<char>,
    request: &[u8],
    answer: AnswerView,
)
    requires
        forall|i: int|
            0 <= i < handlers.len() ==> !(#[trigger] handlers[i]).handles(service, method),
    ensures
        dispatch_ready(handlers, service, method, request),
        dispatches(handlers, service, method, request, answer) <==> answer == no_handler_answer(
            service,
            method,
        ),
        dispatches(handlers, service, method, request, answer) ==> answer.0 is Err
            && answer.0->Err_0.code == Code::Unimplemented && answer.0->Err_0.message
            == "No mock handler configured for "@ + service + "::"@ + method
            && answer.0->Err_0.details.len() == 0 && answer.0->Err_0.metadata == Map::<
            Seq<char>,
            Seq<Seq<u8>>,
        >::empty() && answer.0->Err_0.source is None && answer.1 is None,
    decreases handlers.len(),
{
    if handlers.len() > 0 {
        let older = handlers.drop_last();
        assert forall|i: int| 0 <= i < older.len() implies !(#[trigger] older[i]).handles(
            service,
            method,
        ) by {
            assert(older[i] == handlers[i]);
        }
        assert(handlers.last() == handlers[handlers.len() - 1]);
        law_unmocked_method(older, service, method, request, answer);
    }
}

proof fn lemma_other_methods_unaffected(
    before: Seq<MockHandler>,
    handler: MockHandler,
    after: Seq<MockHandler>,
    default: Option<MockHandler>,
    service: Seq<char>,
    method: Seq<char>,
    request: &[u8],
    answer: AnswerView,
)
    requires
        !handler.handles(service, method),
    ensures
        search_ready(before.push(handler) + after, default, service, method, request)
            <==> search_ready(before + after, default, service, method, request),
        search_admits(before.push(handler) + after, default, service, method, request, answer)
            <==> search_admits(before + after, default, service, method, request, answer),
    decreases after.len(),
{
    let with = before.push(handler) + after;
    let without = before + after;
    if after.len() == 0 {
        assert(with.drop_last() =~= before);
        assert(with.last() == handler);
        assert(without =~= before);
    } else {
        let older = after.drop_last();
        assert(with.drop_last() =~= before.push(handler) + older);
        assert(without.drop_last() =~= before + older);
        assert(with.last() == after.last() && without.last() == after.last());
        let next = if after.last().handles(service, method) && after.last().is_static() {
            default_or(default, after.last())
        } else {
            default
        };
        lemma_other_methods_unaffected(
            before,
            handler,
            older,
            next,
            service,
            method,
            request,
            answer,
        );
    }
}

/// A handler changes nothing for the methods that it is not for, wherever it stands among the
/// handlers.
pub proof fn law_other_methods_unaffected(
    before: Seq<MockHandler>,
    handler: MockHandler,
    after: Seq<MockHandler>,
    service: Seq<char>,
    method: Seq<char>,
    request: &[u8],
    answer: AnswerView,
)
    requires
        !handler.handles(service, method),
    ensures
        dispatch_ready(before.push(handler) + after, service, method, request)
            <==> dispatch_ready(before + after, service, method, request),
        dispatches(before.push(handler) + after, service, method, request, answer)
            <==> dispatches(before + after, service, method, request, answer),
{
    lemma_other_methods_unaffected(
        before,
        handler,
        after,
        None,
        service,
        method,
        request,
        answer,
    );
}

proof fn lemma_ready_handlers_can_answer(
    handlers: Seq<MockHandler>,
    default: Option<MockHandler>,
    service: Seq<char>,
    method: Seq<char>,
    request: &[u8],
)
    requires
        default_ready(default, request),
        forall|i: int|
            0 <= i < handlers.len() && (#[trigger] handlers[i]).handles(service, method)
                ==> handlers[i].ready(request),
    ensures
        search_ready(handlers, default, service, method, request),
    decreases handlers.len(),
{
    if handlers.len() > 0 {
        let older = handlers.drop_last();
        let newest = handlers.last();
        assert(newest == handlers[handlers.len() - 1]);
        assert forall|i: int|
            0 <= i < older.len() && (#[trigger] older[i]).handles(
                service,
                method,
            ) implies older[i].ready(request) by {
            assert(older[i] == handlers[i]);
        }
        let next = if newest.handles(service, method) && newest.is_static() {
            default_or(default, newest)
        } else {
            default
        };
        lemma_ready_handlers_can_answer(older, next, service, method, request);
    }
}

/// A client can answer a request if all its handlers for the method can handle it.
pub proof fn law_ready_handlers_can_answer(
    handlers: Seq<MockHandler>,
    service: Seq<char>,
    method: Seq<char>,
    request: &[u8],
)
    requires
        forall|i: int|
            0 <= i < handlers.len() && (#[trigger] handlers[i]).handles(service, method)
                ==> handlers[i].ready(request),
    ensures
        dispatch_ready(handlers, service, method, request),
{
    lemma_ready_handlers_can_answer(handlers, None, service, method, request);
}

/// The default after a search through all of the handlers.
spec fn searched_default(
    handlers: Seq<MockHandler>,
    default: Option<MockHandler>,
    service: Seq<char>,
    method: Seq<char>,
) -> Option<MockHandler>
    decreases handlers.len(),
{
    if handlers.len() == 0 {
        default
    } else {
        let newest = handlers.last();
        let next = if newest.handles(service, method) && newest.is_static() {
            default_or(default, newest)
        } else {
            default
        };
        searched_default(handlers.drop_last(), next, service, method)
    }
}

proof fn lemma_default_stays(
    handlers: Seq<MockHandler>,
    default: Option<MockHandler>,
    service: Seq<char>,
    method: Seq<char>,
)
    requires
        default is Some || no_static_handlers(handlers, service, method),
    ensures
        searched_default(handlers, default, service, method) == default,
    decreases handlers.len(),
{
    if handlers.len() > 0 {
        let older = handlers.drop_last();
        assert(handlers.last() == handlers[handlers.len() - 1]);
        if default is None {
            assert forall|i: int|
                0 <= i < older.len() && (#[trigger] older[i]).handles(
                    service,
                    method,
                ) implies !older[i].is_static() by {
                assert(older[i] == handlers[i]);
            }
        }
        lemma_default_stays(older, default, service, method);
    }
}

/// A search goes past the conditions that the request does not meet.
proof fn lemma_search_goes_on(
    before: Seq<MockHandler>,
    after: Seq<MockHandler>,
    default: Option<MockHandler>,
    service: Seq<char>,
    method: Seq<char>,
    request: &[u8],
    answer: AnswerView,
)
    requires
        conditions_unmet(after, service, method, request),
        search_admits(before + after, default, service, method, request, answer),
    ensures
        search_admits(
            before,
            searched_default(after, default, service, method),
            service,
            method,
            request,
            answer,
        ),
    decreases after.len(),
{
    let all = before + after;
    if after.len() == 0 {
        assert(all =~= before);
    } else {
        let newest = after.last();
        let older = after.drop_last();
        assert(newest == after[after.len() - 1]);
        assert(all.last() == newest);
        assert(all.drop_last() =~= before + older);
        assert forall|i: int, outcome: OutcomeView|
            0 <= i < older.len() && older[i].handles(service, method) && !older[i].is_static()
                && #[trigger] older[i].admits(request, outcome) implies outcome is PassedOn by {
            assert(after[i].admits(request, outcome));
        }
        let next = if newest.handles(service, method) && newest.is_static() {
            default_or(default, newest)
        } else {
            default
        };
        if newest.handles(service, method) && !newest.is_static() {
            assert(!after[after.len() - 1].admits(request, OutcomeView::Answered(answer)));
            assert forall|error: StatusView| !#[trigger] newest.admits(
                request,
                OutcomeView::Undecodable(error),
            ) by {
                assert(!after[after.len() - 1].admits(request, OutcomeView::Undecodable(error)));
            }
        }
        lemma_search_goes_on(before, older, next, service, method, request, answer);
    }
}

/// A default answers where no condition does.
proof fn lemma_default_answers(
    handlers: Seq<MockHandler>,
    default: MockHandler,
    service: Seq<char>,
    method: Seq<char>,
    request: &[u8],
    answer: AnswerView,
)
    requires
        conditions_silent(handlers, service, method, request),
        search_admits(handlers, Some(default), service, method, request, answer),
    ensures
        default.admits(request, OutcomeView::Answered(answer)),
    decreases handlers.len(),
{
    if handlers.len() > 0 {
        let newest = handlers.last();
        let older = handlers.drop_last();
        assert(newest == handlers[handlers.len() - 1]);
        if newest.handles(service, method) && !newest.is_static() {
            assert(!handlers[handlers.len() - 1].admits(request, OutcomeView::Answered(answer)));
        }
        assert forall|i: int, outcome: OutcomeView|
            0 <= i < older.len() && older[i].handles(service, method) && !older[i].is_static()
                && #[trigger] older[i].admits(request, outcome) implies !(outcome is Answered) by {
            assert(handlers[i].admits(request, outcome));
        }
        if search_admits(older, Some(default), service, method, request, answer) {
            lemma_default_answers(older, default, service, method, request, answer);
        }
    }
}

/// A static response is the answer to every request for its method that meets no condition,
/// until another static response for the method is added: the defined status, or the encoded
/// response with the defined metadata and delay in its headers, after the defined delay. A
/// condition that is older than the static response need not even be able to decode the
/// request.
pub proof fn law_static_response_answers<Resp, E: Fn(&Resp) -> Bytes>(
    before: Seq<MockHandler>,
    handler: MockHandler,
    after: Seq<MockHandler>,
    service: Seq<char>,
    method: Seq<char>,
    definition: MockResponseDefinition<Resp>,
    encode: E,
    request: &[u8],
    answer: AnswerView,
)
    requires
        answers_always(handler, service, method, definition, encode),
        forall|i: int, outcome: OutcomeView|
            0 <= i < before.len() && before[i].handles(service, method) && !before[i].is_static()
                && #[trigger] before[i].admits(request, outcome) ==> !(outcome is Answered),
        forall|i: int, outcome: OutcomeView|
            0 <= i < after.len() && after[i].handles(service, method) && !after[i].is_static()
                && #[trigger] after[i].admits(request, outcome) ==> outcome is PassedOn,
        forall|i: int|
            0 <= i < after.len() && (#[trigger] after[i]).handles(service, method)
                ==> !after[i].is_static(),
        dispatches(before.push(handler) + after, service, method, request, answer),
    ensures
        definition_admits(definition, encode, answer),
        definition.status matches Some(status) ==> answer.0 == ReplyView::Err(status@),
        definition.status is None && definition.response is Some ==> answer.0 is Ok
            && call_ensures(encode, (&definition.response->0,), answer.0->Ok_0.0),
        definition.delay_ms matches Some(delay) ==> answer.1 == if delay > 0 {
            Some(delay)
        } else {
            None
        },
{
    assert(handler.handles(service, method));
    lemma_search_goes_on(before.push(handler), after, None, service, method, request, answer);
    lemma_default_stays(after, None, service, method);
    assert(before.push(handler).drop_last() =~= before);
    lemma_default_answers(before, handler, service, method, request, answer);
    assert(handler.admits(request, OutcomeView::Answered(answer)));
}

/// A conditional response is the answer to a request for its method that meets its condition
/// and no condition that was added later. Static responses change nothing about that, whether
/// they were added before it or after it.
pub proof fn law_conditional_response_answers<
    Req,
    Resp,
    D: Fn(&[u8]) -> Result<Req, MockStatus>,
    P: Fn(&Req) -> bool,
    E: Fn(&Resp) -> Bytes,
>(
    before: Seq<MockHandler>,
    handler: MockHandler,
    after: Seq<MockHandler>,
    service: Seq<char>,
    method: Seq<char>,
    decode: D,
    predicate: P,
    definition: MockResponseDefinition<Resp>,
    encode: E,
    request: &[u8],
    answer: AnswerView,
)
    requires
        answers_when(handler, service, method, decode, predicate, definition, encode),
        forall|d: Result<Req, MockStatus>| #[trigger]
            call_ensures(decode, (request,), d) ==> d is Ok && !call_ensures(
                predicate,
                (&d->Ok_0,),
                false,
            ),
        forall|i: int, outcome: OutcomeView|
            0 <= i < after.len() && after[i].handles(service, method) && !after[i].is_static()
                && #[trigger] after[i].admits(request, outcome) ==> outcome is PassedOn,
        dispatches(before.push(handler) + after, service, method, request, answer),
    ensures
        definition_admits(definition, encode, answer),
        definition.status matches Some(status) ==> answer.0 == ReplyView::Err(status@),
        definition.status is None && definition.response is Some ==> answer.0 is Ok
            && call_ensures(encode, (&definition.response->0,), answer.0->Ok_0.0),
        definition.delay_ms matches Some(delay) ==> answer.1 == if delay > 0 {
            Some(delay)
        } else {
            None
        },
{
    assert(handler.handles(service, method));
    lemma_search_goes_on(before.push(handler), after, None, service, method, request, answer);
    assert forall|o: OutcomeView| #[trigger] handler.admits(request, o) implies o is Answered
        && definition_admits(definition, encode, o->Answered_0) by {
        let d = choose|d: Result<Req, MockStatus>| #[trigger]
            call_ensures(decode, (request,), d) && condition_admits(
                d,
                predicate,
                definition,
                encode,
                o,
            );
    }
    assert(handler.admits(request, OutcomeView::Answered(answer)));
}

/// Where a static response is the answer, every metadata pair of its definition that has a valid
/// value and is the last such pair under its name stands in the headers of the answer.
pub proof fn law_static_response_keeps_metadata<Resp, E: Fn(&Resp) -> Bytes>(
    before: Seq<MockHandler>,
    handler: MockHandler,
    after: Seq<MockHandler>,
    service: Seq<char>,
    method: Seq<char>,
    definition: MockResponseDefinition<Resp>,
    encode: E,
    request: &[u8],
    answer: AnswerView,
    last: int,
)
    requires
        answers_always(handler, service, method, definition, encode),
        forall|i: int, outcome: OutcomeView|
            0 <= i < before.len() && before[i].handles(service, method) && !before[i].is_static()
                && #[trigger] before[i].admits(request, outcome) ==> !(outcome is Answered),
        forall|i: int, outcome: OutcomeView|
            0 <= i < after.len() && after[i].handles(service, method) && !after[i].is_static()
                && #[trigger] after[i].admits(request, outcome) ==> outcome is PassedOn,
        forall|i: int|
            0 <= i < after.len() && (#[trigger] after[i]).handles(service, method)
                ==> !after[i].is_static(),
        dispatches(before.push(handler) + after, service, method, request, answer),
        definition.status is None,
        definition.response is Some,
        0 <= last < definition.metadata_pairs@.len(),
        valid_header_value(encode_utf8(definition.metadata_pairs@[last].1@)),
        forall|i: int|
            last < i < definition.metadata_pairs@.len() && valid_header_value(
                encode_utf8((#[trigger] definition.metadata_pairs@[i]).1@),
            ) ==> lower_name(definition.metadata_pairs@[i].0@) != lower_name(
                definition.metadata_pairs@[last].0@,
            ),
        definition.delay_ms is None || lower_name(definition.metadata_pairs@[last].0@)
            != "mock-delay-ms"@,
    ensures
        answer.0 is Ok,
        answer.0->Ok_0.1.contains_key(lower_name(definition.metadata_pairs@[last].0@)),
        answer.0->Ok_0.1[lower_name(definition.metadata_pairs@[last].0@)] == seq![
            encode_utf8(definition.metadata_pairs@[last].1@),
        ],
{
    law_static_response_answers(
        before,
        handler,
        after,
        service,
        method,
        definition,
        encode,
        request,
        answer,
    );
    law_defined_metadata_reaches_answer(definition, encode, answer, last);
}

/// Where a static response is the answer, its headers hold nothing but the metadata and the
/// delay of its definition.
pub proof fn law_static_response_has_no_other_headers<Resp, E: Fn(&Resp) -> Bytes>(
    before: Seq<MockHandler>,
    handler: MockHandler,
    after: Seq<MockHandler>,
    service: Seq<char>,
    method: Seq<char>,
    definition: MockResponseDefinition<Resp>,
    encode: E,
    request: &[u8],
    answer: AnswerView,
    name: Seq<char>,
)
    requires
        answers_always(handler, service, method, definition, encode),
        forall|i: int, outcome: OutcomeView|
            0 <= i < before.len() && before[i].handles(service, method) && !before[i].is_static()
                && #[trigger] before[i].admits(request, outcome) ==> !(outcome is Answered),
        forall|i: int, outcome: OutcomeView|
            0 <= i < after.len() && after[i].handles(service, method) && !after[i].is_static()
                && #[trigger] after[i].admits(request, outcome) ==> outcome is PassedOn,
        forall|i: int|
            0 <= i < after.len() && (#[trigger] after[i]).handles(service, method)
                ==> !after[i].is_static(),
        dispatches(before.push(handler) + after, service, method, request, answer),
        answer.0 is Ok,
        answer.0->Ok_0.1.contains_key(name),
    ensures
        (definition.delay_ms is Some && name == "mock-delay-ms"@) || exists|i: int|
            0 <= i < definition.metadata_pairs@.len() && lower_name(
                (#[trigger] definition.metadata_pairs@[i]).0@,
            ) == name && valid_header_value(encode_utf8(definition.metadata_pairs@[i].1@))
                && answer.0->Ok_0.1[name] == seq![
                encode_utf8(definition.metadata_pairs@[i].1@),
            ],
{
    law_static_response_answers(
        before,
        handler,
        after,
        service,
        method,
        definition,
        encode,
        request,
        answer,
    );
    law_answer_has_no_other_headers(definition, encode, answer, name);
}

/// Where a conditional response is the answer, every metadata pair of its definition that has a
/// valid value and is the last such pair under its name stands in the headers of the answer.
pub proof fn law_conditional_response_keeps_metadata<
    Req,
    Resp,
    D: Fn(&[u8]) -> Result<Req, MockStatus>,
    P: Fn(&Req) -> bool,
    E: Fn(&Resp) -> Bytes,
>(
    before: Seq<MockHandler>,
    handler: MockHandler,
    after: Seq<MockHandler>,
    service: Seq<char>,
    method: Seq<char>,
    decode: D,
    predicate: P,
    definition: MockResponseDefinition<Resp>,
    encode: E,
    request: &[u8],
    answer: AnswerView,
    last: int,
)
    requires
        answers_when(handler, service, method, decode, predicate, definition, encode),
        forall|d: Result<Req, MockStatus>| #[trigger]
            call_ensures(decode, (request,), d) ==> d is Ok && !call_ensures(
                predicate,
                (&d->Ok_0,),
                false,
            ),
        forall|i: int, outcome: OutcomeView|
            0 <= i < after.len() && after[i].handles(service, method) && !after[i].is_static()
                && #[trigger] after[i].admits(request, outcome) ==> outcome is PassedOn,
        dispatches(before.push(handler) + after, service, method, request, answer),
        definition.status is None,
        definition.response is Some,
        0 <= last < definition.metadata_pairs@.len(),
        valid_header_value(encode_utf8(definition.metadata_pairs@[last].1@)),
        forall|i: int|
            last < i < definition.metadata_pairs@.len() && valid_header_value(
                encode_utf8((#[trigger] definition.metadata_pairs@[i]).1@),
            ) ==> lower_name(definition.metadata_pairs@[i].0@) != lower_name(
                definition.metadata_pairs@[last].0@,
            ),
        definition.delay_ms is None || lower_name(definition.metadata_pairs@[last].0@)
            != "mock-delay-ms"@,
    ensures
        answer.0 is Ok,
        answer.0->Ok_0.1.contains_key(lower_name(definition.metadata_pairs@[last].0@)),
        answer.0->Ok_0.1[lower_name(definition.metadata_pairs@[last].0@)] == seq![
            encode_utf8(definition.metadata_pairs@[last].1@),
        ],
{
    law_conditional_response_answers(
        before,
        handler,
        after,
        service,
        method,
        decode,
        predicate,
        definition,
        encode,
        request,
        answer,
    );
    law_defined_metadata_reaches_answer(definition, encode, answer, last);
}

/// Where a conditional response is the answer, its headers hold nothing but the metadata and the
/// delay of its definition.
pub proof fn law_conditional_response_has_no_other_headers<
    Req,
    Resp,
    D: Fn(&[u8]) -> Result<Req, MockStatus>,
    P: Fn(&Req) -> bool,
    E: Fn(&Resp) -> Bytes,
>(
    before: Seq<MockHandler>,
    handler: MockHandler,
    after: Seq<MockHandler>,
    service: Seq<char>,
    method: Seq<char>,
    decode: D,
    predicate: P,
    definition: MockResponseDefinition<Resp>,
    encode: E,
    request: &[u8],
    answer: AnswerView,
    name: Seq<char>,
)
    requires
        answers_when(handler, service, method, decode, predicate, definition, encode),
        forall|d: Result<Req, MockStatus>| #[trigger]
            call_ensures(decode, (request,), d) ==> d is Ok && !call_ensures(
                predicate,
                (&d->Ok_0,),
                false,
            ),
        forall|i: int, outcome: OutcomeView|
            0 <= i < after.len() && after[i].handles(service, method) && !after[i].is_static()
                && #[trigger] after[i].admits(request, outcome) ==> outcome is PassedOn,
        dispatches(before.push(handler) + after, service, method, request, answer),
        answer.0 is Ok,
        answer.0->Ok_0.1.contains_key(name),
    ensures
        (definition.delay_ms is Some && name == "mock-delay-ms"@) || exists|i: int|
            0 <= i < definition.metadata_pairs@.len() && lower_name(
                (#[trigger] definition.metadata_pairs@[i]).0@,
            ) == name && valid_header_value(encode_utf8(definition.metadata_pairs@[i].1@))
                && answer.0->Ok_0.1[name] == seq![
                encode_utf8(definition.metadata_pairs@[i].1@),
            ],
{
    law_conditional_response_answers(
        before,
        handler,
        after,
        service,
        method,
        decode,
        predicate,
        definition,
        encode,
        request,
        answer,
    );
    law_answer_has_no_other_headers(definition, encode, answer, name);
}

/// A request that meets none of the conditions for its method, where there is no static
/// response for the method, is answered like a request for a method that nothing is for.
pub proof fn law_unmet_conditions_answer_nothing(
    handlers: Seq<MockHandler>,
    service: Seq<char>,
    method: Seq<char>,
    request: &[u8],
    answer: AnswerView,
)
    requires
        forall|i: int|
            0 <= i < handlers.len() && (#[trigger] handlers[i]).handles(service, method)
                ==> !handlers[i].is_static(),
        forall|i: int, outcome: OutcomeView|
            0 <= i < handlers.len() && handlers[i].handles(service, method) && !handlers[i].is_static()
                && #[trigger] handlers[i].admits(request, outcome) ==> outcome is PassedOn,
        dispatches(handlers, service, method, request, answer),
    ensures
        answer.0 is Err,
        answer.0->Err_0.code == Code::Unimplemented,
        answer.0->Err_0.message == "No mock handler configured for "@ + service + "::"@ + method,
        answer.0->Err_0.details.len() == 0,
        answer.0->Err_0.metadata == Map::<Seq<char>, Seq<Seq<u8>>>::empty(),
        answer.0->Err_0.source is None,
        answer.1 is None,
{
    let none = Seq::<MockHandler>::empty();
    assert(none + handlers =~= handlers);
    lemma_search_goes_on(none, handlers, None, service, method, request, answer);
    lemma_default_stays(handlers, None, service, method);
}

proof fn lemma_unmet_condition_falls_through(
    before: Seq<MockHandler>,
    handler: MockHandler,
    after: Seq<MockHandler>,
    default: Option<MockHandler>,
    service: Seq<char>,
    method: Seq<char>,
    request: &[u8],
    answer: AnswerView,
)
    requires
        !handler.is_static(),
        forall|o: OutcomeView| #[trigger] handler.admits(request, o) ==> o is PassedOn,
        search_admits(before.push(handler) + after, default, service, method, request, answer),
    ensures
        search_admits(before + after, default, service, method, request, answer),
    decreases after.len(),
{
    let with = before.push(handler) + after;
    let without = before + after;
    if after.len() == 0 {
        assert(with.drop_last() =~= before);
        assert(with.last() == handler);
        assert(without =~= before);
    } else {
        let newest = after.last();
        let older = after.drop_last();
        assert(with.drop_last() =~= before.push(handler) + older);
        assert(without.drop_last() =~= before + older);
        assert(with.last() == newest && without.last() == newest);
        let next = if newest.handles(service, method) && newest.is_static() {
            default_or(default, newest)
        } else {
            default
        };
        if search_admits(with.drop_last(), next, service, method, request, answer) {
            lemma_unmet_condition_falls_through(
                before,
                handler,
                older,
                next,
                service,
                method,
                request,
                answer,
            );
        }
    }
}

/// A conditional response changes nothing for a request that does not meet its condition: the
/// request falls through to the next handler for the method.
pub proof fn law_unmet_condition_falls_through<
    Req,
    Resp,
    D: Fn(&[u8]) -> Result<Req, MockStatus>,
    P: Fn(&Req) -> bool,
    E: Fn(&Resp) -> Bytes,
>(
    before: Seq<MockHandler>,
    handler: MockHandler,
    after: Seq<MockHandler>,
    service: Seq<char>,
    method: Seq<char>,
    decode: D,
    predicate: P,
    definition: MockResponseDefinition<Resp>,
    encode: E,
    request: &[u8],
    answer: AnswerView,
)
    requires
        answers_when(handler, service, method, decode, predicate, definition, encode),
        forall|d: Result<Req, MockStatus>| #[trigger]
            call_ensures(decode, (request,), d) ==> d is Ok && !call_ensures(
                predicate,
                (&d->Ok_0,),
                true,
            ),
        dispatches(before.push(handler) + after, service, method, request, answer),
    ensures
        dispatches(before + after, service, method, request, answer),
{
    assert forall|o: OutcomeView| #[trigger] handler.admits(request, o) implies o is PassedOn by {
        let d = choose|d: Result<Req, MockStatus>| #[trigger]
            call_ensures(decode, (request,), d) && condition_admits(
                d,
                predicate,
                definition,
                encode,
                o,
            );
    }
    lemma_unmet_condition_falls_through(
        before,
        handler,
        after,
        None,
        service,
        method,
        request,
        answer,
    );
}

/// A handler for requests that it cannot decode does nothing but tell the error.
proof fn lemma_undecodable<
    Req,
    Resp,
    D: Fn(&[u8]) -> Result<Req, MockStatus>,
    P: Fn(&Req) -> bool,
    E: Fn(&Resp) -> Bytes,
>(
    handler: MockHandler,
    service: Seq<char>,
    method: Seq<char>,
    decode: D,
    predicate: P,
    definition: MockResponseDefinition<Resp>,
    encode: E,
    request: &[u8],
    outcome: OutcomeView,
)
    requires
        answers_when(handler, service, method, decode, predicate, definition, encode),
        forall|d: Result<Req, MockStatus>| #[trigger]
            call_ensures(decode, (request,), d) ==> d is Err,
        handler.admits(request, outcome),
    ensures
        outcome is Undecodable,
        exists|d: Result<Req, MockStatus>| #[trigger]
            call_ensures(decode, (request,), d) && d is Err && outcome
                == OutcomeView::Undecodable(d->Err_0@),
{
    let d = choose|d: Result<Req, MockStatus>| #[trigger]
        call_ensures(decode, (request,), d) && condition_admits(
            d,
            predicate,
            definition,
            encode,
            outcome,
        );
    assert(call_ensures(decode, (request,), d));
}

/// A request that cannot be decoded for a condition is answered with the error, if it meets no
/// condition that was added later and no static response was added later.
pub proof fn law_undecodable_request_is_refused<
    Req,
    Resp,
    D: Fn(&[u8]) -> Result<Req, MockStatus>,
    P: Fn(&Req) -> bool,
    E: Fn(&Resp) -> Bytes,
>(
    before: Seq<MockHandler>,
    handler: MockHandler,
    after: Seq<MockHandler>,
    service: Seq<char>,
    method: Seq<char>,
    decode: D,
    predicate: P,
    definition: MockResponseDefinition<Resp>,
    encode: E,
    request: &[u8],
    error: StatusView,
    answer: AnswerView,
)
    requires
        answers_when(handler, service, method, decode, predicate, definition, encode),
        forall|d: Result<Req, MockStatus>| #[trigger]
            call_ensures(decode, (request,), d) ==> d is Err && d->Err_0@ == error,
        forall|i: int, outcome: OutcomeView|
            0 <= i < after.len() && after[i].handles(service, method) && !after[i].is_static()
                && #[trigger] after[i].admits(request, outcome) ==> outcome is PassedOn,
        forall|i: int|
            0 <= i < after.len() && (#[trigger] after[i]).handles(service, method)
                ==> !after[i].is_static(),
        dispatches(before.push(handler) + after, service, method, request, answer),
    ensures
        answer.0 == ReplyView::Err(error),
        answer.1 is None,
{
    assert(handler.handles(service, method));
    lemma_search_goes_on(before.push(handler), after, None, service, method, request, answer);
    lemma_default_stays(after, None, service, method);
    assert forall|o: OutcomeView| #[trigger] handler.admits(request, o) implies o
        == OutcomeView::Undecodable(error) by {
        lemma_undecodable(
            handler,
            service,
            method,
            decode,
            predicate,
            definition,
            encode,
            request,
            o,
        );
    }
}

/// A request that cannot be decoded for a condition is answered by the newest static response,
/// if that was added after the condition and the request meets no condition that was added
/// later.
pub proof fn law_undecodable_request_goes_to_static_response<
    Req,
    Cond,
    Resp,
    D: Fn(&[u8]) -> Result<Req, MockStatus>,
    P: Fn(&Req) -> bool,
    C: Fn(&Cond) -> Bytes,
    E: Fn(&Resp) -> Bytes,
>(
    before: Seq<MockHandler>,
    condition: MockHandler,
    between: Seq<MockHandler>,
    handler: MockHandler,
    after: Seq<MockHandler>,
    service: Seq<char>,
    method: Seq<char>,
    decode: D,
    predicate: P,
    conditional_definition: MockResponseDefinition<Cond>,
    conditional_encode: C,
    definition: MockResponseDefinition<Resp>,
    encode: E,
    request: &[u8],
    answer: AnswerView,
)
    requires
        answers_when(
            condition,
            service,
            method,
            decode,
            predicate,
            conditional_definition,
            conditional_encode,
        ),
        forall|d: Result<Req, MockStatus>| #[trigger]
            call_ensures(decode, (request,), d) ==> d is Err,
        forall|i: int, outcome: OutcomeView|
            0 <= i < between.len() && between[i].handles(service, method) && !between[i].is_static()
                && #[trigger] between[i].admits(request, outcome) ==> outcome is PassedOn,
        answers_always(handler, service, method, definition, encode),
        forall|i: int, outcome: OutcomeView|
            0 <= i < after.len() && after[i].handles(service, method) && !after[i].is_static()
                && #[trigger] after[i].admits(request, outcome) ==> outcome is PassedOn,
        forall|i: int|
            0 <= i < after.len() && (#[trigger] after[i]).handles(service, method)
                ==> !after[i].is_static(),
        dispatches(
            before.push(condition) + between.push(handler) + after,
            service,
            method,
            request,
            answer,
        ),
    ensures
        definition_admits(definition, encode, answer),
        definition.status matches Some(status) ==> answer.0 == ReplyView::Err(status@),
        definition.status is None && definition.response is Some ==> answer.0 is Ok
            && call_ensures(encode, (&definition.response->0,), answer.0->Ok_0.0),
        definition.delay_ms matches Some(delay) ==> answer.1 == if delay > 0 {
            Some(delay)
        } else {
            None
        },
{
    let from_condition = before.push(condition);
    let from_handler = from_condition + between.push(handler);
    assert(condition.handles(service, method));
    assert(handler.handles(service, method));
    lemma_search_goes_on(from_handler, after, None, service, method, request, answer);
    lemma_default_stays(after, None, service, method);
    assert(from_handler.last() == handler);
    assert(from_handler.drop_last() =~= from_condition + between);
    lemma_search_goes_on(
        from_condition,
        between,
        Some(handler),
        service,
        method,
        request,
        answer,
    );
    lemma_default_stays(between, Some(handler), service, method);
    assert(from_condition.last() == condition);
    assert forall|o: OutcomeView| #[trigger] condition.admits(request, o) implies o is Undecodable
        by {
        lemma_undecodable(
            condition,
            service,
            method,
            decode,
            predicate,
            conditional_definition,
            conditional_encode,
            request,
            o,
        );
    }
    assert(handler.admits(request, OutcomeView::Answered(answer)));
}

proof fn lemma_headers_tell_delay(
    handlers: Seq<MockHandler>,
    default: Option<MockHandler>,
    service: Seq<char>,
    method: Seq<char>,
    request: &[u8],
    answer: AnswerView,
)
    requires
        search_admits(handlers, default, service, method, request, answer),
    ensures
        tells_delay(answer),
    decreases handlers.len(),
{
    if default is Some && default->0.admits(request, OutcomeView::Answered(answer)) {
        law_handler_headers_tell_delay(default->0, request, answer);
    } else if handlers.len() > 0 {
        let newest = handlers.last();
        let next = if newest.handles(service, method) && newest.is_static() {
            default_or(default, newest)
        } else {
            default
        };
        if newest.admits(request, OutcomeView::Answered(answer)) {
            law_handler_headers_tell_delay(newest, request, answer);
        } else if search_admits(
            handlers.drop_last(),
            next,
            service,
            method,
            request,
            answer,
        ) {
            lemma_headers_tell_delay(
                handlers.drop_last(),
                next,
                service,
                method,
                request,
                answer,
            );
        }
    }
}

/// Whatever handlers a client has, the headers of a response that it gives ask for the very
/// delay that the response comes with. The delays of other handlers do not count.
pub proof fn law_response_headers_tell_delay(
    handlers: Seq<MockHandler>,
    service: Seq<char>,
    method: Seq<char>,
    request: &[u8],
    answer: AnswerView,
)
    requires
        dispatches(handlers, service, method, request, answer),
    ensures
        answer.0 is Ok ==> answer.1 == reply_delay(answer.0),
{
    lemma_headers_tell_delay(handlers, None, service, method, request, answer);
}

/// Whether nothing but one outcome can come of handing the request to a handler.
pub open spec fn one_outcome(handler: MockHandler, request: &[u8]) -> bool {
    forall|a: OutcomeView, b: OutcomeView| #[trigger]
        handler.admits(request, a) && #[trigger] handler.admits(request, b) ==> a == b
}

proof fn lemma_one_answer(
    handlers: Seq<MockHandler>,
    default: Option<MockHandler>,
    service: Seq<char>,
    method: Seq<char>,
    request: &[u8],
    answer: AnswerView,
    other: AnswerView,
)
    requires
        default matches Some(handler) ==> one_outcome(handler, request),
        forall|i: int| 0 <= i < handlers.len() ==> one_outcome(#[trigger] handlers[i], request),
        search_admits(handlers, default, service, method, request, answer),
        search_admits(handlers, default, service, method, request, other),
    ensures
        answer == other,
    decreases handlers.len(),
{
    if handlers.len() > 0 {
        let newest = handlers.last();
        let older = handlers.drop_last();
        assert(one_outcome(handlers[handlers.len() - 1], request));
        assert forall|i: int| 0 <= i < older.len() implies one_outcome(
            #[trigger] older[i],
            request,
        ) by {
            assert(older[i] == handlers[i]);
        }
        let next = if newest.handles(service, method) && newest.is_static() {
            default_or(default, newest)
        } else {
            default
        };
        if search_admits(older, next, service, method, request, answer) && search_admits(
            older,
            next,
            service,
            method,
            request,
            other,
        ) {
            lemma_one_answer(older, next, service, method, request, answer, other);
        }
    }
}

/// Where every handler has one outcome for a request at most, the client has one answer to it
/// at most.
pub proof fn law_one_answer(
    handlers: Seq<MockHandler>,
    service: Seq<char>,
    method: Seq<char>,
    request: &[u8],
    answer: AnswerView,
    other: AnswerView,
)
    requires
        forall|i: int, a: OutcomeView, b: OutcomeView|
            0 <= i < handlers.len() && #[trigger] handlers[i].admits(request, a)
                && #[trigger] handlers[i].admits(request, b) ==> a == b,
        dispatches(handlers, service, method, request, answer),
        dispatches(handlers, service, method, request, other),
    ensures
        answer == other,
{
    assert forall|i: int| 0 <= i < handlers.len() implies one_outcome(
        #[trigger] handlers[i],
        request,
    ) by {
        assert forall|a: OutcomeView, b: OutcomeView| #[trigger]
            handlers[i].admits(request, a) && #[trigger] handlers[i].admits(
                request,
                b,
            ) implies a == b by {}
    }
    lemma_one_answer(handlers, None, service, method, request, answer, other);
}

} // verus!
