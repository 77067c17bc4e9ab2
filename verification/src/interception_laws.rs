//! What comes out of an interception, in terms of the messages that came in.

use vstd::prelude::*;
use vstd::string::*;

use crate::interception::{
    all_digits, claimed, decimal, declared_length, declines, fails, finish_complaint,
    headers_length, null_body_status, received, reports, same_resource, shows, spelled_number,
    start_complaint, steps, unchanged_request, unsigned_part, values_named, without_fragment,
    Destination, Failure, HeaderField, Interception, InterceptionEvent, InterceptionStep,
    NetworkError, Request, TransportResponse, WebResourceRequest, WebResourceResponse,
    WebResourceResponseMsg,
};

verus! {

/// The event is body data.
pub open spec fn is_data(event: InterceptionEvent, data: Seq<u8>) -> bool {
    event matches InterceptionEvent::Message(WebResourceResponseMsg::SendBodyData(own)) && own@
        == data
}

/// The event is the head of a response.
pub open spec fn is_head(event: InterceptionEvent, response: WebResourceResponse) -> bool {
    event == InterceptionEvent::Message(WebResourceResponseMsg::Start(response))
}

/// The pieces in a row.
pub open spec fn concatenated(pieces: Seq<Seq<u8>>) -> Seq<u8>
    decreases pieces.len(),
{
    if pieces.len() == 0 {
        seq![]
    } else {
        concatenated(pieces.drop_last()) + pieces.last()
    }
}

/// An interception that has just begun took these events one after the other, and waits on after
/// each of them.
pub open spec fn is_history(states: Seq<Interception>, events: Seq<InterceptionEvent>) -> bool {
    &&& states.len() == events.len() + 1
    &&& states[0].response is None
    &&& states[0].accumulated_body@.len() == 0
    &&& forall|i: int|
        0 <= i < events.len() ==> steps(
            states[i],
            #[trigger] events[i],
            true,
            Some(states[i + 1]),
            InterceptionStep::Waiting,
        )
}

/// An interception that goes on has had one head first, and then nothing but body data.
pub open spec fn gathered(
    events: Seq<InterceptionEvent>,
    response: WebResourceResponse,
    pieces: Seq<Seq<u8>>,
) -> bool {
    &&& events.len() == pieces.len() + 1
    &&& is_head(events[0], response)
    &&& forall|i: int| 0 <= i < pieces.len() ==> is_data(#[trigger] events[i + 1], pieces[i])
}

proof fn state_of(states: Seq<Interception>, events: Seq<InterceptionEvent>) -> (found: (
    WebResourceResponse,
    Seq<Seq<u8>>,
))
    requires
        is_history(states, events),
        events.len() > 0,
    ensures
        gathered(events, found.0, found.1),
        states.last().response == Some(found.0),
        states.last().accumulated_body@ == concatenated(found.1),
    decreases events.len(),
{
    let n = events.len() - 1;
    let fewer = events.drop_last();
    let before = states.drop_last();
    assert(steps(states[n], events[n], true, Some(states[n + 1]), InterceptionStep::Waiting));
    if n == 0 {
        match events[0] {
            InterceptionEvent::Message(WebResourceResponseMsg::Start(response)) => {
                let pieces = Seq::<Seq<u8>>::empty();
                assert(states.last().accumulated_body@ =~= concatenated(pieces));
                (response, pieces)
            },
            _ => arbitrary(),
        }
    } else {
        assert forall|i: int| 0 <= i < fewer.len() implies steps(
            before[i],
            #[trigger] fewer[i],
            true,
            Some(before[i + 1]),
            InterceptionStep::Waiting,
        ) by {
            assert(fewer[i] == events[i]);
            assert(before[i] == states[i] && before[i + 1] == states[i + 1]);
            assert(steps(states[i], events[i], true, Some(states[i + 1]), InterceptionStep::Waiting));
        }
        let (response, pieces) = state_of(before, fewer);
        assert(before.last() == states[n]);
        match events[n] {
            InterceptionEvent::Message(WebResourceResponseMsg::SendBodyData(data)) => {
                let more = pieces.push(data@);
                assert(more.drop_last() =~= pieces);
                assert forall|i: int| 0 <= i < more.len() implies is_data(
                    #[trigger] events[i + 1],
                    more[i],
                ) by {
                    if i < pieces.len() {
                        assert(fewer[i + 1] == events[i + 1]);
                        assert(is_data(fewer[i + 1], pieces[i]));
                    }
                }
                assert(fewer[0] == events[0]);
                (response, more)
            },
            _ => arbitrary(),
        }
    }
}

/// What a finished interception answers with is what was sent: the status, the reason and the headers
/// of the one head that came first, and as its body everything that was sent as data, in order.
pub proof fn answers_are_what_was_sent(
    states: Seq<Interception>,
    events: Seq<InterceptionEvent>,
    after: Option<Interception>,
    answer: TransportResponse,
)
    requires
        is_history(states, events),
        steps(
            states.last(),
            InterceptionEvent::Message(WebResourceResponseMsg::FinishLoad),
            true,
            after,
            InterceptionStep::Done(Ok(Some(answer))),
        ),
    ensures
        exists|response: WebResourceResponse, pieces: Seq<Seq<u8>>| #[trigger]
            gathered(events, response, pieces) && answer.status_code == response.status_code
                && answer.reason@ == response.status_message@ && answer.headers@
                == response.headers@ && answer.body@ == concatenated(pieces),
{
    if events.len() == 0 {
        assert(states.last() == states[0]);
    } else {
        let (response, pieces) = state_of(states, events);
        assert(gathered(events, response, pieces));
    }
}

/// A finished interception whose head was accepted fails only where the body has another length than
/// the head declared, or the status message cannot be a reason phrase.
pub proof fn finished_answers_are_owed(state: Interception, response: WebResourceResponse)
    requires
        state.response == Some(response),
        state.expected_length matches Some(length) ==> length == state.accumulated_body@.len(),
        forall|i: int|
            0 <= i < response.status_message@.len() ==> {
                let b = #[trigger] response.status_message@[i];
                b == 9 || 32 <= b <= 126 || b >= 128
            },
    ensures
        finish_complaint(state) is None,
{
}

/// A field's value is this text.
pub open spec fn names_length(headers: Seq<HeaderField>, i: int) -> bool {
    0 <= i < headers.len() && headers[i].name@ == "content-length"@
}

/// The headers have a field of this name.
pub open spec fn names_encoding(headers: Seq<HeaderField>) -> bool {
    exists|i: int| 0 <= i < headers.len() && (#[trigger] headers[i]).name@ == "transfer-encoding"@
}

/// Each byte is a decimal digit.
pub open spec fn only_digits(text: Seq<u8>) -> bool {
    forall|i: int| 0 <= i < text.len() ==> 48 <= #[trigger] text[i] <= 57
}

/// What is left of a text without a plus sign in front.
pub open spec fn without_sign(text: Seq<u8>) -> Seq<u8> {
    if text.len() > 0 && text[0] == 43 {
        text.drop_first()
    } else {
        text
    }
}

/// The text spells this number: decimal digits, with or without a plus sign in front.
pub open spec fn spells(text: Seq<u8>, number: u64) -> bool {
    &&& without_sign(text).len() > 0
    &&& only_digits(without_sign(text))
    &&& decimal(without_sign(text)) == number
}

/// One of the length fields has this value.
pub open spec fn is_length_value(headers: Seq<HeaderField>, value: Vec<u8>) -> bool {
    exists|k: int| #[trigger] names_length(headers, k) && headers[k].value == value
}

/// The length that the headers declare is what every such field spells, and there is none exactly
/// where there is no such field.
pub proof fn declared_lengths_are_spelled(headers: Seq<HeaderField>)
    ensures
        headers_length(headers) == Ok::<Option<u64>, ()>(None) <==> forall|i: int|
            !names_length(headers, i),
        forall|number: u64|
            headers_length(headers) == Ok::<Option<u64>, ()>(Some(number)) <==> {
                &&& exists|i: int| names_length(headers, i)
                &&& forall|i: int| #[trigger]
                    names_length(headers, i) ==> spells(headers[i].value@, number)
            },
{
    let name = "content-length"@;
    let values = values_named(headers, name);
    values_are_those_named(headers);
    assert forall|number: u64|
        headers_length(headers) == Ok::<Option<u64>, ()>(Some(number)) <==> {
            &&& exists|i: int| names_length(headers, i)
            &&& forall|i: int| #[trigger]
                names_length(headers, i) ==> spells(headers[i].value@, number)
        } by {
        if headers_length(headers) == Ok::<Option<u64>, ()>(Some(number)) {
            assert(spelled_number(values[0]@) == Some(number));
            assert(is_length_value(headers, values[0]));
            let k = choose|k: int| #[trigger]
                names_length(headers, k) && headers[k].value == values[0];
            assert(names_length(headers, k));
            assert forall|i: int| #[trigger] names_length(headers, i) implies spells(
                headers[i].value@,
                number,
            ) by {
                let v = choose|v: int| 0 <= v < values.len() && values[v] == headers[i].value;
                assert(spelled_number(values[v]@) == Some(number));
                spelled_is_spells(values[v]@, number);
            }
        }
        if (exists|i: int| names_length(headers, i)) && (forall|i: int| #[trigger]
            names_length(headers, i) ==> spells(headers[i].value@, number)) {
            let i = choose|i: int| names_length(headers, i);
            let v = choose|v: int| 0 <= v < values.len() && values[v] == headers[i].value;
            assert(values.len() > 0);
            assert forall|v: int| 0 <= v < values.len() implies spelled_number(
                #[trigger] values[v]@,
            ) == Some(number) by {
                assert(is_length_value(headers, values[v]));
                let k = choose|k: int| #[trigger]
                    names_length(headers, k) && headers[k].value == values[v];
                assert(names_length(headers, k));
                spelled_is_spells(values[v]@, number);
            }
            assert(spelled_number(values[0]@) == Some(number));
        }
    }
    if forall|i: int| !names_length(headers, i) {
        if values.len() > 0 {
            assert(is_length_value(headers, values[0]));
            let k = choose|k: int| #[trigger]
                names_length(headers, k) && headers[k].value == values[0];
            assert(names_length(headers, k));
        }
    }
    if exists|i: int| names_length(headers, i) {
        let i = choose|i: int| names_length(headers, i);
        let v = choose|v: int| 0 <= v < values.len() && values[v] == headers[i].value;
        assert(values.len() > 0);
    }
}

proof fn spelled_is_spells(text: Seq<u8>, number: u64)
    ensures
        spelled_number(text) == Some(number) <==> spells(text, number),
{
    let digits = without_sign(text);
    assert(digits == unsigned_part(text));
    if all_digits(digits) {
        assert(only_digits(digits));
    }
    if only_digits(digits) {
        assert(all_digits(digits));
    }
}

proof fn values_are_those_named(headers: Seq<HeaderField>)
    ensures
        forall|v: int|
            0 <= v < values_named(headers, "content-length"@).len() ==> is_length_value(
                headers,
                #[trigger] values_named(headers, "content-length"@)[v],
            ),
        forall|k: int| #[trigger]
            names_length(headers, k) ==> values_named(headers, "content-length"@).contains(
                headers[k].value,
            ),
    decreases headers.len(),
{
    let name = "content-length"@;
    let values = values_named(headers, name);
    if headers.len() > 0 {
        let fewer = headers.drop_last();
        let n = fewer.len() as int;
        let before = values_named(fewer, name);
        values_are_those_named(fewer);
        assert forall|v: int| 0 <= v < values.len() implies is_length_value(
            headers,
            #[trigger] values[v],
        ) by {
            if v < before.len() {
                assert(values[v] == before[v]);
                assert(is_length_value(fewer, before[v]));
                let k = choose|k: int| #[trigger]
                    names_length(fewer, k) && fewer[k].value == before[v];
                assert(names_length(headers, k));
            } else {
                assert(names_length(headers, n));
            }
        }
        assert forall|k: int| #[trigger] names_length(headers, k) implies values.contains(
            headers[k].value,
        ) by {
            if k < n {
                assert(names_length(fewer, k));
                let v = choose|v: int| 0 <= v < before.len() && before[v] == fewer[k].value;
                assert(values[v] == headers[k].value);
            } else {
                assert(values[values.len() - 1] == headers[k].value);
            }
        }
    }
}

/// A response to this request can have a body: it was not asked for its head only, and its status is
/// none of those without a body.
pub open spec fn allows_body(state: Interception, response: WebResourceResponse) -> bool {
    &&& !state.is_head
    &&& response.status_code != 204
    &&& response.status_code != 205
    &&& response.status_code != 304
}

/// A head is accepted exactly where it is the first, the request has no body that would be lost, it
/// is for the resource that was asked for, it is no interim response, and what it declares of its
/// length is sound: one number, not beside a transfer encoding, no more than the limit where there
/// may be a body, and nothing where there may be none, unless what it describes is not sent.
pub proof fn heads_are_accepted_where_they_are_sound(
    state: Interception,
    response: WebResourceResponse,
    same_url: bool,
)
    ensures
        start_complaint(state, response, same_url) is None <==> {
            &&& state.response is None
            &&& !state.request_has_body
            &&& same_url
            &&& !(100 <= response.status_code <= 199)
            &&& headers_length(response.headers@) matches Ok(length) && {
                &&& length is Some ==> !names_encoding(response.headers@)
                &&& length matches Some(number) ==> if allows_body(state, response) {
                    number <= state.response_limit
                } else {
                    number == 0 || state.is_head || response.status_code == 304
                }
            }
        },
{
}

/// Once a head is accepted, body data is taken as long as there may be a body and the limit is kept.
pub proof fn data_is_taken_within_the_limit(
    before: Interception,
    response: WebResourceResponse,
    state: Interception,
    event: InterceptionEvent,
    data: Seq<u8>,
    after: Option<Interception>,
    step: InterceptionStep,
)
    requires
        claimed(before, response, state) || state.response is Some,
        steps(state, event, true, after, step),
        is_data(event, data),
    ensures
        (after matches Some(next) && step is Waiting) <==> {
            &&& state.has_body || data.len() == 0
            &&& state.accumulated_body@.len() + data.len() <= usize::MAX
            &&& state.accumulated_body@.len() + data.len() <= state.response_limit
        },
        claimed(before, response, state) ==> (state.has_body <==> allows_body(
            before,
            response,
        )),
{
}

/// A cancelled load is reported as cancelled, whatever was sent before; a request that was not
/// claimed goes to the network where the embedder leaves it or goes away, and a claimed one fails.
pub proof fn loads_end_as_they_were_left(
    state: Interception,
    event: InterceptionEvent,
    after: Option<Interception>,
    step: InterceptionStep,
)
    requires
        steps(state, event, true, after, step),
    ensures
        event is Cancelled || event == InterceptionEvent::Message(WebResourceResponseMsg::CancelLoad)
            ==> fails(step, Failure::Cancelled) && after is None,
        event is Closed || event == InterceptionEvent::Message(
            WebResourceResponseMsg::DoNotIntercept,
        ) ==> after is None && (declines(step) <==> state.response is None),
{
}

/// The embedder is shown the request as it would go out: every header in order, the URL that it has
/// come to, a redirect once it was redirected, and the main frame's where it loads a document.
pub proof fn requests_are_shown_as_they_go_out(
    shown: WebResourceRequest,
    request: Request,
    i: int,
)
    requires
        shows(shown, request),
    ensures
        shown.method@ == request.method@,
        shown.url@ == request.current_url@,
        shown.headers@.len() == request.headers@.len(),
        0 <= i < shown.headers@.len() ==> shown.headers@[i].name@ == request.headers@[i].name@
            && shown.headers@[i].value@ == request.headers@[i].value@,
        shown.has_body == request.has_body,
        shown.destination == request.destination,
        shown.referrer_url == request.referrer_url,
        shown.is_for_main_frame <==> request.destination == Destination::Document,
        shown.is_redirect <==> request.redirect_count != 0,
{
    if 0 <= i < shown.headers@.len() {
        assert(shown.headers@[i].name@ == request.headers@[i].name@);
    }
}

/// The number that digits spell is below the power of ten with as many noughts as there are digits,
/// and a digit behind them counts once, they ten times.
pub proof fn digits_count_by_their_place(digits: Seq<u8>, digit: u8)
    requires
        48 <= digit <= 57,
    ensures
        decimal(digits.push(digit)) == decimal(digits) * 10 + (digit - 48),
        decimal(Seq::<u8>::empty()) == 0,
        decimal(seq![digit]) == digit - 48,
{
    assert(digits.push(digit).drop_last() =~= digits);
    assert(seq![digit].drop_last() =~= Seq::<u8>::empty());
    reveal_with_fuel(decimal, 2);
}

/// The statuses that come without a body are "no content", "reset content" and "not modified".
pub proof fn few_statuses_have_no_body(status: u16)
    ensures
        null_body_status(status) ==> status == 204 || status == 205 || status == 304,
        null_body_status(204) && null_body_status(205) && null_body_status(304),
        !null_body_status(200),
{
}

/// To name the same resource is an equivalence of URLs; what is no URL names none.
pub proof fn resources_are_named_alike(a: Seq<char>, b: Seq<char>, c: Seq<char>)
    ensures
        same_resource(a, a) <==> without_fragment(a) is Some,
        same_resource(a, b) <==> same_resource(b, a),
        same_resource(a, b) && same_resource(b, c) ==> same_resource(a, c),
        same_resource(a, b) ==> without_fragment(a) == without_fragment(b),
        without_fragment(a) is None ==> !same_resource(a, b),
{
}

/// A load that was cancelled is reported as that, and any other failure in words that end in the
/// complaint.
pub proof fn failures_are_reported_in_words(error: NetworkError, failure: Failure)
    requires
        reports(error, failure),
    ensures
        error is LoadCancelled <==> failure is Cancelled,
        failure matches Failure::Invalid(message) ==> (
        error matches NetworkError::ResourceLoadError(text) && text@.len() >= message.len()
            && text@.skip(text@.len() - message.len()) == message && text@.take(
            text@.len() - message.len(),
        ) == "Invalid "@ + "intercepted response"@ + ": "@),
{
    reveal_strlit("Invalid intercepted response: ");
    reveal_strlit("Invalid ");
    reveal_strlit("intercepted response");
    reveal_strlit(": ");
    if let Failure::Invalid(message) = failure {
        if let NetworkError::ResourceLoadError(text) = error {
            assert(text@.skip(text@.len() - message.len()) =~= message);
            assert(text@.take(text@.len() - message.len()) =~= "Invalid "@ + "intercepted response"@
                + ": "@);
        }
    }
}

/// What an interception knows of the request it keeps, whatever comes.
pub proof fn interceptions_keep_their_request(before: Interception, after: Interception)
    requires
        unchanged_request(before, after),
    ensures
        after.request_has_body == before.request_has_body,
        after.is_head == before.is_head,
        after.request_url == before.request_url,
        after.response_limit == before.response_limit,
{
}

/// The length that a response declares is fixed by its head, and data changes nothing but the body,
/// which it is added to.
pub proof fn lengths_are_fixed_by_the_head(
    before: Interception,
    response: WebResourceResponse,
    data: Seq<u8>,
    after: Interception,
)
    ensures
        claimed(before, response, after) ==> after.response == Some(response)
            && after.accumulated_body@ == before.accumulated_body@ && (!after.has_body
            ==> after.expected_length is None) && (after.has_body ==> (headers_length(
            response.headers@,
        ) matches Ok(length) ==> after.expected_length == length)),
        received(before, data, after) ==> after.expected_length == before.expected_length
            && after.has_body == before.has_body && after.response == before.response
            && after.accumulated_body@.len() == before.accumulated_body@.len() + data.len(),
{
}

/// Nothing declares no length. What is declared twice is declared once where both say the same, and
/// is an error where they do not.
pub proof fn declarations_agree(value: Vec<u8>, other: Vec<u8>)
    ensures
        declared_length(seq![]) == Ok::<Option<u64>, ()>(None),
        declared_length(seq![value]) == match spelled_number(value@) {
            Some(number) => Ok::<Option<u64>, ()>(Some(number)),
            None => Err(()),
        },
        spelled_number(value@) == spelled_number(other@) ==> declared_length(seq![value, other])
            == declared_length(seq![value]),
        spelled_number(value@) != spelled_number(other@) ==> declared_length(seq![value, other])
            is Err,
{
    let one = seq![value];
    let two = seq![value, other];
    assert(one[0] == value && two[0] == value && two[1] == other);
    if spelled_number(value@) is Some && spelled_number(value@) != spelled_number(other@) {
        assert(spelled_number(two[1]@) != spelled_number(value@));
    }
}

} // verus!
