//! A request and the messages with which an embedder answers it.

use weblayer::interception::{
    intercept_event, take_event, Destination, HeaderField, Interception, InterceptionEvent, InterceptionStep,
    NetworkError, Request, TransportResponse, WebResourceRequest, WebResourceResponse,
    WebResourceResponseMsg,
};

const LIMIT: u64 = 64 * 1024 * 1024;
const URL: &str = "http://localhost:8000/resource";

fn request() -> Request {
    Request {
        has_body: false,
        method: "GET".to_owned(),
        current_url: URL.to_owned(),
        headers: vec![field("user-agent", "tests")],
        destination: Destination::Fetch,
        referrer_url: None,
        redirect_count: 0,
    }
}

fn field(name: &str, value: &str) -> HeaderField {
    HeaderField { name: name.to_owned(), value: value.as_bytes().to_vec() }
}

fn headers(values: &[(&str, &str)]) -> Vec<HeaderField> {
    values.iter().map(|(name, value)| field(name, value)).collect()
}

fn response() -> WebResourceResponse {
    WebResourceResponse {
        url: URL.to_owned(),
        headers: Vec::new(),
        status_code: 200,
        status_message: b"OK".to_vec(),
    }
}

/// An interception that messages go to until it is done.
struct Fetch {
    state: Option<Interception>,
    outcome: Option<Result<Option<TransportResponse>, NetworkError>>,
}

fn fetch(request: &Request) -> (Fetch, WebResourceRequest) {
    let (state, shown) = Interception::begin(request, LIMIT, false).unwrap();
    (Fetch { state: Some(state), outcome: None }, shown)
}

impl Fetch {
    fn event(&mut self, event: InterceptionEvent) {
        let state = self.state.take().expect("interception must still be open");
        let (state, step) = intercept_event(state, event);
        self.state = state;
        match step {
            InterceptionStep::Waiting => assert!(self.state.is_some()),
            InterceptionStep::Done(outcome) => {
                assert!(self.state.is_none());
                self.outcome = Some(outcome);
            },
        }
    }

    fn send(&mut self, message: WebResourceResponseMsg) {
        self.event(InterceptionEvent::Message(message));
    }

    fn send_if_open(&mut self, message: WebResourceResponseMsg) {
        if self.state.is_some() {
            self.send(message);
        }
    }

    fn respond(&mut self, response: WebResourceResponse, chunks: &[&[u8]]) {
        self.send(WebResourceResponseMsg::Start(response));
        for chunk in chunks {
            self.send(WebResourceResponseMsg::SendBodyData(chunk.to_vec()));
        }
        self.send(WebResourceResponseMsg::FinishLoad);
    }

    fn close(&mut self) {
        self.event(InterceptionEvent::Closed);
    }

    fn finish(self) -> Result<Option<TransportResponse>, NetworkError> {
        self.outcome.expect("the interception must be done")
    }
}

fn answered(fetch: Fetch) -> TransportResponse {
    fetch.finish().expect("no error").expect("an answer")
}

fn assert_body(fetch: Fetch, expected: &[u8]) {
    assert_eq!(answered(fetch).body, expected);
}

fn assert_resource_error(fetch: Fetch) {
    match fetch.finish() {
        Err(NetworkError::ResourceLoadError(_)) => {},
        other => panic!("expected an interception protocol error, got {other:?}"),
    }
}

fn assert_complaint(fetch: Fetch, complaint: &str) {
    match fetch.finish() {
        Err(NetworkError::ResourceLoadError(text)) => {
            assert_eq!(text, format!("Invalid intercepted response: {complaint}"));
        },
        other => panic!("expected an interception protocol error, got {other:?}"),
    }
}

fn assert_cancelled(fetch: Fetch) {
    assert!(matches!(fetch.finish(), Err(NetworkError::LoadCancelled)));
}

fn header<'a>(headers: &'a [HeaderField], name: &str) -> &'a [u8] {
    &headers.iter().find(|field| field.name == name).expect("the header").value
}

#[test]
fn same_origin_response_preserves_custom_status_headers_and_body() {
    let (mut fetch, request) = fetch(&request());
    assert_eq!(request.method, "GET");
    assert!(!request.has_body);
    assert_eq!(request.url, URL);
    assert!(!request.is_redirect);
    assert!(request.headers.iter().any(|field| field.name == "user-agent"));
    fetch.respond(
        WebResourceResponse {
            url: request.url,
            status_code: 299,
            status_message: b"Custom intercepted status".to_vec(),
            headers: headers(&[("x-intercepted", "yes")]),
        },
        &[b"intercepted ", b"body"],
    );

    let response = answered(fetch);
    assert_eq!(response.status_code, 299);
    assert_eq!(response.reason, b"Custom intercepted status");
    assert_eq!(header(&response.headers, "x-intercepted"), b"yes");
    assert_eq!(response.body, b"intercepted body");
}

#[test]
fn empty_response_finishes_without_a_body_chunk() {
    let (mut fetch, _) = fetch(&request());
    fetch.respond(response(), &[]);

    let response = answered(fetch);
    assert_eq!(response.status_code, 200);
    assert_eq!(response.body, b"");
}

#[test]
fn response_url_may_differ_only_in_fragment() {
    let (mut fetch, request) = fetch(&request());
    let url = format!("{}#not-a-network-resource-change", request.url);
    fetch.respond(WebResourceResponse { url, ..response() }, &[b"same resource"]);

    assert_body(fetch, b"same resource");
}

#[test]
fn mismatched_response_url_is_rejected_without_network_fallback() {
    let (mut fetch, _) = fetch(&request());
    let url = "http://localhost:8000/different-resource".to_owned();
    fetch.send(WebResourceResponseMsg::Start(WebResourceResponse { url, ..response() }));

    assert_resource_error(fetch);
}

#[test]
fn body_data_before_start_is_rejected_without_fallback() {
    let (mut fetch, _) = fetch(&request());
    fetch.send(WebResourceResponseMsg::SendBodyData(b"out of order".to_vec()));

    assert_resource_error(fetch);
}

#[test]
fn finish_before_start_is_rejected_without_fallback() {
    let (mut fetch, _) = fetch(&request());
    fetch.send(WebResourceResponseMsg::FinishLoad);

    assert_complaint(fetch, "completion arrived before response headers");
}

#[test]
fn duplicate_start_is_rejected_without_fallback() {
    let (mut fetch, _) = fetch(&request());
    fetch.send(WebResourceResponseMsg::Start(response()));
    fetch.send(WebResourceResponseMsg::Start(response()));

    assert_complaint(fetch, "duplicate response headers");
}

#[test]
fn claimed_response_cannot_be_changed_to_do_not_intercept() {
    let (mut fetch, _) = fetch(&request());
    fetch.send(WebResourceResponseMsg::Start(response()));
    fetch.send(WebResourceResponseMsg::DoNotIntercept);

    assert_resource_error(fetch);
}

#[test]
fn dropped_claimed_response_fails_instead_of_returning_partial_success() {
    for body_started in [false, true] {
        let (mut fetch, _) = fetch(&request());
        fetch.send(WebResourceResponseMsg::Start(response()));
        if body_started {
            fetch.send(WebResourceResponseMsg::SendBodyData(b"partial".to_vec()));
        }
        fetch.close();

        assert_complaint(fetch, "response channel closed before completion");
    }
}

#[test]
fn unclaimed_response_uses_the_real_network_transport() {
    for explicit_decline in [false, true] {
        let (mut fetch, _) = fetch(&request());
        if explicit_decline {
            fetch.send(WebResourceResponseMsg::DoNotIntercept);
        } else {
            fetch.close();
        }

        assert!(matches!(fetch.finish(), Ok(None)));
    }
}

#[test]
fn interceptor_cancel_load_reports_cancellation() {
    for claimed in [false, true] {
        let (mut fetch, _) = fetch(&request());
        if claimed {
            fetch.send(WebResourceResponseMsg::Start(response()));
        }
        fetch.send(WebResourceResponseMsg::CancelLoad);

        assert_cancelled(fetch);
    }
}

#[test]
fn cancellation_wakes_interception_waiting_for_headers() {
    let (mut fetch, _) = fetch(&request());
    fetch.event(InterceptionEvent::Cancelled);

    assert_cancelled(fetch);
}

#[test]
fn cancellation_wakes_claimed_response_without_finish() {
    let (mut fetch, _) = fetch(&request());
    fetch.send(WebResourceResponseMsg::Start(response()));
    fetch.send(WebResourceResponseMsg::SendBodyData(b"unfinished body".to_vec()));
    fetch.event(InterceptionEvent::Cancelled);

    assert_cancelled(fetch);
}

#[test]
fn a_cancelled_fetch_is_not_shown_to_the_embedder() {
    let result = Interception::begin(&request(), LIMIT, true);
    assert!(matches!(result, Err(NetworkError::LoadCancelled)));
}

#[test]
fn a_redirected_request_is_shown_with_its_current_url() {
    let redirected = Request {
        current_url: "http://localhost:8000/redirect-target#fragment".to_owned(),
        redirect_count: 1,
        destination: Destination::Document,
        referrer_url: Some("http://localhost:8000/".to_owned()),
        ..request()
    };
    let (_, shown) = fetch(&redirected);
    assert_eq!(shown.url, "http://localhost:8000/redirect-target#fragment");
    assert!(shown.is_redirect);
    assert!(shown.is_for_main_frame);
    assert_eq!(shown.referrer_url, Some("http://localhost:8000/".to_owned()));
}

#[test]
fn claimed_request_with_upload_is_rejected_instead_of_sending_an_empty_body() {
    let upload = "upload must not disappear";
    let (mut fetch, request) = fetch(&Request {
        has_body: true,
        method: "POST".to_owned(),
        headers: vec![field("content-length", &upload.len().to_string())],
        ..request()
    });
    assert_eq!(request.method, "POST");
    assert!(request.has_body);
    assert_eq!(header(&request.headers, "content-length"), upload.len().to_string().as_bytes());
    fetch.send(WebResourceResponseMsg::Start(response()));

    assert_complaint(fetch, "request body is not available to the interceptor");
}

#[test]
fn accumulated_encoded_body_over_limit_is_rejected_without_finish() {
    let limit = LIMIT as usize;
    assert_eq!(limit, 64 * 1024 * 1024);
    let (mut fetch, _) = fetch(&request());
    fetch.send(WebResourceResponseMsg::Start(response()));
    fetch.send(WebResourceResponseMsg::SendBodyData(vec![b'x'; limit]));
    fetch.send(WebResourceResponseMsg::SendBodyData(vec![b'x']));

    assert_resource_error(fetch);
}

#[test]
fn oversized_declared_content_length_is_rejected_before_body_data() {
    let (mut fetch, _) = fetch(&request());
    fetch.send(WebResourceResponseMsg::Start(WebResourceResponse {
        headers: headers(&[("content-length", &(LIMIT + 1).to_string())]),
        ..response()
    }));

    assert_resource_error(fetch);
}

#[test]
fn encoded_body_exactly_at_limit_is_accepted() {
    let limit = LIMIT as usize;
    assert_eq!(limit, 64 * 1024 * 1024);
    let (mut fetch, _) = fetch(&request());
    fetch.send(WebResourceResponseMsg::Start(response()));
    fetch.send(WebResourceResponseMsg::SendBodyData(vec![b'x'; limit]));
    fetch.send(WebResourceResponseMsg::FinishLoad);

    let body = answered(fetch).body;
    assert_eq!(body.len(), limit);
    assert!(body.iter().all(|byte| *byte == b'x'));
}

#[test]
fn invalid_content_length_is_rejected_before_body_data() {
    for value in ["", "not-a-length", "-1", "1.5", "18446744073709551616", "1, 2"] {
        let (mut fetch, _) = fetch(&request());
        fetch.send(WebResourceResponseMsg::Start(WebResourceResponse {
            headers: headers(&[("content-length", value)]),
            ..response()
        }));

        assert_resource_error(fetch);
    }
}

#[test]
fn conflicting_content_length_fields_are_rejected() {
    let (mut fetch, _) = fetch(&request());
    fetch.send(WebResourceResponseMsg::Start(WebResourceResponse {
        headers: headers(&[("content-length", "1"), ("content-length", "2")]),
        ..response()
    }));

    assert_resource_error(fetch);
}

#[test]
fn content_length_with_transfer_encoding_is_rejected() {
    let (mut fetch, _) = fetch(&request());
    fetch.send(WebResourceResponseMsg::Start(WebResourceResponse {
        headers: headers(&[("content-length", "1"), ("transfer-encoding", "chunked")]),
        ..response()
    }));

    assert_resource_error(fetch);
}

#[test]
fn matching_content_length_fields_accept_the_complete_body() {
    for duplicate in [false, true] {
        let (mut fetch, _) = fetch(&request());
        let mut response_headers = headers(&[("content-length", "3")]);
        if duplicate {
            response_headers.push(field("content-length", "3"));
        }
        fetch.respond(WebResourceResponse { headers: response_headers, ..response() }, &[b"a", b"bc"]);

        assert_body(fetch, b"abc");
    }
}

#[test]
fn completed_body_must_match_declared_content_length() {
    for (length, body) in [
        ("3", b"a".as_slice()),
        ("1", b"abc".as_slice()),
        ("0", b"a".as_slice()),
        ("1", b"".as_slice()),
    ] {
        let (mut fetch, _) = fetch(&request());
        fetch.send(WebResourceResponseMsg::Start(WebResourceResponse {
            headers: headers(&[("content-length", length)]),
            ..response()
        }));
        fetch.send(WebResourceResponseMsg::SendBodyData(body.to_vec()));
        fetch.send_if_open(WebResourceResponseMsg::FinishLoad);

        assert_resource_error(fetch);
    }
}

#[test]
fn head_and_not_modified_allow_large_representation_lengths_without_body() {
    let representation_length = (LIMIT + 1).to_string();
    for (method, status) in [("HEAD", 200), ("GET", 304)] {
        let (mut fetch, _) = fetch(&Request { method: method.to_owned(), ..request() });
        fetch.respond(
            WebResourceResponse {
                status_code: status,
                headers: headers(&[("content-length", &representation_length)]),
                ..response()
            },
            &[],
        );

        let response = answered(fetch);
        assert_eq!(response.status_code, status);
        assert_eq!(
            header(&response.headers, "content-length"),
            representation_length.as_bytes()
        );
        assert!(response.body.is_empty());
    }
}

#[test]
fn representation_only_responses_still_reject_invalid_content_length() {
    for (method, status) in [("HEAD", 200), ("GET", 304)] {
        let (mut fetch, _) = fetch(&Request { method: method.to_owned(), ..request() });
        fetch.send(WebResourceResponseMsg::Start(WebResourceResponse {
            status_code: status,
            headers: headers(&[("content-length", "invalid")]),
            ..response()
        }));

        assert_resource_error(fetch);
    }
}

#[test]
fn null_body_statuses_accept_empty_completion() {
    for status in [204, 205, 304] {
        let (mut fetch, _) = fetch(&request());
        fetch.respond(WebResourceResponse { status_code: status, ..response() }, &[]);

        let response = answered(fetch);
        assert_eq!(response.status_code, status);
        assert!(response.body.is_empty());
    }
}

#[test]
fn no_content_and_reset_content_reject_nonzero_declared_length() {
    for status in [204, 205] {
        let (mut fetch, _) = fetch(&request());
        fetch.send(WebResourceResponseMsg::Start(WebResourceResponse {
            status_code: status,
            headers: headers(&[("content-length", "1")]),
            ..response()
        }));

        assert_resource_error(fetch);
    }
}

#[test]
fn head_and_null_body_statuses_reject_payload_bytes() {
    for (method, status) in [("HEAD", 200), ("GET", 204), ("GET", 205), ("GET", 304)] {
        let (mut fetch, _) = fetch(&Request { method: method.to_owned(), ..request() });
        fetch.send(WebResourceResponseMsg::Start(WebResourceResponse {
            status_code: status,
            ..response()
        }));
        fetch.send(WebResourceResponseMsg::SendBodyData(vec![b'x']));
        fetch.send_if_open(WebResourceResponseMsg::FinishLoad);

        assert_resource_error(fetch);
    }
}

#[test]
fn informational_status_cannot_be_the_final_intercepted_response() {
    for status in [100, 101, 102, 103, 199] {
        let (mut fetch, _) = fetch(&request());
        fetch.send(WebResourceResponseMsg::Start(WebResourceResponse {
            status_code: status,
            ..response()
        }));
        fetch.send_if_open(WebResourceResponseMsg::FinishLoad);

        assert_resource_error(fetch);
    }
}

#[test]
fn a_status_message_must_be_a_reason_phrase() {
    let (mut fetch, _) = fetch(&request());
    fetch.send(WebResourceResponseMsg::Start(WebResourceResponse {
        status_message: b"two\r\nlines".to_vec(),
        ..response()
    }));
    fetch.send(WebResourceResponseMsg::FinishLoad);
    assert_resource_error(fetch);
}

#[test]
fn answered_bodies_are_those_that_were_sent() {
    let (mut fetch, _) = fetch(&request());
    fetch.respond(response(), &[b"one ", b"", b"two"]);
    assert_body(fetch, b"one two");
}

#[test]
fn body_data_without_memory_ends_the_load() {
    let claimed = || {
        let (mut fetch, _) = fetch(&request());
        fetch.send(WebResourceResponseMsg::Start(response()));
        fetch.state.unwrap()
    };
    let data = || {
        InterceptionEvent::Message(WebResourceResponseMsg::SendBodyData(b"some".to_vec()))
    };
    let (state, step) = take_event(claimed(), data(), true);
    assert!(matches!(step, InterceptionStep::Waiting));
    let (_, step) = intercept_event(
        state.unwrap(),
        InterceptionEvent::Message(WebResourceResponseMsg::FinishLoad),
    );
    match step {
        InterceptionStep::Done(Ok(Some(answer))) => assert_eq!(answer.body, b"some"),
        other => panic!("expected an answer, got {other:?}"),
    }

    let (state, step) = take_event(claimed(), data(), false);
    assert!(state.is_none());
    match step {
        InterceptionStep::Done(Err(NetworkError::ResourceLoadError(text))) => {
            assert_eq!(text, "Invalid intercepted response: could not allocate response body");
        },
        other => panic!("expected an error, got {other:?}"),
    }
}

#[test]
fn empty_body_data_changes_nothing() {
    let (mut fetch, _) = fetch(&request());
    fetch.respond(response(), &[b""]);
    assert_body(fetch, b"");
}
