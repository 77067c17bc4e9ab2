//! Interception of web requests: an embedder may claim a request and supply the response that the
//! network would have given.

use headers::{ContentLength, HeaderMapExt};
use http::header::CONTENT_LENGTH;
use http::{HeaderMap, HeaderValue};
use hyper::ext::ReasonPhrase;
use url::Url;
use vstd::prelude::*;
use vstd::string::*;

verus! {

/// Why a load failed.
#[derive(Debug)]
pub enum NetworkError {
    LoadCancelled,
    ResourceLoadError(String),
}

/// What a load failed for.
pub enum Failure {
    Cancelled,
    /// The embedder's response cannot be used, for this reason.
    Invalid(Seq<char>),
}

/// The error states the failure.
pub open spec fn reports(error: NetworkError, failure: Failure) -> bool {
    match failure {
        Failure::Cancelled => error is LoadCancelled,
        Failure::Invalid(message) => error matches NetworkError::ResourceLoadError(text) && text@
            == "Invalid intercepted response: "@ + message,
    }
}

/// The error for a response that cannot be used.
fn invalid_response(message: &str) -> (error: NetworkError)
    ensures
        reports(error, Failure::Invalid(message@)),
{
    NetworkError::ResourceLoadError("Invalid intercepted response: ".to_owned().concat(message))
}

/// One header field. The name is in lower case.
#[derive(Debug)]
pub struct HeaderField {
    pub name: String,
    pub value: Vec<u8>,
}

/// What a request is for.
#[derive(Clone, Copy, Debug, PartialEq, Eq, Structural)]
pub enum Destination {
    /// The empty destination, of `fetch()` and the like.
    Fetch,
    Audio,
    AudioWorklet,
    Document,
    Embed,
    Font,
    Frame,
    IFrame,
    Image,
    Json,
    Manifest,
    Object,
    PaintWorklet,
    Report,
    Script,
    ServiceWorker,
    SharedWorker,
    Style,
    Track,
    Video,
    WebIdentity,
    Worker,
    Xslt,
}

/// What the interceptor reads of a request.
#[derive(Debug)]
pub struct Request {
    pub has_body: bool,
    pub method: String,
    pub current_url: String,
    pub headers: Vec<HeaderField>,
    pub destination: Destination,
    pub referrer_url: Option<String>,
    pub redirect_count: u32,
}

/// The request as the embedder sees it.
#[derive(Debug)]
pub struct WebResourceRequest {
    pub has_body: bool,
    pub method: String,
    pub url: String,
    pub headers: Vec<HeaderField>,
    pub destination: Destination,
    pub referrer_url: Option<String>,
    pub is_for_main_frame: bool,
    pub is_redirect: bool,
}

/// The head of a response that the embedder supplies.
#[derive(Debug)]
pub struct WebResourceResponse {
    pub url: String,
    pub headers: Vec<HeaderField>,
    pub status_code: u16,
    pub status_message: Vec<u8>,
}

/// What the embedder sends.
#[derive(Debug)]
pub enum WebResourceResponseMsg {
    Start(WebResourceResponse),
    SendBodyData(Vec<u8>),
    FinishLoad,
    CancelLoad,
    DoNotIntercept,
}

/// What the interceptor waits for.
#[derive(Debug)]
pub enum InterceptionEvent {
    Message(WebResourceResponseMsg),
    /// The embedder's channel closed.
    Closed,
    /// The fetch was cancelled.
    Cancelled,
}

/// A complete response that the embedder supplied.
#[derive(Debug)]
pub struct TransportResponse {
    pub status_code: u16,
    pub reason: Vec<u8>,
    pub headers: Vec<HeaderField>,
    pub body: Vec<u8>,
}

/// Whether the interception goes on, and what it came to where it does not: a response, leave for
/// the network to answer, or an error.
#[derive(Debug)]
pub enum InterceptionStep {
    Waiting,
    Done(Result<Option<TransportResponse>, NetworkError>),
}

/// The value of a string of decimal digits.
pub open spec fn decimal(digits: Seq<u8>) -> nat
    decreases digits.len(),
{
    if digits.len() == 0 {
        0
    } else {
        decimal(digits.drop_last()) * 10 + (digits.last() - 48) as nat
    }
}

/// The bytes are decimal digits.
pub open spec fn all_digits(text: Seq<u8>) -> bool {
    forall|i: int| 0 <= i < text.len() ==> 48 <= #[trigger] text[i] <= 57
}

/// The bytes behind an optional plus sign.
pub open spec fn unsigned_part(text: Seq<u8>) -> Seq<u8> {
    if text.len() > 0 && text[0] == 43 {
        text.drop_first()
    } else {
        text
    }
}

/// The number that a field value spells: an optional plus sign and then decimal digits, within
/// 64 bits.
pub open spec fn spelled_number(text: Seq<u8>) -> Option<u64> {
    let digits = unsigned_part(text);
    if digits.len() > 0 && all_digits(digits) && decimal(digits) <= u64::MAX {
        Some(decimal(digits) as u64)
    } else {
        None
    }
}

/// A text with a byte that is no digit spells no number, but for a plus sign at its front.
pub proof fn other_bytes_spell_no_number(text: Seq<u8>, i: int)
    requires
        0 <= i < text.len(),
        !(48 <= text[i] <= 57),
        !(i == 0 && text[0] == 43),
    ensures
        spelled_number(text) is None,
{
    let digits = unsigned_part(text);
    if all_digits(digits) {
        if text[0] == 43 {
            assert(digits[i - 1] == text[i]);
        } else {
            assert(digits[i] == text[i]);
        }
    }
}

/// The length that the `Content-Length` values declare: none without a value, and otherwise the
/// one number that all of them spell. It is an error where there is no such number.
pub open spec fn declared_length(values: Seq<Vec<u8>>) -> Result<Option<u64>, ()> {
    if values.len() == 0 {
        Ok(None)
    } else {
        match spelled_number(values[0]@) {
            Some(number) => if forall|i: int|
                0 <= i < values.len() ==> spelled_number(#[trigger] values[i]@) == Some(number) {
                Ok(Some(number))
            } else {
                Err(())
            },
            None => Err(()),
        }
    }
}

/// Decodes the `Content-Length` fields of a response.
///
/// Calls `HeaderMapExt::typed_try_get::<ContentLength>` of the `headers` crate on a header map
/// with these values. Believed of it: it answers nothing for no value, the common number where
/// every value spells the same number, and an error otherwise. A value that no header map can
/// hold spells no number and is an error too.
#[verifier::external_body]
fn content_length(values: &Vec<Vec<u8>>) -> (length: Result<Option<u64>, ()>)
    ensures
        length == declared_length(values@),
{
    let mut map = HeaderMap::new();
    for value in values {
        map.append(CONTENT_LENGTH, HeaderValue::from_bytes(value).map_err(|_| ())?);
    }
    match map.typed_try_get::<ContentLength>() {
        Ok(length) => Ok(length.map(|length| length.0)),
        Err(_) => Err(()),
    }
}

/// The byte may stand in a reason phrase.
pub open spec fn reason_byte(b: u8) -> bool {
    b == 9 || 32 <= b <= 126 || 128 <= b
}

/// Whether the bytes can be the reason phrase of a response.
///
/// Calls `ReasonPhrase::try_from` of the `hyper` crate. Believed of it: it accepts exactly the
/// byte strings made of tabs, spaces, visible ASCII characters and bytes from 0x80 on.
#[verifier::external_body]
fn is_reason_phrase(bytes: &Vec<u8>) -> (valid: bool)
    ensures
        valid == (forall|i: int| 0 <= i < bytes.len() ==> reason_byte(#[trigger] bytes[i])),
{
    ReasonPhrase::try_from(bytes.as_slice()).is_ok()
}

/// The serialization of a URL once its fragment is taken off; nothing for text that is no URL.
pub uninterp spec fn without_fragment(url: Seq<char>) -> Option<Seq<char>>;

/// Takes the fragment off a URL.
///
/// Calls `Url::parse` and `Url::set_fragment` of the `url` crate. Believed of them: what comes out
/// depends on the text alone.
#[verifier::external_body]
fn strip_fragment(url: &String) -> (stripped: Option<String>)
    ensures
        crate::error::option_text(stripped) == without_fragment(url@),
{
    match Url::parse(url) {
        Ok(mut url) => {
            url.set_fragment(None);
            Some(String::from(url))
        },
        Err(_) => None,
    }
}

/// The two URLs name the same resource: they are URLs, and alike but for their fragments.
pub open spec fn same_resource(a: Seq<char>, b: Seq<char>) -> bool {
    without_fragment(a) is Some && without_fragment(a) == without_fragment(b)
}

/// Whether two URLs differ in their fragments at most.
fn is_same_resource(a: &String, b: &String) -> (same: bool)
    ensures
        same == same_resource(a@, b@),
{
    match (strip_fragment(a), strip_fragment(b)) {
        (Some(a), Some(b)) => a == b,
        _ => false,
    }
}

/// The values of the fields with the given name, in order.
pub open spec fn values_named(headers: Seq<HeaderField>, name: Seq<char>) -> Seq<Vec<u8>>
    decreases headers.len(),
{
    if headers.len() == 0 {
        seq![]
    } else {
        let before = values_named(headers.drop_last(), name);
        if headers.last().name@ == name {
            before.push(headers.last().value)
        } else {
            before
        }
    }
}

/// The length that the headers declare.
pub open spec fn headers_length(headers: Seq<HeaderField>) -> Result<Option<u64>, ()> {
    declared_length(values_named(headers, "content-length"@))
}

/// The values of the fields with the given name.
fn header_values(headers: &Vec<HeaderField>, name: &String) -> (values: Vec<Vec<u8>>)
    ensures
        values@.len() == values_named(headers@, name@).len(),
        forall|i: int|
            0 <= i < values@.len() ==> (#[trigger] values@[i])@ == values_named(headers@, name@)[i]@,
{
    let mut values: Vec<Vec<u8>> = Vec::new();
    let mut i: usize = 0;
    assert(headers@.take(0) =~= seq![]);
    while i < headers.len()
        invariant
            i <= headers.len(),
            values@.len() == values_named(headers@.take(i as int), name@).len(),
            forall|j: int|
                0 <= j < values@.len() ==> (#[trigger] values@[j])@ == values_named(
                    headers@.take(i as int),
                    name@,
                )[j]@,
        decreases headers.len() - i,
    {
        assert(headers@.take(i + 1).drop_last() =~= headers@.take(i as int));
        if headers[i].name == *name {
            values.push(crate::indexeddb::key::copy_bytes(&headers[i].value));
        }
        i += 1;
    }
    assert(headers@.take(i as int) =~= headers@);
    values
}

/// Values that are equal byte for byte declare the same length.
proof fn same_bytes_same_length(a: Seq<Vec<u8>>, b: Seq<Vec<u8>>)
    requires
        a.len() == b.len(),
        forall|i: int| 0 <= i < a.len() ==> (#[trigger] a[i])@ == b[i]@,
    ensures
        declared_length(a) == declared_length(b),
{
    if a.len() > 0 {
        if let Some(number) = spelled_number(a[0]@) {
            if forall|i: int| 0 <= i < a.len() ==> spelled_number(#[trigger] a[i]@) == Some(number) {
                assert forall|i: int| 0 <= i < b.len() implies spelled_number(#[trigger] b[i]@)
                    == Some(number) by {
                    assert(a[i]@ == b[i]@);
                }
            } else {
                let i = choose|i: int|
                    0 <= i < a.len() && spelled_number(#[trigger] a[i]@) != Some(number);
                assert(spelled_number(b[i]@) != Some(number));
            }
        }
    }
}

/// The length that the headers declare.
fn response_length(headers: &Vec<HeaderField>) -> (length: Result<Option<u64>, ()>)
    ensures
        length == headers_length(headers@),
{
    let values = header_values(headers, &"content-length".to_owned());
    proof {
        same_bytes_same_length(values@, values_named(headers@, "content-length"@));
    }
    content_length(&values)
}

/// The headers hold a field of this name.
pub open spec fn has_header(headers: Seq<HeaderField>, name: Seq<char>) -> bool {
    exists|i: int| 0 <= i < headers.len() && (#[trigger] headers[i]).name@ == name
}

/// Whether the headers hold a field of this name.
fn contains_header(headers: &Vec<HeaderField>, name: &String) -> (found: bool)
    ensures
        found == has_header(headers@, name@),
{
    let mut i: usize = 0;
    while i < headers.len()
        invariant
            i <= headers.len(),
            forall|j: int| 0 <= j < i ==> (#[trigger] headers[j]).name@ != name@,
        decreases headers.len() - i,
    {
        if headers[i].name == *name {
            return true;
        }
        i += 1;
    }
    false
}

/// The statuses whose responses have no body: no content, reset content and not modified.
pub open spec fn null_body_status(status: u16) -> bool {
    status == 204 || status == 205 || status == 304
}

/// An interception under way.
#[derive(Debug)]
pub struct Interception {
    /// The request carries a body.
    pub request_has_body: bool,
    /// The request asks for the head only.
    pub is_head: bool,
    pub request_url: String,
    /// How many body bytes are accepted.
    pub response_limit: u64,
    /// The head of the response, once the embedder has claimed the request.
    pub response: Option<WebResourceResponse>,
    /// The body length that the response declares.
    pub expected_length: Option<u64>,
    /// The response may have a body.
    pub has_body: bool,
    pub accumulated_body: Vec<u8>,
}

/// Why the head of a response cannot be used, if it cannot. `same_url` says whether the response
/// is for the resource that was asked for. The first complaint that applies is the one made.
pub open spec fn start_complaint(
    state: Interception,
    response: WebResourceResponse,
    same_url: bool,
) -> Option<Seq<char>> {
    let length = headers_length(response.headers@);
    let has_body = may_have_body(state, response);
    if state.response is Some {
        Some("duplicate response headers"@)
    } else if state.request_has_body {
        Some("request body is not available to the interceptor"@)
    } else if !same_url {
        Some("response URL does not match the current request"@)
    } else if 100 <= response.status_code < 200 {
        Some("interim HTTP responses are not supported"@)
    } else if length is Err {
        Some("invalid or conflicting Content-Length"@)
    } else if length->Ok_0 is Some && has_header(response.headers@, "transfer-encoding"@) {
        Some("Content-Length conflicts with Transfer-Encoding"@)
    } else if !has_body && !state.is_head && response.status_code != 304 && length->Ok_0 is Some
        && length->Ok_0 != Some(0u64) {
        Some("bodyless response declares a nonempty body"@)
    } else if has_body && length->Ok_0 is Some && length->Ok_0->0 > state.response_limit {
        Some("response exceeds the configured byte limit"@)
    } else {
        None
    }
}

/// A response with this head may have a body.
pub open spec fn may_have_body(state: Interception, response: WebResourceResponse) -> bool {
    !state.is_head && !null_body_status(response.status_code)
}

/// The interception once the head of the response has been accepted.
pub open spec fn claimed(
    state: Interception,
    response: WebResourceResponse,
    after: Interception,
) -> bool {
    &&& after.response == Some(response)
    &&& after.has_body == may_have_body(state, response)
    &&& after.expected_length == if after.has_body {
        headers_length(response.headers@)->Ok_0
    } else {
        None
    }
    &&& after.accumulated_body == state.accumulated_body
    &&& unchanged_request(state, after)
}

/// What belongs to the request stays as it is.
pub open spec fn unchanged_request(before: Interception, after: Interception) -> bool {
    &&& after.request_has_body == before.request_has_body
    &&& after.is_head == before.is_head
    &&& after.request_url == before.request_url
    &&& after.response_limit == before.response_limit
}

/// Why body data cannot be taken, if it cannot.
pub open spec fn data_complaint(state: Interception, data: Seq<u8>) -> Option<Seq<char>> {
    if state.response is None {
        Some("body data arrived before response headers"@)
    } else if !state.has_body && data.len() > 0 {
        Some("body data is forbidden for this response"@)
    } else if state.accumulated_body@.len() + data.len() > usize::MAX
        || state.accumulated_body@.len() + data.len() > state.response_limit {
        Some("response exceeds the configured byte limit"@)
    } else {
        None
    }
}

/// Why the response cannot be completed, if it cannot.
pub open spec fn finish_complaint(state: Interception) -> Option<Seq<char>> {
    match state.response {
        None => Some("completion arrived before response headers"@),
        Some(response) => if state.expected_length matches Some(length) && length
            != state.accumulated_body@.len() {
            Some("response body does not match Content-Length"@)
        } else if !(forall|i: int|
            0 <= i < response.status_message.len() ==> reason_byte(
                #[trigger] response.status_message[i],
            )) {
            Some("invalid HTTP status message"@)
        } else {
            None
        },
    }
}

/// The step ends the interception with this failure.
pub open spec fn fails(step: InterceptionStep, failure: Failure) -> bool {
    step matches InterceptionStep::Done(Err(error)) && reports(error, failure)
}

/// The step leaves the request to the network.
pub open spec fn declines(step: InterceptionStep) -> bool {
    step matches InterceptionStep::Done(Ok(None))
}

/// The step ends the interception with the response that has been gathered.
pub open spec fn completes(step: InterceptionStep, state: Interception) -> bool {
    &&& step matches InterceptionStep::Done(Ok(Some(response))) && {
        &&& response.status_code == state.response->0.status_code
        &&& response.reason == state.response->0.status_message
        &&& response.headers == state.response->0.headers
        &&& response.body == state.accumulated_body
    }
}

fn fail(message: &str) -> (step: InterceptionStep)
    ensures
        fails(step, Failure::Invalid(message@)),
{
    InterceptionStep::Done(Err(invalid_response(message)))
}

/// A copy of header fields.
fn copy_headers(headers: &Vec<HeaderField>) -> (copy: Vec<HeaderField>)
    ensures
        same_headers(copy@, headers@),
{
    let mut copy: Vec<HeaderField> = Vec::new();
    let mut i: usize = 0;
    while i < headers.len()
        invariant
            i <= headers.len(),
            copy.len() == i,
            forall|j: int|
                0 <= j < i ==> (#[trigger] copy[j]).name@ == headers[j].name@ && copy[j].value@
                    == headers[j].value@,
        decreases headers.len() - i,
    {
        copy.push(
            HeaderField {
                name: headers[i].name.clone(),
                value: crate::indexeddb::key::copy_bytes(&headers[i].value),
            },
        );
        i += 1;
    }
    copy
}

/// Two lists hold the same fields.
pub open spec fn same_headers(a: Seq<HeaderField>, b: Seq<HeaderField>) -> bool {
    a.len() == b.len() && forall|i: int|
        0 <= i < a.len() ==> (#[trigger] a[i]).name@ == b[i].name@ && a[i].value@ == b[i].value@
}

/// What the embedder is shown of a request.
pub open spec fn shows(shown: WebResourceRequest, request: Request) -> bool {
    &&& shown.has_body == request.has_body
    &&& shown.method@ == request.method@
    &&& shown.url@ == request.current_url@
    &&& same_headers(shown.headers@, request.headers@)
    &&& shown.destination == request.destination
    &&& shown.referrer_url == request.referrer_url
    &&& shown.is_for_main_frame == (request.destination == Destination::Document)
    &&& shown.is_redirect == (request.redirect_count > 0)
}

impl Interception {
    /// Starts the interception of a request: what to show the embedder, unless the fetch has
    /// been cancelled already.
    pub fn begin(request: &Request, response_limit: u64, cancelled: bool) -> (result: Result<
        (Interception, WebResourceRequest),
        NetworkError,
    >)
        ensures
            cancelled ==> (result matches Err(error) && reports(error, Failure::Cancelled)),
            !cancelled ==> (result matches Ok((state, shown)) && {
                &&& state.request_has_body == request.has_body
                &&& state.is_head == (request.method@ == "HEAD"@)
                &&& state.request_url@ == request.current_url@
                &&& state.response_limit == response_limit
                &&& state.response is None
                &&& state.expected_length is None
                &&& state.has_body
                &&& state.accumulated_body@ == Seq::<u8>::empty()
                &&& shows(shown, *request)
            }),
    {
        if cancelled {
            return Err(NetworkError::LoadCancelled);
        }
        let shown = WebResourceRequest {
            has_body: request.has_body,
            method: request.method.clone(),
            url: request.current_url.clone(),
            headers: copy_headers(&request.headers),
            destination: request.destination,
            referrer_url: crate::error::copy_option_text(&request.referrer_url),
            is_for_main_frame: request.destination == Destination::Document,
            is_redirect: request.redirect_count > 0,
        };
        let state = Interception {
            request_has_body: request.has_body,
            is_head: request.method == "HEAD".to_owned(),
            request_url: request.current_url.clone(),
            response_limit,
            response: None,
            expected_length: None,
            has_body: true,
            accumulated_body: Vec::new(),
        };
        Ok((state, shown))
    }

    /// Takes the head of a response, given whether it is for the resource that was asked for.
    pub fn accept_start(&mut self, response: WebResourceResponse, same_url: bool) -> (step:
        InterceptionStep)
        ensures
            match start_complaint(*old(self), response, same_url) {
                Some(complaint) => fails(step, Failure::Invalid(complaint)) && *final(self)
                    == *old(self),
                None => step is Waiting && claimed(*old(self), response, *final(self)),
            },
    {
        if self.response.is_some() {
            return fail("duplicate response headers");
        }
        if self.request_has_body {
            return fail("request body is not available to the interceptor");
        }
        if !same_url {
            return fail("response URL does not match the current request");
        }
        if 100 <= response.status_code && response.status_code < 200 {
            return fail("interim HTTP responses are not supported");
        }
        let length = match response_length(&response.headers) {
            Ok(length) => length,
            Err(()) => return fail("invalid or conflicting Content-Length"),
        };
        if length.is_some() && contains_header(
            &response.headers,
            &"transfer-encoding".to_owned(),
        ) {
            return fail("Content-Length conflicts with Transfer-Encoding");
        }
        let has_body = !self.is_head && response.status_code != 204 && response.status_code != 205
            && response.status_code != 304;
        let nonempty = match length {
            Some(length) => length != 0,
            None => false,
        };
        if !has_body && !self.is_head && response.status_code != 304 && nonempty {
            return fail("bodyless response declares a nonempty body");
        }
        let excessive = match length {
            Some(length) => length > self.response_limit,
            None => false,
        };
        if has_body && excessive {
            return fail("response exceeds the configured byte limit");
        }
        self.has_body = has_body;
        self.expected_length = if has_body {
            length
        } else {
            None
        };
        self.response = Some(response);
        InterceptionStep::Waiting
    }

    /// Takes the head of a response.
    pub fn start(&mut self, response: WebResourceResponse) -> (step: InterceptionStep)
        ensures
            match start_complaint(
                *old(self),
                response,
                same_resource(response.url@, old(self).request_url@),
            ) {
                Some(complaint) => fails(step, Failure::Invalid(complaint)) && *final(self)
                    == *old(self),
                None => step is Waiting && claimed(*old(self), response, *final(self)),
            },
    {
        let same_url = is_same_resource(&response.url, &self.request_url);
        self.accept_start(response, same_url)
    }

    /// Sets memory aside for body data that can be taken: as many bytes as the data has, behind those
    /// gathered so far. Whether there is memory is up to the machine; no data needs none.
    fn reserve(&mut self, data: &Vec<u8>) -> (reserved: bool)
        ensures
            received(*old(self), seq![], *final(self)),
            data_complaint(*old(self), data@) is Some ==> reserved && *final(self) == *old(self),
            data@.len() == 0 ==> reserved,
    {
        assert(self.accumulated_body@ + Seq::<u8>::empty() =~= self.accumulated_body@);
        if self.response.is_none() || !self.has_body || data.len() == 0 {
            return true;
        }
        let fits = match self.accumulated_body.len().checked_add(data.len()) {
            Some(length) => length as u64 <= self.response_limit,
            None => false,
        };
        if !fits {
            return true;
        }
        let reserved = self.accumulated_body.try_reserve(data.len()).is_ok();
        assert(self.accumulated_body@ =~= old(self).accumulated_body@ + Seq::<u8>::empty());
        reserved
    }

    /// Takes body data. `reserved` says whether memory for it could be had.
    pub fn take_data(&mut self, data: Vec<u8>, reserved: bool) -> (step: InterceptionStep)
        ensures
            match data_complaint(*old(self), data@) {
                Some(complaint) => fails(step, Failure::Invalid(complaint)) && *final(self)
                    == *old(self),
                None => if reserved {
                    step is Waiting && received(*old(self), data@, *final(self))
                } else {
                    fails(step, Failure::Invalid("could not allocate response body"@))
                        && *final(self) == *old(self)
                },
            },
    {
        let mut data = data;
        if self.response.is_none() {
            return fail("body data arrived before response headers");
        }
        if !self.has_body && data.len() > 0 {
            return fail("body data is forbidden for this response");
        }
        let fits = match self.accumulated_body.len().checked_add(data.len()) {
            Some(length) => length as u64 <= self.response_limit,
            None => false,
        };
        if !fits {
            return fail("response exceeds the configured byte limit");
        }
        if !reserved {
            return fail("could not allocate response body");
        }
        self.accumulated_body.append(&mut data);
        InterceptionStep::Waiting
    }

    /// Takes body data. Where the body could grow but memory for it cannot be had, the
    /// interception fails.
    pub fn body_data(&mut self, data: Vec<u8>) -> (step: InterceptionStep)
        ensures
            match data_complaint(*old(self), data@) {
                Some(complaint) => fails(step, Failure::Invalid(complaint)) && *final(self)
                    == *old(self),
                None => {
                    ||| step is Waiting && received(*old(self), data@, *final(self))
                    ||| {
                        &&& data@.len() > 0
                        &&& fails(step, Failure::Invalid("could not allocate response body"@))
                        &&& received(*old(self), seq![], *final(self))
                    }
                },
            },
    {
        let reserved = self.reserve(&data);
        assert(old(self).accumulated_body@ + Seq::<u8>::empty() =~= old(self).accumulated_body@);
        self.take_data(data, reserved)
    }

    /// Completes the response.
    pub fn finish(self) -> (step: InterceptionStep)
        ensures
            match finish_complaint(self) {
                Some(complaint) => fails(step, Failure::Invalid(complaint)),
                None => completes(step, self),
            },
    {
        match self.response {
            None => fail("completion arrived before response headers"),
            Some(response) => {
                let mismatch = match self.expected_length {
                    Some(length) => length != self.accumulated_body.len() as u64,
                    None => false,
                };
                if mismatch {
                    return fail("response body does not match Content-Length");
                }
                if !is_reason_phrase(&response.status_message) {
                    return fail("invalid HTTP status message");
                }
                InterceptionStep::Done(
                    Ok(
                        Some(
                            TransportResponse {
                                status_code: response.status_code,
                                reason: response.status_message,
                                headers: response.headers,
                                body: self.accumulated_body,
                            },
                        ),
                    ),
                )
            },
        }
    }
}

/// What an event does: the interception that goes on, if it goes on, and the step taken. `reserved`
/// says whether memory for body data could be had.
pub open spec fn steps(
    state: Interception,
    event: InterceptionEvent,
    reserved: bool,
    after: Option<Interception>,
    step: InterceptionStep,
) -> bool {
    &&& after is Some <==> step is Waiting
    &&& match event {
        InterceptionEvent::Cancelled => fails(step, Failure::Cancelled),
        InterceptionEvent::Closed => if state.response is None {
            declines(step)
        } else {
            fails(step, Failure::Invalid("response channel closed before completion"@))
        },
        InterceptionEvent::Message(message) => match message {
            WebResourceResponseMsg::Start(response) => match start_complaint(
                state,
                response,
                same_resource(response.url@, state.request_url@),
            ) {
                Some(complaint) => fails(step, Failure::Invalid(complaint)),
                None => after matches Some(next) && claimed(state, response, next),
            },
            WebResourceResponseMsg::SendBodyData(data) => match data_complaint(state, data@) {
                Some(complaint) => fails(step, Failure::Invalid(complaint)),
                None => if reserved {
                    after matches Some(next) && received(state, data@, next)
                } else {
                    fails(step, Failure::Invalid("could not allocate response body"@))
                },
            },
            WebResourceResponseMsg::FinishLoad => match finish_complaint(state) {
                Some(complaint) => fails(step, Failure::Invalid(complaint)),
                None => completes(step, state),
            },
            WebResourceResponseMsg::CancelLoad => fails(step, Failure::Cancelled),
            WebResourceResponseMsg::DoNotIntercept => if state.response is None {
                declines(step)
            } else {
                fails(
                    step,
                    Failure::Invalid("claimed response cannot fall back to the network"@),
                )
            },
        },
    }
}

/// The event is body data that has bytes and can be taken: it depends on the machine's memory.
pub open spec fn needs_memory(state: Interception, event: InterceptionEvent) -> bool {
    event matches InterceptionEvent::Message(WebResourceResponseMsg::SendBodyData(data))
        && data@.len() > 0 && data_complaint(state, data@) is None
}

/// Takes the next event, given whether memory for body data could be had. The interception that goes
/// on is handed back beside the step; it is over where none is.
pub fn take_event(state: Interception, event: InterceptionEvent, reserved: bool) -> (result: (
    Option<Interception>,
    InterceptionStep,
))
    ensures
        steps(state, event, reserved, result.0, result.1),
{
    let mut state = state;
    let step = match event {
        InterceptionEvent::Cancelled => InterceptionStep::Done(Err(NetworkError::LoadCancelled)),
        InterceptionEvent::Closed => if state.response.is_none() {
            InterceptionStep::Done(Ok(None))
        } else {
            fail("response channel closed before completion")
        },
        InterceptionEvent::Message(message) => match message {
            WebResourceResponseMsg::Start(response) => state.start(response),
            WebResourceResponseMsg::SendBodyData(data) => state.take_data(data, reserved),
            WebResourceResponseMsg::FinishLoad => return (None, state.finish()),
            WebResourceResponseMsg::CancelLoad => InterceptionStep::Done(
                Err(NetworkError::LoadCancelled),
            ),
            WebResourceResponseMsg::DoNotIntercept => if state.response.is_none() {
                InterceptionStep::Done(Ok(None))
            } else {
                fail("claimed response cannot fall back to the network")
            },
        },
    };
    match step {
        InterceptionStep::Waiting => (Some(state), step),
        InterceptionStep::Done(_) => (None, step),
    }
}

/// Takes the next event. The interception that goes on is handed back beside the step; it is
/// over where none is. Only body data can fail for want of memory.
pub fn intercept_event(state: Interception, event: InterceptionEvent) -> (result: (
    Option<Interception>,
    InterceptionStep,
))
    ensures
        steps(state, event, true, result.0, result.1) || (needs_memory(state, event) && steps(
            state,
            event,
            false,
            result.0,
            result.1,
        )),
{
    let mut state = state;
    let ghost before = state;
    let reserved = match &event {
        InterceptionEvent::Message(WebResourceResponseMsg::SendBodyData(data)) => {
            state.reserve(data)
        },
        _ => true,
    };
    assert(before.accumulated_body@ + Seq::<u8>::empty() =~= before.accumulated_body@);
    take_event(state, event, reserved)
}

/// The interception once body data has been taken.
pub open spec fn received(before: Interception, data: Seq<u8>, after: Interception) -> bool {
    &&& after.accumulated_body@ == before.accumulated_body@ + data
    &&& after.response == before.response
    &&& after.expected_length == before.expected_length
    &&& after.has_body == before.has_body
    &&& unchanged_request(before, after)
}

impl Interception {
    /// No body has been gathered beyond the limit, nor where none is allowed, nor before the
    /// request was claimed.
    pub open spec fn wf(&self) -> bool {
        &&& self.accumulated_body@.len() <= self.response_limit
        &&& self.response is None ==> self.accumulated_body@.len() == 0
        &&& !self.has_body ==> self.accumulated_body@.len() == 0
    }
}

/// A request that the embedder has claimed never falls back to the network, whatever comes next:
/// it stays claimed until it is answered or fails.
pub proof fn claimed_request_never_falls_back(
    state: Interception,
    event: InterceptionEvent,
    reserved: bool,
    after: Option<Interception>,
    step: InterceptionStep,
)
    requires
        state.response is Some,
        steps(state, event, reserved, after, step),
    ensures
        !declines(step),
        after matches Some(next) ==> next.response == state.response,
{
}

/// A request that has not been claimed is answered with an error, or left to the network, or
/// becomes claimed: no response comes out of it in one step.
pub proof fn unclaimed_request_is_not_answered(
    state: Interception,
    event: InterceptionEvent,
    reserved: bool,
    after: Option<Interception>,
    step: InterceptionStep,
)
    requires
        state.response is None,
        steps(state, event, reserved, after, step),
    ensures
        !(step matches InterceptionStep::Done(Ok(Some(_)))),
{
}

/// The gathered body stays within its bounds from event to event.
pub proof fn body_stays_within_bounds(
    state: Interception,
    event: InterceptionEvent,
    reserved: bool,
    after: Option<Interception>,
    step: InterceptionStep,
)
    requires
        state.wf(),
        steps(state, event, reserved, after, step),
    ensures
        after matches Some(next) ==> next.wf(),
{
}

/// A response that is handed on has no more bytes than the limit allows, has the length that its
/// head declared, and has a body only where its head allows one.
pub proof fn answered_body_is_sound(
    state: Interception,
    event: InterceptionEvent,
    reserved: bool,
    after: Option<Interception>,
    step: InterceptionStep,
    response: TransportResponse,
)
    requires
        state.wf(),
        steps(state, event, reserved, after, step),
        step == InterceptionStep::Done(Ok(Some(response))),
    ensures
        response.body@.len() <= state.response_limit,
        state.expected_length matches Some(length) ==> response.body@.len() == length,
        !state.has_body ==> response.body@.len() == 0,
{
}

} // verus!
