//! One probe of the remote API: the request that is sent, and what the reply
//! to it says about a server URL and an API key.
//!
//! The probe posts an empty JSON object to the message endpoint. The server
//! authenticates before it looks at the body, so a reply of 400 shows that the
//! key was accepted, as any reply from 200 to 299 does.

use vstd::prelude::*;
use vstd::string::*;
use crate::status::{canonical_reason_of, HttpStatus};
use crate::text::{contains, decimal, decimal_string, occurs_at, trim_trailing, trim_trailing_slashes};

verus! {

/// One header line of a request.
#[derive(Clone, Debug)]
pub struct Header {
    pub name: String,
    pub value: String,
}

/// The request that probes a server: what to send, as plain text.
#[derive(Clone, Debug)]
pub struct ProbeRequest {
    pub method: String,
    pub url: String,
    pub headers: Vec<Header>,
    pub body: String,
}

/// A `ProbeRequest` as a value of specifications.
pub struct ProbeRequestView {
    pub method: Seq<char>,
    pub url: Seq<char>,
    pub headers: Seq<(Seq<char>, Seq<char>)>,
    pub body: Seq<char>,
}

impl View for Header {
    type V = (Seq<char>, Seq<char>);

    open spec fn view(&self) -> (Seq<char>, Seq<char>) {
        (self.name@, self.value@)
    }
}

impl View for ProbeRequest {
    type V = ProbeRequestView;

    open spec fn view(&self) -> ProbeRequestView {
        ProbeRequestView {
            method: self.method@,
            url: self.url@,
            headers: Seq::new(self.headers@.len(), |i: int| self.headers@[i]@),
            body: self.body@,
        }
    }
}

/// Where the probe goes: the message endpoint under `server_url`, whose
/// trailing slashes do not count.
pub open spec fn probe_url(server_url: Seq<char>) -> Seq<char> {
    trim_trailing(server_url, '/') + "/api/generate-message"@
}

/// The value of the `Authorization` header for `api_key`.
pub open spec fn bearer_token(api_key: Seq<char>) -> Seq<char> {
    "Bearer "@ + api_key
}

/// The probe for `server_url` and `api_key`: a POST of `{}` as JSON, with the
/// key as a bearer token.
pub open spec fn probe_request(server_url: Seq<char>, api_key: Seq<char>) -> ProbeRequestView {
    ProbeRequestView {
        method: "POST"@,
        url: probe_url(server_url),
        headers: seq![
            ("Authorization"@, bearer_token(api_key)),
            ("Content-Type"@, "application/json"@),
        ],
        body: "{}"@,
    }
}

impl ProbeRequest {
    /// Builds the probe for `server_url` and `api_key`.
    pub fn new(server_url: &str, api_key: &str) -> (r: ProbeRequest)
        ensures
            r@ == probe_request(server_url@, api_key@),
    {
        let mut url = String::from_str(trim_trailing_slashes(server_url));
        url.append("/api/generate-message");
        let mut token = String::from_str("Bearer ");
        token.append(api_key);
        let mut headers: Vec<Header> = Vec::new();
        headers.push(Header { name: String::from_str("Authorization"), value: token });
        headers.push(
            Header {
                name: String::from_str("Content-Type"),
                value: String::from_str("application/json"),
            },
        );
        let r = ProbeRequest {
            method: String::from_str("POST"),
            url,
            headers,
            body: String::from_str("{}"),
        };
        proof {
            assert(r@.headers =~= probe_request(server_url@, api_key@).headers);
        }
        r
    }
}

/// How one probe ended: with a response, of which only the status counts, or
/// without one.
#[derive(Clone, Debug)]
pub enum ProbeReply {
    /// The server answered with this status.
    Status(HttpStatus),
    /// No response came (name resolution, TLS, refused connection, timeout);
    /// the text is the transport's own account of it.
    TransportFailure(String),
}

/// What one probe says of the server URL and the API key.
#[derive(Clone, Debug)]
pub enum ValidationOutcome {
    /// The server accepted the key.
    Valid,
    /// It did not, or could not be asked; the text says why.
    Invalid(String),
}

/// A `ValidationOutcome` as a value of specifications.
pub enum Verdict {
    Valid,
    Invalid(Seq<char>),
}

impl View for ValidationOutcome {
    type V = Verdict;

    open spec fn view(&self) -> Verdict {
        match self {
            ValidationOutcome::Valid => Verdict::Valid,
            ValidationOutcome::Invalid(reason) => Verdict::Invalid(reason@),
        }
    }
}

/// A `ProbeReply` as a value of specifications.
pub enum ReplyView {
    Status(u16),
    TransportFailure(Seq<char>),
}

impl View for ProbeReply {
    type V = ReplyView;

    open spec fn view(&self) -> ReplyView {
        match self {
            ProbeReply::Status(status) => ReplyView::Status(status@),
            ProbeReply::TransportFailure(detail) => ReplyView::TransportFailure(detail@),
        }
    }
}

/// A reason phrase as a value of specifications.
pub open spec fn phrase_view(reason: Option<&str>) -> Option<Seq<char>> {
    match reason {
        Some(phrase) => Some(phrase@),
        None => None,
    }
}

/// The statuses that show the key was accepted: the success class, and 400,
/// which rejects the empty body only after the key has passed.
pub open spec fn accepted(code: u16) -> bool {
    200 <= code < 300 || code == 400
}

/// The reason given for a reply of 401.
pub open spec fn unauthorized_text() -> Seq<char> {
    "Invalid API key or unauthorized"@
}

/// The reason given for a reply of 404.
pub open spec fn not_found_text() -> Seq<char> {
    "API endpoint not found. Please check your server URL"@
}

/// The reason given for any other status: the number, then its reason
/// phrase, or `Unknown` where it has none.
pub open spec fn http_error_text(code: u16, reason: Option<Seq<char>>) -> Seq<char> {
    "API returned error: "@ + decimal(code as nat) + " - "@ + match reason {
        Some(phrase) => phrase,
        None => "Unknown"@,
    }
}

/// The reason given where no response came.
pub open spec fn transport_failure_text(detail: Seq<char>) -> Seq<char> {
    "Connection failed: "@ + detail
}

/// The verdict on a response with the status `code`, whose reason phrase is
/// `reason`.
pub open spec fn status_verdict(code: u16, reason: Option<Seq<char>>) -> Verdict {
    if accepted(code) {
        Verdict::Valid
    } else if code == 401 {
        Verdict::Invalid(unauthorized_text())
    } else if code == 404 {
        Verdict::Invalid(not_found_text())
    } else {
        Verdict::Invalid(http_error_text(code, reason))
    }
}

/// The verdict on a reply, given the reason phrase of each status.
pub open spec fn reply_verdict(reply: ReplyView) -> Verdict {
    match reply {
        ReplyView::Status(code) => status_verdict(code, canonical_reason_of(code)),
        ReplyView::TransportFailure(detail) => Verdict::Invalid(transport_failure_text(detail)),
    }
}

/// A verdict as the `Result` that a validation returns, `Ok(true)` or the
/// reason as the error. `Ok(false)` never occurs.
pub open spec fn verdict_result(verdict: Verdict) -> Result<bool, Seq<char>> {
    match verdict {
        Verdict::Valid => Ok(true),
        Verdict::Invalid(reason) => Err(reason),
    }
}

/// A `Result` of a validation as a value of specifications.
pub open spec fn result_view(result: Result<bool, String>) -> Result<bool, Seq<char>> {
    match result {
        Ok(valid) => Ok(valid),
        Err(reason) => Err(reason@),
    }
}

/// Writes the reason for a status that is neither accepted, 401 nor 404.
fn http_error_message(code: u16, reason: Option<&str>) -> (r: String)
    ensures
        r@ == http_error_text(code, phrase_view(reason)),
{
    let mut message = String::from_str("API returned error: ");
    let digits = decimal_string(code);
    message.append(digits.as_str());
    message.append(" - ");
    match reason {
        Some(phrase) => message.append(phrase),
        None => message.append("Unknown"),
    }
    message
}

/// The verdict on a response with the status `status`, whose reason phrase is
/// `reason`.
pub fn verdict_for_status(status: HttpStatus, reason: Option<&str>) -> (r: ValidationOutcome)
    ensures
        r@ == status_verdict(status@, phrase_view(reason)),
{
    let code = status.code();
    if status.is_success() || code == 400 {
        ValidationOutcome::Valid
    } else if code == 401 {
        ValidationOutcome::Invalid(String::from_str("Invalid API key or unauthorized"))
    } else if code == 404 {
        ValidationOutcome::Invalid(
            String::from_str("API endpoint not found. Please check your server URL"),
        )
    } else {
        ValidationOutcome::Invalid(http_error_message(code, reason))
    }
}

/// The verdict on a response with the status `status`.
pub fn classify_status(status: HttpStatus) -> (r: ValidationOutcome)
    ensures
        r@ == status_verdict(status@, canonical_reason_of(status@)),
        accepted(status@) ==> r@ is Valid,
        status@ == 401 ==> r@ == Verdict::Invalid(unauthorized_text()),
        status@ == 404 ==> r@ == Verdict::Invalid(not_found_text()),
        !accepted(status@) ==> r@ is Invalid,
{
    let reason = status.canonical_reason();
    verdict_for_status(status, reason)
}

/// The verdict on a reply.
pub fn interpret_reply(reply: &ProbeReply) -> (r: ValidationOutcome)
    ensures
        r@ == reply_verdict(reply@),
{
    match reply {
        ProbeReply::Status(status) => classify_status(*status),
        ProbeReply::TransportFailure(detail) => {
            let mut message = String::from_str("Connection failed: ");
            message.append(detail.as_str());
            ValidationOutcome::Invalid(message)
        },
    }
}

impl ValidationOutcome {
    /// Whether the key was accepted.
    pub fn is_valid(&self) -> (r: bool)
        ensures
            r == (self@ is Valid),
    {
        match self {
            ValidationOutcome::Valid => true,
            ValidationOutcome::Invalid(_) => false,
        }
    }

    /// `Ok(true)` for `Valid`, the reason as the error for `Invalid`.
    pub fn into_result(self) -> (r: Result<bool, String>)
        ensures
            result_view(r) == verdict_result(self@),
    {
        match self {
            ValidationOutcome::Valid => Ok(true),
            ValidationOutcome::Invalid(reason) => Err(reason),
        }
    }
}

/// The reason given for 401 holds the word `unauthorized`, in lower case.
pub proof fn lemma_unauthorized_text_says_unauthorized()
    ensures
        contains(unauthorized_text(), "unauthorized"@),
{
    reveal_strlit("Invalid API key or unauthorized");
    reveal_strlit("unauthorized");
    assert(unauthorized_text().subrange(19, 31) =~= "unauthorized"@);
    assert(occurs_at(unauthorized_text(), "unauthorized"@, 19));
}

/// The reason given for 404 holds the words `not found`.
pub proof fn lemma_not_found_text_says_not_found()
    ensures
        contains(not_found_text(), "not found"@),
{
    reveal_strlit("API endpoint not found. Please check your server URL");
    reveal_strlit("not found");
    assert(not_found_text().subrange(13, 22) =~= "not found"@);
    assert(occurs_at(not_found_text(), "not found"@, 13));
}

/// The reason given where no response came starts with `Connection failed`,
/// whatever the transport said.
pub proof fn lemma_transport_failure_text_says_connection_failed(detail: Seq<char>)
    ensures
        contains(transport_failure_text(detail), "Connection failed"@),
        occurs_at(transport_failure_text(detail), "Connection failed"@, 0),
{
    reveal_strlit("Connection failed: ");
    reveal_strlit("Connection failed");
    assert(transport_failure_text(detail).subrange(0, 17) =~= "Connection failed"@);
    assert(occurs_at(transport_failure_text(detail), "Connection failed"@, 0));
}

/// What a validation returns for the reply to its probe: `true` where the
/// server accepted the key, else the reason as an error.
///
/// Every status from 200 to 299, and 400, gives `true`. A reply of 401 fails
/// with a reason that holds `unauthorized`, one of 404 with a reason that
/// holds `not found`, and a probe that got no response with a reason that
/// holds `Connection failed`.
pub fn validation_result(reply: &ProbeReply) -> (r: Result<bool, String>)
    ensures
        result_view(r) == verdict_result(reply_verdict(reply@)),
        r is Ok <==> (reply@ matches ReplyView::Status(code) && accepted(code)),
        r matches Ok(valid) ==> valid,
        reply@ == ReplyView::Status(401) ==> (r matches Err(reason) && reason@
            == unauthorized_text() && contains(reason@, "unauthorized"@)),
        reply@ == ReplyView::Status(404) ==> (r matches Err(reason) && reason@ == not_found_text()
            && contains(reason@, "not found"@)),
        reply@ matches ReplyView::TransportFailure(detail) ==> (r matches Err(reason) && reason@
            == transport_failure_text(detail) && contains(reason@, "Connection failed"@)),
{
    proof {
        lemma_unauthorized_text_says_unauthorized();
        lemma_not_found_text_says_not_found();
        if let ReplyView::TransportFailure(detail) = reply@ {
            lemma_transport_failure_text_says_connection_failed(detail);
        }
    }
    interpret_reply(reply).into_result()
}

} // verus!
