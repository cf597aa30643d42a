//! One delivery: what is posted where, and what the answer means.
//!
//! A record is delivered by one POST request whose body is the record as a
//! JSON object with the fields `source`, `variables`, `captured_at` and
//! `metadata`. The caller performs the request. [`PendingDelivery`] tells it what to
//! send, and the caller tells the pending delivery what came back:
//!
//! - no answer at all is the one error of a delivery, a transport error;
//! - an answer with a status from 200 to 299 is a delivery;
//! - an answer with any other status is a rejection. A rejection is not an
//!   error: the call succeeds, and the status and the body of the answer are
//!   handed back for the caller to report.

use crate::error::SenderError;
use crate::record::rustfmtData;
use vstd::prelude::*;

verus! {

/// The name of the header that carries the credential.
pub const AUTHORIZATION: &'static str = "Authorization";

/// The name of the header that says what the body is.
pub const CONTENT_TYPE: &'static str = "Content-Type";

/// The content type of the body.
pub const CONTENT_TYPE_JSON: &'static str = "application/json";

/// Whether a status says that the server took the record: 200 to 299.
pub open spec fn is_success(status: u16) -> bool {
    200 <= status < 300
}

/// Decides [`is_success`].
pub fn status_is_success(status: u16) -> (b: bool)
    ensures
        b == is_success(status),
{
    200 <= status && status < 300
}

/// The value of the authorization header for a token.
pub open spec fn bearer(token: Seq<char>) -> Seq<char> {
    "Bearer "@ + token
}

/// The headers of a request, as names and values: the content type, and
/// after it the bearer credential where there is a token.
pub open spec fn request_headers(token: Option<Seq<char>>) -> Seq<(Seq<char>, Seq<char>)> {
    let content = seq![(CONTENT_TYPE@, CONTENT_TYPE_JSON@)];
    match token {
        Some(token) => content.push((AUTHORIZATION@, bearer(token))),
        None => content,
    }
}

/// Whether the headers are the ones named: as many, in the same order, each
/// with the same name and the same value.
pub open spec fn headers_are(
    headers: Seq<(String, String)>,
    named: Seq<(Seq<char>, Seq<char>)>,
) -> bool {
    &&& headers.len() == named.len()
    &&& forall|i: int|
        0 <= i < headers.len() ==> (#[trigger] headers[i]).0@ == named[i].0 && headers[i].1@
            == named[i].1
}

/// The text of the body of an answer: empty where it could not be read.
pub open spec fn body_text(body: Option<String>) -> Seq<char> {
    match body {
        Some(read) => read@,
        None => Seq::<char>::empty(),
    }
}

/// A request that is still to be made: `record` is posted to `url` as a JSON
/// object, with the headers `headers`, and given up as unanswered once
/// `timeout_seconds` have passed.
#[derive(Debug, PartialEq, Eq)]
pub struct PendingDelivery {
    pub record: rustfmtData,
    pub url: String,
    pub headers: Vec<(String, String)>,
    pub timeout_seconds: u64,
}

/// How a delivery that was answered ended.
#[derive(Debug, PartialEq, Eq)]
pub enum DeliveryOutcome {
    /// The server took the record.
    Delivered { status: u16 },
    /// The server answered with a status outside 200 to 299. `body` is the
    /// text of its answer, empty where the text could not be read.
    Rejected { status: u16, body: String },
}

/// An answer with a status outside 200 to 299, whose body is still to be
/// read.
#[derive(Debug)]
pub struct RejectedResponse {
    status: u16,
}

/// What is to be done once the status of the answer is known.
#[derive(Debug)]
pub enum ResponseStep {
    /// Nothing: the delivery ended.
    Finished(DeliveryOutcome),
    /// The body of the answer is to be read and handed to
    /// [`RejectedResponse::on_body`].
    ReadBody(RejectedResponse),
}

impl PendingDelivery {
    /// Called when the endpoint answered with `status`.
    pub fn on_response(self, status: u16) -> (step: ResponseStep)
        ensures
            is_success(status) ==> step == ResponseStep::Finished(
                DeliveryOutcome::Delivered { status },
            ),
            !is_success(status) ==> (step matches ResponseStep::ReadBody(rejected)
                && rejected.status() == status),
    {
        if status_is_success(status) {
            ResponseStep::Finished(DeliveryOutcome::Delivered { status })
        } else {
            ResponseStep::ReadBody(RejectedResponse { status })
        }
    }

    /// Called when the request was not answered; `reason` says why.
    pub fn on_transport_failure(self, reason: String) -> (error: SenderError)
        ensures
            error == (SenderError::Transport { reason }),
    {
        SenderError::Transport { reason }
    }
}

impl RejectedResponse {
    /// The status of the answer.
    pub closed spec fn status(&self) -> u16 {
        self.status
    }

    #[verifier::type_invariant]
    spec fn rejected(self) -> bool {
        !is_success(self.status)
    }

    /// Called with the text of the answer, or `None` where it could not be
    /// read.
    pub fn on_body(self, body: Option<String>) -> (outcome: DeliveryOutcome)
        ensures
            !is_success(self.status()),
            outcome is Rejected,
            outcome.spec_status() == self.status(),
            outcome->body@ == body_text(body),
    {
        proof {
            use_type_invariant(&self);
        }
        let text = match body {
            Some(read) => read,
            None => String::new(),
        };
        DeliveryOutcome::Rejected { status: self.status, body: text }
    }
}

impl DeliveryOutcome {
    /// The status of the answer.
    pub open spec fn spec_status(&self) -> u16 {
        match self {
            DeliveryOutcome::Delivered { status } => *status,
            DeliveryOutcome::Rejected { status, .. } => *status,
        }
    }

    /// The status of the answer.
    #[verifier::when_used_as_spec(spec_status)]
    pub fn status(&self) -> (status: u16)
        ensures
            status == self.spec_status(),
    {
        match self {
            DeliveryOutcome::Delivered { status } => *status,
            DeliveryOutcome::Rejected { status, .. } => *status,
        }
    }

    /// Whether the server took the record.
    pub fn is_delivered(&self) -> (b: bool)
        ensures
            b == (self is Delivered),
    {
        match self {
            DeliveryOutcome::Delivered { .. } => true,
            DeliveryOutcome::Rejected { .. } => false,
        }
    }
}

} // verus!
