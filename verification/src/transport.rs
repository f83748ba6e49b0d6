//! The DoH exchange as data: the request to issue and the reading of what
//! came back.
//!
//! Nothing here touches the network. The caller issues the request with its
//! one long-lived HTTP client and reports the outcome as an [`HttpOutcome`].

use vstd::prelude::*;
use vstd::slice::slice_to_vec;

verus! {

/// The media type of a DNS message in an HTTP body.
pub const CONTENT_TYPE: &'static str = "application/dns-message";

/// An HTTP POST to the upstream: its URL, the value of its `Content-Type`
/// header, and its body.
#[derive(Clone, Debug, PartialEq, Eq)]
pub struct DohRequest {
    pub url: String,
    pub content_type: String,
    pub body: Vec<u8>,
}

/// Mathematical value of a [`DohRequest`].
pub struct DohRequestView {
    pub url: Seq<char>,
    pub content_type: Seq<char>,
    pub body: Seq<u8>,
}

impl View for DohRequest {
    type V = DohRequestView;

    open spec fn view(&self) -> DohRequestView {
        DohRequestView { url: self.url@, content_type: self.content_type@, body: self.body@ }
    }
}

/// The request that carries a query to an upstream.
pub open spec fn request_for(upstream_url: Seq<char>, query: Seq<u8>) -> DohRequestView {
    DohRequestView { url: upstream_url, content_type: CONTENT_TYPE@, body: query }
}

/// Wraps a query in the POST that carries it to the upstream: the body is the
/// query, byte for byte.
pub fn doh_request(upstream_url: &str, query: &[u8]) -> (req: DohRequest)
    ensures
        req@ == request_for(upstream_url@, query@),
{
    DohRequest {
        url: upstream_url.to_owned(),
        content_type: CONTENT_TYPE.to_owned(),
        body: slice_to_vec(query),
    }
}

/// What became of one POST, as the caller observed it.
#[derive(Clone, Debug, PartialEq, Eq)]
pub enum HttpOutcome {
    /// No response arrived: the connection or the network failed.
    Unreachable,
    /// A response arrived but its body could not be read to the end.
    BodyUnreadable { status: u16 },
    /// A response arrived in full.
    Complete { status: u16, body: Vec<u8> },
}

/// Mathematical value of an [`HttpOutcome`].
pub enum HttpOutcomeView {
    Unreachable,
    BodyUnreadable { status: u16 },
    Complete { status: u16, body: Seq<u8> },
}

impl View for HttpOutcome {
    type V = HttpOutcomeView;

    open spec fn view(&self) -> HttpOutcomeView {
        match *self {
            HttpOutcome::Unreachable => HttpOutcomeView::Unreachable,
            HttpOutcome::BodyUnreadable { status } => HttpOutcomeView::BodyUnreadable { status },
            HttpOutcome::Complete { status, body } => HttpOutcomeView::Complete {
                status,
                body: body@,
            },
        }
    }
}

/// Why an exchange with the upstream gave no payload.
#[derive(Clone, Copy, Debug, PartialEq, Eq, Structural)]
pub enum TransportError {
    /// The connection or the network failed.
    Network,
    /// The upstream answered with a status outside 200 to 299.
    Status(u16),
    /// The body of a successful response could not be read.
    BodyRead,
}

/// Whether an HTTP status is a success, 200 to 299.
pub open spec fn is_success(status: u16) -> bool {
    200 <= status < 300
}

/// The payload of an outcome, or the reason why it has none. The status is
/// judged before the body.
pub open spec fn payload_of(outcome: HttpOutcomeView) -> Result<Seq<u8>, TransportError> {
    match outcome {
        HttpOutcomeView::Unreachable => Err(TransportError::Network),
        HttpOutcomeView::BodyUnreadable { status } => if is_success(status) {
            Err(TransportError::BodyRead)
        } else {
            Err(TransportError::Status(status))
        },
        HttpOutcomeView::Complete { status, body } => if is_success(status) {
            Ok(body)
        } else {
            Err(TransportError::Status(status))
        },
    }
}

/// Reads the outcome of a POST: the body of a successful response, unchanged,
/// or the kind of failure.
pub fn response_bytes(outcome: HttpOutcome) -> (r: Result<Vec<u8>, TransportError>)
    ensures
        match r {
            Ok(body) => payload_of(outcome@) == Ok::<Seq<u8>, TransportError>(body@),
            Err(e) => payload_of(outcome@) == Err::<Seq<u8>, TransportError>(e),
        },
{
    match outcome {
        HttpOutcome::Unreachable => Err(TransportError::Network),
        HttpOutcome::BodyUnreadable { status } => {
            if 200 <= status && status < 300 {
                Err(TransportError::BodyRead)
            } else {
                Err(TransportError::Status(status))
            }
        },
        HttpOutcome::Complete { status, body } => {
            if 200 <= status && status < 300 {
                Ok(body)
            } else {
                Err(TransportError::Status(status))
            }
        },
    }
}

} // verus!
