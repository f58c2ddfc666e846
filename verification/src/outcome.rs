//! The execution outcome model: the normalized response shape, the
//! cancellation sentinel, and the classification of transport failures.

use vstd::prelude::*;
use vstd::string::StringExecFns;
use crate::strutil::pair_views;

verus! {

/// The normalized result of one executed request, in its stable,
/// serializable shape.
pub struct PandaHttpResponse {
    pub status: u16,
    pub elapsed_time: u64,
    pub text_response: Option<String>,
    pub headers: Option<Vec<(String, String)>>,
    pub content_type: String,
}

/// An earlier, reduced result shape without the content type, kept for
/// callers that consume it.
pub struct RequestResponse {
    pub status: u16,
    pub elapsed_time: u128,
    pub text_response: Option<String>,
    pub headers: Option<Vec<(String, String)>>,
}

/// The sentinel result reported for a cancelled request: status 0, a
/// fixed human-readable message, empty headers — a normal terminal
/// outcome, not an error.
pub fn cancelled_result() -> (r: PandaHttpResponse)
    ensures
        r.status == 0,
        r.elapsed_time == 0,
        r.text_response matches Some(t) && t@ == "Request was cancelled."@,
        r.headers matches Some(h) && h@.len() == 0,
        r.content_type@ == "application/text"@,
{
    PandaHttpResponse {
        status: 0,
        elapsed_time: 0,
        text_response: Some(String::from_str("Request was cancelled.")),
        headers: Some(Vec::new()),
        content_type: String::from_str("application/text"),
    }
}

/// The distinguished kinds of a send failure. None of them is retried:
/// the executor performs exactly one attempt.
pub enum TransportKind {
    /// A connection error.
    Connect,
    /// A timeout reported by the transport.
    Timeout,
    /// An HTTP-status error.
    Status,
    /// Any other failure.
    Other,
}

/// Classifies a send failure from the transport's own predicates, tested
/// in the fixed order connect, timeout, status.
pub fn classify_transport_error(is_connect: bool, is_timeout: bool, is_status: bool) -> (r:
    TransportKind)
    ensures
        is_connect ==> r is Connect,
        !is_connect && is_timeout ==> r is Timeout,
        !is_connect && !is_timeout && is_status ==> r is Status,
        !is_connect && !is_timeout && !is_status ==> r is Other,
{
    if is_connect {
        TransportKind::Connect
    } else if is_timeout {
        TransportKind::Timeout
    } else if is_status {
        TransportKind::Status
    } else {
        TransportKind::Other
    }
}

/// The message prefix reported for each failure kind.
pub open spec fn transport_prefix(kind: TransportKind) -> Seq<char> {
    match kind {
        TransportKind::Connect => "Connection error: "@,
        TransportKind::Timeout => "Timeout error: "@,
        TransportKind::Status => "HTTP error: "@,
        TransportKind::Other => "Other error: "@,
    }
}

/// Renders a send failure as its reported message: the kind's prefix,
/// then the transport's own description.
pub fn transport_error_message(kind: &TransportKind, detail: &str) -> (r: String)
    ensures
        r@ == transport_prefix(*kind) + detail@,
{
    let mut out = match kind {
        TransportKind::Connect => String::from_str("Connection error: "),
        TransportKind::Timeout => String::from_str("Timeout error: "),
        TransportKind::Status => String::from_str("HTTP error: "),
        TransportKind::Other => String::from_str("Other error: "),
    };
    out.append(detail);
    out
}

/// What replacing the invalid sequences of a byte string yields: the
/// text form in which a response header value is reported.
pub uninterp spec fn lossy_text(bytes: Seq<u8>) -> Seq<char>;

/// Relies on `String::from_utf8_lossy`: decodes bytes as UTF-8,
/// replacing invalid sequences, never failing. A pure function of the
/// bytes.
#[verifier::external_body]
fn utf8_lossy(bytes: &Vec<u8>) -> (r: String)
    ensures
        r@ == lossy_text(bytes@),
{
    String::from_utf8_lossy(bytes).to_string()
}

/// The header mapping reported for a list of raw header values: each
/// name kept, each value decoded leniently.
pub open spec fn normalized_headers(raw: Seq<(String, Seq<u8>)>) -> Seq<(Seq<char>, Seq<char>)> {
    raw.map_values(|p: (String, Seq<u8>)| (p.0@, lossy_text(p.1)))
}

/// Converts a raw wire response, already read into plain values, into
/// the stable result shape: the status is copied, each header value is
/// decoded leniently, the body text is carried whole, and a missing
/// `Content-Type` becomes the empty string rather than a failure.
pub fn normalize_response(
    status: u16,
    raw_headers: Vec<(String, Vec<u8>)>,
    content_type: Option<String>,
    body_text: String,
    elapsed_secs: u64,
) -> (r: PandaHttpResponse)
    ensures
        r.status == status,
        r.elapsed_time == elapsed_secs,
        r.text_response matches Some(t) && t@ == body_text@,
        r.headers matches Some(h) && pair_views(h@) == normalized_headers(
            raw_headers@.map_values(|p: (String, Vec<u8>)| (p.0, p.1@)),
        ),
        match content_type {
            Some(ct) => r.content_type@ == ct@,
            None => r.content_type@.len() == 0,
        },
{
    let ghost raw = raw_headers@.map_values(|p: (String, Vec<u8>)| (p.0, p.1@));
    let mut headers: Vec<(String, String)> = Vec::new();
    let n = raw_headers.len();
    let mut i: usize = 0;
    proof {
        assert(pair_views(headers@) =~~= normalized_headers(raw.take(0)));
    }
    while i < n
        invariant
            i <= n,
            n == raw_headers@.len(),
            headers@.len() == i,
            raw == raw_headers@.map_values(|p: (String, Vec<u8>)| (p.0, p.1@)),
            pair_views(headers@) == normalized_headers(raw.take(i as int)),
        decreases n - i,
    {
        let ghost h0 = headers@;
        let key = raw_headers[i].0.clone();
        let value = utf8_lossy(&raw_headers[i].1);
        proof {
            assert(raw[i as int] == (raw_headers@[i as int].0, raw_headers@[i as int].1@));
            assert(value@ == lossy_text(raw[i as int].1));
        }
        headers.push((key, value));
        proof {
            let ghost lhs = pair_views(headers@);
            let ghost rhs = normalized_headers(raw.take(i as int + 1));
            assert(lhs.len() == rhs.len());
            assert forall|k: int| 0 <= k < lhs.len() implies lhs[k] == rhs[k] by {
                if k < i as int {
                    assert(headers@[k] == h0[k]);
                    assert(lhs[k] == pair_views(h0)[k]);
                    assert(normalized_headers(raw.take(i as int))[k] == rhs[k]);
                } else {
                    assert(headers@[k] == headers@.last());
                    assert(raw.take(i as int + 1)[k] == raw[i as int]);
                }
            }
            assert(lhs =~= rhs);
        }
        i = i + 1;
    }
    proof {
        assert(raw.take(n as int) =~= raw);
    }
    PandaHttpResponse {
        status,
        elapsed_time: elapsed_secs,
        text_response: Some(body_text),
        headers: Some(headers),
        content_type: match content_type {
            Some(ct) => ct,
            None => String::new(),
        },
    }
}

} // verus!
