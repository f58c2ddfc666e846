//! The request builder: turns a parsed request schema into a concrete
//! outbound request plan — method, composed URL, validated headers and
//! encoded body choice — or a descriptive error.

use vstd::prelude::*;
use vstd::string::StrSliceExecFns;
use vstd::string::StringExecFns;
use crate::schema::{
    FormContent, HttpMethod, PandaTomlRequest, RequestParams, ScalarValue, rendered_query,
    render_query_pairs, selected_block, select_method,
};
use crate::strutil::pair_views;

verus! {

/// The body the outgoing request carries: at most one source is honored.
#[derive(Debug)]
pub enum BodyPlan {
    /// No body at all — no block was populated, or only the inert `xml`.
    NoBody,
    /// A raw text payload, sent as it stands.
    RawText(String),
    /// A JSON payload, re-encoded from the validated `json` block.
    JsonPayload(String),
    /// A multipart form, one part per field, in input order.
    Multipart(Vec<FormContent>),
    /// A url-encoded form, one key per field, in input order.
    UrlEncoded(Vec<FormContent>),
}

/// Why a request schema could not be turned into a request plan.
#[derive(Debug)]
pub enum RequestError {
    /// No method block is populated.
    InvalidMethod,
    /// The chosen block's `url` is empty.
    EmptyUrl,
    /// The URL did not parse after the query string was composed.
    InvalidQuery,
    /// The `json` body text does not parse as JSON; carries the parser's
    /// message.
    InvalidJsonBody(String),
    /// A header with an empty name.
    InvalidHeaderKey,
    /// A header whose value is not a string (a number, say).
    InvalidHeaderValue,
}

impl RequestError {
    /// The user-facing description of the error.
    pub open spec fn spec_message(&self) -> Seq<char> {
        match self {
            RequestError::InvalidMethod => "Invalid or unsupported request method"@,
            RequestError::EmptyUrl => "Please provide a valid request url."@,
            RequestError::InvalidQuery => "Please provide a valid query string."@,
            RequestError::InvalidJsonBody(m) => m@,
            RequestError::InvalidHeaderKey => "Invalid request header"@,
            RequestError::InvalidHeaderValue => (
            "Invalid request value, you may have provided a number."@),
        }
    }

    /// The user-facing description of the error.
    pub fn message(&self) -> (r: String)
        ensures
            r@ == self.spec_message(),
    {
        match self {
            RequestError::InvalidMethod => String::from_str("Invalid or unsupported request method"),
            RequestError::EmptyUrl => String::from_str("Please provide a valid request url."),
            RequestError::InvalidQuery => String::from_str("Please provide a valid query string."),
            RequestError::InvalidJsonBody(m) => m.clone(),
            RequestError::InvalidHeaderKey => String::from_str("Invalid request header"),
            RequestError::InvalidHeaderValue => String::from_str(
                "Invalid request value, you may have provided a number.",
            ),
        }
    }
}

/// What a URL with appended query pairs renders to: `None` exactly when
/// the base does not parse as an absolute URL, otherwise the rendered
/// URL with each pair appended to its query string.
pub uninterp spec fn url_with_query(base: Seq<char>, params: Seq<(Seq<char>, Seq<char>)>) -> Option<
    Seq<char>,
>;

/// Relies on `url::Url::parse_with_params` and the display form of
/// `url::Url`: parses the base, appends each pair to the query string and
/// renders the result; fails exactly when the base does not parse. A pure
/// function of its inputs.
#[verifier::external_body]
fn compose_url(base: &str, params: &Vec<(String, String)>) -> (r: Option<String>)
    ensures
        match r {
            Some(u) => url_with_query(base@, pair_views(params@)) == Some(u@),
            None => url_with_query(base@, pair_views(params@)) is None,
        },
{
    match url::Url::parse_with_params(base, params) {
        Ok(u) => Some(u.to_string()),
        Err(_) => None,
    }
}

/// What parsing a text as JSON and rendering it back compactly yields:
/// the re-encoded document, or the parser's message on failure.
pub uninterp spec fn json_reencoded(s: Seq<char>) -> Result<Seq<char>, Seq<char>>;

/// Relies on `serde_json::from_str`, the display form of
/// `serde_json::Value` and of `serde_json::Error`: parses the text as
/// JSON and renders it back compactly; on failure, the parser's message.
/// A pure function of the text.
#[verifier::external_body]
fn reencode_json(content: &str) -> (r: Result<String, String>)
    ensures
        match r {
            Ok(t) => json_reencoded(content@) == Ok::<Seq<char>, Seq<char>>(t@),
            Err(m) => json_reencoded(content@) == Err::<Seq<char>, Seq<char>>(m@),
        },
{
    match serde_json::from_str::<serde_json::Value>(content) {
        Ok(v) => Ok(v.to_string()),
        Err(e) => Err(e.to_string()),
    }
}

/// The string a header value contributes when it is a string value.
pub open spec fn header_text(v: ScalarValue) -> Seq<char> {
    match v {
        ScalarValue::Text(s) => s@,
        _ => Seq::<char>::empty(),
    }
}

/// The first offending header, scanned in order: an empty name is
/// rejected, and so is any value that is not a string — a numeric header
/// value is never silently coerced.
pub open spec fn first_header_error(hs: Seq<(String, ScalarValue)>) -> Option<RequestError>
    decreases hs.len(),
{
    if hs.len() == 0 {
        None
    } else if hs[0].0@.len() == 0 {
        Some(RequestError::InvalidHeaderKey)
    } else if !(hs[0].1 is Text) {
        Some(RequestError::InvalidHeaderValue)
    } else {
        first_header_error(hs.drop_first())
    }
}

/// The header list the builder emits when the schema has headers: the
/// default `User-Agent` injected first, then each user header in order
/// (so a user-supplied `User-Agent` overwrites the default downstream).
pub open spec fn planned_headers(hs: Seq<(String, ScalarValue)>) -> Seq<(Seq<char>, Seq<char>)> {
    seq![("User-Agent"@, "Worm"@)] + hs.map_values(
        |p: (String, ScalarValue)| (p.0@, header_text(p.1)),
    )
}

/// Validates the schema headers and renders the outgoing header list.
fn build_headers(hs: &Vec<(String, ScalarValue)>) -> (r: Result<
    Vec<(String, String)>,
    RequestError,
>)
    ensures
        match r {
            Ok(out) => first_header_error(hs@) is None && pair_views(out@) == planned_headers(hs@),
            Err(e) => first_header_error(hs@) == Some(e),
        },
{
    let ghost mapped = hs@.map_values(|p: (String, ScalarValue)| (p.0@, header_text(p.1)));
    let mut out: Vec<(String, String)> = Vec::new();
    out.push((String::from_str("User-Agent"), String::from_str("Worm")));
    let n = hs.len();
    let mut i: usize = 0;
    proof {
        assert(hs@.skip(0) =~= hs@);
        assert(pair_views(out@) =~~= seq![("User-Agent"@, "Worm"@)] + mapped.take(0));
    }
    while i < n
        invariant
            i <= n,
            n == hs@.len(),
            out@.len() == i + 1,
            mapped == hs@.map_values(|p: (String, ScalarValue)| (p.0@, header_text(p.1))),
            first_header_error(hs@) == first_header_error(hs@.skip(i as int)),
            pair_views(out@) == seq![("User-Agent"@, "Worm"@)] + mapped.take(i as int),
        decreases n - i,
    {
        proof {
            assert(hs@.skip(i as int)[0] == hs@[i as int]);
            assert(hs@.skip(i as int).drop_first() =~= hs@.skip(i as int + 1));
        }
        let key = hs[i].0.clone();
        if key.as_str().is_empty() {
            return Err(RequestError::InvalidHeaderKey);
        }
        let ghost out0 = out@;
        let val = match &hs[i].1 {
            ScalarValue::Text(s) => s.clone(),
            _ => {
                return Err(RequestError::InvalidHeaderValue);
            },
        };
        proof {
            assert(header_text(hs@[i as int].1) == val@);
        }
        out.push((key, val));
        proof {
            let ghost lhs = pair_views(out@);
            let ghost rhs = seq![("User-Agent"@, "Worm"@)] + mapped.take(i as int + 1);
            assert(lhs.len() == rhs.len());
            assert forall|k: int| 0 <= k < lhs.len() implies lhs[k] == rhs[k] by {
                if k < i as int + 1 {
                    assert(out@[k] == out0[k]);
                    assert(lhs[k] == pair_views(out0)[k]);
                    assert(pair_views(out0)[k] == (seq![("User-Agent"@, "Worm"@)] + mapped.take(
                        i as int,
                    ))[k]);
                    if k >= 1 {
                        assert(mapped.take(i as int + 1)[k - 1] == mapped[k - 1]);
                        assert(mapped.take(i as int)[k - 1] == mapped[k - 1]);
                    }
                } else {
                    assert(out@[k] == out@.last());
                    assert(mapped.take(i as int + 1)[i as int] == mapped[i as int]);
                    assert(mapped[i as int] == (hs@[i as int].0@, header_text(hs@[i as int].1)));
                }
            }
            assert(lhs =~= rhs);
        }
        i = i + 1;
    }
    proof {
        assert(hs@.skip(n as int) =~= Seq::<(String, ScalarValue)>::empty());
        assert(mapped.take(n as int) =~= mapped);
    }
    Ok(out)
}

/// A ready-to-send request plan: the resolved method, the composed URL,
/// the outgoing header list in insertion order, and the chosen body.
#[derive(Debug)]
pub struct RequestPlan {
    pub method: HttpMethod,
    pub url: String,
    pub headers: Vec<(String, String)>,
    pub body: BodyPlan,
}

/// How the plan's body relates to the schema: first match wins among
/// text, json, multipart form, url-encoded form and xml, in that fixed
/// priority order; an `xml` body is recognized but intentionally not
/// encoded, and a schema without a body block carries none.
pub open spec fn body_plan_matches(p: RequestParams, b: BodyPlan) -> bool {
    if p.text is Some {
        b matches BodyPlan::RawText(s) && s@ == p.text->0.content@
    } else if p.json is Some {
        b matches BodyPlan::JsonPayload(s) && json_reencoded(p.json->0.content@) == Ok::<
            Seq<char>,
            Seq<char>,
        >(s@)
    } else if p.form_multipart is Some {
        b matches BodyPlan::Multipart(fs) && fs@ == p.form_multipart->0.content@
    } else if p.form_urlencoded is Some {
        b matches BodyPlan::UrlEncoded(fs) && fs@ == p.form_urlencoded->0.content@
    } else {
        b is NoBody
    }
}

/// How a full plan relates to the chosen method block.
pub open spec fn plan_matches(m: HttpMethod, p: RequestParams, plan: RequestPlan) -> bool {
    &&& plan.method == m
    &&& (match p.query {
        Some(q) => url_with_query(p.url@, rendered_query(q@)) == Some(plan.url@),
        None => plan.url@ == p.url@,
    })
    &&& (match p.headers {
        Some(hs) => pair_views(plan.headers@) == planned_headers(hs@),
        None => plan.headers@.len() == 0,
    })
    &&& body_plan_matches(p, plan.body)
}

/// Everything `build_request_plan` promises, for every schema: which
/// error comes on which input, in which precedence, and what the plan
/// holds on success.
pub open spec fn build_outcome(req: PandaTomlRequest, r: Result<RequestPlan, RequestError>) -> bool {
    match selected_block(req) {
        None => r == Err::<RequestPlan, RequestError>(RequestError::InvalidMethod),
        Some((m, p)) => {
            if p.url@.len() == 0 {
                r == Err::<RequestPlan, RequestError>(RequestError::EmptyUrl)
            } else if p.query is Some && url_with_query(p.url@, rendered_query(p.query->0@))
                is None {
                r == Err::<RequestPlan, RequestError>(RequestError::InvalidQuery)
            } else if p.text is None && p.json is Some && json_reencoded(p.json->0.content@)
                is Err {
                r matches Err(e) && e matches RequestError::InvalidJsonBody(msg)
                    && json_reencoded(p.json->0.content@) == Err::<Seq<char>, Seq<char>>(msg@)
            } else if p.headers is Some && first_header_error(p.headers->0@) is Some {
                r == Err::<RequestPlan, RequestError>(first_header_error(p.headers->0@)->0)
            } else {
                r matches Ok(plan) && plan_matches(m, p, plan)
            }
        },
    }
}

/// Consumes a request schema and produces a ready-to-send request plan.
///
/// The populated method block earliest in canonical order is honored; an
/// empty URL, an uncomposable query, an unparseable `json` body, an empty
/// header name and a non-string header value are rejected, in that order
/// of precedence.
pub fn build_request_plan(req: PandaTomlRequest) -> (r: Result<RequestPlan, RequestError>)
    ensures
        build_outcome(req, r),
{
    let ghost greq = req;
    let selected = select_method(req);
    let (method, params) = match selected {
        Some(mp) => mp,
        None => {
            return Err(RequestError::InvalidMethod);
        },
    };
    let ghost gp = params;
    if params.url.as_str().is_empty() {
        return Err(RequestError::EmptyUrl);
    }
    let RequestParams {
        url,
        name: _,
        query,
        headers,
        text,
        json,
        form_multipart,
        form_urlencoded,
        xml,
    } = params;
    let composed: String = match query {
        Some(q) => {
            let pairs = render_query_pairs(&q);
            match compose_url(url.as_str(), &pairs) {
                Some(u) => u,
                None => {
                    return Err(RequestError::InvalidQuery);
                },
            }
        },
        None => url,
    };
    let body: BodyPlan = match (text, json, form_multipart, form_urlencoded, xml) {
        (Some(t), _, _, _, _) => BodyPlan::RawText(t.content),
        (None, Some(j), _, _, _) => {
            match reencode_json(j.content.as_str()) {
                Ok(s) => BodyPlan::JsonPayload(s),
                Err(m) => {
                    return Err(RequestError::InvalidJsonBody(m));
                },
            }
        },
        (None, None, Some(fm), _, _) => BodyPlan::Multipart(fm.content),
        (None, None, None, Some(fu), _) => BodyPlan::UrlEncoded(fu.content),
        _ => BodyPlan::NoBody,
    };
    let header_list: Vec<(String, String)> = match headers {
        Some(hs) => {
            match build_headers(&hs) {
                Ok(v) => v,
                Err(e) => {
                    return Err(e);
                },
            }
        },
        None => Vec::new(),
    };
    Ok(RequestPlan { method, url: composed, headers: header_list, body })
}

/// With both a `text` and a `json` body set, only `text` is honored: the
/// body sources stand in a fixed priority order, and any plan that
/// matches such a schema carries the raw text payload.
pub proof fn lemma_body_priority(p: RequestParams, b: BodyPlan)
    requires
        p.text is Some,
        body_plan_matches(p, b),
    ensures
        b matches BodyPlan::RawText(s) && s@ == p.text->0.content@,
{
}

/// Headers that pass validation are exactly the well-behaved ones: every
/// name is non-empty and every value is a string. In particular a header
/// value that is a number is never silently coerced — it can only have
/// been rejected.
pub proof fn lemma_headers_validated(hs: Seq<(String, ScalarValue)>)
    requires
        first_header_error(hs) is None,
    ensures
        forall|i: int| 0 <= i < hs.len() ==> hs[i].0@.len() > 0 && (#[trigger] hs[i].1) is Text,
    decreases hs.len(),
{
    if hs.len() > 0 {
        lemma_headers_validated(hs.drop_first());
        assert forall|i: int| 0 <= i < hs.len() implies hs[i].0@.len() > 0 && (#[trigger] hs[i].1)
            is Text by {
            if i > 0 {
                assert(hs.drop_first()[i - 1] == hs[i]);
            }
        }
    }
}

/// A header list holding any non-string value — a number, say — is
/// rejected: validation reports an error for it.
pub proof fn lemma_numeric_header_rejected(hs: Seq<(String, ScalarValue)>, i: int)
    requires
        0 <= i < hs.len(),
        !(hs[i].1 is Text),
    ensures
        first_header_error(hs) is Some,
{
    if first_header_error(hs) is None {
        lemma_headers_validated(hs);
    }
}

} // verus!
