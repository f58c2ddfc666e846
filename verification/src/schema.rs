//! The declarative request schema: the data model for one HTTP request
//! (method blocks, URL, query, headers, body variants) and the string
//! form of scalar document values.

use vstd::prelude::*;
use vstd::string::StrSliceExecFns;
use vstd::string::StringExecFns;
use crate::strutil::push_char;

verus! {

/// A scalar value as it stands in the declarative document. The engine
/// only reads whether it is a string, a number or something else, and a
/// rendered form; the library keeps exactly that as plain data.
#[derive(Debug)]
pub enum ScalarValue {
    /// A string value, held raw.
    Text(String),
    /// A numeric value, held as its literal rendering.
    Number(String),
    /// A boolean value.
    Bool(bool),
    /// Any other value, held in its rendered document form.
    Other(String),
}

/// A raw body block: plain text carried as one string.
#[derive(Debug)]
pub struct BodyText {
    pub content: String,
}

/// One form field. Order is preserved for multipart and url-encoded
/// encoding.
#[derive(Debug)]
pub struct FormContent {
    pub field: String,
    pub value: String,
}

/// A form body block: the ordered fields of a multipart or url-encoded
/// payload.
#[derive(Debug)]
pub struct FormPayload {
    pub content: Vec<FormContent>,
}

/// The parameters of one method block of a request schema.
pub struct RequestParams {
    pub url: String,
    pub name: Option<String>,
    pub query: Option<Vec<(String, ScalarValue)>>,
    pub headers: Option<Vec<(String, ScalarValue)>>,
    pub text: Option<BodyText>,
    pub json: Option<BodyText>,
    pub form_multipart: Option<FormPayload>,
    pub form_urlencoded: Option<FormPayload>,
    pub xml: Option<BodyText>,
}

/// A declarative request schema: one top-level block per HTTP method.
/// Exactly one block should be populated; when several are, the builder
/// honors the first in canonical order.
pub struct PandaTomlRequest {
    pub get: Option<RequestParams>,
    pub head: Option<RequestParams>,
    pub post: Option<RequestParams>,
    pub put: Option<RequestParams>,
    pub patch: Option<RequestParams>,
    pub delete: Option<RequestParams>,
    pub options: Option<RequestParams>,
}

/// The seven supported HTTP methods, in canonical priority order.
#[derive(Debug)]
pub enum HttpMethod {
    Get,
    Head,
    Post,
    Put,
    Patch,
    Delete,
    Options,
}

impl HttpMethod {
    /// The lower-case name of the method, as the document writes it.
    pub open spec fn spec_name(&self) -> Seq<char> {
        match self {
            HttpMethod::Get => "get"@,
            HttpMethod::Head => "head"@,
            HttpMethod::Post => "post"@,
            HttpMethod::Put => "put"@,
            HttpMethod::Patch => "patch"@,
            HttpMethod::Delete => "delete"@,
            HttpMethod::Options => "options"@,
        }
    }

    /// The lower-case name of the method.
    pub fn name(&self) -> (r: String)
        ensures
            r@ == self.spec_name(),
    {
        match self {
            HttpMethod::Get => String::from_str("get"),
            HttpMethod::Head => String::from_str("head"),
            HttpMethod::Post => String::from_str("post"),
            HttpMethod::Put => String::from_str("put"),
            HttpMethod::Patch => String::from_str("patch"),
            HttpMethod::Delete => String::from_str("delete"),
            HttpMethod::Options => String::from_str("options"),
        }
    }
}

/// The populated method block that the builder honors: the first in the
/// canonical order get, head, post, put, patch, delete, options — a
/// priority-ordered single choice, not a merge.
pub open spec fn selected_block(req: PandaTomlRequest) -> Option<(HttpMethod, RequestParams)> {
    if req.get is Some {
        Some((HttpMethod::Get, req.get->0))
    } else if req.head is Some {
        Some((HttpMethod::Head, req.head->0))
    } else if req.post is Some {
        Some((HttpMethod::Post, req.post->0))
    } else if req.put is Some {
        Some((HttpMethod::Put, req.put->0))
    } else if req.patch is Some {
        Some((HttpMethod::Patch, req.patch->0))
    } else if req.delete is Some {
        Some((HttpMethod::Delete, req.delete->0))
    } else if req.options is Some {
        Some((HttpMethod::Options, req.options->0))
    } else {
        None
    }
}

/// Picks the populated method block earliest in canonical order, if any.
pub fn select_method(req: PandaTomlRequest) -> (r: Option<(HttpMethod, RequestParams)>)
    ensures
        r == selected_block(req),
{
    match req {
        PandaTomlRequest { get: Some(payload), .. } => Some((HttpMethod::Get, payload)),
        PandaTomlRequest { head: Some(payload), .. } => Some((HttpMethod::Head, payload)),
        PandaTomlRequest { post: Some(payload), .. } => Some((HttpMethod::Post, payload)),
        PandaTomlRequest { put: Some(payload), .. } => Some((HttpMethod::Put, payload)),
        PandaTomlRequest { patch: Some(payload), .. } => Some((HttpMethod::Patch, payload)),
        PandaTomlRequest { delete: Some(payload), .. } => Some((HttpMethod::Delete, payload)),
        PandaTomlRequest { options: Some(payload), .. } => Some((HttpMethod::Options, payload)),
        _ => None,
    }
}

/// One of the sixteen lower-case hexadecimal digits.
pub open spec fn hex_digit(d: u32) -> char {
    if d == 0 {
        '0'
    } else if d == 1 {
        '1'
    } else if d == 2 {
        '2'
    } else if d == 3 {
        '3'
    } else if d == 4 {
        '4'
    } else if d == 5 {
        '5'
    } else if d == 6 {
        '6'
    } else if d == 7 {
        '7'
    } else if d == 8 {
        '8'
    } else if d == 9 {
        '9'
    } else if d == 10 {
        'a'
    } else if d == 11 {
        'b'
    } else if d == 12 {
        'c'
    } else if d == 13 {
        'd'
    } else if d == 14 {
        'e'
    } else {
        'f'
    }
}

fn hex_digit_char(d: u32) -> (r: char)
    requires
        d < 16,
    ensures
        r == hex_digit(d),
{
    if d == 0 {
        '0'
    } else if d == 1 {
        '1'
    } else if d == 2 {
        '2'
    } else if d == 3 {
        '3'
    } else if d == 4 {
        '4'
    } else if d == 5 {
        '5'
    } else if d == 6 {
        '6'
    } else if d == 7 {
        '7'
    } else if d == 8 {
        '8'
    } else if d == 9 {
        '9'
    } else if d == 10 {
        'a'
    } else if d == 11 {
        'b'
    } else if d == 12 {
        'c'
    } else if d == 13 {
        'd'
    } else if d == 14 {
        'e'
    } else {
        'f'
    }
}

/// The escape of one character inside a JSON string literal: the quote,
/// the backslash and the control characters are escaped, everything else
/// stands as itself.
pub open spec fn json_escape_char(c: char) -> Seq<char> {
    if c == '"' {
        seq!['\\', '"']
    } else if c == '\\' {
        seq!['\\', '\\']
    } else if c == '\n' {
        seq!['\\', 'n']
    } else if c == '\r' {
        seq!['\\', 'r']
    } else if c == '\t' {
        seq!['\\', 't']
    } else if c == '\u{8}' {
        seq!['\\', 'b']
    } else if c == '\u{c}' {
        seq!['\\', 'f']
    } else if (c as u32) < 32 {
        seq!['\\', 'u', '0', '0', hex_digit((c as u32) / 16), hex_digit((c as u32) % 16)]
    } else {
        seq![c]
    }
}

/// The escape of a whole string body for a JSON string literal.
pub open spec fn json_escape(s: Seq<char>) -> Seq<char>
    decreases s.len(),
{
    if s.len() == 0 {
        Seq::<char>::empty()
    } else {
        json_escape(s.drop_last()) + json_escape_char(s.last())
    }
}

fn append_escape_char(out: &mut String, c: char)
    ensures
        final(out)@ == old(out)@ + json_escape_char(c),
{
    let u = c as u32;
    if c == '"' {
        push_char(out, '\\');
        push_char(out, '"');
    } else if c == '\\' {
        push_char(out, '\\');
        push_char(out, '\\');
    } else if c == '\n' {
        push_char(out, '\\');
        push_char(out, 'n');
    } else if c == '\r' {
        push_char(out, '\\');
        push_char(out, 'r');
    } else if c == '\t' {
        push_char(out, '\\');
        push_char(out, 't');
    } else if u == 8 {
        push_char(out, '\\');
        push_char(out, 'b');
    } else if u == 12 {
        push_char(out, '\\');
        push_char(out, 'f');
    } else if u < 32 {
        push_char(out, '\\');
        push_char(out, 'u');
        push_char(out, '0');
        push_char(out, '0');
        push_char(out, hex_digit_char(u / 16));
        push_char(out, hex_digit_char(u % 16));
    } else {
        push_char(out, c);
    }
    proof {
        assert(final(out)@ =~= old(out)@ + json_escape_char(c));
    }
}

/// The string form of a scalar document value, as the builder coerces it
/// when composing a query string: a string value is rendered as a JSON
/// string literal with quotes and escapes, a number or boolean as its
/// literal text, anything else in its already rendered form.
pub open spec fn scalar_rendered(v: ScalarValue) -> Seq<char> {
    match v {
        ScalarValue::Text(s) => seq!['"'] + json_escape(s@) + seq!['"'],
        ScalarValue::Number(n) => n@,
        ScalarValue::Bool(b) => if b {
            "true"@
        } else {
            "false"@
        },
        ScalarValue::Other(o) => o@,
    }
}

/// Renders a scalar document value to its string form.
pub fn render_scalar(v: &ScalarValue) -> (r: String)
    ensures
        r@ == scalar_rendered(*v),
{
    match v {
        ScalarValue::Text(s) => {
            let mut out = String::new();
            push_char(&mut out, '"');
            let t = s.as_str();
            let n = t.unicode_len();
            let mut i: usize = 0;
            proof {
                assert(t@.take(0) =~= Seq::<char>::empty());
                assert(json_escape(t@.take(0)) =~= Seq::<char>::empty());
                assert(out@ =~= seq!['"'] + json_escape(t@.take(0)));
            }
            while i < n
                invariant
                    i <= n,
                    n == t@.len(),
                    out@ == seq!['"'] + json_escape(t@.take(i as int)),
                decreases n - i,
            {
                let c = t.get_char(i);
                append_escape_char(&mut out, c);
                proof {
                    assert(t@.take(i as int + 1).drop_last() =~= t@.take(i as int));
                    assert(t@.take(i as int + 1).last() == t@[i as int]);
                    assert(out@ =~= seq!['"'] + json_escape(t@.take(i as int + 1)));
                }
                i = i + 1;
            }
            push_char(&mut out, '"');
            proof {
                assert(t@.take(n as int) =~= t@);
                assert(out@ =~= seq!['"'] + json_escape(t@) + seq!['"']);
            }
            out
        },
        ScalarValue::Number(n) => n.clone(),
        ScalarValue::Bool(b) => {
            if *b {
                String::from_str("true")
            } else {
                String::from_str("false")
            }
        },
        ScalarValue::Other(o) => o.clone(),
    }
}

/// The rendered form of a query mapping: each key kept, each value in
/// its string form, order preserved.
pub open spec fn rendered_query(q: Seq<(String, ScalarValue)>) -> Seq<(Seq<char>, Seq<char>)> {
    q.map_values(|p: (String, ScalarValue)| (p.0@, scalar_rendered(p.1)))
}

/// Renders every query pair to plain strings, in order.
pub fn render_query_pairs(q: &Vec<(String, ScalarValue)>) -> (r: Vec<(String, String)>)
    ensures
        crate::strutil::pair_views(r@) == rendered_query(q@),
{
    let mut out: Vec<(String, String)> = Vec::new();
    let n = q.len();
    let mut i: usize = 0;
    proof {
        assert(crate::strutil::pair_views(out@) =~~= rendered_query(q@.take(0)));
    }
    while i < n
        invariant
            i <= n,
            n == q@.len(),
            out@.len() == i,
            crate::strutil::pair_views(out@) == rendered_query(q@.take(i as int)),
        decreases n - i,
    {
        let key = q[i].0.clone();
        let value = render_scalar(&q[i].1);
        proof {
            assert(key@ == q@[i as int].0@);
            assert(value@ == scalar_rendered(q@[i as int].1));
        }
        out.push((key, value));
        proof {
            let ghost lhs = crate::strutil::pair_views(out@);
            let ghost rhs = rendered_query(q@.take(i as int + 1));
            assert(lhs.len() == rhs.len());
            assert forall|k: int| 0 <= k < lhs.len() implies lhs[k] == rhs[k] by {
                if k < i as int {
                    assert(lhs[k] == crate::strutil::pair_views(out@.drop_last())[k]);
                    assert(rhs[k] == rendered_query(q@.take(i as int))[k]);
                } else {
                    assert(out@[k] == (key, value));
                    assert(q@.take(i as int + 1)[k] == q@[i as int]);
                }
            }
            assert(lhs =~= rhs);
        }
        i = i + 1;
    }
    proof {
        assert(q@.take(n as int) =~= q@);
    }
    out
}

/// The method blocks are honored strictly in canonical order: whenever
/// several are populated, the one earliest in the order get, head, post,
/// put, patch, delete, options is selected, whatever else is set.
pub proof fn lemma_method_priority(req: PandaTomlRequest)
    ensures
        req.get is Some ==> selected_block(req) == Some((HttpMethod::Get, req.get->0)),
        req.get is None && req.head is Some ==> selected_block(req) == Some(
            (HttpMethod::Head, req.head->0),
        ),
        req.get is None && req.head is None && req.post is Some ==> selected_block(req) == Some(
            (HttpMethod::Post, req.post->0),
        ),
        req.get is None && req.head is None && req.post is None && req.put is Some
            ==> selected_block(req) == Some((HttpMethod::Put, req.put->0)),
        req.get is None && req.head is None && req.post is None && req.put is None && req.patch
            is Some ==> selected_block(req) == Some((HttpMethod::Patch, req.patch->0)),
        req.get is None && req.head is None && req.post is None && req.put is None && req.patch
            is None && req.delete is Some ==> selected_block(req) == Some(
            (HttpMethod::Delete, req.delete->0),
        ),
        req.get is None && req.head is None && req.post is None && req.put is None && req.patch
            is None && req.delete is None && req.options is Some ==> selected_block(req) == Some(
            (HttpMethod::Options, req.options->0),
        ),
{
}

} // verus!
