//! Responses: a status line, ordered headers and an optional body,
//! serialized into the exact byte sequence written back to a
//! connection.  A response with a body carries its media type and its
//! byte length; one without a body is just the status line and a blank
//! line.

use vstd::prelude::*;
use crate::ascii::{
    crlf, crlf_bytes, colon_space, colon_space_bytes, hdr_content_length,
    hdr_content_length_bytes, hdr_content_type, hdr_content_type_bytes, mime_octet_stream,
    mime_octet_stream_bytes, mime_text_plain, mime_text_plain_bytes, status_line_200,
    status_line_200_bytes, status_line_201, status_line_201_bytes, status_line_400,
    status_line_400_bytes, status_line_404, status_line_404_bytes, status_line_500,
    status_line_500_bytes,
};
use crate::text::push_all;

verus! {

/// The five status codes the server ever sends.
#[derive(Clone, Copy, Debug, PartialEq, Eq)]
pub enum StatusCode {
    Success,
    Created,
    BadRequest,
    NotFound,
    ServerError,
}

/// The status line sent for each code.
pub open spec fn status_line_of(s: StatusCode) -> Seq<u8> {
    match s {
        StatusCode::Success => status_line_200(),
        StatusCode::Created => status_line_201(),
        StatusCode::BadRequest => status_line_400(),
        StatusCode::NotFound => status_line_404(),
        StatusCode::ServerError => status_line_500(),
    }
}

pub fn status_line_bytes(s: StatusCode) -> (v: Vec<u8>)
    ensures
        v@ == status_line_of(s),
{
    match s {
        StatusCode::Success => status_line_200_bytes(),
        StatusCode::Created => status_line_201_bytes(),
        StatusCode::BadRequest => status_line_400_bytes(),
        StatusCode::NotFound => status_line_404_bytes(),
        StatusCode::ServerError => status_line_500_bytes(),
    }
}

/// One response header: a name and a value.
pub struct Header {
    pub name: Vec<u8>,
    pub value: Vec<u8>,
}

impl View for Header {
    type V = (Seq<u8>, Seq<u8>);

    open spec fn view(&self) -> (Seq<u8>, Seq<u8>) {
        (self.name@, self.value@)
    }
}

/// A response before serialization: status, headers in order, and an
/// optional body.
pub struct Response {
    pub status: StatusCode,
    pub headers: Vec<Header>,
    pub body: Option<Vec<u8>>,
}

/// The mathematical shape of a response.
pub struct RespView {
    pub status: StatusCode,
    pub headers: Seq<(Seq<u8>, Seq<u8>)>,
    pub body: Option<Seq<u8>>,
}

impl View for Response {
    type V = RespView;

    open spec fn view(&self) -> RespView {
        RespView {
            status: self.status,
            headers: self.headers@.map_values(|h: Header| h@),
            body: match self.body {
                Some(b) => Some(b@),
                None => None,
            },
        }
    }
}

/// The serialized form of a header list: `name: value CRLF` for each,
/// in order.
pub open spec fn headers_bytes(hs: Seq<(Seq<u8>, Seq<u8>)>) -> Seq<u8>
    decreases hs.len(),
{
    if hs.len() == 0 {
        seq![]
    } else {
        hs[0].0 + colon_space() + hs[0].1 + crlf() + headers_bytes(hs.skip(1))
    }
}

pub proof fn lemma_headers_bytes_append(a: Seq<(Seq<u8>, Seq<u8>)>, b: Seq<(Seq<u8>, Seq<u8>)>)
    ensures
        headers_bytes(a + b) == headers_bytes(a) + headers_bytes(b),
    decreases a.len(),
{
    if a.len() == 0 {
        assert(a + b =~= b);
        assert(headers_bytes(a) + headers_bytes(b) =~= headers_bytes(b));
    } else {
        assert((a + b)[0] == a[0]);
        assert((a + b).skip(1) =~= a.skip(1) + b);
        lemma_headers_bytes_append(a.skip(1), b);
        assert(headers_bytes(a + b) =~= headers_bytes(a) + headers_bytes(b));
    }
}

/// The exact bytes of a serialized response: the status line, a CRLF,
/// the headers, a blank line, and, when a body is present, the body
/// followed by one more CRLF pair.  That trailing pair after the body
/// is not standard HTTP framing; it is this server's deliberate quirk,
/// and clients that honour `Content-Length` never see it as body.
pub open spec fn render_spec(r: RespView) -> Seq<u8> {
    status_line_of(r.status) + crlf() + headers_bytes(r.headers) + crlf() + (match r.body {
        Some(b) => b + crlf() + crlf(),
        None => seq![],
    })
}

/// The decimal digits of `n`, most significant first, as ASCII bytes.
pub open spec fn dec_rep(n: nat) -> Seq<u8>
    decreases n,
{
    if n < 10 {
        seq![(48 + n) as u8]
    } else {
        dec_rep(n / 10) + seq![(48 + n % 10) as u8]
    }
}

/// Writes `n` in decimal, as `dec_rep` describes.
pub fn usize_dec(n: usize) -> (v: Vec<u8>)
    ensures
        v@ == dec_rep(n as nat),
{
    let mut digits: Vec<u8> = Vec::new();
    let mut m: usize = n;
    proof {
        assert(digits@.reverse() =~= Seq::<u8>::empty());
        assert(dec_rep(m as nat) + digits@.reverse() =~= dec_rep(n as nat));
    }
    while m >= 10
        invariant
            dec_rep(n as nat) == dec_rep(m as nat) + digits@.reverse(),
        decreases m,
    {
        let ghost before = digits@;
        let ghost m0 = m as nat;
        let d: u8 = 48 + (m % 10) as u8;
        digits.push(d);
        m = m / 10;
        proof {
            assert(digits@.reverse() =~= seq![d] + before.reverse());
            assert(dec_rep(m0) == dec_rep(m0 / 10) + seq![(48 + m0 % 10) as u8]);
            assert(m as nat == m0 / 10);
            assert(d == (48 + m0 % 10) as u8);
            assert(dec_rep(n as nat) =~= dec_rep(m as nat) + digits@.reverse());
        }
    }
    let ghost before = digits@;
    digits.push(48 + m as u8);
    proof {
        assert(digits@.reverse() =~= seq![(48 + m) as u8] + before.reverse());
        assert(dec_rep(n as nat) =~= digits@.reverse());
    }
    let k = digits.len();
    let mut v: Vec<u8> = Vec::new();
    let mut i: usize = k;
    proof {
        assert(v@ =~= digits@.skip(k as int).reverse());
    }
    while i > 0
        invariant
            i <= k,
            k == digits@.len(),
            v@ == digits@.skip(i as int).reverse(),
        decreases i,
    {
        i -= 1;
        v.push(digits[i]);
        proof {
            assert(v@ =~= digits@.skip(i as int).reverse());
        }
    }
    proof {
        assert(digits@.skip(0) =~= digits@);
    }
    v
}

/// The two headers of a response that carries a body.
pub open spec fn body_headers(mime: Seq<u8>, body: Seq<u8>) -> Seq<(Seq<u8>, Seq<u8>)> {
    seq![(hdr_content_type(), mime), (hdr_content_length(), dec_rep(body.len()))]
}

/// A 200 response whose body is served as plain text.
pub open spec fn text_response_spec(body: Seq<u8>) -> RespView {
    RespView {
        status: StatusCode::Success,
        headers: body_headers(mime_text_plain(), body),
        body: Some(body),
    }
}

/// A 200 response whose body is served as an octet stream.
pub open spec fn octet_response_spec(body: Seq<u8>) -> RespView {
    RespView {
        status: StatusCode::Success,
        headers: body_headers(mime_octet_stream(), body),
        body: Some(body),
    }
}

/// A response of bare status, with no headers and no body.
pub open spec fn empty_response_spec(s: StatusCode) -> RespView {
    RespView { status: s, headers: seq![], body: None }
}

pub fn text_response(body: Vec<u8>) -> (r: Response)
    ensures
        r@ == text_response_spec(body@),
{
    let ghost b = body@;
    let length = usize_dec(body.len());
    let headers: Vec<Header> = vec![
        Header { name: hdr_content_type_bytes(), value: mime_text_plain_bytes() },
        Header { name: hdr_content_length_bytes(), value: length },
    ];
    let r = Response { status: StatusCode::Success, headers, body: Some(body) };
    proof {
        assert(r@.headers =~= text_response_spec(b).headers);
    }
    r
}

pub fn octet_response(body: Vec<u8>) -> (r: Response)
    ensures
        r@ == octet_response_spec(body@),
{
    let ghost b = body@;
    let length = usize_dec(body.len());
    let headers: Vec<Header> = vec![
        Header { name: hdr_content_type_bytes(), value: mime_octet_stream_bytes() },
        Header { name: hdr_content_length_bytes(), value: length },
    ];
    let r = Response { status: StatusCode::Success, headers, body: Some(body) };
    proof {
        assert(r@.headers =~= octet_response_spec(b).headers);
    }
    r
}

pub fn empty_response(s: StatusCode) -> (r: Response)
    ensures
        r@ == empty_response_spec(s),
{
    let r = Response { status: s, headers: Vec::new(), body: None };
    proof {
        assert(r@.headers =~= empty_response_spec(s).headers);
    }
    r
}

/// Serializes a response into the exact bytes of `render_spec`.
pub fn render_response(r: &Response) -> (out: Vec<u8>)
    ensures
        out@ == render_spec(r@),
{
    let mut out = status_line_bytes(r.status);
    let line_end = crlf_bytes();
    let sep = colon_space_bytes();
    push_all(&mut out, &line_end);
    let n = r.headers.len();
    let mut i: usize = 0;
    proof {
        assert(r@.headers.take(0) =~= Seq::<(Seq<u8>, Seq<u8>)>::empty());
        assert(out@ =~= status_line_of(r@.status) + crlf() + headers_bytes(r@.headers.take(0)));
    }
    while i < n
        invariant
            i <= n,
            n == r.headers@.len(),
            line_end@ == crlf(),
            sep@ == colon_space(),
            out@ == status_line_of(r@.status) + crlf() + headers_bytes(r@.headers.take(i as int)),
        decreases n - i,
    {
        push_all(&mut out, &r.headers[i].name);
        push_all(&mut out, &sep);
        push_all(&mut out, &r.headers[i].value);
        push_all(&mut out, &line_end);
        proof {
            let hs = r@.headers;
            assert(hs[i as int] == r.headers@[i as int]@);
            lemma_headers_bytes_append(hs.take(i as int), seq![hs[i as int]]);
            assert(hs.take(i as int) + seq![hs[i as int]] =~= hs.take(i + 1));
            let e = Seq::<(Seq<u8>, Seq<u8>)>::empty();
            assert(headers_bytes(e) =~= Seq::<u8>::empty());
            assert(seq![hs[i as int]].skip(1) =~= e);
            assert(headers_bytes(seq![hs[i as int]]) =~= hs[i as int].0 + colon_space()
                + hs[i as int].1 + crlf());
            assert(headers_bytes(hs.take(i + 1)) == headers_bytes(hs.take(i as int))
                + headers_bytes(seq![hs[i as int]]));
            assert(out@ =~= status_line_of(r@.status) + crlf() + headers_bytes(hs.take(i + 1)));
        }
        i += 1;
    }
    proof {
        assert(r@.headers.take(n as int) =~= r@.headers);
    }
    push_all(&mut out, &line_end);
    match &r.body {
        Some(b) => {
            push_all(&mut out, b);
            push_all(&mut out, &line_end);
            push_all(&mut out, &line_end);
        },
        None => {},
    }
    proof {
        assert(out@ =~= render_spec(r@));
    }
    out
}

} // verus!
