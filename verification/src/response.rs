//! HTTP-shaped responses: a status code, an ordered list of headers and a
//! body. The web layer turns these into whatever its framework sends.

use vstd::prelude::*;
use vstd::string::*;

verus! {

/// Whether `code` lies in the range of HTTP status codes.
pub open spec fn is_status_code(code: int) -> bool {
    100 <= code <= 999
}

/// An HTTP status code, always between 100 and 999.
#[derive(Debug, Clone, Copy)]
pub struct StatusCode(u16);

impl View for StatusCode {
    type V = u16;

    closed spec fn view(&self) -> u16 {
        self.0
    }
}

impl StatusCode {
    #[verifier::type_invariant]
    spec fn in_range(self) -> bool {
        is_status_code(self.0 as int)
    }

    /// Accepts `code` exactly when it lies between 100 and 999.
    pub fn from_u16(code: u16) -> (status: Option<StatusCode>)
        ensures
            status is Some <==> is_status_code(code as int),
            status matches Some(s) ==> s@ == code,
    {
        if 100 <= code && code <= 999 {
            Some(StatusCode(code))
        } else {
            None
        }
    }

    /// The numeric code.
    pub fn as_u16(&self) -> (code: u16)
        ensures
            code == self@,
            is_status_code(code as int),
    {
        proof {
            use_type_invariant(self);
        }
        self.0
    }

    /// 200 OK.
    pub fn ok() -> (status: StatusCode)
        ensures
            status@ == 200,
    {
        StatusCode(200)
    }

    /// 303 See Other.
    pub fn see_other() -> (status: StatusCode)
        ensures
            status@ == 303,
    {
        StatusCode(303)
    }

    /// 400 Bad Request.
    pub fn bad_request() -> (status: StatusCode)
        ensures
            status@ == 400,
    {
        StatusCode(400)
    }

    /// 401 Unauthorized.
    pub fn unauthorized() -> (status: StatusCode)
        ensures
            status@ == 401,
    {
        StatusCode(401)
    }

    /// 500 Internal Server Error.
    pub fn internal_server_error() -> (status: StatusCode)
        ensures
            status@ == 500,
    {
        StatusCode(500)
    }
}

/// One response header: its name and the bytes of its value.
#[derive(Debug)]
pub struct HeaderPair {
    pub name: String,
    pub value: Vec<u8>,
}

/// The mathematical content of a [`HeaderPair`].
pub struct HeaderView {
    pub name: Seq<char>,
    pub value: Seq<u8>,
}

impl View for HeaderPair {
    type V = HeaderView;

    open spec fn view(&self) -> HeaderView {
        HeaderView { name: self.name@, value: self.value@ }
    }
}

impl Clone for HeaderPair {
    fn clone(&self) -> (copy: Self)
        ensures
            copy@ == self@,
    {
        let value = copy_bytes(&self.value);
        HeaderPair { name: self.name.clone(), value }
    }
}

/// A fresh vector holding the same bytes as `bytes`.
pub fn copy_bytes(bytes: &Vec<u8>) -> (copy: Vec<u8>)
    ensures
        copy@ == bytes@,
{
    let mut copy: Vec<u8> = Vec::new();
    let mut i: usize = 0;
    while i < bytes.len()
        invariant
            i <= bytes.len(),
            copy@ == bytes@.subrange(0, i as int),
        decreases bytes.len() - i,
    {
        copy.push(bytes[i]);
        i += 1;
        assert(copy@ =~= bytes@.subrange(0, i as int));
    }
    assert(bytes@.subrange(0, i as int) =~= bytes@);
    copy
}

/// The views of a list of headers, in order.
pub open spec fn header_views(headers: Seq<HeaderPair>) -> Seq<HeaderView> {
    Seq::new(headers.len(), |i: int| headers[i]@)
}

/// A fresh vector holding copies of `headers`, in order.
pub fn copy_headers(headers: &Vec<HeaderPair>) -> (copy: Vec<HeaderPair>)
    ensures
        header_views(copy@) == header_views(headers@),
{
    let mut copy: Vec<HeaderPair> = Vec::new();
    let mut i: usize = 0;
    while i < headers.len()
        invariant
            i <= headers.len(),
            copy@.len() == i,
            forall|j: int| 0 <= j < i ==> copy@[j]@ == headers@[j]@,
        decreases headers.len() - i,
    {
        copy.push(headers[i].clone());
        i += 1;
    }
    assert(header_views(copy@) =~= header_views(headers@));
    copy
}

/// A response as the caller of a command sees it.
#[derive(Debug)]
pub struct HttpResponse {
    pub status_code: StatusCode,
    pub headers: Vec<HeaderPair>,
    pub body: Vec<u8>,
}

/// The mathematical content of an [`HttpResponse`].
pub struct ResponseView {
    pub status_code: u16,
    pub headers: Seq<HeaderView>,
    pub body: Seq<u8>,
}

impl View for HttpResponse {
    type V = ResponseView;

    open spec fn view(&self) -> ResponseView {
        ResponseView {
            status_code: self.status_code@,
            headers: header_views(self.headers@),
            body: self.body@,
        }
    }
}

impl Clone for HttpResponse {
    fn clone(&self) -> (copy: Self)
        ensures
            copy@ == self@,
    {
        HttpResponse {
            status_code: self.status_code,
            headers: copy_headers(&self.headers),
            body: copy_bytes(&self.body),
        }
    }
}

/// A response with the given status, no headers and an empty body.
pub open spec fn bare_response(status_code: u16) -> ResponseView {
    ResponseView { status_code, headers: Seq::empty(), body: Seq::empty() }
}

/// A `303 See Other` response that sends the client to `location`.
pub open spec fn redirect_response(location: Seq<u8>) -> ResponseView {
    ResponseView {
        status_code: 303,
        headers: seq![HeaderView { name: "location"@, value: location }],
        body: Seq::empty(),
    }
}

impl HttpResponse {
    /// A response with the given status, no headers and an empty body.
    pub fn bare(status_code: StatusCode) -> (response: HttpResponse)
        ensures
            response@ == bare_response(status_code@),
    {
        let response = HttpResponse { status_code, headers: Vec::new(), body: Vec::new() };
        assert(header_views(response.headers@) =~= Seq::empty());
        response
    }

    /// Appends one header after those already present.
    pub fn append_header(&mut self, name: String, value: Vec<u8>)
        ensures
            final(self)@ == (ResponseView {
                headers: old(self)@.headers.push(HeaderView { name: name@, value: value@ }),
                ..old(self)@
            }),
    {
        self.headers.push(HeaderPair { name, value });
        assert(header_views(self.headers@) =~= header_views(old(self).headers@).push(
            HeaderView { name: name@, value: value@ },
        ));
    }

    /// A `303 See Other` response that sends the client to `location`.
    pub fn redirect(location: &str) -> (response: HttpResponse)
        ensures
            response@ == redirect_response(location.spec_bytes()),
    {
        let mut response = HttpResponse::bare(StatusCode::see_other());
        response.append_header(String::from_str("location"), location.as_bytes_vec());
        assert(response@.headers =~= redirect_response(location.spec_bytes()).headers);
        response
    }
}

/// A `200 OK` response that carries `page` as HTML: a `content-type` header
/// for UTF-8 HTML, and the page's bytes as body.
pub open spec fn html_response(page: Seq<char>) -> ResponseView {
    ResponseView {
        status_code: 200,
        headers: seq![
            HeaderView {
                name: "content-type"@,
                value: vstd::utf8::encode_utf8("text/html; charset=utf-8"@),
            },
        ],
        body: vstd::utf8::encode_utf8(page),
    }
}

/// A `200 OK` response that carries `page` as HTML.
pub fn html_page(page: &str) -> (response: HttpResponse)
    ensures
        response@ == html_response(page@),
{
    let mut response = HttpResponse::bare(StatusCode::ok());
    response.append_header(
        String::from_str("content-type"),
        "text/html; charset=utf-8".as_bytes_vec(),
    );
    response.body = page.as_bytes_vec();
    assert(response@.headers =~= html_response(page@).headers);
    response
}

} // verus!
