//! A builder for the requests that a test sends to a handler.

use crate::external::{
    empty_headers, encode_json, header_count, header_entries, is_header_name, is_header_value,
    method_text, no_headers, parsed_uri, request_parts, request_target, standard_method,
    store_header, uri_is_valid, uri_parses, HEADER_ROOM,
};
use crate::headers::with_header;
use bytes::Bytes;
use http_body_util::Full;
use vstd::prelude::*;

verus! {

/// A request under construction.
pub struct TestRequest {
    method: http::Method,
    uri: String,
    headers: http::HeaderMap,
    body: Vec<u8>,
}

/// What a request under construction holds.
pub struct TestRequestView {
    /// The text of the method.
    pub method: Seq<char>,
    /// The target of the request.
    pub uri: Seq<char>,
    /// The headers: for each name, in lower case, its values.
    pub headers: Map<Seq<char>, Seq<Seq<u8>>>,
    /// The bytes of the body.
    pub body: Seq<u8>,
}

impl View for TestRequest {
    type V = TestRequestView;

    closed spec fn view(&self) -> TestRequestView {
        TestRequestView {
            method: method_text(self.method),
            uri: self.uri@,
            headers: header_entries(self.headers),
            body: self.body@,
        }
    }
}

impl TestRequestView {
    /// A request without headers and body.
    pub open spec fn bare(method: Seq<char>, uri: Seq<char>) -> TestRequestView {
        TestRequestView { method, uri, headers: no_headers(), body: Seq::empty() }
    }

    /// This request with `value` stored under the header `name`.
    pub open spec fn with_header(self, name: Seq<char>, value: Seq<char>) -> TestRequestView {
        TestRequestView { headers: with_header(self.headers, name, value), ..self }
    }

    /// This request with another body.
    pub open spec fn with_body(self, body: Seq<u8>) -> TestRequestView {
        TestRequestView { body, ..self }
    }
}

impl TestRequest {
    /// The number of header names that the request carries.
    pub closed spec fn header_names(&self) -> nat {
        header_count(self.headers)
    }

    /// Whether the request is sure to accept `more` headers one after the
    /// other. A request with fewer than [`HEADER_ROOM`] header names accepts
    /// another header.
    pub open spec fn has_room(&self, more: nat) -> bool {
        self.header_names() + more <= HEADER_ROOM
    }

    /// A request with the given method and target, without headers and
    /// body.
    pub fn new(method: http::Method, uri: &str) -> (request: TestRequest)
        ensures
            request@ == TestRequestView::bare(method_text(method), uri@),
            request.header_names() == 0,
    {
        TestRequest { method, uri: uri.to_owned(), headers: empty_headers(), body: Vec::new() }
    }

    /// A `GET` request.
    pub fn get(uri: &str) -> (request: TestRequest)
        ensures
            request@ == TestRequestView::bare("GET"@, uri@),
            request.header_names() == 0,
    {
        TestRequest::new(standard_method("GET"), uri)
    }

    /// A `POST` request.
    pub fn post(uri: &str) -> (request: TestRequest)
        ensures
            request@ == TestRequestView::bare("POST"@, uri@),
            request.header_names() == 0,
    {
        TestRequest::new(standard_method("POST"), uri)
    }

    /// A `PUT` request.
    pub fn put(uri: &str) -> (request: TestRequest)
        ensures
            request@ == TestRequestView::bare("PUT"@, uri@),
            request.header_names() == 0,
    {
        TestRequest::new(standard_method("PUT"), uri)
    }

    /// A `DELETE` request.
    pub fn delete(uri: &str) -> (request: TestRequest)
        ensures
            request@ == TestRequestView::bare("DELETE"@, uri@),
            request.header_names() == 0,
    {
        TestRequest::new(standard_method("DELETE"), uri)
    }

    /// Sets a header, in place of any value the request carries under that
    /// name; the request then carries at most one header name more. Only a
    /// request whose headers are close to their maximum size may stay as it
    /// is.
    pub fn header(self, name: &str, value: &str) -> (request: TestRequest)
        requires
            is_header_name(name@),
            is_header_value(value@),
        ensures
            self.has_room(1) ==> request@ == self@.with_header(name@, value@),
            request@ == self@.with_header(name@, value@) || request@ == self@,
            request.header_names() <= self.header_names() + 1,
    {
        let mut request = self;
        store_header(&mut request.headers, name, value);
        request
    }

    /// Sets the body to the given JSON text and the content type to
    /// `application/json`. Only a request whose headers are close to their
    /// maximum size may come back without the content type.
    pub fn json_text(self, encoded: Vec<u8>) -> (request: TestRequest)
        ensures
            json_set(self@, encoded@, self.has_room(1), request@),
            request.header_names() <= self.header_names() + 1,
    {
        let mut request = self;
        request.body = encoded;
        proof {
            lemma_content_type();
        }
        request.header("content-type", "application/json")
    }

    /// Sets the body to the JSON encoding of `body` and the content type to
    /// `application/json`. A value that cannot be encoded leaves the request
    /// as it is.
    pub fn json<T: serde::Serialize>(self, body: &T) -> (request: TestRequest)
        ensures
            request@ == self@ || exists|encoded: Seq<u8>| #[trigger]
                json_set(self@, encoded, self.has_room(1), request@),
            request.header_names() <= self.header_names() + 1,
    {
        match encode_json(body) {
            Ok(encoded) => self.json_text(encoded),
            Err(_) => self,
        }
    }

    /// Sets the body to the given bytes.
    pub fn body(self, body: Vec<u8>) -> (request: TestRequest)
        ensures
            request@ == self@.with_body(body@),
            request.header_names() == self.header_names(),
    {
        let mut request = self;
        request.body = body;
        request
    }

    /// Builds the request with `http::Request::new`, handing it the method,
    /// the headers, the body, and as its target what the parser of
    /// `http::Uri` makes of the target's text. The target must be one
    /// that `http` accepts as a URI; [`TestRequest::try_build`] checks that
    /// first.
    #[verifier::external_body]
    pub fn build(self) -> (request: http::Request<Full<Bytes>>)
        requires
            uri_parses(self@.uri),
        ensures
            request_parts(request) == (self@.method, self@.headers, self@.body),
            parsed_uri(self@.uri) == Some(request_target(request)),
    {
        let mut request = http::Request::new(Full::new(Bytes::from(self.body)));
        *request.method_mut() = self.method;
        *request.uri_mut() = self.uri.parse().unwrap();
        *request.headers_mut() = self.headers;
        request
    }

    /// Builds the request, or returns `None` where the target is not one
    /// that `http` accepts as a URI.
    pub fn try_build(self) -> (request: Option<http::Request<Full<Bytes>>>)
        ensures
            request is Some <==> uri_parses(self@.uri),
            request matches Some(built) ==> request_parts(built) == (
                self@.method,
                self@.headers,
                self@.body,
            ) && parsed_uri(self@.uri) == Some(request_target(built)),
    {
        if uri_is_valid(self.uri.as_str()) {
            Some(self.build())
        } else {
            None
        }
    }
}

/// What setting a JSON body leaves behind: the body, and with it the
/// content type `application/json`; only where the request has no sure room
/// for a header may the content type be missing.
pub open spec fn json_set(
    before: TestRequestView,
    encoded: Seq<u8>,
    room: bool,
    after: TestRequestView,
) -> bool {
    ||| after == before.with_body(encoded).with_header("content-type"@, "application/json"@)
    ||| !room && after == before.with_body(encoded)
}

proof fn lemma_content_type()
    ensures
        is_header_name("content-type"@),
        is_header_value("application/json"@),
{
    reveal_strlit("content-type");
    reveal_strlit("application/json");
}

} // verus!
