//! A response as a test sees it.

use crate::external::{decode_json, status_number, text_from_utf8};
use vstd::prelude::*;
use vstd::utf8::{decode_utf8, valid_utf8};

verus! {

/// A response captured in a test: its status and the bytes of its body.
pub struct TestResponse {
    status: http::StatusCode,
    body: Vec<u8>,
}

impl TestResponse {
    /// The status of the response.
    pub closed spec fn spec_status(&self) -> http::StatusCode {
        self.status
    }

    /// The bytes of the body.
    pub closed spec fn spec_body(&self) -> Seq<u8> {
        self.body@
    }

    /// A response with the given status and body.
    pub fn new(status: http::StatusCode, body: Vec<u8>) -> (response: TestResponse)
        ensures
            response.spec_status() == status,
            response.spec_body() == body@,
    {
        TestResponse { status, body }
    }

    /// The status code.
    pub fn status(&self) -> (status: http::StatusCode)
        ensures
            status == self.spec_status(),
    {
        self.status
    }

    /// The body as bytes.
    pub fn body(&self) -> (bytes: &[u8])
        ensures
            bytes@ == self.spec_body(),
    {
        self.body.as_slice()
    }

    /// The body as text: succeeds exactly when the body is well-formed
    /// UTF-8, and then yields the text it encodes.
    pub fn text(&self) -> (text: Result<String, std::string::FromUtf8Error>)
        ensures
            text is Ok <==> valid_utf8(self.spec_body()),
            text matches Ok(s) ==> s@ == decode_utf8(self.spec_body()),
    {
        let bytes = self.body.clone();
        assert(bytes@ =~= self.body@);
        text_from_utf8(bytes)
    }

    /// The body decoded as JSON.
    pub fn json<T: serde::de::DeserializeOwned>(&self) -> Result<T, serde_json::Error> {
        decode_json(self.body.as_slice())
    }

    /// Whether the status is a success, that is, one of the codes from 200
    /// to 299.
    pub fn is_success(&self) -> (ok: bool)
        ensures
            ok == (200 <= status_number(self.spec_status()) < 300),
    {
        self.status.is_success()
    }
}

} // verus!
