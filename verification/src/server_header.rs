//! The headers by which a response names the server that produced it.

use crate::external::{
    accepts_headers, header_count, header_entries, is_header_name, is_header_value,
    store_header,
};
use crate::headers::with_header;
use vstd::prelude::*;
use vstd::string::StringExecFns;

verus! {

/// A response on its way to the client.
pub struct OxiditeResponse {
    /// The status code.
    pub status: u16,
    /// The headers.
    pub headers: http::HeaderMap,
    /// The body.
    pub body: Vec<u8>,
}

/// The headers after the two server headers were stored.
pub open spec fn with_server_headers(
    entries: Map<Seq<char>, Seq<Seq<u8>>>,
    server: Seq<char>,
) -> Map<Seq<char>, Seq<Seq<u8>>> {
    with_header(with_header(entries, "server"@, server), "x-powered-by"@, "Oxidite Framework"@)
}

/// What storing the two server headers may leave behind in a header map
/// that is close to its maximum size: both headers, or only those that the
/// map still took.
pub open spec fn server_headers_set(
    before: Map<Seq<char>, Seq<Seq<u8>>>,
    server: Seq<char>,
    after: Map<Seq<char>, Seq<Seq<u8>>>,
) -> bool {
    ||| after == with_server_headers(before, server)
    ||| after == with_header(before, "server"@, server)
    ||| after == with_header(before, "x-powered-by"@, "Oxidite Framework"@)
    ||| after == before
}

proof fn lemma_header_texts()
    ensures
        is_header_name("server"@),
        is_header_name("x-powered-by"@),
        is_header_value("Oxidite Framework"@),
        is_header_value("Oxidite/0.1.0"@),
        is_header_value("Oxidite/"@),
{
    reveal_strlit("server");
    reveal_strlit("x-powered-by");
    reveal_strlit("Oxidite Framework");
    reveal_strlit("Oxidite/0.1.0");
    reveal_strlit("Oxidite/");
}

/// Stores the `Server` header with the given value and the `X-Powered-By`
/// header.
fn set_server_headers(response: OxiditeResponse, server: &str) -> (tagged: OxiditeResponse)
    requires
        is_header_value(server@),
    ensures
        tagged.status == response.status,
        tagged.body == response.body,
        accepts_headers(response.headers, 2) ==> header_entries(tagged.headers)
            == with_server_headers(header_entries(response.headers), server@),
        server_headers_set(
            header_entries(response.headers),
            server@,
            header_entries(tagged.headers),
        ),
        header_count(tagged.headers) <= header_count(response.headers) + 2,
{
    let mut response = response;
    proof {
        lemma_header_texts();
    }
    store_header(&mut response.headers, "server", server);
    store_header(&mut response.headers, "x-powered-by", "Oxidite Framework");
    response
}

/// Adds the headers that name the server, `Server: Oxidite/0.1.0` and
/// `X-Powered-By: Oxidite Framework`, in place of any the response carries
/// under these names. Status and body stay as they are. Only a response
/// whose header map is close to its maximum size may come back without one
/// of them.
pub fn add_server_header(response: OxiditeResponse) -> (tagged: OxiditeResponse)
    ensures
        tagged.status == response.status,
        tagged.body == response.body,
        accepts_headers(response.headers, 2) ==> header_entries(tagged.headers)
            == with_server_headers(header_entries(response.headers), "Oxidite/0.1.0"@),
        server_headers_set(
            header_entries(response.headers),
            "Oxidite/0.1.0"@,
            header_entries(tagged.headers),
        ),
        header_count(tagged.headers) <= header_count(response.headers) + 2,
{
    proof {
        lemma_header_texts();
    }
    set_server_headers(response, "Oxidite/0.1.0")
}

/// Adds the headers that name the server and its version,
/// `Server: Oxidite/<version>` and `X-Powered-By: Oxidite Framework`.
pub fn server_header_middleware(response: OxiditeResponse, version: &str) -> (tagged:
    OxiditeResponse)
    requires
        is_header_value(version@),
    ensures
        tagged.status == response.status,
        tagged.body == response.body,
        accepts_headers(response.headers, 2) ==> header_entries(tagged.headers)
            == with_server_headers(header_entries(response.headers), "Oxidite/"@ + version@),
        server_headers_set(
            header_entries(response.headers),
            "Oxidite/"@ + version@,
            header_entries(tagged.headers),
        ),
        header_count(tagged.headers) <= header_count(response.headers) + 2,
{
    proof {
        lemma_header_texts();
    }
    let server: String = "Oxidite/".to_owned().concat(version);
    set_server_headers(response, server.as_str())
}

} // verus!
