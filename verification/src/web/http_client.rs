//! The request of the plain, single-request client.

use vstd::prelude::*;
use crate::web::http::http_client::HttpTarget;

verus! {

/// `GET <path> HTTP/1.1`, CRLF, `Host:<host>`, CRLF: the request line and
/// host header that the plain client sends before the closing CRLF.
pub open spec fn plain_get_request_text(path: Seq<char>, host: Seq<char>) -> Seq<char> {
    "GET "@ + path + " HTTP/1.1\r\nHost:"@ + host + "\r\n"@
}

/// The request of the plain client for `target`, without the closing
/// CRLF that is written after it.
pub fn plain_get_request(target: &HttpTarget) -> (s: String)
    ensures
        s@ == plain_get_request_text(target.path@, target.host@),
{
    let mut s = String::from_str("GET ");
    s.append(target.path.as_str());
    s.append(" HTTP/1.1\r\nHost:");
    s.append(target.host.as_str());
    s.append("\r\n");
    s
}

} // verus!
