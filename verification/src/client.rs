//! The client configuration and the computation of everything a send
//! needs before and after its transport work: the dial address and the
//! serialized request head.

use vstd::prelude::*;

use crate::headers::{map_of, spec_default_headers, unique_keys, HttpHeaders};
use crate::method::HttpMethod;
use crate::request::{
    crlf, lemma_header_block_concat, spec_header_block, spec_request_head, spec_request_line,
    HttpRequest,
};
use crate::uri::Uri;

verus! {

/// A reusable client: a default header set and an optional connect
/// timeout in milliseconds, both read-only during a send.
pub struct HttpClient {
    pub timeout: Option<u64>,
    pub headers: HttpHeaders,
}

/// What a send can report: the error kinds at the orchestration boundary.
#[derive(Debug, PartialEq, Eq, Structural, Clone, Copy)]
pub enum HttpError {
    InvalidUri,
    ConnectionFailed,
    UnknownError,
}

impl HttpClient {
    /// A client with no timeout and the default header set.
    pub fn new() -> (r: HttpClient)
        ensures
            r.timeout is None,
            r.headers.wf(),
            r.headers@ == spec_default_headers(),
    {
        HttpClient { timeout: None, headers: HttpHeaders::default() }
    }

    /// A new request for this client; the client itself is unchanged.
    pub fn request(&self, method: HttpMethod, uri: Uri) -> (r: HttpRequest)
        ensures
            r.method == method,
            r.uri == uri,
            r.headers.wf(),
            r.headers@ == spec_default_headers(),
            r.timeout is None,
    {
        HttpRequest::new(method, uri)
    }

    /// The exact bytes of the request head a send writes to the transport:
    /// the request line, then every header of the client's defaults merged
    /// with the request's overrides (the request wins on a shared name),
    /// then the double blank-line terminator. The merge is transient: both
    /// header sets are left as they were.
    pub fn serialize_request(&self, request: &HttpRequest) -> (r: String)
        requires
            self.headers.wf(),
            request.headers.wf(),
        ensures
            exists|hs: Seq<(Seq<char>, Seq<char>)>|
                #![auto]
                unique_keys(hs) && map_of(hs) == self.headers@.union_prefer_right(request.headers@)
                    && r@ == spec_request_head(spec_request_line(request.method, request.uri), hs),
    {
        let line = request.get_request_line();
        let combined = self.headers.combine(&request.headers);
        let ghost hs = combined.spec_pairs();
        proof {
            combined.lemma_view_is_pairs();
            reveal_strlit("\r\n");
            assert("\r\n"@ =~= crlf());
            reveal_strlit(": ");
            assert(": "@ =~= seq![':', ' ']);
        }
        let mut r = String::from_str(line.as_str());
        r.append("\r\n");
        let pairs = combined.iter();
        let n = pairs.len();
        proof {
            assert(hs.subrange(0, 0) =~= Seq::<(Seq<char>, Seq<char>)>::empty());
            assert(r@ =~= line@ + crlf() + spec_header_block(hs.subrange(0, 0)));
        }
        let mut k: usize = 0;
        while k < n
            invariant
                0 <= k <= n,
                n == pairs@.len(),
                hs == crate::headers::pairs_view(pairs@),
                "\r\n"@ == crlf(),
                ": "@ == seq![':', ' '],
                line@ == spec_request_line(request.method, request.uri),
                r@ == line@ + crlf() + spec_header_block(hs.subrange(0, k as int)),
            decreases n - k,
        {
            r.append(pairs[k].0.as_str());
            r.append(": ");
            r.append(pairs[k].1.as_str());
            r.append("\r\n");
            proof {
                assert(hs.subrange(0, k + 1) =~= hs.subrange(0, k as int) + seq![hs[k as int]]);
                lemma_header_block_concat(hs.subrange(0, k as int), seq![hs[k as int]]);
                reveal_with_fuel(spec_header_block, 2);
                assert(seq![hs[k as int]].subrange(1, 1) =~= Seq::<(Seq<char>, Seq<char>)>::empty());
                assert(spec_header_block(seq![hs[k as int]]) =~= hs[k as int].0 + seq![':', ' ']
                    + hs[k as int].1 + crlf());
                assert(hs[k as int].0 == pairs@[k as int].0@);
                assert(hs[k as int].1 == pairs@[k as int].1@);
                assert(r@ =~= line@ + crlf() + (spec_header_block(hs.subrange(0, k as int))
                    + spec_header_block(seq![hs[k as int]])));
            }
            k += 1;
        }
        r.append("\r\n");
        r.append("\r\n");
        proof {
            assert(hs.subrange(0, n as int) =~= hs);
            assert(r@ =~= spec_request_head(line@, hs));
            assert(unique_keys(hs) && map_of(hs) == self.headers@.union_prefer_right(
                request.headers@,
            ) && r@ == spec_request_head(spec_request_line(request.method, request.uri), hs));
        }
        r
    }
}

} // verus!
