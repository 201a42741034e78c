//! An HTTP request and its wire serialization: the request line and the
//! head written as `line CRLF (name: value CRLF)* CRLF CRLF`.

use vstd::prelude::*;
use vstd::utf8::{encode_utf8, is_ascii_chars, is_ascii_chars_encode_utf8};

use crate::headers::{spec_default_headers, HttpHeaders};
use crate::method::{spec_method_text, HttpMethod};
use crate::protocol::spec_http_version;
use crate::stream_buffer::{chars_of, first_nl, lemma_nl_skip, spec_read_line};
use crate::text::{lemma_trim_identity_endpoints, push_char, trim_spec, trim_start_spec, trim_end_spec};
use crate::uri::{spec_encode, Uri};

verus! {

pub open spec fn crlf() -> Seq<char> {
    seq!['\r', '\n']
}

/// The request line: `METHOD SP /encoded-path SP VERSION`. The leading
/// slash of the path is added here.
pub open spec fn spec_request_line(m: HttpMethod, u: Uri) -> Seq<char> {
    spec_method_text(m) + seq![' ', '/'] + spec_encode(u.path@) + seq![' '] + spec_http_version(
        u.protocol,
    )
}

/// The header block as written on the wire: one `name: value` line per
/// pair, in the order given.
pub open spec fn spec_header_block(entries: Seq<(Seq<char>, Seq<char>)>) -> Seq<char>
    decreases entries.len(),
{
    if entries.len() == 0 {
        Seq::<char>::empty()
    } else {
        entries[0].0 + seq![':', ' '] + entries[0].1 + crlf() + spec_header_block(
            entries.subrange(1, entries.len() as int),
        )
    }
}

/// The full request head: the request line, the header block, and a blank
/// line written twice, to satisfy servers that expect either one or two
/// terminators.
pub open spec fn spec_request_head(line: Seq<char>, entries: Seq<(Seq<char>, Seq<char>)>) -> Seq<
    char,
> {
    line + crlf() + spec_header_block(entries) + crlf() + crlf()
}

/// The header block of a concatenation is the two blocks in sequence.
pub proof fn lemma_header_block_concat(a: Seq<(Seq<char>, Seq<char>)>, b: Seq<(Seq<char>, Seq<char>)>)
    ensures
        spec_header_block(a + b) == spec_header_block(a) + spec_header_block(b),
    decreases a.len(),
{
    if a.len() == 0 {
        assert(a + b =~= b);
        assert(spec_header_block(a) + spec_header_block(b) =~= spec_header_block(b));
    } else {
        let t = a.subrange(1, a.len() as int);
        lemma_header_block_concat(t, b);
        assert((a + b).subrange(1, (a + b).len() as int) =~= t + b);
        assert((a + b)[0] == a[0]);
        assert(a[0].0 + seq![':', ' '] + a[0].1 + crlf() + (spec_header_block(t)
            + spec_header_block(b)) =~= (a[0].0 + seq![':', ' '] + a[0].1 + crlf()
            + spec_header_block(t)) + spec_header_block(b));
    }
}

/// Round trip: reading the first line of a serialized request head, as
/// the byte-oriented line reader on the other side of the wire would,
/// recovers the request line exactly — for every ASCII head whose request
/// line holds no newline and no surrounding whitespace.
pub proof fn lemma_head_round_trip(line: Seq<char>, hs: Seq<(Seq<char>, Seq<char>)>)
    requires
        is_ascii_chars(spec_request_head(line, hs)),
        forall|i: int| 0 <= i < line.len() ==> line[i] != '\n',
        trim_spec(line) == line,
    ensures
        spec_read_line(encode_utf8(spec_request_head(line, hs))).0 == line,
{
    let head = spec_request_head(line, hs);
    let bytes = encode_utf8(head);
    is_ascii_chars_encode_utf8(head);
    let ll = line.len() as int;
    assert(forall|i: int| 0 <= i < ll ==> head[i] == line[i]);
    assert(head[ll] == '\r');
    assert(head[ll + 1] == '\n');
    assert forall|i: int| 0 <= i < ll + 1 implies bytes[i] != 10 by {
        assert(head[i] as u8 == bytes[i]);
        assert('\0' <= head[i] <= '\u{7f}');
    }
    assert(bytes[ll + 1] == 10) by {
        assert(head[ll + 1] as u8 == bytes[ll + 1]);
    }
    lemma_nl_skip(bytes, ll + 1);
    assert(first_nl(bytes) == Some(ll + 1));
    let raw = bytes.subrange(0, ll + 1);
    assert(chars_of(raw) =~= line.push('\r')) by {
        assert forall|i: int| 0 <= i < ll + 1 implies ((raw[i] as u8) as char) == head[i] by {
            assert(head[i] as u8 == bytes[i]);
            assert('\0' <= head[i] <= '\u{7f}');
        }
    }
    lemma_trim_identity_endpoints(line);
    if ll == 0 {
        assert(line.push('\r').subrange(1, 1) =~= Seq::<char>::empty());
        assert(trim_start_spec(line.push('\r')) == trim_start_spec(Seq::<char>::empty()));
        assert(trim_spec(line.push('\r')) =~= line);
    } else {
        assert(line.push('\r')[0] == line[0]);
        assert(trim_start_spec(line.push('\r')) == line.push('\r'));
        assert(line.push('\r').last() == '\r');
        assert(line.push('\r').drop_last() =~= line);
        assert(trim_end_spec(line.push('\r')) == trim_end_spec(line));
        assert(trim_start_spec(line) == line);
        assert(trim_end_spec(line) == line);
    }
}

/// A request: a method, a parsed URI, per-call headers, and an optional
/// connect timeout in milliseconds.
#[derive(Debug, Clone)]
pub struct HttpRequest {
    pub method: HttpMethod,
    pub uri: Uri,
    pub headers: HttpHeaders,
    pub timeout: Option<u64>,
}

impl HttpRequest {
    /// A request for the given method and URI, starting from the default
    /// header set and no timeout.
    pub fn new(method: HttpMethod, uri: Uri) -> (r: HttpRequest)
        ensures
            r.method == method,
            r.uri == uri,
            r.headers.wf(),
            r.headers@ == spec_default_headers(),
            r.timeout is None,
    {
        HttpRequest { method, uri, headers: HttpHeaders::default(), timeout: None }
    }

    /// The request line for this request.
    pub fn get_request_line(&self) -> (r: String)
        ensures
            r@ == spec_request_line(self.method, self.uri),
    {
        let mut r = String::from_str(self.method.as_str());
        push_char(&mut r, ' ');
        push_char(&mut r, '/');
        let encoded = self.uri.get_encoded_path();
        r.append(encoded.as_str());
        push_char(&mut r, ' ');
        r.append(self.uri.protocol.get_http_version());
        proof {
            assert(spec_method_text(self.method).push(' ').push('/') + spec_encode(self.uri.path@)
                =~= spec_method_text(self.method) + seq![' ', '/'] + spec_encode(self.uri.path@));
            assert((spec_method_text(self.method) + seq![' ', '/'] + spec_encode(self.uri.path@))
                .push(' ') + spec_http_version(self.uri.protocol) =~= spec_request_line(
                self.method,
                self.uri,
            ));
        }
        r
    }
}

} // verus!
