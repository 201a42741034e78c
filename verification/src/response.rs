//! The streaming response parser: status line, header block, then a body
//! framed by `Content-Length` when one is declared and parses, else by the
//! end of the stream.

use vstd::prelude::*;
use vstd::utf8::{decode_utf8, valid_utf8};

use crate::headers::HttpHeaders;
use crate::status_code::{is_known_code, spec_code_of, StatusCode};
use crate::stream_buffer::{lemma_read_line_consumed, spec_read_line, StreamBuffer};
use crate::text::{parse_u16, parse_usize, spec_dec_value, trim, trim_spec};
use crate::utils::{spec_find, spec_split, triple_split, tuple_split};

verus! {

#[derive(Debug, PartialEq, Eq, Structural, Clone, Copy)]
pub enum ResponseError {
    InvalidStatusLine,
    InvalidHeader,
    InvalidBody,
}

/// The status code named by a status line: three space-delimited parts,
/// the second a decimal number of the known code set. The version and
/// reason parts are not interpreted; a missing reason is accepted as long
/// as three parts exist.
pub open spec fn spec_parse_status_line(line: Seq<char>) -> Result<int, ResponseError> {
    match spec_split(line, " "@, 3) {
        Some(parts) => match spec_dec_value(parts[1]) {
            Some(v) => if v <= u16::MAX && is_known_code(v) {
                Ok(v)
            } else {
                Err(ResponseError::InvalidStatusLine)
            },
            None => Err(ResponseError::InvalidStatusLine),
        },
        None => Err(ResponseError::InvalidStatusLine),
    }
}

/// The header block read line by line from `pos`: an empty (post-trim)
/// line ends it; every other line must hold a colon and adds its trimmed
/// name and value, a later duplicate name replacing an earlier one.
/// Returns the headers and the position where the body starts.
pub open spec fn spec_parse_headers(
    data: Seq<u8>,
    pos: int,
    m: Map<Seq<char>, Seq<char>>,
) -> Result<(Map<Seq<char>, Seq<char>>, int), ResponseError>
    decreases data.len() - pos,
    when 0 <= pos <= data.len()
{
    let avail = data.subrange(pos, data.len() as int);
    let line = spec_read_line(avail).0;
    let p2 = pos + spec_read_line(avail).1;
    if line.len() == 0 {
        Ok((m, p2))
    } else {
        match spec_find(line, ":"@) {
            Some(j) => {
                proof {
                    lemma_read_line_consumed(avail);
                }
                spec_parse_headers(
                    data,
                    p2,
                    m.insert(
                        trim_spec(line.subrange(0, j)),
                        trim_spec(line.subrange(j + ":"@.len(), line.len() as int)),
                    ),
                )
            },
            None => Err(ResponseError::InvalidHeader),
        }
    }
}

/// The body bound taken from the headers: a `Content-Length` that parses
/// as an unsigned decimal number bounds the body to exactly that many
/// bytes; absent or unparsable, the body runs until the stream ends. The
/// header name is matched verbatim, as the header set stores it: a peer
/// writing `content-length` gets read-to-close framing.
pub open spec fn spec_content_limit(hmap: Map<Seq<char>, Seq<char>>) -> Option<int> {
    if hmap.contains_key("Content-Length"@) {
        match spec_dec_value(hmap["Content-Length"@]) {
            Some(v) => if v <= usize::MAX {
                Some(v)
            } else {
                None
            },
            None => None,
        }
    } else {
        None
    }
}

/// The whole head parse: the status code, the header mapping, the body
/// start position and the body bound.
pub open spec fn spec_parse_response(data: Seq<u8>) -> Result<
    (int, Map<Seq<char>, Seq<char>>, int, Option<int>),
    ResponseError,
> {
    let line0 = spec_read_line(data).0;
    let c0 = spec_read_line(data).1;
    match spec_parse_status_line(line0) {
        Err(e) => Err(e),
        Ok(code) => match spec_parse_headers(data, c0, Map::empty()) {
            Err(e) => Err(e),
            Ok((hmap, body_start)) => Ok((code, hmap, body_start, spec_content_limit(hmap))),
        },
    }
}

/// A parsed response head with the stream positioned at the body. The
/// body is a lazy, single-pass cursor: reading it drains the stream.
pub struct HttpResponse {
    pub status: StatusCode,
    pub headers: HttpHeaders,
    /// The stream positioned at the body; drained by the body accessors.
    pub buffer: StreamBuffer,
}

impl HttpResponse {
    pub closed spec fn spec_status(&self) -> StatusCode {
        self.status
    }

    pub closed spec fn spec_headers(&self) -> Map<Seq<char>, Seq<char>> {
        self.headers@
    }

    /// What the spec accessors denote: exactly the public `status` and
    /// `headers` fields a caller reads.
    pub proof fn lemma_fields(&self)
        ensures
            self.spec_status() == self.status,
            self.spec_headers() == self.headers@,
    {
    }

    /// The bytes still unread on the connection.
    pub closed spec fn spec_body_avail(&self) -> Seq<u8> {
        self.buffer.spec_data().subrange(
            self.buffer.spec_pos(),
            self.buffer.spec_data().len() as int,
        )
    }

    /// The declared body length, when one was accepted.
    pub closed spec fn spec_body_limit(&self) -> Option<int> {
        self.buffer.spec_limit()
    }

    pub closed spec fn wf(&self) -> bool {
        self.buffer.wf() && self.headers.wf()
    }

    /// Consumes the status line and header block from the delivered
    /// bytes and leaves the stream positioned at the body.
    pub fn build(data: Vec<u8>) -> (r: Result<HttpResponse, ResponseError>)
        ensures
            match spec_parse_response(data@) {
                Ok((code, hmap, body_start, limit)) => r is Ok && r.unwrap().wf() && spec_code_of(
                    r.unwrap().spec_status(),
                ) == code && r.unwrap().spec_headers() == hmap && r.unwrap().spec_body_avail()
                    == data@.subrange(body_start, data@.len() as int) && r.unwrap().spec_body_limit()
                    == limit,
                Err(e) => r == Err::<HttpResponse, ResponseError>(e),
            },
    {
        let ghost d = data@;
        let mut buffer = StreamBuffer::new(data);
        proof {
            assert(buffer.spec_avail() =~= d);
        }
        let status_line = buffer.read_line();
        let ghost c0 = spec_read_line(d).1;
        let status: StatusCode = match triple_split(status_line.as_str(), " ") {
            Some((_version, st, _reason)) => match parse_u16(st) {
                Some(n) => match StatusCode::try_from(n) {
                    Ok(c) => {
                        proof {
                            crate::text::lemma_dec_value_nonneg(st@);
                        }
                        c
                    },
                    Err(_) => {
                        return Err(ResponseError::InvalidStatusLine);
                    },
                },
                None => {
                    return Err(ResponseError::InvalidStatusLine);
                },
            },
            None => {
                return Err(ResponseError::InvalidStatusLine);
            },
        };
        let mut headers = HttpHeaders::new();
        proof {
            buffer.lemma_bounds();
            lemma_read_line_consumed(d);
        }
        loop
            invariant_except_break
                spec_parse_headers(d, buffer.spec_pos(), headers@) == spec_parse_headers(
                    d,
                    c0,
                    Map::<Seq<char>, Seq<char>>::empty(),
                ),
            invariant
                d == data@,
                buffer.wf(),
                buffer.spec_data() == d,
                buffer.spec_limit() is None,
                0 <= buffer.spec_pos() <= d.len(),
                0 <= c0 <= d.len(),
                headers.wf(),
                spec_parse_status_line(spec_read_line(d).0) == Ok::<int, ResponseError>(
                    spec_code_of(status),
                ),
                c0 == spec_read_line(d).1,
            ensures
                buffer.wf(),
                buffer.spec_data() == d,
                buffer.spec_limit() is None,
                0 <= buffer.spec_pos() <= d.len(),
                headers.wf(),
                spec_parse_status_line(spec_read_line(d).0) == Ok::<int, ResponseError>(
                    spec_code_of(status),
                ),
                c0 == spec_read_line(d).1,
                spec_parse_headers(d, c0, Map::<Seq<char>, Seq<char>>::empty()) == Ok::<
                    (Map<Seq<char>, Seq<char>>, int),
                    ResponseError,
                >((headers@, buffer.spec_pos())),
            decreases d.len() - buffer.spec_pos(),
        {
            let ghost pos = buffer.spec_pos();
            let ghost avail = buffer.spec_avail();
            let ghost m0 = headers@;
            proof {
                assert(avail =~= d.subrange(pos, d.len() as int));
                lemma_read_line_consumed(avail);
            }
            let line = buffer.read_line();
            if line.as_str().is_empty() {
                proof {
                    assert(spec_parse_headers(d, pos, m0) == Ok::<
                        (Map<Seq<char>, Seq<char>>, int),
                        ResponseError,
                    >((m0, pos + spec_read_line(avail).1)));
                }
                break ;
            }
            match tuple_split(line.as_str(), ":") {
                Some((key, value)) => {
                    let key = trim(key);
                    let value = trim(value);
                    headers.insert(key.to_owned(), value.to_owned());
                    proof {
                        let j = spec_find(line@, ":"@).unwrap();
                        assert(spec_parse_headers(d, pos, m0) == spec_parse_headers(
                            d,
                            pos + spec_read_line(avail).1,
                            m0.insert(
                                trim_spec(line@.subrange(0, j)),
                                trim_spec(line@.subrange(j + ":"@.len(), line@.len() as int)),
                            ),
                        ));
                    }
                },
                None => {
                    proof {
                        assert(spec_parse_headers(d, pos, m0) == Err::<
                            (Map<Seq<char>, Seq<char>>, int),
                            ResponseError,
                        >(ResponseError::InvalidHeader));
                    }
                    return Err(ResponseError::InvalidHeader);
                },
            }
        }
        let limit: Option<usize> = match headers.get("Content-Length") {
            Some(cl) => {
                proof {
                    crate::text::lemma_dec_value_nonneg(cl@);
                }
                parse_usize(cl.as_str())
            },
            None => None,
        };
        match limit {
            Some(l) => buffer.set_total_bytes(l),
            None => {},
        }
        Ok(HttpResponse { status, headers, buffer })
    }

    /// The body as raw bytes: exactly the declared count when one was
    /// given (failing if the transport closed early), else everything
    /// until the stream ends. A single-consumption operation: whatever
    /// the outcome, the cursor is exhausted afterwards, and the response
    /// holds no further body data.
    pub fn body(&mut self) -> (r: Result<Vec<u8>, ResponseError>)
        requires
            old(self).wf(),
        ensures
            final(self).wf(),
            final(self).spec_status() == old(self).spec_status(),
            final(self).spec_headers() == old(self).spec_headers(),
            final(self).spec_body_limit() == old(self).spec_body_limit(),
            final(self).spec_body_avail().len() == 0,
            match old(self).spec_body_limit() {
                Some(l) => if l <= old(self).spec_body_avail().len() {
                    r is Ok && r.unwrap()@ == old(self).spec_body_avail().subrange(0, l)
                } else {
                    r == Err::<Vec<u8>, ResponseError>(ResponseError::InvalidBody)
                },
                None => r is Ok && r.unwrap()@ == old(self).spec_body_avail(),
            },
    {
        let ghost avail0 = self.spec_body_avail();
        proof {
            self.buffer.lemma_bounds();
        }
        let r = self.buffer.read_all();
        proof {
            old(self).buffer.lemma_bounds();
            let data = old(self).buffer.spec_data();
            let pos = old(self).buffer.spec_pos();
            assert(self.spec_body_avail().len() == 0);
            match old(self).buffer.spec_limit() {
                Some(l) => {
                    if pos + l <= data.len() {
                        assert(data.subrange(pos, pos + l) =~= avail0.subrange(0, l));
                    }
                },
                None => {
                    assert(data.subrange(pos, data.len() as int) =~= avail0);
                },
            }
        }
        match r {
            Some(b) => Ok(b),
            None => Err(ResponseError::InvalidBody),
        }
    }

    /// The body decoded as UTF-8 text; framed exactly as [`Self::body`],
    /// with an invalid byte sequence a failure of its own, and the cursor
    /// likewise exhausted whatever the outcome.
    pub fn body_as_string(&mut self) -> (r: Result<String, ResponseError>)
        requires
            old(self).wf(),
        ensures
            final(self).wf(),
            final(self).spec_status() == old(self).spec_status(),
            final(self).spec_headers() == old(self).spec_headers(),
            final(self).spec_body_limit() == old(self).spec_body_limit(),
            final(self).spec_body_avail().len() == 0,
            match old(self).spec_body_limit() {
                Some(l) => if l <= old(self).spec_body_avail().len() {
                    {
                        let body = old(self).spec_body_avail().subrange(0, l);
                        &&& (r is Ok <==> valid_utf8(body))
                        &&& (r is Ok ==> r.unwrap()@ == decode_utf8(body))
                        &&& (r is Err ==> r == Err::<String, ResponseError>(
                            ResponseError::InvalidBody,
                        ))
                    }
                } else {
                    r == Err::<String, ResponseError>(ResponseError::InvalidBody)
                },
                None => {
                    let body = old(self).spec_body_avail();
                    &&& (r is Ok <==> valid_utf8(body))
                    &&& (r is Ok ==> r.unwrap()@ == decode_utf8(body))
                    &&& (r is Err ==> r == Err::<String, ResponseError>(ResponseError::InvalidBody))
                },
            },
    {
        let ghost avail0 = self.spec_body_avail();
        proof {
            self.buffer.lemma_bounds();
        }
        let r = self.buffer.read_all_string();
        proof {
            old(self).buffer.lemma_bounds();
            let data = old(self).buffer.spec_data();
            let pos = old(self).buffer.spec_pos();
            assert(self.spec_body_avail().len() == 0);
            match old(self).buffer.spec_limit() {
                Some(l) => {
                    if pos + l <= data.len() {
                        assert(data.subrange(pos, pos + l) =~= avail0.subrange(0, l));
                    }
                },
                None => {
                    assert(data.subrange(pos, data.len() as int) =~= avail0);
                },
            }
        }
        match r {
            Some(s) => Ok(s),
            None => Err(ResponseError::InvalidBody),
        }
    }
}

} // verus!
