//! A cursor over the bytes a transport connection delivered before it
//! closed: line-by-line reads for the response head, and a bulk read for
//! the body, bounded by a known length when one was declared.

use vstd::prelude::*;
use vstd::utf8::{decode_utf8, valid_utf8};

use crate::text::{trim, trim_spec};

verus! {

/// Each byte read as one character, as a byte-at-a-time line reader sees
/// the stream.
pub open spec fn chars_of(bs: Seq<u8>) -> Seq<char> {
    bs.map_values(|b: u8| b as char)
}

pub open spec fn nl_from(bs: Seq<u8>, from: int) -> Option<int>
    decreases bs.len() - from,
{
    if from < 0 || from >= bs.len() {
        None
    } else if bs[from] == 10 {
        Some(from)
    } else {
        nl_from(bs, from + 1)
    }
}

/// The position of the first newline byte, if any.
pub open spec fn first_nl(bs: Seq<u8>) -> Option<int> {
    nl_from(bs, 0)
}

pub proof fn lemma_nl_skip(bs: Seq<u8>, k: int)
    requires
        0 <= k,
        forall|j: int| 0 <= j < k ==> bs[j] != 10,
    ensures
        first_nl(bs) == nl_from(bs, k),
    decreases k,
{
    if k > 0 {
        lemma_nl_skip(bs, k - 1);
    }
}

/// What one line read returns and consumes: the characters before the
/// first newline (or all of them at end of stream), trimmed; the newline
/// itself is consumed but not returned.
pub open spec fn spec_read_line(avail: Seq<u8>) -> (Seq<char>, int) {
    match first_nl(avail) {
        Some(i) => (trim_spec(chars_of(avail.subrange(0, i))), i + 1),
        None => (trim_spec(chars_of(avail)), avail.len() as int),
    }
}

/// A line read consumes something whenever anything is available, and
/// never more than is available.
pub proof fn lemma_read_line_consumed(avail: Seq<u8>)
    ensures
        0 <= spec_read_line(avail).1 <= avail.len(),
        avail.len() > 0 ==> spec_read_line(avail).1 >= 1,
        spec_read_line(avail).0.len() <= avail.len(),
{
    lemma_nl_props(avail, 0);
    match first_nl(avail) {
        Some(i) => {
            crate::text::lemma_trim_len(chars_of(avail.subrange(0, i)));
        },
        None => {
            crate::text::lemma_trim_len(chars_of(avail));
        },
    }
}

proof fn lemma_nl_props(bs: Seq<u8>, from: int)
    requires
        0 <= from,
    ensures
        match nl_from(bs, from) {
            Some(i) => from <= i < bs.len() && bs[i] == 10,
            None => true,
        },
    decreases bs.len() - from,
{
    if from < bs.len() && bs[from] != 10 {
        lemma_nl_props(bs, from + 1);
    }
}

/// The delivered bytes with a read position and an optional cap on how
/// many bytes, counted from the start of the stream, byte-at-a-time reads
/// may consume.
pub struct StreamBuffer {
    data: Vec<u8>,
    bytes_read: usize,
    total_bytes: Option<usize>,
}

impl StreamBuffer {
    pub closed spec fn spec_data(&self) -> Seq<u8> {
        self.data@
    }

    pub closed spec fn spec_pos(&self) -> int {
        self.bytes_read as int
    }

    pub closed spec fn spec_limit(&self) -> Option<int> {
        match self.total_bytes {
            Some(l) => Some(l as int),
            None => None,
        }
    }

    pub closed spec fn wf(&self) -> bool {
        self.bytes_read <= self.data@.len()
    }

    /// Where byte-at-a-time reads stop: the end of the data, or the cap
    /// if one is set and comes earlier.
    pub open spec fn spec_end(&self) -> int {
        let cap = match self.spec_limit() {
            Some(l) => if l < self.spec_data().len() as int {
                l
            } else {
                self.spec_data().len() as int
            },
            None => self.spec_data().len() as int,
        };
        if cap < self.spec_pos() {
            self.spec_pos()
        } else {
            cap
        }
    }

    /// The bytes a line read may still consume.
    pub open spec fn spec_avail(&self) -> Seq<u8> {
        self.spec_data().subrange(self.spec_pos(), self.spec_end())
    }

    /// The bounds the closed state always satisfies, for callers outside
    /// this module.
    pub proof fn lemma_bounds(&self)
        ensures
            self.spec_pos() >= 0,
            self.wf() ==> self.spec_pos() <= self.spec_data().len(),
            match self.spec_limit() {
                Some(l) => l >= 0,
                None => true,
            },
    {
    }

    /// A buffer over the bytes the connection delivered, positioned at
    /// the start and with no length bound yet.
    pub fn new(data: Vec<u8>) -> (r: StreamBuffer)
        ensures
            r.wf(),
            r.spec_data() == data@,
            r.spec_pos() == 0,
            r.spec_limit() is None,
    {
        StreamBuffer { data, bytes_read: 0, total_bytes: None }
    }

    /// Declares how many bytes the stream is expected to hold in all; a
    /// bulk read afterwards reads exactly that many from the current
    /// position.
    pub fn set_total_bytes(&mut self, total_bytes: usize)
        ensures
            final(self).spec_data() == old(self).spec_data(),
            final(self).spec_pos() == old(self).spec_pos(),
            final(self).spec_limit() == Some(total_bytes as int),
            old(self).wf() ==> final(self).wf(),
    {
        self.total_bytes = Some(total_bytes);
    }

    /// Reads one line: bytes up to and including the first newline, or
    /// everything left when no newline follows; the returned text has the
    /// newline and surrounding whitespace removed. Reaching the end of
    /// the stream is not an error here: the caller decides whether an
    /// empty result is acceptable in its state.
    pub fn read_line(&mut self) -> (r: String)
        requires
            old(self).wf(),
        ensures
            final(self).wf(),
            final(self).spec_data() == old(self).spec_data(),
            final(self).spec_limit() == old(self).spec_limit(),
            r@ == spec_read_line(old(self).spec_avail()).0,
            final(self).spec_pos() == old(self).spec_pos() + spec_read_line(
                old(self).spec_avail(),
            ).1,
    {
        let ghost avail = self.spec_avail();
        let ghost start = self.spec_pos();
        let end: usize = match self.total_bytes {
            Some(l) => if l < self.data.len() {
                if l < self.bytes_read {
                    self.bytes_read
                } else {
                    l
                }
            } else {
                self.data.len()
            },
            None => self.data.len(),
        };
        let mut buf = String::new();
        let mut found = false;
        proof {
            assert(avail.subrange(0, 0) =~= Seq::<u8>::empty());
            assert(chars_of(Seq::<u8>::empty()) =~= Seq::<char>::empty());
        }
        while !found && self.bytes_read < end
            invariant
                start <= self.bytes_read as int <= end as int,
                end as int == self.spec_end(),
                self.spec_data() == old(self).spec_data(),
                self.spec_limit() == old(self).spec_limit(),
                self.wf(),
                start == old(self).spec_pos(),
                avail == old(self).spec_avail(),
                avail == self.spec_data().subrange(start, end as int),
                !found ==> forall|j: int|
                    0 <= j < self.spec_pos() - start ==> avail[j] != 10,
                !found ==> buf@ == chars_of(avail.subrange(0, self.spec_pos() - start)),
                found ==> {
                    &&& self.spec_pos() - start >= 1
                    &&& avail[self.spec_pos() - start - 1] == 10
                    &&& forall|j: int| 0 <= j < self.spec_pos() - start - 1 ==> avail[j] != 10
                    &&& buf@ == chars_of(avail.subrange(0, self.spec_pos() - start - 1))
                },
            decreases end as int - self.spec_pos() + (if found {
                0int
            } else {
                1int
            }),
        {
            let b = self.data[self.bytes_read];
            self.bytes_read += 1;
            proof {
                assert(avail[self.spec_pos() - start - 1] == b);
            }
            if b == 10 {
                found = true;
            } else {
                crate::text::push_char(&mut buf, b as char);
                proof {
                    assert(chars_of(avail.subrange(0, self.spec_pos() - start - 1)).push(
                        b as char,
                    ) =~= chars_of(avail.subrange(0, self.spec_pos() - start)));
                }
            }
        }
        let r = trim(buf.as_str()).to_owned();
        proof {
            let consumed = self.spec_pos() - start;
            if found {
                lemma_nl_skip(avail, consumed - 1);
                assert(first_nl(avail) == Some(consumed - 1));
            } else {
                assert(self.spec_pos() == end as int);
                assert(consumed == avail.len());
                lemma_nl_skip(avail, consumed);
                assert(first_nl(avail) is None);
                assert(avail.subrange(0, consumed) =~= avail);
            }
        }
        r
    }

    /// Reads the body bytes, a single-consumption operation: whatever the
    /// outcome, the stream is drained and holds no further data. With a
    /// declared total, exactly that many bytes must still be there and
    /// are returned: fewer is a failure (the transport closed early).
    /// With no declared total, everything left until the end of the
    /// stream is the body.
    pub fn read_all(&mut self) -> (r: Option<Vec<u8>>)
        requires
            old(self).wf(),
        ensures
            final(self).wf(),
            final(self).spec_data() == old(self).spec_data(),
            final(self).spec_limit() == old(self).spec_limit(),
            final(self).spec_pos() == old(self).spec_data().len(),
            match old(self).spec_limit() {
                Some(l) => if old(self).spec_pos() + l <= old(self).spec_data().len() {
                    r is Some && r.unwrap()@ == old(self).spec_data().subrange(
                        old(self).spec_pos(),
                        old(self).spec_pos() + l,
                    )
                } else {
                    r is None
                },
                None => r is Some && r.unwrap()@ == old(self).spec_data().subrange(
                    old(self).spec_pos(),
                    old(self).spec_data().len() as int,
                ),
            },
    {
        let count: usize = match self.total_bytes {
            Some(l) => {
                if l > self.data.len() - self.bytes_read {
                    self.bytes_read = self.data.len();
                    return None;
                }
                l
            },
            None => self.data.len() - self.bytes_read,
        };
        let ghost start = self.spec_pos();
        let n = self.data.len();
        let mut out: Vec<u8> = Vec::new();
        let mut k: usize = 0;
        proof {
            assert(out@ =~= self.spec_data().subrange(start, start));
        }
        while k < count
            invariant
                0 <= k <= count,
                n == self.spec_data().len(),
                start + count <= n,
                self.spec_data() == old(self).spec_data(),
                self.spec_limit() == old(self).spec_limit(),
                start == self.spec_pos(),
                start == old(self).spec_pos(),
                self.wf(),
                out@ == self.spec_data().subrange(start, start + k),
            decreases count - k,
        {
            out.push(self.data[self.bytes_read + k]);
            proof {
                assert(self.spec_data().subrange(start, start + k).push(
                    self.spec_data()[start + k],
                ) =~= self.spec_data().subrange(start, start + k + 1));
            }
            k += 1;
        }
        self.bytes_read = self.data.len();
        Some(out)
    }

    /// Reads the body bytes and decodes them as UTF-8; an invalid byte
    /// sequence is a failure, as a short bounded read is. As with
    /// [`Self::read_all`], the stream is drained whatever the outcome.
    pub fn read_all_string(&mut self) -> (r: Option<String>)
        requires
            old(self).wf(),
        ensures
            final(self).wf(),
            final(self).spec_data() == old(self).spec_data(),
            final(self).spec_limit() == old(self).spec_limit(),
            final(self).spec_pos() == old(self).spec_data().len(),
            match old(self).spec_limit() {
                Some(l) => if old(self).spec_pos() + l <= old(self).spec_data().len() {
                    {
                        let body = old(self).spec_data().subrange(
                            old(self).spec_pos(),
                            old(self).spec_pos() + l,
                        );
                        (r is Some <==> valid_utf8(body)) && (r is Some ==> r.unwrap()@
                            == decode_utf8(body))
                    }
                } else {
                    r is None
                },
                None => {
                    let body = old(self).spec_data().subrange(
                        old(self).spec_pos(),
                        old(self).spec_data().len() as int,
                    );
                    (r is Some <==> valid_utf8(body)) && (r is Some ==> r.unwrap()@ == decode_utf8(
                        body,
                    ))
                },
            },
    {
        match self.read_all() {
            Some(bytes) => bytes_to_string(bytes),
            None => None,
        }
    }
}

/// Relies on `String::from_utf8`: it succeeds exactly on valid UTF-8 and
/// then returns the string those bytes encode.
#[verifier::external_body]
fn bytes_to_string(v: Vec<u8>) -> (r: Option<String>)
    ensures
        r is Some <==> valid_utf8(v@),
        r is Some ==> r.unwrap()@ == decode_utf8(v@),
{
    String::from_utf8(v).ok()
}

} // verus!
