//! The two wire protocols a URI can name, with their default ports and
//! declared version labels.

use vstd::prelude::*;

use crate::utils::str_eq;

verus! {

#[derive(Debug, PartialEq, Eq, Structural, Clone, Copy)]
pub enum Protocol {
    HTTP,
    HTTPS,
}

/// The protocol named by a scheme string: exactly `"http"` or `"https"`,
/// case-sensitively.
pub open spec fn spec_protocol_of(s: Seq<char>) -> Result<Protocol, ()> {
    if s == "http"@ {
        Ok(Protocol::HTTP)
    } else if s == "https"@ {
        Ok(Protocol::HTTPS)
    } else {
        Err(())
    }
}

pub open spec fn spec_default_port(p: Protocol) -> u16 {
    match p {
        Protocol::HTTP => 80,
        Protocol::HTTPS => 443,
    }
}

/// The version label written into the request line for each protocol. The
/// label is declarative only: the bytes sent on the wire are HTTP/1.1
/// style in both cases.
pub open spec fn spec_http_version(p: Protocol) -> Seq<char> {
    match p {
        Protocol::HTTP => "HTTP/1.1"@,
        Protocol::HTTPS => "HTTP/2"@,
    }
}

impl Protocol {
    pub fn from_str(s: &str) -> (r: Result<Protocol, ()>)
        ensures
            r == spec_protocol_of(s@),
    {
        if str_eq(s, "http") {
            Ok(Protocol::HTTP)
        } else if str_eq(s, "https") {
            Ok(Protocol::HTTPS)
        } else {
            Err(())
        }
    }

    pub fn get_default_port(&self) -> (r: u16)
        ensures
            r == spec_default_port(*self),
    {
        match self {
            Protocol::HTTP => 80,
            Protocol::HTTPS => 443,
        }
    }

    pub fn get_http_version(&self) -> (r: &'static str)
        ensures
            r@ == spec_http_version(*self),
    {
        match self {
            Protocol::HTTP => "HTTP/1.1",
            Protocol::HTTPS => "HTTP/2",
        }
    }
}

} // verus!
