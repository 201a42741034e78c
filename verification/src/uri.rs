//! URI parsing and address resolution: splitting `[scheme://]host[:port][/path]`
//! into its parts, computing the dial address, and the minimal percent
//! encoding of the path.

use vstd::prelude::*;

use crate::protocol::{spec_default_port, spec_protocol_of, Protocol};
use crate::text::{
    dec_of, is_digit_char, lemma_dec_of_value, push_char, spec_dec_value, u16_to_string,
};
use crate::utils::{
    lemma_find_first, lemma_find_none, lemma_spec_find_props, match_at, spec_find, tuple_split,
    tuple_split_parse,
};

verus! {

/// A parsed URI. The path never includes its leading slash; the slash is
/// added back at serialization time.
#[derive(Debug, PartialEq, Clone)]
pub struct Uri {
    pub protocol: Protocol,
    pub hostname: String,
    pub port: Option<u16>,
    pub path: String,
}

#[derive(Debug, PartialEq, Eq, Structural, Clone, Copy)]
pub enum UriError {
    Empty,
    InvalidProtocol,
    InvalidHostname,
    InvalidPort,
}

/// The URI grammar accepted: an optional case-sensitive `http`/`https`
/// scheme before the first `://`, then a host, an optional `:` and decimal
/// port, and everything after the first `/` as the path.
pub open spec fn spec_parse_uri(s: Seq<char>) -> Result<
    (Protocol, Seq<char>, Option<u16>, Seq<char>),
    UriError,
> {
    if s.len() == 0 {
        Err(UriError::Empty)
    } else {
        let (ptxt, rest) = match spec_find(s, "://"@) {
            Some(i) => (s.subrange(0, i), s.subrange(i + "://"@.len(), s.len() as int)),
            None => ("http"@, s),
        };
        match spec_protocol_of(ptxt) {
            Err(_) => Err(UriError::InvalidProtocol),
            Ok(proto) => {
                let (hostport, path) = match spec_find(rest, "/"@) {
                    Some(i) => (
                        rest.subrange(0, i),
                        rest.subrange(i + "/"@.len(), rest.len() as int),
                    ),
                    None => (rest, Seq::<char>::empty()),
                };
                match spec_find(hostport, ":"@) {
                    Some(j) => match spec_dec_value(
                        hostport.subrange(j + ":"@.len(), hostport.len() as int),
                    ) {
                        Some(v) => if v <= u16::MAX {
                            if j == 0 {
                                Err(UriError::InvalidHostname)
                            } else {
                                Ok((proto, hostport.subrange(0, j), Some(v as u16), path))
                            }
                        } else {
                            Err(UriError::InvalidPort)
                        },
                        None => Err(UriError::InvalidPort),
                    },
                    None => if hostport.len() == 0 {
                        Err(UriError::InvalidHostname)
                    } else {
                        Ok((proto, hostport, None, path))
                    },
                }
            },
        }
    }
}

/// The port a URI resolves to: the explicit one if given, else the
/// scheme's default.
pub open spec fn spec_effective_port(u: Uri) -> u16 {
    match u.port {
        Some(p) => p,
        None => spec_default_port(u.protocol),
    }
}

/// The dial address handed to the transport layer: `host:port`.
pub open spec fn spec_addr(u: Uri) -> Seq<char> {
    u.hostname@ + seq![':'] + dec_of(spec_effective_port(u) as int)
}

/// The minimal percent encoding of one path character: only `%` and the
/// space are escaped, everything else passes through.
pub open spec fn spec_encode_char(c: char) -> Seq<char> {
    if c == '%' {
        seq!['%', '2', '5']
    } else if c == ' ' {
        seq!['%', '2', '0']
    } else {
        seq![c]
    }
}

pub open spec fn spec_encode(s: Seq<char>) -> Seq<char>
    decreases s.len(),
{
    if s.len() == 0 {
        Seq::<char>::empty()
    } else {
        spec_encode_char(s[0]) + spec_encode(s.subrange(1, s.len() as int))
    }
}

/// Encoding distributes over concatenation.
pub proof fn lemma_encode_concat(a: Seq<char>, b: Seq<char>)
    ensures
        spec_encode(a + b) == spec_encode(a) + spec_encode(b),
    decreases a.len(),
{
    if a.len() == 0 {
        assert(a + b =~= b);
        assert(spec_encode(a) + spec_encode(b) =~= spec_encode(b));
    } else {
        let t = a.subrange(1, a.len() as int);
        lemma_encode_concat(t, b);
        assert((a + b).subrange(1, (a + b).len() as int) =~= t + b);
        assert((a + b)[0] == a[0]);
        assert(spec_encode_char(a[0]) + (spec_encode(t) + spec_encode(b)) =~= (spec_encode_char(
            a[0],
        ) + spec_encode(t)) + spec_encode(b));
    }
}

/// The scheme text written before `://`.
pub open spec fn spec_scheme_text(p: Protocol) -> Seq<char> {
    match p {
        Protocol::HTTP => "http"@,
        Protocol::HTTPS => "https"@,
    }
}

/// Every well-formed URI string `scheme://host[:port][/path]` parses to
/// exactly its parts, and the address it then resolves to is `host:port`,
/// with the explicit port if one was given and the scheme's default
/// otherwise.
#[verifier::rlimit(60)]
pub proof fn lemma_parse_resolves_addr(
    scheme: Protocol,
    host: Seq<char>,
    port: Option<u16>,
    path: Option<Seq<char>>,
)
    requires
        host.len() > 0,
        forall|i: int| 0 <= i < host.len() ==> host[i] != ':' && host[i] != '/',
    ensures
        ({
            let portsfx = match port {
                Some(p) => seq![':'] + dec_of(p as int),
                None => Seq::<char>::empty(),
            };
            let pathsfx = match path {
                Some(p) => seq!['/'] + p,
                None => Seq::<char>::empty(),
            };
            let text = spec_scheme_text(scheme) + "://"@ + host + portsfx + pathsfx;
            let parsed_path = match path {
                Some(p) => p,
                None => Seq::<char>::empty(),
            };
            let eport = match port {
                Some(p) => p,
                None => spec_default_port(scheme),
            };
            &&& spec_parse_uri(text) == Ok::<(Protocol, Seq<char>, Option<u16>, Seq<char>),
            UriError>((scheme, host, port, parsed_path))
            &&& forall|u: Uri|
                u.protocol == scheme && u.hostname@ == host && u.port == port
                    ==> #[trigger] spec_addr(u) == host + seq![':'] + dec_of(eport as int)
        }),
{
    reveal_strlit("http");
    reveal_strlit("https");
    reveal_strlit("://");
    reveal_strlit("/");
    reveal_strlit(":");
    let st = spec_scheme_text(scheme);
    let pat = "://"@;
    assert(pat =~= seq![':', '/', '/']);
    assert("/"@ =~= seq!['/']);
    assert(":"@ =~= seq![':']);
    match scheme {
        Protocol::HTTP => {
            assert(st =~= seq!['h', 't', 't', 'p']);
        },
        Protocol::HTTPS => {
            assert(st =~= seq!['h', 't', 't', 'p', 's']);
        },
    }
    assert(forall|k: int| 0 <= k < st.len() ==> #[trigger] st[k] != ':');
    let ls = st.len() as int;
    let portsfx = match port {
        Some(p) => seq![':'] + dec_of(p as int),
        None => Seq::<char>::empty(),
    };
    let pathsfx = match path {
        Some(p) => seq!['/'] + p,
        None => Seq::<char>::empty(),
    };
    let rest = host + portsfx + pathsfx;
    let text = st + "://"@ + host + portsfx + pathsfx;
    assert(text =~= st + pat + rest);
    match port {
        Some(p) => {
            lemma_dec_of_value(p as int);
            assert(portsfx[0] == ':');
            assert(forall|k: int|
                1 <= k < portsfx.len() ==> is_digit_char(#[trigger] portsfx[k])) by {
                assert(forall|k: int|
                    1 <= k < portsfx.len() ==> portsfx[k] == #[trigger] dec_of(p as int)[k - 1]);
            }
        },
        None => {},
    }
    // the first "://" stands right after the scheme
    assert(match_at(text, pat, ls)) by {
        assert(text.subrange(ls, ls + 3) =~= pat);
    }
    assert(forall|j: int| 0 <= j < ls ==> !match_at(text, pat, j)) by {
        assert forall|j: int| 0 <= j < ls implies !match_at(text, pat, j) by {
            if match_at(text, pat, j) {
                assert(text.subrange(j, j + 3)[0] == text[j]);
                assert(text[j] == st[j]);
            }
        }
    }
    lemma_find_first(text, pat, ls);
    assert(text.subrange(0, ls) =~= st);
    assert(text.subrange(ls + 3, text.len() as int) =~= rest);
    // the scheme text names the scheme
    assert(spec_protocol_of(st) == Ok::<Protocol, ()>(scheme));
    // the first slash of the remainder separates host and port from path
    let hp = host.len() + portsfx.len();
    let hostport = host + portsfx;
    assert(forall|k: int| 0 <= k < hp ==> #[trigger] hostport[k] != '/') by {
        assert(forall|k: int|
            0 <= k < host.len() ==> hostport[k] == #[trigger] host[k]);
        assert(forall|k: int|
            host.len() <= k < hp ==> hostport[k] == #[trigger] portsfx[k - host.len()]);
    }
    match path {
        Some(p) => {
            assert(rest[hp as int] == '/');
            assert(match_at(rest, "/"@, hp as int)) by {
                assert(rest.subrange(hp as int, hp as int + 1) =~= "/"@);
            }
            assert forall|j: int| 0 <= j < hp implies !match_at(rest, "/"@, j) by {
                if match_at(rest, "/"@, j) {
                    assert(rest.subrange(j, j + 1)[0] == rest[j]);
                    assert(rest[j] == hostport[j]);
                }
            }
            lemma_find_first(rest, "/"@, hp as int);
            assert(rest.subrange(0, hp as int) =~= hostport);
            assert(rest.subrange(hp as int + 1, rest.len() as int) =~= p);
        },
        None => {
            assert(rest =~= hostport);
            assert forall|j: int| 0 <= j implies !match_at(rest, "/"@, j) by {
                if match_at(rest, "/"@, j) {
                    assert(rest.subrange(j, j + 1)[0] == rest[j]);
                    assert(rest[j] == hostport[j]);
                }
            }
            lemma_find_none(rest, "/"@);
        },
    }
    // the first colon of the host-port part separates host from port
    match port {
        Some(p) => {
            assert(hostport[host.len() as int] == ':');
            assert(match_at(hostport, ":"@, host.len() as int)) by {
                assert(hostport.subrange(host.len() as int, host.len() as int + 1) =~= ":"@);
            }
            assert forall|j: int| 0 <= j < host.len() implies !match_at(hostport, ":"@, j) by {
                if match_at(hostport, ":"@, j) {
                    assert(hostport.subrange(j, j + 1)[0] == hostport[j]);
                    assert(hostport[j] == host[j]);
                }
            }
            lemma_find_first(hostport, ":"@, host.len() as int);
            assert(hostport.subrange(0, host.len() as int) =~= host);
            assert(hostport.subrange(host.len() as int + 1, hostport.len() as int) =~= dec_of(
                p as int,
            ));
        },
        None => {
            assert(hostport =~= host);
            assert forall|j: int| 0 <= j implies !match_at(hostport, ":"@, j) by {
                if match_at(hostport, ":"@, j) {
                    assert(hostport.subrange(j, j + 1)[0] == hostport[j]);
                }
            }
            lemma_find_none(hostport, ":"@);
        },
    }
}

impl Uri {
    /// Parses a URI string; the four error cases are exactly those of the
    /// grammar above.
    pub fn from_str(s: &str) -> (r: Result<Uri, UriError>)
        ensures
            match spec_parse_uri(s@) {
                Ok((proto, host, port, path)) => r is Ok && r.unwrap().protocol == proto
                    && r.unwrap().hostname@ == host && r.unwrap().port == port
                    && r.unwrap().path@ == path,
                Err(e) => r == Err::<Uri, UriError>(e),
            },
    {
        if s.is_empty() {
            return Err(UriError::Empty);
        }
        let (ptxt, rest): (&str, &str) = match tuple_split(s, "://") {
            Some((a, b)) => (a, b),
            None => ("http", s),
        };
        let protocol = match Protocol::from_str(ptxt) {
            Ok(p) => p,
            Err(_) => {
                return Err(UriError::InvalidProtocol);
            },
        };
        let (hostport, path): (&str, &str) = match tuple_split(rest, "/") {
            Some((a, b)) => (a, b),
            None => (rest, ""),
        };
        proof {
            reveal_strlit("");
            assert(""@ =~= Seq::<char>::empty());
        }
        let (hostname, port): (String, Option<u16>) = match tuple_split(hostport, ":") {
            Some(_) => match tuple_split_parse(hostport, ":") {
                Some((h, p)) => (h, Some(p)),
                None => {
                    return Err(UriError::InvalidPort);
                },
            },
            None => (hostport.to_owned(), None),
        };
        if hostname.as_str().is_empty() {
            proof {
                lemma_spec_find_props(hostport@, ":"@);
            }
            return Err(UriError::InvalidHostname);
        }
        Ok(
            Uri {
                protocol,
                hostname,
                port,
                path: path.to_owned(),
            },
        )
    }

    /// The `host:port` string handed to the transport layer to dial, with
    /// the scheme's default port filled in when none was given.
    pub fn get_addr(&self) -> (r: String)
        ensures
            r@ == spec_addr(*self),
    {
        let mut r = self.hostname.clone();
        push_char(&mut r, ':');
        let port = match self.port {
            Some(p) => p,
            None => self.protocol.get_default_port(),
        };
        let ps = u16_to_string(port);
        r.append(ps.as_str());
        proof {
            assert(self.hostname@.push(':') + dec_of(port as int) =~= self.hostname@ + seq![':']
                + dec_of(port as int));
        }
        r
    }

    /// The path with `%` written as `%25` and the space as `%20`; the `%`
    /// escape comes first so that no escape is escaped again.
    pub fn get_encoded_path(&self) -> (r: String)
        ensures
            r@ == spec_encode(self.path@),
    {
        let p = self.path.as_str();
        let n = p.unicode_len();
        let mut r = String::new();
        let mut i: usize = 0;
        proof {
            assert(p@.subrange(0, 0) =~= Seq::<char>::empty());
        }
        while i < n
            invariant
                0 <= i <= n,
                n == p@.len(),
                r@ == spec_encode(p@.subrange(0, i as int)),
            decreases n - i,
        {
            let c = p.get_char(i);
            if c == '%' {
                r.append("%25");
                proof {
                    reveal_strlit("%25");
                    assert("%25"@ =~= seq!['%', '2', '5']);
                }
            } else if c == ' ' {
                r.append("%20");
                proof {
                    reveal_strlit("%20");
                    assert("%20"@ =~= seq!['%', '2', '0']);
                }
            } else {
                push_char(&mut r, c);
                proof {
                    assert(spec_encode(p@.subrange(0, i as int)).push(c) =~= spec_encode(
                        p@.subrange(0, i as int),
                    ) + seq![c]);
                }
            }
            proof {
                lemma_encode_concat(p@.subrange(0, i as int), seq![p@[i as int]]);
                assert(p@.subrange(0, i + 1) =~= p@.subrange(0, i as int) + seq![p@[i as int]]);
                reveal_with_fuel(spec_encode, 2);
                assert(seq![p@[i as int]].subrange(1, 1) =~= Seq::<char>::empty());
                assert(spec_encode(seq![p@[i as int]]) =~= spec_encode_char(p@[i as int]));
            }
            i += 1;
        }
        proof {
            assert(p@.subrange(0, n as int) =~= p@);
        }
        r
    }
}

} // verus!
