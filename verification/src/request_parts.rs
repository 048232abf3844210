//! The parts of a request that outlive its body: method, scheme and headers.

use crate::headers::{first_value, list_view, names_match};
use vstd::prelude::*;
use vstd::utf8::{decode_utf8, encode_utf8, encode_utf8_decode_utf8, valid_utf8};

verus! {

/// The verbs under which a route or a remote function can be reached.
#[derive(Clone, Copy, Debug, PartialEq, Eq, Structural)]
pub enum Verb {
    Get,
    Post,
    Put,
    Delete,
    Patch,
    Head,
    Options,
    Connect,
    Trace,
}

/// The method of a request.
#[derive(Clone, Debug)]
pub enum RequestMethod {
    Get,
    Head,
    Post,
    Put,
    Delete,
    Connect,
    Options,
    Trace,
    Patch,
    Other(String),
}

/// The scheme of a request.
#[derive(Clone, Debug)]
pub enum Scheme {
    Http,
    Https,
    Other(String),
}

impl RequestMethod {
    /// The verb that this method stands for, if it is a standard one.
    pub open spec fn verb_spec(&self) -> Option<Verb> {
        match self {
            RequestMethod::Get => Some(Verb::Get),
            RequestMethod::Head => Some(Verb::Head),
            RequestMethod::Post => Some(Verb::Post),
            RequestMethod::Put => Some(Verb::Put),
            RequestMethod::Delete => Some(Verb::Delete),
            RequestMethod::Connect => Some(Verb::Connect),
            RequestMethod::Options => Some(Verb::Options),
            RequestMethod::Trace => Some(Verb::Trace),
            RequestMethod::Patch => Some(Verb::Patch),
            RequestMethod::Other(_) => None,
        }
    }

    /// The verb that this method stands for, if it is a standard one.
    pub fn verb(&self) -> (r: Option<Verb>)
        ensures
            r == self.verb_spec(),
    {
        match self {
            RequestMethod::Get => Some(Verb::Get),
            RequestMethod::Head => Some(Verb::Head),
            RequestMethod::Post => Some(Verb::Post),
            RequestMethod::Put => Some(Verb::Put),
            RequestMethod::Delete => Some(Verb::Delete),
            RequestMethod::Connect => Some(Verb::Connect),
            RequestMethod::Options => Some(Verb::Options),
            RequestMethod::Trace => Some(Verb::Trace),
            RequestMethod::Patch => Some(Verb::Patch),
            RequestMethod::Other(_) => None,
        }
    }
}

/// `std::str::from_utf8`: the text that the bytes encode, exactly when they
/// are valid UTF-8.
#[verifier::external_body]
pub(crate) fn utf8_text<'a>(bytes: &'a [u8]) -> (r: Option<&'a str>)
    ensures
        r is Some == valid_utf8(bytes@),
        r matches Some(s) ==> encode_utf8(s@) == bytes@,
{
    std::str::from_utf8(bytes).ok()
}

/// The name of the header that carries the absolute URL of a request.
pub open spec fn url_header_name() -> Seq<char> {
    "spin-full-url"@
}

/// The bytes of the absolute URL that a header list carries, where it
/// carries one that is valid UTF-8.
pub open spec fn url_bytes(headers: Seq<(Seq<char>, Seq<u8>)>) -> Option<Seq<u8>> {
    match first_value(headers, url_header_name()) {
        Some(v) => if valid_utf8(v) {
            Some(v)
        } else {
            None
        },
        None => None,
    }
}

/// The absolute URL that a header list carries: the text of the first
/// header named for it, where that text is valid UTF-8.
pub open spec fn url_text(headers: Seq<(Seq<char>, Seq<u8>)>) -> Option<Seq<char>> {
    match url_bytes(headers) {
        Some(v) => Some(decode_utf8(v)),
        None => None,
    }
}

/// A snapshot of a request, taken when it arrives.
#[derive(Clone, Debug)]
pub struct RequestParts {
    method: RequestMethod,
    scheme: Option<Scheme>,
    headers: Vec<(String, Vec<u8>)>,
}

impl RequestParts {
    /// The headers, as the contracts see them.
    pub closed spec fn header_seq(&self) -> Seq<(Seq<char>, Seq<u8>)> {
        list_view(self.headers@)
    }

    /// The method, as the contracts see it.
    pub closed spec fn method_spec(&self) -> RequestMethod {
        self.method
    }

    /// The scheme, as the contracts see it.
    pub closed spec fn scheme_spec(&self) -> Option<Scheme> {
        self.scheme
    }

    /// The snapshot with the given parts.
    pub fn new(method: RequestMethod, scheme: Option<Scheme>, headers: Vec<(String, Vec<u8>)>) -> (r:
        RequestParts)
        ensures
            r.method_spec() == method,
            r.scheme_spec() == scheme,
            r.header_seq() == list_view(headers@),
    {
        RequestParts { method, scheme, headers }
    }

    /// The headers of the request.
    pub fn headers(&self) -> (r: &Vec<(String, Vec<u8>)>)
        ensures
            list_view(r@) == self.header_seq(),
    {
        &self.headers
    }

    /// The method of the request.
    pub fn method(&self) -> (r: &RequestMethod)
        ensures
            *r == self.method_spec(),
    {
        &self.method
    }

    /// The scheme of the request.
    pub fn scheme(&self) -> (r: &Option<Scheme>)
        ensures
            *r == self.scheme_spec(),
    {
        &self.scheme
    }

    /// The absolute URL of the request: the text of the first header that
    /// is named for it, where that text is valid UTF-8, else nothing.
    pub fn url(&self) -> (r: Option<&str>)
        ensures
            match r {
                Some(s) => url_text(self.header_seq()) == Some(s@),
                None => url_text(self.header_seq()) is None,
            },
    {
        match find_first(&self.headers, "spin-full-url") {
            Some(i) => {
                let text = utf8_text(self.headers[i].1.as_slice());
                proof {
                    match text {
                        Some(s) => {
                            encode_utf8_decode_utf8(s@);
                        },
                        None => {},
                    }
                }
                text
            },
            None => None,
        }
    }
}

/// The place of the first entry named `name`.
pub fn find_first(list: &Vec<(String, Vec<u8>)>, name: &str) -> (r: Option<usize>)
    ensures
        match r {
            Some(i) => i < list@.len() && first_value(list_view(list@), name@) == Some(
                list@[i as int].1@,
            ),
            None => first_value(list_view(list@), name@) is None,
        },
{
    let n: usize = list.len();
    let mut i: usize = 0;
    proof {
        crate::headers::lemma_first_value_scan(list_view(list@), 0, name@);
    }
    while i < n
        invariant
            i <= n,
            n == list@.len(),
            first_value(list_view(list@).take(i as int), name@) is None,
        decreases n - i,
    {
        proof {
            crate::headers::lemma_first_value_scan(list_view(list@), i as int + 1, name@);
        }
        if names_match(list[i].0.as_str(), name) {
            return Some(i);
        }
        i = i + 1;
    }
    proof {
        assert(list_view(list@).take(n as int) =~= list_view(list@));
    }
    None
}

} // verus!
