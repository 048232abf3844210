//! The response metadata of one request: an optional status and the headers
//! that user code and the dispatcher set while the response is produced.

use crate::headers::{with_set, HeaderSeq, Headers};
use vstd::prelude::*;
use vstd::slice::slice_to_vec;
use vstd::utf8::encode_utf8;

verus! {

/// What a `ResponseOptions` holds.
pub struct ResponseOptionsView {
    pub status: Option<u16>,
    pub headers: HeaderSeq,
}

/// The status and headers that a request's handlers ask for.
#[derive(Debug)]
pub struct ResponseOptions {
    status: Option<u16>,
    headers: Headers,
}

impl View for ResponseOptions {
    type V = ResponseOptionsView;

    closed spec fn view(&self) -> ResponseOptionsView {
        ResponseOptionsView { status: self.status, headers: self.headers@ }
    }
}

/// The headers that a page response starts with: an HTML content type.
pub open spec fn page_default_headers() -> HeaderSeq {
    seq![("content-type"@, encode_utf8("text/html"@))]
}

impl Default for ResponseOptions {
    /// The options that a page render starts with: no status, and the
    /// content type of an HTML document.
    fn default() -> (r: ResponseOptions)
        ensures
            r@.status == None::<u16>,
            r@.headers == page_default_headers(),
    {
        let mut headers = Headers::new();
        headers.append("content-type", "text/html".as_bytes_vec());
        proof {
            assert(headers@ =~= page_default_headers());
        }
        ResponseOptions { status: None, headers }
    }
}

impl ResponseOptions {
    /// The options that a remote call starts with: no status and no headers.
    pub fn default_without_headers() -> (r: ResponseOptions)
        ensures
            r@.status == None::<u16>,
            r@.headers == Seq::<(Seq<char>, Seq<u8>)>::empty(),
    {
        ResponseOptions { status: None, headers: Headers::new() }
    }

    /// The options with the given status and headers.
    pub fn from_parts(status: Option<u16>, headers: Headers) -> (r: ResponseOptions)
        ensures
            r@.status == status,
            r@.headers == headers@,
    {
        ResponseOptions { status, headers }
    }

    /// A copy of the options.
    pub fn duplicate(&self) -> (r: ResponseOptions)
        ensures
            r@ == self@,
    {
        ResponseOptions { status: self.status, headers: self.headers.duplicate() }
    }

    /// The status, if one was set.
    pub fn status(&self) -> (r: Option<u16>)
        ensures
            r == self@.status,
    {
        self.status
    }

    /// Sets the status; the headers stay.
    pub fn set_status(&mut self, status: u16)
        ensures
            final(self)@.status == Some(status),
            final(self)@.headers == old(self)@.headers,
    {
        self.status = Some(status);
    }

    /// Tells whether a status was set.
    pub fn status_is_set(&self) -> (r: bool)
        ensures
            r == self@.status.is_some(),
    {
        self.status.is_some()
    }

    /// A copy of the headers.
    pub fn headers(&self) -> (r: Headers)
        ensures
            r@ == self@.headers,
    {
        self.headers.duplicate()
    }

    /// Tells whether a header named `name` was set.
    pub fn has_header(&self, name: &str) -> (r: bool)
        ensures
            r == crate::headers::has_name(self@.headers, name@),
    {
        self.headers.has(name)
    }

    /// Gives the header `name` the single value `value`.
    pub fn insert_header(&mut self, name: &str, value: Vec<u8>)
        ensures
            final(self)@.status == old(self)@.status,
            final(self)@.headers == with_set(old(self)@.headers, name@, value@),
    {
        self.headers.set(name, value);
    }

    /// Adds the value `value` for the header `name`, after all the entries.
    pub fn append_header(&mut self, name: &str, value: &[u8])
        ensures
            final(self)@.status == old(self)@.status,
            final(self)@.headers == old(self)@.headers.push((name@, value@)),
    {
        self.headers.append(name, slice_to_vec(value));
    }
}

} // verus!
