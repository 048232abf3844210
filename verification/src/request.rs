//! The request of a remote call, as the function's argument decoders see it.

use crate::headers::{first_value, list_view};
use crate::request_parts::{find_first, utf8_text};
use crate::text::{after_first, lemma_split_at_first, split_once_at};
use vstd::prelude::*;
use vstd::utf8::{decode_utf8, encode_utf8_decode_utf8, valid_utf8};

verus! {

/// The text that bytes are read as where they need not be valid UTF-8.
pub uninterp spec fn lossy_text(bytes: Seq<u8>) -> Seq<char>;

/// `String::from_utf8_lossy`: the text that the bytes are read as; for
/// bytes that are valid UTF-8 it is the text that they encode.
#[verifier::external_body]
pub(crate) fn utf8_lossy(bytes: &[u8]) -> (r: String)
    ensures
        r@ == lossy_text(bytes@),
        valid_utf8(bytes@) ==> r@ == decode_utf8(bytes@),
{
    String::from_utf8_lossy(bytes).into_owned()
}

/// The query of a path with query: what follows its first `?`.
pub open spec fn query_of(path_with_query: Option<Seq<char>>) -> Option<Seq<char>> {
    match path_with_query {
        Some(text) => after_first(text, '?'),
        None => None,
    }
}

/// The text of the first value of a header, if the header is there.
pub open spec fn header_text(headers: Seq<(Seq<char>, Seq<u8>)>, name: Seq<char>) -> Option<
    Seq<char>,
> {
    match first_value(headers, name) {
        Some(v) => Some(lossy_text(v)),
        None => None,
    }
}

/// Why the body of a request cannot be decoded.
#[derive(Clone, Copy, Debug, PartialEq, Eq, Structural)]
pub enum BodyError {
    /// The body is no valid UTF-8.
    NotUtf8,
}

/// The request of a remote call.
#[derive(Debug)]
pub struct SpinRequest {
    pub headers: Vec<(String, Vec<u8>)>,
    pub path_with_query: Option<String>,
}

impl SpinRequest {
    /// The request with the given path and headers.
    pub fn new(path_with_query: Option<String>, headers: Vec<(String, Vec<u8>)>) -> (r: SpinRequest)
        ensures
            r.path_with_query == path_with_query,
            r.headers == headers,
    {
        SpinRequest { headers, path_with_query }
    }

    /// The query of the request.
    pub fn as_query(&self) -> (r: Option<&str>)
        ensures
            match r {
                Some(q) => query_of(crate::url_parts::view_text(self.path_with_query)) == Some(q@),
                None => query_of(crate::url_parts::view_text(self.path_with_query)) is None,
            },
    {
        match &self.path_with_query {
            Some(text) => {
                let parts = split_once_at(text.as_str(), '?');
                match parts {
                    Some((before, after)) => {
                        proof {
                            lemma_split_at_first(text@, '?', before@, after@);
                        }
                        Some(after)
                    },
                    None => {
                        proof {
                            lemma_split_at_first(text@, '?', Seq::empty(), Seq::empty());
                        }
                        None
                    },
                }
            },
            None => None,
        }
    }

    fn text_of(&self, name: &str) -> (r: Option<String>)
        ensures
            crate::url_parts::view_text(r) == header_text(list_view(self.headers@), name@),
    {
        match find_first(&self.headers, name) {
            Some(i) => Some(utf8_lossy(self.headers[i].1.as_slice())),
            None => None,
        }
    }

    /// The content type of the request.
    pub fn to_content_type(&self) -> (r: Option<String>)
        ensures
            crate::url_parts::view_text(r) == header_text(
                list_view(self.headers@),
                "Content-Type"@,
            ),
    {
        self.text_of("Content-Type")
    }

    /// The type that the request asks for.
    pub fn accepts(&self) -> (r: Option<String>)
        ensures
            crate::url_parts::view_text(r) == header_text(list_view(self.headers@), "Accept"@),
    {
        self.text_of("Accept")
    }

    /// The page from which the request was sent.
    pub fn referer(&self) -> (r: Option<String>)
        ensures
            crate::url_parts::view_text(r) == header_text(list_view(self.headers@), "Referer"@),
    {
        self.text_of("Referer")
    }
}

/// Reads the body of a request as text: it is the text that the bytes
/// encode, and an error exactly where they are no valid UTF-8.
pub fn try_into_string(body: &[u8]) -> (r: Result<String, BodyError>)
    ensures
        match r {
            Ok(text) => valid_utf8(body@) && text@ == decode_utf8(body@),
            Err(e) => !valid_utf8(body@) && e == BodyError::NotUtf8,
        },
{
    match utf8_text(body) {
        Some(text) => {
            proof {
                encode_utf8_decode_utf8(text@);
            }
            Ok(text.to_owned())
        },
        None => Err(BodyError::NotUtf8),
    }
}

} // verus!
